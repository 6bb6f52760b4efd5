//! Permission levels and a level paired with specific permissions.

use vstd::prelude::*;

use super::specific::{
    seq_extend, spec_all_specifics, spec_name, SpecificPermission, SpecificSet,
};

verus! {

/// How much a user may do with a resource, from nothing to full write.
#[derive(Clone, Copy, Debug, PartialEq, Eq, Structural, Hash)]
pub enum PermissionLevel {
    /// No access.
    NoAccess,
    /// Read access.
    Read,
    /// Read and execute access.
    Execute,
    /// Read, execute and write access.
    Write,
}

/// The position of a level in the order None < Read < Execute < Write.
pub open spec fn spec_rank(l: PermissionLevel) -> nat {
    match l {
        PermissionLevel::NoAccess => 0,
        PermissionLevel::Read => 1,
        PermissionLevel::Execute => 2,
        PermissionLevel::Write => 3,
    }
}

/// The greater of two levels.
pub open spec fn spec_max_level(a: PermissionLevel, b: PermissionLevel) -> PermissionLevel {
    if spec_rank(b) > spec_rank(a) {
        b
    } else {
        a
    }
}

/// A level together with specific permissions, as plain values.
pub struct PermissionView {
    pub level: PermissionLevel,
    pub specific: Seq<SpecificPermission>,
}

/// `a` raised by `b`: the greater level, and `b`'s specifics added to `a`'s.
pub open spec fn spec_elevate(a: PermissionView, b: PermissionView) -> PermissionView {
    PermissionView {
        level: spec_max_level(a.level, b.level),
        specific: seq_extend(a.specific, b.specific),
    }
}

/// Every specific permission in `required` is held in `held`.
pub open spec fn spec_holds_all(held: Seq<SpecificPermission>, required: Seq<SpecificPermission>) -> bool {
    forall|i: int| 0 <= i < required.len() ==> held.contains(#[trigger] required[i])
}

/// `held` meets `required`: its level is at least as high, and it holds
/// every specific permission that `required` asks for.
pub open spec fn spec_fulfills(held: PermissionView, required: PermissionView) -> bool {
    &&& spec_rank(held.level) >= spec_rank(required.level)
    &&& spec_holds_all(held.specific, required.specific)
}

impl PermissionLevel {
    /// The rank of the level: None 0, Read 1, Execute 2, Write 3.
    pub fn rank(self) -> (r: u8)
        ensures
            r == spec_rank(self),
    {
        match self {
            PermissionLevel::NoAccess => 0,
            PermissionLevel::Read => 1,
            PermissionLevel::Execute => 2,
            PermissionLevel::Write => 3,
        }
    }

    /// The name of the level as shown in errors.
    pub fn as_str(self) -> (s: &'static str)
        ensures
            s@ == spec_level_name(self),
    {
        match self {
            PermissionLevel::NoAccess => "None",
            PermissionLevel::Read => "Read",
            PermissionLevel::Execute => "Execute",
            PermissionLevel::Write => "Write",
        }
    }

    /// This level with no specific permissions.
    pub fn into_specifics(self) -> (res: PermissionLevelAndSpecifics)
        ensures
            res.level == self,
            res.specific@ == Seq::<SpecificPermission>::empty(),
    {
        PermissionLevelAndSpecifics { level: self, specific: SpecificSet::new() }
    }

    /// This level with the given specific permissions.
    pub fn specific(self, specific: SpecificSet) -> (res: PermissionLevelAndSpecifics)
        ensures
            res.level == self,
            res.specific@ == specific@,
    {
        PermissionLevelAndSpecifics { level: self, specific }
    }

    /// This level with every specific permission.
    pub fn all(self) -> (res: PermissionLevelAndSpecifics)
        ensures
            res.level == self,
            res.specific@ == spec_all_specifics(),
    {
        PermissionLevelAndSpecifics { level: self, specific: SpecificSet::all() }
    }

    /// This level with the terminal permission.
    pub fn terminal(self) -> (res: PermissionLevelAndSpecifics)
        ensures
            res.level == self,
            res.specific@ == seq![SpecificPermission::Terminal],
    {
        self.specific(SpecificSet::single(SpecificPermission::Terminal))
    }

    /// This level with the attach permission.
    pub fn attach(self) -> (res: PermissionLevelAndSpecifics)
        ensures
            res.level == self,
            res.specific@ == seq![SpecificPermission::Attach],
    {
        self.specific(SpecificSet::single(SpecificPermission::Attach))
    }

    /// This level with the inspect permission.
    pub fn inspect(self) -> (res: PermissionLevelAndSpecifics)
        ensures
            res.level == self,
            res.specific@ == seq![SpecificPermission::Inspect],
    {
        self.specific(SpecificSet::single(SpecificPermission::Inspect))
    }

    /// This level with the logs permission.
    pub fn logs(self) -> (res: PermissionLevelAndSpecifics)
        ensures
            res.level == self,
            res.specific@ == seq![SpecificPermission::Logs],
    {
        self.specific(SpecificSet::single(SpecificPermission::Logs))
    }

    /// This level with the processes permission.
    pub fn processes(self) -> (res: PermissionLevelAndSpecifics)
        ensures
            res.level == self,
            res.specific@ == seq![SpecificPermission::Processes],
    {
        self.specific(SpecificSet::single(SpecificPermission::Processes))
    }
}

/// The displayed name of a level.
pub open spec fn spec_level_name(l: PermissionLevel) -> Seq<char> {
    match l {
        PermissionLevel::NoAccess => "None"@,
        PermissionLevel::Read => "Read"@,
        PermissionLevel::Execute => "Execute"@,
        PermissionLevel::Write => "Write"@,
    }
}

/// A permission level together with specific permissions.
pub struct PermissionLevelAndSpecifics {
    pub level: PermissionLevel,
    pub specific: SpecificSet,
}

impl View for PermissionLevelAndSpecifics {
    type V = PermissionView;

    open spec fn view(&self) -> PermissionView {
        PermissionView { level: self.level, specific: self.specific@ }
    }
}

/// The names of the specific permissions joined by ", ".
pub open spec fn spec_specifics_for_log(s: Seq<SpecificPermission>) -> Seq<char>
    decreases s.len(),
{
    if s.len() == 0 {
        Seq::empty()
    } else if s.len() == 1 {
        spec_name(s[0])
    } else {
        spec_specifics_for_log(s.drop_last()) + ", "@ + spec_name(s.last())
    }
}

impl PermissionLevelAndSpecifics {
    /// A copy with the same level and the same specifics in the same order.
    pub fn duplicate(&self) -> (res: PermissionLevelAndSpecifics)
        ensures
            res@ == self@,
    {
        PermissionLevelAndSpecifics { level: self.level, specific: self.specific.duplicate() }
    }

    /// Whether every specific permission in `specific` is held.
    pub fn fulfills_specific(&self, specific: &SpecificSet) -> (res: bool)
        ensures
            res == spec_holds_all(self.specific@, specific@),
    {
        let n = specific.len();
        let mut i: usize = 0;
        while i < n
            invariant
                n == specific@.len(),
                i <= n,
                forall|j: int| 0 <= j < i ==> self.specific@.contains(#[trigger] specific@[j]),
            decreases n - i,
        {
            if !self.specific.contains(specific.get(i)) {
                return false;
            }
            i = i + 1;
        }
        true
    }

    /// Whether this permission meets `required`.
    pub fn fulfills(&self, required: &PermissionLevelAndSpecifics) -> (res: bool)
        ensures
            res == spec_fulfills(self@, required@),
    {
        if self.level.rank() < required.level.rank() {
            return false;
        }
        self.fulfills_specific(&required.specific)
    }

    /// Raises this permission by `other`: takes the greater level, and adds
    /// `other`'s specific permissions not already held, in order.
    pub fn elevate(&mut self, other: &PermissionLevelAndSpecifics)
        ensures
            final(self)@ == spec_elevate(old(self)@, other@),
    {
        if other.level.rank() > self.level.rank() {
            self.level = other.level;
        }
        self.specific.extend(&other.specific);
    }

    /// A copy of this permission raised by `other`.
    pub fn join(&self, other: &PermissionLevelAndSpecifics) -> (res: PermissionLevelAndSpecifics)
        ensures
            res@ == spec_elevate(self@, other@),
    {
        let mut base = self.duplicate();
        base.elevate(other);
        base
    }

    /// The names of the specific permissions, joined by ", ".
    pub fn specifics_for_log(&self) -> (res: String)
        ensures
            res@ == spec_specifics_for_log(self.specific@),
    {
        let mut res = String::new();
        let n = self.specific.len();
        let mut i: usize = 0;
        while i < n
            invariant
                n == self.specific@.len(),
                i <= n,
                res@ == spec_specifics_for_log(self.specific@.take(i as int)),
            decreases n - i,
        {
            if i > 0 {
                res.append(", ");
            }
            res.append(self.specific.get(i).as_str());
            proof {
                let t = self.specific@.take(i + 1);
                assert(t.drop_last() =~= self.specific@.take(i as int));
                if i == 0 {
                    assert(self.specific@.take(0) =~= Seq::<SpecificPermission>::empty());
                }
            }
            i = i + 1;
        }
        proof {
            assert(self.specific@.take(n as int) =~= self.specific@);
        }
        res
    }
}

} // verus!
