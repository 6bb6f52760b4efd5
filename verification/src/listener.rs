//! Incoming webhooks: whether a push is for the branch a resource follows.

use vstd::prelude::*;

verus! {

/// The branch in a webhook URL that lets procedures and actions be
/// triggered by a push to any branch.
pub const ANY_BRANCH: &'static str = "__ANY__";

/// Whether the branch a webhook body names (as extracted from it) is the
/// expected one. Only a body whose branch cannot be extracted is an error.
pub fn branch_matches<E>(extracted: Result<String, E>, expected: &str) -> (res: Result<bool, E>)
    ensures
        match extracted {
            Ok(b) => res == Ok::<bool, E>(b@ == expected@),
            Err(e) => res == Err::<bool, E>(e),
        },
{
    match extracted {
        Ok(b) => {
            let want = expected.to_owned();
            Ok(b == want)
        },
        Err(e) => Err(e),
    }
}

/// Whether a webhook URL's branch accepts pushes to any branch.
pub fn is_any_branch(branch: &str) -> (res: bool)
    ensures
        res == (branch@ == "__ANY__"@),
{
    let b = branch.to_owned();
    let any = ANY_BRANCH.to_owned();
    proof {
        reveal_strlit("__ANY__");
    }
    b == any
}

} // verus!
