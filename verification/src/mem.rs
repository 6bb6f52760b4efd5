//! The memory breakdown of a host: what `/proc/meminfo` and the ZFS ARC
//! statistics say, or what the portable fallback reports.

use vstd::prelude::*;

use crate::text::{
    char_views, chars_eq_str, find_char, lemma_find, parse_u64, spec_find, spec_is_whitespace, spec_lines,
    spec_lines_from, spec_parse_u64, spec_split_once, spec_tokens, spec_tokens_from, split_lines,
    split_whitespace, str_chars, strip_cr,
};

verus! {

/// `a + b`, or `u64::MAX` when that overflows.
pub open spec fn sat_add(a: u64, b: u64) -> u64 {
    if a + b > u64::MAX { u64::MAX } else { (a + b) as u64 }
}

/// `a - b`, or 0 when that would be negative.
pub open spec fn sat_sub(a: u64, b: u64) -> u64 {
    if a < b { 0 } else { (a - b) as u64 }
}

/// `a * b`, or `u64::MAX` when that overflows.
pub open spec fn sat_mul(a: u64, b: u64) -> u64 {
    if a * b > u64::MAX { u64::MAX } else { (a * b) as u64 }
}

/// Saturating addition.
pub fn saturating_add(a: u64, b: u64) -> (res: u64)
    ensures
        res == sat_add(a, b),
{
    match a.checked_add(b) {
        Some(v) => v,
        None => u64::MAX,
    }
}

/// Saturating subtraction.
pub fn saturating_sub(a: u64, b: u64) -> (res: u64)
    ensures
        res == sat_sub(a, b),
{
    if a < b { 0 } else { a - b }
}

/// Saturating multiplication.
pub fn saturating_mul(a: u64, b: u64) -> (res: u64)
    ensures
        res == sat_mul(a, b),
{
    match a.checked_mul(b) {
        Some(v) => v,
        None => u64::MAX,
    }
}

/// Memory breakdown, all fields in bytes.
#[derive(Clone, Copy, Debug)]
pub struct MemBreakdown {
    /// Total physical memory.
    pub total: u64,
    /// Free memory (`MemFree`).
    pub free: u64,
    /// Reclaimable page cache + buffers.
    pub buff_cache: u64,
    /// Full ZFS ARC size (`0` when ZFS is not present).
    pub zfs_arc: u64,
    /// Real application-used memory: `(total - available) - zfs_arc`.
    pub used: u64,
}

/// The fields of `/proc/meminfo` the breakdown uses, in bytes.
#[derive(Clone, Copy, Debug)]
pub struct MemInfo {
    pub total: u64,
    pub free: u64,
    pub available: u64,
    pub buffers: u64,
    pub cached: u64,
    pub s_reclaimable: u64,
    pub shmem: u64,
}

/// The breakdown from the portable statistics: no buff/cache or ARC
/// figures are available there, and used memory is total minus available.
pub fn read_sysinfo(total: u64, available: u64, free: u64) -> (res: MemBreakdown)
    ensures
        res == (MemBreakdown {
            total,
            free,
            buff_cache: 0,
            zfs_arc: 0,
            used: sat_sub(total, available),
        }),
{
    MemBreakdown { total, free, buff_cache: 0, zfs_arc: 0, used: saturating_sub(total, available) }
}

/// The breakdown from parsed meminfo and the ARC size. Buff/cache is
/// Cached + SReclaimable + Buffers - Shmem; used is total minus available,
/// minus the ARC (which `MemAvailable` does not count as reclaimable).
pub open spec fn spec_breakdown(info: MemInfo, zfs_arc: u64) -> MemBreakdown {
    MemBreakdown {
        total: info.total,
        free: info.free,
        buff_cache: sat_sub(sat_add(sat_add(info.cached, info.s_reclaimable), info.buffers), info.shmem),
        zfs_arc,
        used: sat_sub(sat_sub(info.total, info.available), zfs_arc),
    }
}

/// The breakdown from parsed meminfo and the ARC size.
pub fn breakdown(info: &MemInfo, zfs_arc: u64) -> (res: MemBreakdown)
    ensures
        res == spec_breakdown(*info, zfs_arc),
{
    let buff_cache = saturating_sub(
        saturating_add(saturating_add(info.cached, info.s_reclaimable), info.buffers),
        info.shmem,
    );
    let raw_used = saturating_sub(info.total, info.available);
    MemBreakdown {
        total: info.total,
        free: info.free,
        buff_cache,
        zfs_arc,
        used: saturating_sub(raw_used, zfs_arc),
    }
}

/// How a breakdown reads the parsed meminfo fields: total and free memory
/// as `MemTotal` and `MemFree` say; used memory is total minus available,
/// and then minus the ARC, never below zero; buff/cache is `Cached` plus
/// `SReclaimable` plus `Buffers` (at most `u64::MAX`) minus `Shmem`, never
/// below zero.
pub open spec fn spec_breakdown_reads(info: MemInfo, b: MemBreakdown) -> bool {
    let raw_used: int = if info.total >= info.available { info.total - info.available } else { 0 };
    let cache_sum: int = info.cached as int + info.s_reclaimable as int + info.buffers as int;
    let capped: int = if cache_sum > u64::MAX { u64::MAX as int } else { cache_sum };
    &&& b.total == info.total
    &&& b.free == info.free
    &&& b.used == if raw_used >= b.zfs_arc { raw_used - b.zfs_arc } else { 0 }
    &&& b.buff_cache == if capped >= info.shmem { capped - info.shmem } else { 0 }
}

/// The breakdown reads total, free, used and buff/cache memory from the
/// parsed meminfo fields as [spec_breakdown_reads] says, and reports the ARC
/// size it is given.
pub proof fn law_breakdown_reads_meminfo(info: MemInfo, zfs_arc: u64)
    ensures
        spec_breakdown_reads(info, spec_breakdown(info, zfs_arc)),
        spec_breakdown(info, zfs_arc).zfs_arc == zfs_arc,
{
}

/// The breakdown from the contents of `/proc/meminfo` and of the ZFS
/// `arcstats` file, each `None` when it could not be read. `None` when
/// meminfo is unreadable or is not a real meminfo file; the ARC is zero when
/// its file is absent.
pub fn read_linux(meminfo: Option<&str>, arcstats: Option<&str>) -> (res: Option<MemBreakdown>)
    ensures
        res == match meminfo {
            None => None,
            Some(m) => match spec_parse_meminfo(m@) {
                None => None,
                Some(info) => Some(
                    spec_breakdown(
                        info,
                        match arcstats {
                            Some(a) => spec_zfs_arc_size(spec_lines(a@)),
                            None => 0,
                        },
                    ),
                ),
            },
        },
        res matches Some(b) ==> (meminfo matches Some(m) && spec_parse_meminfo(m@) matches Some(info)
            && spec_breakdown_reads(info, b)),
{
    let meminfo = match meminfo {
        Some(m) => m,
        None => return None,
    };
    let info = match parse_meminfo(meminfo) {
        Some(info) => info,
        None => return None,
    };
    let zfs_arc = match arcstats {
        Some(a) => parse_zfs_arc_size(a),
        None => 0,
    };
    let b = breakdown(&info, zfs_arc);
    proof {
        law_breakdown_reads_meminfo(info, zfs_arc);
    }
    Some(b)
}

/// The key and value in bytes of a meminfo line `Key:   12345 kB`: the
/// text before the first `:`, and the first token after it read as
/// kibibytes. `None` when the line has no `:`, nothing after it, or the
/// value is not a number.
pub open spec fn spec_meminfo_entry(line: Seq<char>) -> Option<(Seq<char>, u64)> {
    match spec_split_once(line, ':') {
        None => None,
        Some((key, rest)) => {
            let toks = spec_tokens(rest);
            if toks.len() == 0 {
                None
            } else {
                match spec_parse_u64(toks[0]) {
                    None => None,
                    Some(kb) => Some((key, sat_mul(kb, 1024))),
                }
            }
        },
    }
}

/// Parsing state: the fields so far, and whether `MemTotal` and
/// `MemAvailable` were seen.
pub struct MemInfoState {
    pub info: MemInfo,
    pub have_total: bool,
    pub have_available: bool,
}

/// Records one entry in the state.
pub open spec fn spec_meminfo_apply(st: MemInfoState, key: Seq<char>, bytes: u64) -> MemInfoState {
    if key == "MemTotal"@ {
        MemInfoState { info: MemInfo { total: bytes, ..st.info }, have_total: true, ..st }
    } else if key == "MemFree"@ {
        MemInfoState { info: MemInfo { free: bytes, ..st.info }, ..st }
    } else if key == "MemAvailable"@ {
        MemInfoState { info: MemInfo { available: bytes, ..st.info }, have_available: true, ..st }
    } else if key == "Buffers"@ {
        MemInfoState { info: MemInfo { buffers: bytes, ..st.info }, ..st }
    } else if key == "Cached"@ {
        MemInfoState { info: MemInfo { cached: bytes, ..st.info }, ..st }
    } else if key == "SReclaimable"@ {
        MemInfoState { info: MemInfo { s_reclaimable: bytes, ..st.info }, ..st }
    } else if key == "Shmem"@ {
        MemInfoState { info: MemInfo { shmem: bytes, ..st.info }, ..st }
    } else {
        st
    }
}

/// The state after reading the given lines in order, from all zeros.
pub open spec fn spec_meminfo_fold(lines: Seq<Seq<char>>) -> MemInfoState
    decreases lines.len(),
{
    if lines.len() == 0 {
        MemInfoState {
            info: MemInfo {
                total: 0,
                free: 0,
                available: 0,
                buffers: 0,
                cached: 0,
                s_reclaimable: 0,
                shmem: 0,
            },
            have_total: false,
            have_available: false,
        }
    } else {
        let st = spec_meminfo_fold(lines.drop_last());
        match spec_meminfo_entry(lines.last()) {
            Some((key, bytes)) => spec_meminfo_apply(st, key, bytes),
            None => st,
        }
    }
}

/// What `/proc/meminfo` contents give: `None` without `MemTotal`; when
/// `MemAvailable` is missing (older kernels) available memory is taken to
/// be the free memory.
pub open spec fn spec_parse_meminfo(contents: Seq<char>) -> Option<MemInfo> {
    let st = spec_meminfo_fold(spec_lines(contents));
    if !st.have_total {
        None
    } else if !st.have_available {
        Some(MemInfo { available: st.info.free, ..st.info })
    } else {
        Some(st.info)
    }
}

/// The key and value of one meminfo line.
fn meminfo_entry(line: &Vec<char>) -> (res: Option<(Vec<char>, u64)>)
    ensures
        match res {
            Some((k, v)) => spec_meminfo_entry(line@) == Some((k@, v)),
            None => spec_meminfo_entry(line@) is None,
        },
{
    proof {
        lemma_find(line@, ':');
    }
    let colon = match find_char(line.as_slice(), ':') {
        Some(i) => i,
        None => return None,
    };
    let mut key: Vec<char> = Vec::new();
    let mut i: usize = 0;
    while i < colon
        invariant
            colon < line@.len(),
            i <= colon,
            key@ == line@.take(i as int),
        decreases colon - i,
    {
        key.push(line[i]);
        proof {
            assert(key@ =~= line@.take(i + 1));
        }
        i = i + 1;
    }
    let mut rest: Vec<char> = Vec::new();
    let len = line.len();
    assert(colon < len);
    let mut j: usize = colon + 1;
    while j < line.len()
        invariant
            colon < j <= line@.len(),
            rest@ == line@.subrange(colon + 1, j as int),
        decreases line@.len() - j,
    {
        rest.push(line[j]);
        proof {
            assert(rest@ =~= line@.subrange(colon + 1, j + 1));
        }
        j = j + 1;
    }
    proof {
        assert(rest@ =~= line@.skip(colon + 1));
    }
    let toks = split_whitespace(rest.as_slice());
    if toks.len() == 0 {
        return None;
    }
    proof {
        assert(char_views(toks@)[0] == toks@[0]@);
    }
    let kb = match parse_u64(toks[0].as_slice()) {
        Some(kb) => kb,
        None => return None,
    };
    Some((key, saturating_mul(kb, 1024)))
}

/// Parses the relevant fields from `/proc/meminfo` contents. Values there are
/// in kibibytes and are converted to bytes. `None` if `MemTotal` is missing
/// (i.e. not a real meminfo file).
pub fn parse_meminfo(contents: &str) -> (res: Option<MemInfo>)
    ensures
        res == spec_parse_meminfo(contents@),
{
    let chars = str_chars(contents);
    let lines = split_lines(chars.as_slice());
    let ghost ls = spec_lines(contents@);
    let mut st = MemInfoState {
        info: MemInfo {
            total: 0,
            free: 0,
            available: 0,
            buffers: 0,
            cached: 0,
            s_reclaimable: 0,
            shmem: 0,
        },
        have_total: false,
        have_available: false,
    };
    let n = lines.len();
    let mut i: usize = 0;
    proof {
        assert(ls.take(0) =~= Seq::<Seq<char>>::empty());
    }
    while i < n
        invariant
            n == lines@.len(),
            ls == char_views(lines@),
            ls == spec_lines(contents@),
            i <= n,
            st == spec_meminfo_fold(ls.take(i as int)),
        decreases n - i,
    {
        proof {
            assert(ls.take(i + 1).drop_last() =~= ls.take(i as int));
            assert(ls.take(i + 1).last() == lines@[i as int]@);
        }
        match meminfo_entry(&lines[i]) {
            Some((key, bytes)) => {
                let k = key.as_slice();
                if chars_eq_str(k, "MemTotal") {
                    st.info.total = bytes;
                    st.have_total = true;
                } else if chars_eq_str(k, "MemFree") {
                    st.info.free = bytes;
                } else if chars_eq_str(k, "MemAvailable") {
                    st.info.available = bytes;
                    st.have_available = true;
                } else if chars_eq_str(k, "Buffers") {
                    st.info.buffers = bytes;
                } else if chars_eq_str(k, "Cached") {
                    st.info.cached = bytes;
                } else if chars_eq_str(k, "SReclaimable") {
                    st.info.s_reclaimable = bytes;
                } else if chars_eq_str(k, "Shmem") {
                    st.info.shmem = bytes;
                }
            },
            None => {},
        }
        i = i + 1;
    }
    proof {
        assert(ls.take(n as int) =~= ls);
    }
    if !st.have_total {
        return None;
    }
    if !st.have_available {
        st.info.available = st.info.free;
    }
    Some(st.info)
}

/// The ARC size from the `arcstats` lines: on the first line whose first
/// token is `size`, the third token read as a number (0 when missing or not
/// a number); 0 when no line starts with `size`.
pub open spec fn spec_zfs_arc_size(lines: Seq<Seq<char>>) -> u64
    decreases lines.len(),
{
    if lines.len() == 0 {
        0
    } else {
        let toks = spec_tokens(lines[0]);
        if toks.len() > 0 && toks[0] == "size"@ {
            if toks.len() > 2 {
                match spec_parse_u64(toks[2]) {
                    Some(v) => v,
                    None => 0,
                }
            } else {
                0
            }
        } else {
            spec_zfs_arc_size(lines.drop_first())
        }
    }
}

/// Parses the ZFS ARC `size` (bytes) from `/proc/spl/kstat/zfs/arcstats`
/// contents. The line looks like: `size  4  4294967296` (name, type, data).
/// Returns `0` if not found.
pub fn parse_zfs_arc_size(contents: &str) -> (res: u64)
    ensures
        res == spec_zfs_arc_size(spec_lines(contents@)),
{
    let chars = str_chars(contents);
    let lines = split_lines(chars.as_slice());
    let ghost ls = spec_lines(contents@);
    let n = lines.len();
    let mut i: usize = 0;
    proof {
        assert(ls.skip(0) =~= ls);
    }
    while i < n
        invariant
            n == lines@.len(),
            ls == char_views(lines@),
            ls == spec_lines(contents@),
            i <= n,
            spec_zfs_arc_size(ls) == spec_zfs_arc_size(ls.skip(i as int)),
        decreases n - i,
    {
        proof {
            assert(ls.skip(i as int)[0] == lines@[i as int]@);
            assert(ls.skip(i as int).drop_first() =~= ls.skip(i + 1));
        }
        let toks = split_whitespace(lines[i].as_slice());
        let ghost here = ls.skip(i as int);
        proof {
            assert(here.len() > 0);
            assert(spec_tokens(here[0]) == char_views(toks@));
        }
        if toks.len() > 0 && chars_eq_str(toks[0].as_slice(), "size") {
            proof {
                assert(char_views(toks@)[0] == toks@[0]@);
            }
            if toks.len() > 2 {
                proof {
                    assert(char_views(toks@)[2] == toks@[2]@);
                    assert(spec_zfs_arc_size(here) == match spec_parse_u64(toks@[2]@) {
                        Some(v) => v,
                        None => 0u64,
                    });
                }
                return match parse_u64(toks[2].as_slice()) {
                    Some(v) => v,
                    None => 0,
                };
            }
            proof {
                assert(spec_zfs_arc_size(here) == 0);
            }
            return 0;
        }
        proof {
            if toks@.len() > 0 {
                assert(char_views(toks@)[0] == toks@[0]@);
            }
        }
        i = i + 1;
    }
    proof {
        assert(ls.skip(n as int) =~= Seq::<Seq<char>>::empty());
    }
    0
}

/// The state after reading one line.
pub open spec fn spec_meminfo_step(st: MemInfoState, line: Seq<char>) -> MemInfoState {
    match spec_meminfo_entry(line) {
        Some((key, bytes)) => spec_meminfo_apply(st, key, bytes),
        None => st,
    }
}

/// Whether a meminfo line leaves the parse as it is: it is malformed (no
/// `:`, or no number after it), or its key is none of those the breakdown
/// uses.
pub open spec fn spec_meminfo_line_ignored(line: Seq<char>) -> bool {
    spec_meminfo_entry(line) matches Some((key, _)) ==> {
        &&& key != "MemTotal"@
        &&& key != "MemFree"@
        &&& key != "MemAvailable"@
        &&& key != "Buffers"@
        &&& key != "Cached"@
        &&& key != "SReclaimable"@
        &&& key != "Shmem"@
    }
}

/// The state after reading `lines` from the first, starting from `st`.
spec fn spec_meminfo_run(st: MemInfoState, lines: Seq<Seq<char>>) -> MemInfoState
    decreases lines.len(),
{
    if lines.len() == 0 {
        st
    } else {
        spec_meminfo_run(spec_meminfo_step(st, lines[0]), lines.drop_first())
    }
}

proof fn lemma_run_push(st: MemInfoState, lines: Seq<Seq<char>>, x: Seq<char>)
    ensures
        spec_meminfo_run(st, lines.push(x)) == spec_meminfo_step(spec_meminfo_run(st, lines), x),
    decreases lines.len(),
{
    if lines.len() > 0 {
        assert(lines.push(x).drop_first() =~= lines.drop_first().push(x));
        assert(lines.push(x)[0] == lines[0]);
        lemma_run_push(spec_meminfo_step(st, lines[0]), lines.drop_first(), x);
    } else {
        assert(lines.push(x).drop_first() =~= Seq::<Seq<char>>::empty());
        assert(lines.push(x)[0] == x);
        assert(spec_meminfo_run(spec_meminfo_step(st, x), lines.push(x).drop_first()) == spec_meminfo_step(st, x));
    }
}

proof fn lemma_fold_is_run(lines: Seq<Seq<char>>)
    ensures
        spec_meminfo_fold(lines) == spec_meminfo_run(spec_meminfo_fold(Seq::empty()), lines),
    decreases lines.len(),
{
    if lines.len() > 0 {
        lemma_fold_is_run(lines.drop_last());
        lemma_run_push(spec_meminfo_fold(Seq::empty()), lines.drop_last(), lines.last());
        assert(lines.drop_last().push(lines.last()) =~= lines);
    }
}

proof fn lemma_run_append(st: MemInfoState, a: Seq<Seq<char>>, b: Seq<Seq<char>>)
    ensures
        spec_meminfo_run(st, a + b) == spec_meminfo_run(spec_meminfo_run(st, a), b),
    decreases a.len(),
{
    if a.len() > 0 {
        assert((a + b).drop_first() =~= a.drop_first() + b);
        assert((a + b)[0] == a[0]);
        lemma_run_append(spec_meminfo_step(st, a[0]), a.drop_first(), b);
    } else {
        assert(a + b =~= b);
    }
}

proof fn lemma_find_push(s: Seq<char>, x: char, c: char)
    requires
        x != c,
    ensures
        spec_find(s.push(x), c) == spec_find(s, c),
    decreases s.len(),
{
    if s.len() > 0 {
        assert(s.push(x).drop_first() =~= s.drop_first().push(x));
        assert(s.push(x)[0] == s[0]);
        lemma_find_push(s.drop_first(), x, c);
    } else {
        assert(s.push(x).drop_first() =~= Seq::<char>::empty());
        assert(s.push(x)[0] == x);
        assert(spec_find(s.push(x).drop_first(), c) is None);
    }
}

proof fn lemma_tokens_trailing_whitespace(r: Seq<char>, cur: Seq<char>, w: char)
    requires
        spec_is_whitespace(w),
    ensures
        spec_tokens_from(r.push(w), cur) == spec_tokens_from(r, cur),
    decreases r.len(),
{
    if r.len() > 0 {
        assert(r.push(w).drop_first() =~= r.drop_first().push(w));
        assert(r.push(w)[0] == r[0]);
        if spec_is_whitespace(r[0]) {
            lemma_tokens_trailing_whitespace(r.drop_first(), Seq::empty(), w);
        } else {
            lemma_tokens_trailing_whitespace(r.drop_first(), cur.push(r[0]), w);
        }
    } else {
        assert(r.push(w).drop_first() =~= Seq::<char>::empty());
        assert(r.push(w)[0] == w);
        assert(spec_tokens_from(Seq::<char>::empty(), Seq::<char>::empty()) =~= Seq::<Seq<char>>::empty());
        assert((if cur.len() == 0 {
            Seq::<Seq<char>>::empty()
        } else {
            seq![cur]
        }) + Seq::<Seq<char>>::empty() =~= spec_tokens_from(r, cur));
    }
}

/// A carriage return at the end of a line does not change its entry.
proof fn lemma_entry_strip_cr(x: Seq<char>)
    ensures
        spec_meminfo_entry(strip_cr(x)) == spec_meminfo_entry(x),
{
    if x.len() > 0 && x.last() == '\r' {
        let y = x.drop_last();
        assert(x =~= y.push('\r'));
        lemma_find_push(y, '\r', ':');
        if let Some(i) = spec_find(y, ':') {
            lemma_find(y, ':');
            assert(x.take(i) =~= y.take(i));
            assert(x.skip(i + 1) =~= y.skip(i + 1).push('\r'));
            lemma_tokens_trailing_whitespace(y.skip(i + 1), Seq::empty(), '\r');
        }
    }
}

/// After a line break, the lines start afresh.
proof fn lemma_lines_after_break(s: Seq<char>, cur: Seq<char>, line: Seq<char>)
    ensures
        spec_lines_from(s + seq!['\n'] + line, cur) == spec_lines_from(s + seq!['\n'], cur)
            + spec_lines_from(line, Seq::empty()),
    decreases s.len(),
{
    if s.len() == 0 {
        assert(s + seq!['\n'] + line =~= seq!['\n'] + line);
        assert((seq!['\n'] + line).drop_first() =~= line);
        assert((seq!['\n'] + line)[0] == '\n');
        assert(seq!['\n'][0] == '\n');
        assert(spec_lines_from(Seq::<char>::empty(), Seq::<char>::empty()) =~= Seq::<Seq<char>>::empty());
        assert(s + seq!['\n'] =~= seq!['\n']);
        assert(seq!['\n'].drop_first() =~= Seq::<char>::empty());
        assert(seq![strip_cr(cur)] + Seq::<Seq<char>>::empty() =~= seq![strip_cr(cur)]);
    } else {
        assert((s + seq!['\n'] + line).drop_first() =~= s.drop_first() + seq!['\n'] + line);
        assert((s + seq!['\n']).drop_first() =~= s.drop_first() + seq!['\n']);
        assert((s + seq!['\n'] + line)[0] == s[0]);
        assert((s + seq!['\n'])[0] == s[0]);
        if s[0] == '\n' {
            lemma_lines_after_break(s.drop_first(), Seq::empty(), line);
            assert(seq![strip_cr(cur)] + (spec_lines_from(s.drop_first() + seq!['\n'], Seq::empty())
                + spec_lines_from(line, Seq::empty())) =~= (seq![strip_cr(cur)] + spec_lines_from(
                s.drop_first() + seq!['\n'],
                Seq::empty(),
            )) + spec_lines_from(line, Seq::empty()));
        } else {
            lemma_lines_after_break(s.drop_first(), cur.push(s[0]), line);
        }
    }
}

proof fn lemma_run_single(st: MemInfoState, x: Seq<char>, rest: Seq<Seq<char>>)
    ensures
        spec_meminfo_run(st, seq![x] + rest) == spec_meminfo_run(spec_meminfo_step(st, x), rest),
{
    assert((seq![x] + rest).drop_first() =~= rest);
    assert((seq![x] + rest)[0] == x);
}

/// Ending the text with a line break reads the same as not.
proof fn lemma_run_final_break(st: MemInfoState, s: Seq<char>, cur: Seq<char>)
    ensures
        spec_meminfo_run(st, spec_lines_from(s + seq!['\n'], cur)) == spec_meminfo_run(
            st,
            spec_lines_from(s, cur),
        ),
    decreases s.len(),
{
    if s.len() == 0 {
        assert(s + seq!['\n'] =~= seq!['\n']);
        assert(seq!['\n'].drop_first() =~= Seq::<char>::empty());
        assert(seq!['\n'][0] == '\n');
        assert(spec_lines_from(Seq::<char>::empty(), Seq::<char>::empty()) =~= Seq::<Seq<char>>::empty());
        assert(spec_meminfo_run(spec_meminfo_step(st, strip_cr(cur)), Seq::empty()) == spec_meminfo_step(st, strip_cr(cur)));
        lemma_run_single(st, strip_cr(cur), Seq::empty());
        lemma_entry_strip_cr(cur);
        if cur.len() == 0 {
            assert(spec_find(strip_cr(cur), ':') is None);
        } else {
            lemma_run_single(st, cur, Seq::empty());
            assert(seq![cur] + Seq::<Seq<char>>::empty() =~= seq![cur]);
        }
        assert(seq![strip_cr(cur)] + Seq::<Seq<char>>::empty() =~= seq![strip_cr(cur)]);
    } else {
        assert((s + seq!['\n']).drop_first() =~= s.drop_first() + seq!['\n']);
        assert((s + seq!['\n'])[0] == s[0]);
        if s[0] == '\n' {
            lemma_run_single(st, strip_cr(cur), spec_lines_from(s.drop_first() + seq!['\n'], Seq::empty()));
            lemma_run_single(st, strip_cr(cur), spec_lines_from(s.drop_first(), Seq::empty()));
            lemma_run_final_break(spec_meminfo_step(st, strip_cr(cur)), s.drop_first(), Seq::empty());
        } else {
            lemma_run_final_break(st, s.drop_first(), cur.push(s[0]));
        }
    }
}

/// The lines of text without a line break: the text itself, if any.
proof fn lemma_lines_without_break(line: Seq<char>, cur: Seq<char>)
    requires
        !line.contains('\n'),
    ensures
        spec_lines_from(line, cur) == if (cur + line).len() == 0 {
            Seq::<Seq<char>>::empty()
        } else {
            seq![cur + line]
        },
    decreases line.len(),
{
    if line.len() == 0 {
        assert(cur + line =~= cur);
    } else {
        assert(line[0] != '\n') by {
            assert(line.contains(line[0]) || line[0] != '\n');
        }
        assert(!line.drop_first().contains('\n')) by {
            if line.drop_first().contains('\n') {
                let k = choose|k: int| 0 <= k < line.drop_first().len() && line.drop_first()[k] == '\n';
                assert(line[k + 1] == '\n');
            }
        }
        lemma_lines_without_break(line.drop_first(), cur.push(line[0]));
        assert(cur.push(line[0]) + line.drop_first() =~= cur + line);
    }
}

/// A line appended to `/proc/meminfo` contents that is malformed (no `:`,
/// or no number after it) or whose key the breakdown does not use leaves the
/// parse unchanged.
pub proof fn law_meminfo_ignores_unrecognised_line(contents: Seq<char>, line: Seq<char>)
    requires
        !line.contains('\n'),
        spec_meminfo_line_ignored(line),
    ensures
        spec_parse_meminfo(contents + seq!['\n'] + line) == spec_parse_meminfo(contents),
{
    let init = spec_meminfo_fold(Seq::empty());
    let a = spec_lines_from(contents + seq!['\n'], Seq::empty());
    let b = spec_lines_from(line, Seq::empty());
    lemma_lines_after_break(contents, Seq::empty(), line);
    lemma_fold_is_run(spec_lines(contents + seq!['\n'] + line));
    lemma_fold_is_run(spec_lines(contents));
    lemma_run_append(init, a, b);
    lemma_lines_without_break(line, Seq::empty());
    assert(Seq::<char>::empty() + line =~= line);
    let mid = spec_meminfo_run(init, a);
    if line.len() > 0 {
        lemma_run_single(mid, line, Seq::empty());
        assert(seq![line] + Seq::<Seq<char>>::empty() =~= seq![line]);
        assert(spec_meminfo_step(mid, line) == mid);
    }
    lemma_run_final_break(init, contents, Seq::empty());
}

} // verus!
