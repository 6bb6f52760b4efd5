//! Text handling shared by the parsers: whitespace, lines, tokens, and
//! decimal numbers, each specified over the characters of the text.

use vstd::prelude::*;

verus! {

/// Unicode `White_Space`, what `char::is_whitespace` tests.
pub open spec fn spec_is_whitespace(c: char) -> bool {
    ||| c == '\t' || c == '\n' || c == '\u{b}' || c == '\u{c}' || c == '\r' || c == ' '
    ||| c == '\u{85}' || c == '\u{a0}' || c == '\u{1680}'
    ||| ('\u{2000}' <= c && c <= '\u{200a}')
    ||| c == '\u{2028}' || c == '\u{2029}' || c == '\u{202f}' || c == '\u{205f}' || c == '\u{3000}'
}

/// Whether `c` is Unicode whitespace.
pub fn is_whitespace(c: char) -> (res: bool)
    ensures
        res == spec_is_whitespace(c),
{
    c == '\t' || c == '\n' || c == '\u{b}' || c == '\u{c}' || c == '\r' || c == ' ' || c == '\u{85}'
        || c == '\u{a0}' || c == '\u{1680}' || ('\u{2000}' <= c && c <= '\u{200a}') || c
        == '\u{2028}' || c == '\u{2029}' || c == '\u{202f}' || c == '\u{205f}' || c == '\u{3000}'
}

/// The characters of a string.
pub fn str_chars(s: &str) -> (res: Vec<char>)
    ensures
        res@ == s@,
{
    let mut res: Vec<char> = Vec::new();
    for c in it: s.chars()
        invariant
            it.index() <= s@.len(),
            it.seq() == s@,
            res@ == s@.take(it.index() as int),
    {
        res.push(c);
        proof {
            assert(s@.take(it.index() + 1) =~= res@);
        }
    }
    proof {
        assert(s@.take(s@.len() as int) =~= s@);
    }
    res
}

/// A string holding the given characters.
pub fn string_from_chars(cs: &[char]) -> (res: String)
    ensures
        res@ == cs@,
{
    let mut res = String::new();
    let mut i: usize = 0;
    while i < cs.len()
        invariant
            i <= cs@.len(),
            res@ == cs@.take(i as int),
        decreases cs@.len() - i,
    {
        crate::rand::push_char(&mut res, cs[i]);
        proof {
            assert(cs@.take(i + 1) =~= res@);
        }
        i = i + 1;
    }
    proof {
        assert(cs@.take(cs@.len() as int) =~= cs@);
    }
    res
}

/// The parts joined with `sep` between each two.
pub open spec fn spec_join(parts: Seq<Seq<char>>, sep: Seq<char>) -> Seq<char>
    decreases parts.len(),
{
    if parts.len() == 0 {
        Seq::empty()
    } else if parts.len() == 1 {
        parts[0]
    } else {
        spec_join(parts.drop_last(), sep) + sep + parts.last()
    }
}

/// The views of a list of strings.
pub open spec fn string_views(v: Seq<String>) -> Seq<Seq<char>> {
    v.map_values(|x: String| x@)
}

/// The parts joined with `sep` between each two, as `slice::join` gives them.
pub fn join_strings(parts: &Vec<String>, sep: &str) -> (res: String)
    ensures
        res@ == spec_join(string_views(parts@), sep@),
{
    let mut res = String::new();
    let mut i: usize = 0;
    while i < parts.len()
        invariant
            i <= parts@.len(),
            res@ == spec_join(string_views(parts@.take(i as int)), sep@),
        decreases parts@.len() - i,
    {
        proof {
            assert(string_views(parts@.take(i + 1)).drop_last() =~= string_views(parts@.take(i as int)));
            assert(string_views(parts@.take(i + 1)).last() == parts@[i as int]@);
        }
        if i > 0 {
            res.append(sep);
        } else {
            proof {
                assert(res@ =~= Seq::<char>::empty());
            }
        }
        res.append(parts[i].as_str());
        proof {
            if i == 0 {
                assert(res@ =~= parts@[0]@);
                assert(string_views(parts@.take(1))[0] == parts@[0]@);
            }
        }
        i = i + 1;
    }
    proof {
        assert(parts@.take(parts@.len() as int) =~= parts@);
    }
    res
}

/// Whether the characters `a` spell out `lit`.
pub fn chars_eq_str(a: &[char], lit: &str) -> (res: bool)
    ensures
        res == (a@ == lit@),
{
    let n = lit.unicode_len();
    if a.len() != n {
        return false;
    }
    let mut i: usize = 0;
    while i < n
        invariant
            n == lit@.len(),
            a@.len() == n,
            i <= n,
            forall|j: int| 0 <= j < i ==> a@[j] == lit@[j],
        decreases n - i,
    {
        if a[i] != lit.get_char(i) {
            return false;
        }
        i = i + 1;
    }
    assert(a@ =~= lit@);
    true
}

/// A line without its final carriage return, if it has one.
pub open spec fn strip_cr(line: Seq<char>) -> Seq<char> {
    if line.len() > 0 && line.last() == '\r' {
        line.drop_last()
    } else {
        line
    }
}

/// The lines of `s` that follow the unfinished line `cur`, as `str::lines`
/// gives them: split after each `\n`, which is dropped together with a
/// carriage return right before it; a last line without `\n` is kept as it
/// is, and nothing follows a final `\n`.
pub open spec fn spec_lines_from(s: Seq<char>, cur: Seq<char>) -> Seq<Seq<char>>
    decreases s.len(),
{
    if s.len() == 0 {
        if cur.len() == 0 {
            Seq::empty()
        } else {
            seq![cur]
        }
    } else if s[0] == '\n' {
        seq![strip_cr(cur)] + spec_lines_from(s.drop_first(), Seq::empty())
    } else {
        spec_lines_from(s.drop_first(), cur.push(s[0]))
    }
}

/// The lines of `s`, as `str::lines` gives them.
pub open spec fn spec_lines(s: Seq<char>) -> Seq<Seq<char>> {
    spec_lines_from(s, Seq::empty())
}

/// The views of a list of character lists.
pub open spec fn char_views(v: Seq<Vec<char>>) -> Seq<Seq<char>> {
    v.map_values(|x: Vec<char>| x@)
}

/// The lines of `s`, as `str::lines` gives them.
pub fn split_lines(s: &[char]) -> (res: Vec<Vec<char>>)
    ensures
        char_views(res@) == spec_lines(s@),
{
    let mut res: Vec<Vec<char>> = Vec::new();
    let mut cur: Vec<char> = Vec::new();
    let mut i: usize = 0;
    proof {
        assert(s@.skip(0) =~= s@);
        assert(char_views(res@) =~= Seq::<Seq<char>>::empty());
        assert(cur@ =~= Seq::<char>::empty());
        assert(Seq::<Seq<char>>::empty() + spec_lines(s@) =~= spec_lines(s@));
    }
    while i < s.len()
        invariant
            i <= s@.len(),
            char_views(res@) + spec_lines_from(s@.skip(i as int), cur@) == spec_lines(s@),
        decreases s@.len() - i,
    {
        let ghost rest = s@.skip(i as int);
        let ghost old_res = char_views(res@);
        let ghost old_cur = cur@;
        assert(rest.drop_first() =~= s@.skip(i + 1));
        assert(rest[0] == s@[i as int]);
        if s[i] == '\n' {
            let mut line = cur;
            if line.len() > 0 && line[line.len() - 1] == '\r' {
                line.pop();
            }
            proof {
                assert(line@ =~= strip_cr(old_cur));
            }
            res.push(line);
            cur = Vec::new();
            proof {
                assert(char_views(res@) =~= old_res.push(strip_cr(old_cur)));
                assert(old_res.push(strip_cr(old_cur)) + spec_lines_from(s@.skip(i + 1), Seq::empty())
                    =~= old_res + (seq![strip_cr(old_cur)] + spec_lines_from(s@.skip(i + 1), Seq::empty())));
            }
        } else {
            cur.push(s[i]);
        }
        i = i + 1;
    }
    proof {
        assert(s@.skip(s@.len() as int) =~= Seq::<char>::empty());
    }
    let ghost before = char_views(res@);
    if cur.len() > 0 {
        let ghost c = cur@;
        res.push(cur);
        proof {
            assert(char_views(res@) =~= before + seq![c]);
        }
    } else {
        proof {
            assert(before + Seq::<Seq<char>>::empty() =~= before);
        }
    }
    res
}


/// The whitespace-separated tokens of `s` that follow the unfinished token
/// `cur`, as `str::split_whitespace` gives them.
pub open spec fn spec_tokens_from(s: Seq<char>, cur: Seq<char>) -> Seq<Seq<char>>
    decreases s.len(),
{
    if s.len() == 0 {
        if cur.len() == 0 {
            Seq::empty()
        } else {
            seq![cur]
        }
    } else if spec_is_whitespace(s[0]) {
        (if cur.len() == 0 {
            Seq::<Seq<char>>::empty()
        } else {
            seq![cur]
        }) + spec_tokens_from(s.drop_first(), Seq::empty())
    } else {
        spec_tokens_from(s.drop_first(), cur.push(s[0]))
    }
}

/// The whitespace-separated tokens of `s`, as `str::split_whitespace` gives them.
pub open spec fn spec_tokens(s: Seq<char>) -> Seq<Seq<char>> {
    spec_tokens_from(s, Seq::empty())
}

/// The whitespace-separated tokens of `s`.
pub fn split_whitespace(s: &[char]) -> (res: Vec<Vec<char>>)
    ensures
        char_views(res@) == spec_tokens(s@),
{
    let mut res: Vec<Vec<char>> = Vec::new();
    let mut cur: Vec<char> = Vec::new();
    let mut i: usize = 0;
    proof {
        assert(s@.skip(0) =~= s@);
        assert(char_views(res@) =~= Seq::<Seq<char>>::empty());
        assert(cur@ =~= Seq::<char>::empty());
        assert(Seq::<Seq<char>>::empty() + spec_tokens(s@) =~= spec_tokens(s@));
    }
    while i < s.len()
        invariant
            i <= s@.len(),
            char_views(res@) + spec_tokens_from(s@.skip(i as int), cur@) == spec_tokens(s@),
        decreases s@.len() - i,
    {
        let ghost rest = s@.skip(i as int);
        let ghost old_res = char_views(res@);
        let ghost old_cur = cur@;
        assert(rest.drop_first() =~= s@.skip(i + 1));
        assert(rest[0] == s@[i as int]);
        if is_whitespace(s[i]) {
            if cur.len() > 0 {
                res.push(cur);
                proof {
                    assert(char_views(res@) =~= old_res.push(old_cur));
                    assert(old_res.push(old_cur) + spec_tokens_from(s@.skip(i + 1), Seq::empty())
                        =~= old_res + (seq![old_cur] + spec_tokens_from(s@.skip(i + 1), Seq::empty())));
                }
            } else {
                proof {
                    assert(Seq::<Seq<char>>::empty() + spec_tokens_from(s@.skip(i + 1), Seq::empty())
                        =~= spec_tokens_from(s@.skip(i + 1), Seq::empty()));
                }
            }
            cur = Vec::new();
        } else {
            cur.push(s[i]);
        }
        i = i + 1;
    }
    proof {
        assert(s@.skip(s@.len() as int) =~= Seq::<char>::empty());
    }
    let ghost before = char_views(res@);
    if cur.len() > 0 {
        let ghost c = cur@;
        res.push(cur);
        proof {
            assert(char_views(res@) =~= before + seq![c]);
        }
    } else {
        proof {
            assert(before + Seq::<Seq<char>>::empty() =~= before);
        }
    }
    res
}

/// The position of the first `c` in `s`.
pub open spec fn spec_find(s: Seq<char>, c: char) -> Option<int>
    decreases s.len(),
{
    if s.len() == 0 {
        None
    } else if s[0] == c {
        Some(0)
    } else {
        match spec_find(s.drop_first(), c) {
            Some(i) => Some(i + 1),
            None => None,
        }
    }
}

/// `spec_find` finds the first occurrence, and none when there is none.
pub proof fn lemma_find(s: Seq<char>, c: char)
    ensures
        spec_find(s, c) matches Some(i) ==> 0 <= i < s.len() && s[i] == c && forall|j: int|
            0 <= j < i ==> s[j] != c,
        spec_find(s, c) is None ==> forall|j: int| 0 <= j < s.len() ==> s[j] != c,
    decreases s.len(),
{
    if s.len() > 0 {
        lemma_find(s.drop_first(), c);
        if s[0] != c {
            if let Some(i) = spec_find(s.drop_first(), c) {
                assert forall|j: int| 0 <= j < i + 1 implies s[j] != c by {
                    if j > 0 {
                        assert(s[j] == s.drop_first()[j - 1]);
                    }
                }
            } else {
                assert forall|j: int| 0 <= j < s.len() implies s[j] != c by {
                    if j > 0 {
                        assert(s[j] == s.drop_first()[j - 1]);
                    }
                }
            }
        }
    }
}

/// The position of the first `c` in `s`.
pub fn find_char(s: &[char], c: char) -> (res: Option<usize>)
    ensures
        match res {
            Some(i) => spec_find(s@, c) == Some(i as int),
            None => spec_find(s@, c) is None,
        },
{
    proof {
        lemma_find(s@, c);
    }
    let mut i: usize = 0;
    while i < s.len()
        invariant
            i <= s@.len(),
            forall|j: int| 0 <= j < i ==> s@[j] != c,
        decreases s@.len() - i,
    {
        if s[i] == c {
            proof {
                lemma_find_unique(s@, c, i as int);
            }
            return Some(i);
        }
        i = i + 1;
    }
    proof {
        if let Some(k) = spec_find(s@, c) {
            assert(s@[k] == c);
        }
    }
    None
}

/// The first occurrence is where `spec_find` says.
proof fn lemma_find_unique(s: Seq<char>, c: char, i: int)
    requires
        0 <= i < s.len(),
        s[i] == c,
        forall|j: int| 0 <= j < i ==> s[j] != c,
    ensures
        spec_find(s, c) == Some(i),
{
    lemma_find(s, c);
    if let Some(k) = spec_find(s, c) {
        if k < i {
            assert(s[k] != c);
        }
        if k > i {
            assert(s[i] != c);
        }
    }
}

/// Splits at the first `c`: the text before it and the text after it.
pub open spec fn spec_split_once(s: Seq<char>, c: char) -> Option<(Seq<char>, Seq<char>)> {
    match spec_find(s, c) {
        Some(i) => Some((s.take(i), s.skip(i + 1))),
        None => None,
    }
}

/// `s` without leading whitespace.
pub open spec fn spec_trim_start(s: Seq<char>) -> Seq<char>
    decreases s.len(),
{
    if s.len() > 0 && spec_is_whitespace(s[0]) {
        spec_trim_start(s.drop_first())
    } else {
        s
    }
}

/// `s` without trailing whitespace.
pub open spec fn spec_trim_end(s: Seq<char>) -> Seq<char>
    decreases s.len(),
{
    if s.len() > 0 && spec_is_whitespace(s.last()) {
        spec_trim_end(s.drop_last())
    } else {
        s
    }
}

/// `s` without leading and trailing whitespace, as `str::trim` gives it.
pub open spec fn spec_trim(s: Seq<char>) -> Seq<char> {
    spec_trim_end(spec_trim_start(s))
}

/// `s` without leading and trailing whitespace.
pub fn trim(s: &[char]) -> (res: Vec<char>)
    ensures
        res@ == spec_trim(s@),
{
    let mut start: usize = 0;
    proof {
        assert(s@.skip(0) =~= s@);
    }
    while start < s.len() && is_whitespace(s[start])
        invariant
            start <= s@.len(),
            spec_trim_start(s@) == spec_trim_start(s@.skip(start as int)),
        decreases s@.len() - start,
    {
        proof {
            assert(s@.skip(start as int).drop_first() =~= s@.skip(start + 1));
        }
        start = start + 1;
    }
    proof {
        if start == s@.len() {
            assert(s@.skip(start as int) =~= Seq::<char>::empty());
        }
        assert(spec_trim_start(s@) == s@.skip(start as int));
    }
    let mut end: usize = s.len();
    while end > start && is_whitespace(s[end - 1])
        invariant
            start <= end <= s@.len(),
            spec_trim(s@) == spec_trim_end(s@.subrange(start as int, end as int)),
        decreases end - start,
    {
        proof {
            assert(s@.subrange(start as int, end as int).drop_last() =~= s@.subrange(start as int, end - 1));
        }
        end = end - 1;
    }
    proof {
        assert(s@.skip(start as int) =~= s@.subrange(start as int, s@.len() as int));
    }
    let mut res: Vec<char> = Vec::new();
    let mut k: usize = start;
    while k < end
        invariant
            start <= k <= end <= s@.len(),
            res@ == s@.subrange(start as int, k as int),
        decreases end - k,
    {
        res.push(s[k]);
        proof {
            assert(res@ =~= s@.subrange(start as int, k + 1));
        }
        k = k + 1;
    }
    res
}

/// The value of a sequence of decimal digits.
pub open spec fn spec_digits_value(d: Seq<char>) -> nat
    decreases d.len(),
{
    if d.len() == 0 {
        0
    } else {
        spec_digits_value(d.drop_last()) * 10 + ((d.last() as u32 - '0' as u32) as nat)
    }
}

/// Every character is an ASCII digit.
pub open spec fn spec_all_digits(d: Seq<char>) -> bool {
    forall|i: int| 0 <= i < d.len() ==> '0' <= #[trigger] d[i] <= '9'
}

/// The digits of an unsigned number: an optional `+` sign dropped.
pub open spec fn spec_unsigned_digits(t: Seq<char>) -> Seq<char> {
    if t.len() > 0 && t[0] == '+' {
        t.drop_first()
    } else {
        t
    }
}

/// What `str::parse::<u64>` gives: an optional `+`, then one or more ASCII
/// digits whose value fits in 64 bits.
pub open spec fn spec_parse_u64(t: Seq<char>) -> Option<u64> {
    let d = spec_unsigned_digits(t);
    if d.len() == 0 || !spec_all_digits(d) || spec_digits_value(d) > u64::MAX {
        None
    } else {
        Some(spec_digits_value(d) as u64)
    }
}

/// A longer run of digits is worth at least as much as its prefix.
proof fn lemma_digits_value_prefix(d: Seq<char>, k: int)
    requires
        0 <= k <= d.len(),
        spec_all_digits(d),
    ensures
        spec_digits_value(d.take(k)) <= spec_digits_value(d),
    decreases d.len() - k,
{
    if k < d.len() {
        lemma_digits_value_prefix(d, k + 1);
        assert(d.take(k + 1).drop_last() =~= d.take(k));
        assert('0' <= d[k] <= '9');
    } else {
        assert(d.take(k) =~= d);
    }
}

/// The value of a run of decimal digits, when it fits in 64 bits.
fn digits_value(d: &[char], from: usize) -> (res: Option<u64>)
    requires
        from <= d@.len(),
        spec_all_digits(d@.skip(from as int)),
    ensures
        res matches Some(v) ==> spec_digits_value(d@.skip(from as int)) == v,
        res is None ==> spec_digits_value(d@.skip(from as int)) > u64::MAX,
{
    let ghost ds = d@.skip(from as int);
    let mut acc: u64 = 0;
    let mut i: usize = from;
    proof {
        assert(ds.take(0) =~= Seq::<char>::empty());
    }
    while i < d.len()
        invariant
            from <= i <= d@.len(),
            ds == d@.skip(from as int),
            spec_all_digits(ds),
            acc == spec_digits_value(ds.take(i - from)),
        decreases d@.len() - i,
    {
        let c = d[i];
        proof {
            assert(ds[i - from] == c);
            assert('0' <= c <= '9');
            assert(ds.take(i - from + 1).drop_last() =~= ds.take(i - from));
            assert(ds.take(i - from + 1).last() == c);
        }
        let digit: u64 = (c as u32 - '0' as u32) as u64;
        if acc > (u64::MAX - digit) / 10 {
            proof {
                lemma_digits_value_prefix(ds, i - from + 1);
            }
            return None;
        }
        acc = acc * 10 + digit;
        i = i + 1;
    }
    proof {
        assert(ds.take(i - from) =~= ds);
    }
    Some(acc)
}

/// Parses a decimal `u64` as `str::parse::<u64>` does.
pub fn parse_u64(t: &[char]) -> (res: Option<u64>)
    ensures
        res == spec_parse_u64(t@),
{
    let from: usize = if t.len() > 0 && t[0] == '+' { 1 } else { 0 };
    proof {
        assert(spec_unsigned_digits(t@) =~= t@.skip(from as int));
    }
    if from >= t.len() {
        return None;
    }
    let mut i: usize = from;
    while i < t.len()
        invariant
            from <= i <= t@.len(),
            spec_unsigned_digits(t@) == t@.skip(from as int),
            forall|j: int| from <= j < i ==> '0' <= #[trigger] t@[j] <= '9',
        decreases t@.len() - i,
    {
        if !('0' <= t[i] && t[i] <= '9') {
            proof {
                assert(t@.skip(from as int)[i - from] == t@[i as int]);
                assert(!spec_all_digits(t@.skip(from as int)));
            }
            return None;
        }
        i = i + 1;
    }
    proof {
        assert forall|j: int| 0 <= j < t@.skip(from as int).len() implies '0' <= #[trigger] t@.skip(
            from as int,
        )[j] <= '9' by {
            assert(t@.skip(from as int)[j] == t@[j + from]);
        }
    }
    digits_value(t, from)
}

/// What `str::parse::<i64>` gives: an optional sign, then one or more ASCII
/// digits whose signed value fits in 64 bits.
pub open spec fn spec_parse_i64(t: Seq<char>) -> Option<i64> {
    if t.len() > 0 && t[0] == '-' {
        let d = t.drop_first();
        if d.len() == 0 || !spec_all_digits(d) || spec_digits_value(d) > 0x8000_0000_0000_0000 {
            None
        } else {
            Some((0 - spec_digits_value(d)) as i64)
        }
    } else {
        let d = spec_unsigned_digits(t);
        if d.len() == 0 || !spec_all_digits(d) || spec_digits_value(d) > i64::MAX {
            None
        } else {
            Some(spec_digits_value(d) as i64)
        }
    }
}

/// Parses a decimal `i64` as `str::parse::<i64>` does.
pub fn parse_i64(t: &[char]) -> (res: Option<i64>)
    ensures
        res == spec_parse_i64(t@),
{
    if t.len() > 0 && t[0] == '-' {
        let mut plus: Vec<char> = Vec::new();
        plus.push('+');
        let mut k: usize = 1;
        while k < t.len()
            invariant
                1 <= k <= t@.len(),
                plus@ == seq!['+'] + t@.subrange(1, k as int),
            decreases t@.len() - k,
        {
            plus.push(t[k]);
            proof {
                assert(plus@ =~= seq!['+'] + t@.subrange(1, k + 1));
            }
            k = k + 1;
        }
        proof {
            assert(spec_unsigned_digits(plus@) =~= t@.drop_first());
        }
        match parse_u64(plus.as_slice()) {
            Some(v) => if v <= 0x8000_0000_0000_0000 {
                if v == 0x8000_0000_0000_0000 {
                    Some(i64::MIN)
                } else {
                    Some(0 - (v as i64))
                }
            } else {
                None
            },
            None => None,
        }
    } else {
        match parse_u64(t) {
            Some(v) => if v <= i64::MAX as u64 {
                Some(v as i64)
            } else {
                None
            },
            None => None,
        }
    }
}


/// The ASCII character of a decimal digit.
pub open spec fn spec_digit_char(d: nat) -> char {
    if d == 0 {
        '0'
    } else if d == 1 {
        '1'
    } else if d == 2 {
        '2'
    } else if d == 3 {
        '3'
    } else if d == 4 {
        '4'
    } else if d == 5 {
        '5'
    } else if d == 6 {
        '6'
    } else if d == 7 {
        '7'
    } else if d == 8 {
        '8'
    } else {
        '9'
    }
}

/// The decimal digits of `n`, most significant first, without leading zeros.
pub open spec fn spec_decimal(n: nat) -> Seq<char>
    decreases n,
{
    if n < 10 {
        seq![spec_digit_char(n)]
    } else {
        spec_decimal(n / 10).push(spec_digit_char(n % 10))
    }
}

/// How `i64` is displayed: a `-` for negative values, then the decimal
/// digits of the magnitude.
pub open spec fn spec_format_i64(x: i64) -> Seq<char> {
    if x < 0 {
        seq!['-'] + spec_decimal((0 - x) as nat)
    } else {
        spec_decimal(x as nat)
    }
}

/// A digit's character is an ASCII digit worth that digit.
proof fn lemma_digit_char(d: nat)
    requires
        d < 10,
    ensures
        '0' <= spec_digit_char(d) <= '9',
        (spec_digit_char(d) as u32 - '0' as u32) as nat == d,
{
}

/// The digits of `n` are digits, and read back as `n`.
pub proof fn lemma_decimal(n: nat)
    ensures
        spec_decimal(n).len() >= 1,
        spec_all_digits(spec_decimal(n)),
        spec_digits_value(spec_decimal(n)) == n,
    decreases n,
{
    lemma_digit_char(n % 10);
    if n >= 10 {
        lemma_decimal(n / 10);
        let d = spec_decimal(n);
        assert(d.last() == spec_digit_char(n % 10));
        assert(n == (n / 10) * 10 + n % 10);
        assert(d.drop_last() =~= spec_decimal(n / 10));
        assert forall|i: int| 0 <= i < d.len() implies '0' <= #[trigger] d[i] <= '9' by {
            if i < d.len() - 1 {
                assert(d[i] == spec_decimal(n / 10)[i]);
            }
        }
        assert(spec_digits_value(d) == spec_digits_value(spec_decimal(n / 10)) * 10 + (n % 10));
    } else {
        let d = spec_decimal(n);
        assert(d.drop_last() =~= Seq::<char>::empty());
        assert(spec_digits_value(d) == spec_digits_value(d.drop_last()) * 10 + n);
    }
}

/// The character of one decimal digit.
fn digit_char(d: u128) -> (c: char)
    requires
        d < 10,
    ensures
        c == spec_digit_char(d as nat),
{
    if d == 0 {
        '0'
    } else if d == 1 {
        '1'
    } else if d == 2 {
        '2'
    } else if d == 3 {
        '3'
    } else if d == 4 {
        '4'
    } else if d == 5 {
        '5'
    } else if d == 6 {
        '6'
    } else if d == 7 {
        '7'
    } else if d == 8 {
        '8'
    } else {
        '9'
    }
}

/// Appends the decimal digits of `n`.
fn push_decimal(out: &mut Vec<char>, n: u128)
    ensures
        final(out)@ == old(out)@ + spec_decimal(n as nat),
    decreases n,
{
    if n >= 10 {
        push_decimal(out, n / 10);
    }
    let c = digit_char(n % 10);
    out.push(c);
    proof {
        if n >= 10 {
            assert(final(out)@ =~= old(out)@ + spec_decimal(n as nat));
        } else {
            assert(final(out)@ =~= old(out)@ + spec_decimal(n as nat));
        }
    }
}

/// Writes an `i64` in decimal, as its `Display` does.
pub fn format_i64(x: i64) -> (res: String)
    ensures
        res@ == spec_format_i64(x),
{
    let mut out: Vec<char> = Vec::new();
    if x < 0 {
        out.push('-');
        let m: u128 = (0i128 - (x as i128)) as u128;
        push_decimal(&mut out, m);
        proof {
            assert(out@ =~= seq!['-'] + spec_decimal((0 - x) as nat));
        }
    } else {
        push_decimal(&mut out, x as u128);
        proof {
            assert(out@ =~= spec_decimal(x as nat));
        }
    }
    string_from_chars(out.as_slice())
}

/// Writes a `u128` in decimal, as its `Display` does.
pub fn format_u128(x: u128) -> (res: String)
    ensures
        res@ == spec_decimal(x as nat),
{
    let mut out: Vec<char> = Vec::new();
    push_decimal(&mut out, x);
    proof {
        assert(out@ =~= spec_decimal(x as nat));
    }
    string_from_chars(out.as_slice())
}

/// Reading back what `format_i64` writes gives the same number.
pub proof fn law_parse_format_i64(x: i64)
    ensures
        spec_parse_i64(spec_format_i64(x)) == Some(x),
{
    if x < 0 {
        let m = (0 - x) as nat;
        lemma_decimal(m);
        let t = spec_format_i64(x);
        assert(t.drop_first() =~= spec_decimal(m));
    } else {
        lemma_decimal(x as nat);
        let d = spec_decimal(x as nat);
        assert('0' <= d[0] <= '9');
    }
}

} // verus!
