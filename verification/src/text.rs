//! Character-level text handling: the pieces of `str` behaviour that the
//! rest of the library relies on, stated over `Seq<char>` and implemented
//! over `Vec<char>`.
use vstd::prelude::*;

verus! {

/// The characters of `s`, in order.
pub fn chars_of(s: &str) -> (res: Vec<char>)
    ensures
        res@ == s@,
{
    let mut res: Vec<char> = Vec::new();
    for c in it: s.chars()
        invariant
            res@ == it.seq().take(it.index()),
    {
        res.push(c);
        proof {
            assert(it.seq().take(it.index() + 1) =~= it.seq().take(it.index()).push(c));
        }
    }
    proof {
        broadcast use vstd::string::group_string_axioms;
        assert(res@ =~= s@);
    }
    res
}

/// `Iterator::collect` of the characters of `v` into a `String`: a string
/// holding exactly those characters, in order.
#[verifier::external_body]
pub(crate) fn string_of(v: &[char]) -> (res: String)
    ensures
        res@ == v@,
{
    v.iter().collect()
}

/// Whether the two character sequences are equal.
pub fn same(a: &[char], b: &[char]) -> (r: bool)
    ensures
        r == (a@ == b@),
{
    if a.len() != b.len() {
        return false;
    }
    let mut i: usize = 0;
    while i < a.len()
        invariant
            a.len() == b.len(),
            i <= a.len(),
            forall|j: int| 0 <= j < i ==> a@[j] == b@[j],
        decreases a.len() - i,
    {
        if a[i] != b[i] {
            return false;
        }
        i = i + 1;
    }
    assert(a@ =~= b@);
    true
}

/// `s` begins with `p`.
pub open spec fn has_prefix(s: Seq<char>, p: Seq<char>) -> bool {
    p.len() <= s.len() && s.take(p.len() as int) == p
}

/// `s` ends with `p`.
pub open spec fn has_suffix(s: Seq<char>, p: Seq<char>) -> bool {
    p.len() <= s.len() && s.skip(s.len() - p.len()) == p
}

/// `p` occurs in `s` starting at index `i`.
pub open spec fn occurs_at(s: Seq<char>, p: Seq<char>, i: int) -> bool {
    0 <= i && i + p.len() <= s.len() && s.subrange(i, i + p.len() as int) == p
}

/// `p` occurs somewhere in `s`.
pub open spec fn has_infix(s: Seq<char>, p: Seq<char>) -> bool {
    exists|i: int| occurs_at(s, p, i)
}

fn matches_at(s: &[char], p: &[char], i: usize) -> (r: bool)
    requires
        i <= s.len(),
    ensures
        r == occurs_at(s@, p@, i as int),
{
    if p.len() > s.len() - i {
        return false;
    }
    let mut k: usize = 0;
    while k < p.len()
        invariant
            i + p.len() <= s.len(),
            k <= p.len(),
            forall|j: int| 0 <= j < k ==> s@[i + j] == p@[j],
        decreases p.len() - k,
    {
        if s[i + k] != p[k] {
            assert(s@.subrange(i as int, i + p.len())[k as int] != p@[k as int]);
            return false;
        }
        k = k + 1;
    }
    assert(s@.subrange(i as int, i + p.len()) =~= p@);
    true
}

pub fn starts_with(s: &[char], p: &[char]) -> (r: bool)
    ensures
        r == has_prefix(s@, p@),
{
    let r = matches_at(s, p, 0);
    proof {
        if p@.len() <= s@.len() {
            assert(s@.subrange(0, p@.len() as int) == s@.take(p@.len() as int));
        }
    }
    r
}

pub fn ends_with(s: &[char], p: &[char]) -> (r: bool)
    ensures
        r == has_suffix(s@, p@),
{
    if p.len() > s.len() {
        return false;
    }
    let r = matches_at(s, p, s.len() - p.len());
    proof {
        assert(s@.subrange(s@.len() - p@.len(), s@.len() as int) == s@.skip(s@.len() - p@.len()));
    }
    r
}

pub fn contains(s: &[char], p: &[char]) -> (r: bool)
    ensures
        r == has_infix(s@, p@),
{
    let mut i: usize = 0;
    loop
        invariant
            i <= s.len(),
            forall|j: int| 0 <= j < i ==> !occurs_at(s@, p@, j),
        ensures
            forall|j: int| 0 <= j <= s.len() ==> !occurs_at(s@, p@, j),
        decreases s.len() - i,
    {
        if matches_at(s, p, i) {
            return true;
        }
        if i == s.len() {
            break;
        }
        i = i + 1;
    }
    assert forall|j: int| !occurs_at(s@, p@, j) by {
        if 0 <= j && j <= s.len() {
        }
    }
    false
}

/// The characters of `s` from index `from` up to `to`.
pub fn slice_chars(s: &[char], from: usize, to: usize) -> (res: Vec<char>)
    requires
        from <= to <= s.len(),
    ensures
        res@ == s@.subrange(from as int, to as int),
{
    let mut res: Vec<char> = Vec::new();
    let mut i = from;
    while i < to
        invariant
            from <= i <= to <= s.len(),
            res@ == s@.subrange(from as int, i as int),
        decreases to - i,
    {
        res.push(s[i]);
        i = i + 1;
        assert(res@ =~= s@.subrange(from as int, i as int));
    }
    res
}

/// `a` followed by `b`.
pub fn concat(a: &[char], b: &[char]) -> (res: Vec<char>)
    ensures
        res@ == a@ + b@,
{
    let mut res: Vec<char> = Vec::new();
    res.extend_from_slice(a);
    res.extend_from_slice(b);
    assert(res@ =~= a@ + b@);
    res
}

/// Unicode `White_Space`, the set of characters that `char::is_whitespace`
/// accepts and that `str::trim` removes.
pub open spec fn is_space(c: char) -> bool {
    let n = c as u32;
    ||| 0x09 <= n <= 0x0D
    ||| n == 0x20
    ||| n == 0x85
    ||| n == 0xA0
    ||| n == 0x1680
    ||| 0x2000 <= n <= 0x200A
    ||| n == 0x2028
    ||| n == 0x2029
    ||| n == 0x202F
    ||| n == 0x205F
    ||| n == 0x3000
}

pub fn is_space_char(c: char) -> (r: bool)
    ensures
        r == is_space(c),
{
    let n = c as u32;
    (0x09 <= n && n <= 0x0D) || n == 0x20 || n == 0x85 || n == 0xA0 || n == 0x1680 || (0x2000
        <= n && n <= 0x200A) || n == 0x2028 || n == 0x2029 || n == 0x202F || n == 0x205F || n
        == 0x3000
}

/// `s` without its leading white space.
pub open spec fn trim_start_seq(s: Seq<char>) -> Seq<char>
    decreases s.len(),
{
    if s.len() > 0 && is_space(s[0]) {
        trim_start_seq(s.drop_first())
    } else {
        s
    }
}

/// `s` without its trailing white space.
pub open spec fn trim_end_seq(s: Seq<char>) -> Seq<char>
    decreases s.len(),
{
    if s.len() > 0 && is_space(s.last()) {
        trim_end_seq(s.drop_last())
    } else {
        s
    }
}

/// `s` without leading or trailing white space, as `str::trim` gives it.
pub open spec fn trim_seq(s: Seq<char>) -> Seq<char> {
    trim_end_seq(trim_start_seq(s))
}

proof fn lemma_trim_start_at(s: Seq<char>, k: int)
    requires
        0 <= k <= s.len(),
        forall|j: int| 0 <= j < k ==> is_space(#[trigger] s[j]),
        k == s.len() || !is_space(s[k]),
    ensures
        trim_start_seq(s) == s.skip(k),
    decreases k,
{
    if k == 0 {
        assert(s.skip(0) =~= s);
    } else {
        let t = s.drop_first();
        assert forall|j: int| 0 <= j < k - 1 implies is_space(#[trigger] t[j]) by {
            assert(t[j] == s[j + 1]);
        }
        lemma_trim_start_at(t, k - 1);
        assert(t.skip(k - 1) =~= s.skip(k));
    }
}

proof fn lemma_trim_end_at(s: Seq<char>, k: int)
    requires
        0 <= k <= s.len(),
        forall|j: int| k <= j < s.len() ==> is_space(#[trigger] s[j]),
        k == 0 || !is_space(s[k - 1]),
    ensures
        trim_end_seq(s) == s.take(k),
    decreases s.len() - k,
{
    if k == s.len() {
        assert(s.take(k) =~= s);
    } else {
        let t = s.drop_last();
        assert forall|j: int| k <= j < t.len() implies is_space(#[trigger] t[j]) by {
            assert(t[j] == s[j]);
        }
        lemma_trim_end_at(t, k);
        assert(t.take(k) =~= s.take(k));
    }
}

/// `s` without leading and trailing white space.
pub fn trim(s: &[char]) -> (res: Vec<char>)
    ensures
        res@ == trim_seq(s@),
{
    let mut a: usize = 0;
    while a < s.len() && is_space_char(s[a])
        invariant
            a <= s.len(),
            forall|j: int| 0 <= j < a ==> is_space(#[trigger] s@[j]),
        decreases s.len() - a,
    {
        a = a + 1;
    }
    let mut b: usize = s.len();
    while b > a && is_space_char(s[b - 1])
        invariant
            a <= b <= s.len(),
            forall|j: int| b <= j < s.len() ==> is_space(#[trigger] s@[j]),
        decreases b,
    {
        b = b - 1;
    }
    proof {
        lemma_trim_start_at(s@, a as int);
        let t = s@.skip(a as int);
        assert forall|j: int| b - a <= j < t.len() implies is_space(#[trigger] t[j]) by {
            assert(t[j] == s@[j + a]);
        }
        if b > a {
            assert(t[b - a - 1] == s@[b - 1]);
        }
        lemma_trim_end_at(t, b - a);
        assert(t.take(b - a) =~= s@.subrange(a as int, b as int));
    }
    slice_chars(s, a, b)
}

/// Position of the first `c` in `s`, or the length of `s` when there is none.
pub open spec fn index_of_char(s: Seq<char>, c: char) -> nat
    decreases s.len(),
{
    if s.len() == 0 {
        0
    } else if s[0] == c {
        0
    } else {
        1 + index_of_char(s.drop_first(), c)
    }
}

/// A line with one trailing carriage return removed.
pub open spec fn strip_cr(l: Seq<char>) -> Seq<char> {
    if l.len() > 0 && l.last() == '\r' {
        l.drop_last()
    } else {
        l
    }
}

/// The text of an optional string.
pub open spec fn opt_view(o: Option<String>) -> Option<Seq<char>> {
    match o {
        Some(s) => Some(s@),
        None => None,
    }
}

/// The lines of `s` as `str::lines` yields them: `s` is cut after each line
/// feed, the line feed and a carriage return just before it are dropped, and
/// a final line without a line feed is kept as it stands.
pub open spec fn lines_seq(s: Seq<char>) -> Seq<Seq<char>>
    decreases s.len(),
{
    if s.len() == 0 {
        Seq::empty()
    } else {
        let k = index_of_char(s, '\n');
        if k < s.len() {
            seq![strip_cr(s.take(k as int))] + lines_seq(s.skip(k + 1 as int))
        } else {
            seq![s]
        }
    }
}

/// The character sequences held by a vector of lines.
pub open spec fn views(v: Seq<Vec<char>>) -> Seq<Seq<char>> {
    v.map_values(|l: Vec<char>| l@)
}

proof fn lemma_index_of_char(t: Seq<char>, c: char, m: int)
    requires
        0 <= m <= t.len(),
        forall|j: int| 0 <= j < m ==> #[trigger] t[j] != c,
        m == t.len() || t[m] == c,
    ensures
        index_of_char(t, c) == m,
    decreases m,
{
    if m > 0 {
        let u = t.drop_first();
        assert forall|j: int| 0 <= j < m - 1 implies #[trigger] u[j] != c by {
            assert(u[j] == t[j + 1]);
        }
        lemma_index_of_char(u, c, m - 1);
    }
}

proof fn lemma_index_of_char_bounds(s: Seq<char>, c: char)
    ensures
        index_of_char(s, c) <= s.len(),
        index_of_char(s, c) < s.len() ==> s[index_of_char(s, c) as int] == c,
        forall|j: int| 0 <= j < index_of_char(s, c) ==> #[trigger] s[j] != c,
    decreases s.len(),
{
    if s.len() > 0 && s[0] != c {
        let u = s.drop_first();
        lemma_index_of_char_bounds(u, c);
        assert forall|j: int| 0 <= j < index_of_char(s, c) implies #[trigger] s[j] != c by {
            if j > 0 {
                assert(s[j] == u[j - 1]);
            }
        }
    }
}

/// A line appended to text made of whole lines is read back as the last
/// line: where `before` is empty or ends with a line feed and `line` holds
/// no line feed, the lines of `before`, `line` and a line feed are those of
/// `before` followed by `line` (less a carriage return at its end).
pub proof fn lemma_lines_after_whole_lines(before: Seq<char>, line: Seq<char>)
    requires
        before.len() == 0 || before.last() == '\n',
        forall|i: int| 0 <= i < line.len() ==> #[trigger] line[i] != '\n',
    ensures
        lines_seq(before + line + seq!['\n']) == lines_seq(before) + seq![strip_cr(line)],
    decreases before.len(),
{
    let s = before + line + seq!['\n'];
    if before.len() == 0 {
        assert(s =~= line + seq!['\n']);
        assert forall|j: int| 0 <= j < line.len() implies #[trigger] s[j] != '\n' by {
            assert(s[j] == line[j]);
        }
        lemma_index_of_char(s, '\n', line.len() as int);
        assert(s.take(line.len() as int) =~= line);
        assert(s.skip(line.len() as int + 1) =~= Seq::<char>::empty());
        let n = line.len() as int;
        assert(lines_seq(Seq::<char>::empty()) =~= Seq::<Seq<char>>::empty());
        assert(lines_seq(s) == seq![strip_cr(s.take(n))] + lines_seq(s.skip(n + 1)));
        assert(lines_seq(before) =~= Seq::<Seq<char>>::empty());
        assert(lines_seq(s) =~= seq![strip_cr(line)]);
    } else {
        lemma_index_of_char_bounds(before, '\n');
        let k = index_of_char(before, '\n') as int;
        if k == before.len() {
            assert(before[before.len() - 1] != '\n');
        }
        assert(k < before.len());
        assert forall|j: int| 0 <= j < k implies #[trigger] s[j] != '\n' by {
            assert(s[j] == before[j]);
        }
        assert(s[k] == before[k]);
        lemma_index_of_char(s, '\n', k);
        let rest = before.skip(k + 1);
        assert(s.take(k) =~= before.take(k));
        assert(s.skip(k + 1) =~= rest + line + seq!['\n']);
        if rest.len() > 0 {
            assert(rest.last() == before.last());
        }
        lemma_lines_after_whole_lines(rest, line);
        assert(lines_seq(before) == seq![strip_cr(before.take(k))] + lines_seq(rest));
        assert(lines_seq(s) == seq![strip_cr(before.take(k))] + lines_seq(rest + line + seq!['\n']));
        assert(lines_seq(s) =~= lines_seq(before) + seq![strip_cr(line)]);
    }
}

/// The lines of `s`.
pub fn lines(s: &[char]) -> (res: Vec<Vec<char>>)
    ensures
        views(res@) == lines_seq(s@),
{
    let mut res: Vec<Vec<char>> = Vec::new();
    let mut start: usize = 0;
    proof {
        assert(s@.skip(0) =~= s@);
        assert(views(res@) + lines_seq(s@) =~= lines_seq(s@));
    }
    while start < s.len()
        invariant
            start <= s.len(),
            lines_seq(s@) == views(res@) + lines_seq(s@.skip(start as int)),
        decreases s.len() - start,
    {
        let mut e = start;
        while e < s.len() && s[e] != '\n'
            invariant
                start <= e <= s.len(),
                forall|j: int| start <= j < e ==> #[trigger] s@[j] != '\n',
            decreases s.len() - e,
        {
            e = e + 1;
        }
        let ghost t = s@.skip(start as int);
        proof {
            assert forall|j: int| 0 <= j < e - start implies #[trigger] t[j] != '\n' by {
                assert(t[j] == s@[start + j]);
            }
            if e < s.len() {
                assert(t[e - start] == s@[e as int]);
            }
            lemma_index_of_char(t, '\n', e - start);
        }
        let mut line = slice_chars(s, start, e);
        let ghost old_res = res@;
        if e < s.len() {
            if line.len() > 0 && line[line.len() - 1] == '\r' {
                line.pop();
            }
            proof {
                assert(t.take(e - start) =~= s@.subrange(start as int, e as int));
                assert(t.skip(e - start + 1) =~= s@.skip(e + 1));
                assert(line@ == strip_cr(s@.subrange(start as int, e as int)));
            }
            res.push(line);
            start = e + 1;
        } else {
            proof {
                assert(t =~= s@.subrange(start as int, e as int));
                assert(s@.skip(e as int) =~= Seq::<char>::empty());
            }
            res.push(line);
            start = e;
        }
        proof {
            assert(views(res@) =~= views(old_res).push(res@.last()@));
        }
    }
    res
}

/// `s` with each occurrence of `pat` replaced by `rep`, scanning from the
/// left, as `str::replace` does.
pub open spec fn replace_seq(s: Seq<char>, pat: Seq<char>, rep: Seq<char>) -> Seq<char>
    decreases s.len(),
{
    if s.len() == 0 || pat.len() == 0 {
        s
    } else if has_prefix(s, pat) {
        rep + replace_seq(s.skip(pat.len() as int), pat, rep)
    } else {
        seq![s[0]] + replace_seq(s.drop_first(), pat, rep)
    }
}

/// `s` with every occurrence of `pat` replaced by `rep`.
pub fn replace_all(s: &[char], pat: &[char], rep: &[char]) -> (res: Vec<char>)
    requires
        pat.len() > 0,
    ensures
        res@ == replace_seq(s@, pat@, rep@),
{
    let mut res: Vec<char> = Vec::new();
    let mut i: usize = 0;
    proof {
        assert(s@.skip(0) =~= s@);
        assert(res@ + replace_seq(s@, pat@, rep@) =~= replace_seq(s@, pat@, rep@));
    }
    while i < s.len()
        invariant
            i <= s.len(),
            pat.len() > 0,
            replace_seq(s@, pat@, rep@) == res@ + replace_seq(s@.skip(i as int), pat@, rep@),
        decreases s.len() - i,
    {
        let ghost t = s@.skip(i as int);
        let ghost old_res = res@;
        if matches_at(s, pat, i) {
            proof {
                assert(t.take(pat@.len() as int) =~= s@.subrange(i as int, i + pat@.len()));
                assert(t.skip(pat@.len() as int) =~= s@.skip(i + pat@.len()));
            }
            res.extend_from_slice(rep);
            i = i + pat.len();
            proof {
                assert(res@ =~= old_res + rep@);
            }
        } else {
            proof {
                if has_prefix(t, pat@) {
                    assert(t.take(pat@.len() as int) =~= s@.subrange(i as int, i + pat@.len()));
                }
                assert(t.drop_first() =~= s@.skip(i + 1));
                assert(t[0] == s@[i as int]);
            }
            res.push(s[i]);
            i = i + 1;
            proof {
                assert(res@ =~= old_res + seq![t[0]]);
            }
        }
    }
    proof {
        assert(s@.skip(i as int) =~= Seq::<char>::empty());
        assert(res@ + Seq::<char>::empty() =~= res@);
    }
    res
}

/// The value of a run of decimal digits.
pub open spec fn digits_value(d: Seq<char>) -> nat
    decreases d.len(),
{
    if d.len() == 0 {
        0
    } else {
        digits_value(d.drop_last()) * 10 + ((d.last() as u32) - ('0' as u32)) as nat
    }
}

pub open spec fn is_digit(c: char) -> bool {
    '0' <= c <= '9'
}

pub open spec fn all_digits(d: Seq<char>) -> bool {
    forall|i: int| 0 <= i < d.len() ==> is_digit(#[trigger] d[i])
}

/// What `str::parse::<u64>` gives: an optional `+`, then at least one
/// decimal digit and nothing else, of a value that fits in `u64`.
pub open spec fn parse_u64_seq(s: Seq<char>) -> Option<u64> {
    let d = if s.len() > 0 && s[0] == '+' {
        s.drop_first()
    } else {
        s
    };
    if d.len() > 0 && all_digits(d) && digits_value(d) <= u64::MAX {
        Some(digits_value(d) as u64)
    } else {
        None
    }
}

proof fn lemma_digits_value_grows(d: Seq<char>, j: int)
    requires
        0 <= j <= d.len(),
        all_digits(d),
    ensures
        digits_value(d.take(j)) <= digits_value(d),
    decreases d.len() - j,
{
    if j < d.len() {
        let e = d.drop_last();
        assert(all_digits(e)) by {
            assert forall|i: int| 0 <= i < e.len() implies is_digit(#[trigger] e[i]) by {
                assert(e[i] == d[i]);
            }
        }
        lemma_digits_value_grows(e, j);
        assert(e.take(j) =~= d.take(j));
    } else {
        assert(d.take(j) =~= d);
    }
}

/// Parses a decimal `u64` the way `str::parse::<u64>` does.
pub fn parse_u64(s: &[char]) -> (res: Option<u64>)
    ensures
        res == parse_u64_seq(s@),
{
    let start: usize = if s.len() > 0 && s[0] == '+' {
        1
    } else {
        0
    };
    let ghost d = if s@.len() > 0 && s@[0] == '+' {
        s@.drop_first()
    } else {
        s@
    };
    proof {
        assert(d =~= s@.skip(start as int));
    }
    if start >= s.len() {
        return None;
    }
    let mut v: u64 = 0;
    let mut i = start;
    while i < s.len()
        invariant
            start <= i <= s.len(),
            d == s@.skip(start as int),
            d.len() > 0,
            parse_u64_seq(s@) == (if all_digits(d) && digits_value(d) <= u64::MAX {
                Some(digits_value(d) as u64)
            } else {
                None
            }),
            all_digits(d.take(i - start)),
            v as nat == digits_value(d.take(i - start)),
        decreases s.len() - i,
    {
        let c = s[i];
        if !('0' <= c && c <= '9') {
            proof {
                assert(d[i - start] == c);
                assert(!is_digit(d[i - start]));
                assert(!all_digits(d));
            }
            return None;
        }
        let digit = (c as u32 - '0' as u32) as u64;
        let ghost pre = d.take(i - start);
        let ghost next = d.take(i - start + 1);
        proof {
            assert(next.drop_last() =~= pre);
            assert(next.last() == c);
            assert(all_digits(next)) by {
                assert forall|k: int| 0 <= k < next.len() implies is_digit(#[trigger] next[k]) by {
                    if k < pre.len() {
                        assert(next[k] == pre[k]);
                    }
                }
            }
        }
        match v.checked_mul(10) {
            Some(m) => match m.checked_add(digit) {
                Some(n) => {
                    v = n;
                },
                None => {
                    proof {
                        parse_overflow(s@, d, start as int, i as int, next);
                    }
                    return None;
                },
            },
            None => {
                proof {
                    parse_overflow(s@, d, start as int, i as int, next);
                }
                return None;
            },
        }
        i = i + 1;
    }
    proof {
        assert(d.take(i - start) =~= d);
    }
    Some(v)
}

proof fn parse_overflow(s: Seq<char>, d: Seq<char>, start: int, i: int, next: Seq<char>)
    requires
        0 <= start <= i < s.len(),
        d == s.skip(start),
        next == d.take(i - start + 1),
        all_digits(next),
        digits_value(next) > u64::MAX,
    ensures
        !(all_digits(d) && digits_value(d) <= u64::MAX),
{
    if all_digits(d) {
        lemma_digits_value_grows(d, i - start + 1);
        assert(digits_value(d) > u64::MAX);
    }
}

/// `s` with every leading repetition of `p` removed, as
/// `str::trim_start_matches` gives it.
pub open spec fn strip_all_prefix(s: Seq<char>, p: Seq<char>) -> Seq<char>
    decreases s.len(),
{
    if p.len() > 0 && has_prefix(s, p) {
        strip_all_prefix(s.skip(p.len() as int), p)
    } else {
        s
    }
}

/// `s` with every trailing repetition of `p` removed, as
/// `str::trim_end_matches` gives it.
pub open spec fn strip_all_suffix(s: Seq<char>, p: Seq<char>) -> Seq<char>
    decreases s.len(),
{
    if p.len() > 0 && has_suffix(s, p) {
        strip_all_suffix(s.take(s.len() - p.len()), p)
    } else {
        s
    }
}

pub fn trim_start_matches(s: &[char], p: &[char]) -> (res: Vec<char>)
    ensures
        res@ == strip_all_prefix(s@, p@),
{
    let mut i: usize = 0;
    if p.len() == 0 {
        return slice_chars(s, 0, s.len());
    }
    proof {
        assert(s@.skip(0) =~= s@);
    }
    while i < s.len() && matches_at(s, p, i)
        invariant
            i <= s.len(),
            p.len() > 0,
            strip_all_prefix(s@, p@) == strip_all_prefix(s@.skip(i as int), p@),
        decreases s.len() - i,
    {
        proof {
            let t = s@.skip(i as int);
            assert(t.take(p@.len() as int) =~= s@.subrange(i as int, i + p@.len()));
            assert(t.skip(p@.len() as int) =~= s@.skip(i + p@.len()));
        }
        i = i + p.len();
    }
    proof {
        let t = s@.skip(i as int);
        if i < s.len() && has_prefix(t, p@) {
            assert(t.take(p@.len() as int) =~= s@.subrange(i as int, i + p@.len()));
        }
        if i == s.len() {
            assert(t.len() == 0);
        }
        assert(s@.subrange(i as int, s@.len() as int) =~= t);
    }
    slice_chars(s, i, s.len())
}

pub fn trim_end_matches(s: &[char], p: &[char]) -> (res: Vec<char>)
    ensures
        res@ == strip_all_suffix(s@, p@),
{
    if p.len() == 0 {
        return slice_chars(s, 0, s.len());
    }
    let mut e: usize = s.len();
    proof {
        assert(s@.take(s@.len() as int) =~= s@);
    }
    while e >= p.len() && matches_at(s, p, e - p.len())
        invariant
            e <= s.len(),
            p.len() > 0,
            strip_all_suffix(s@, p@) == strip_all_suffix(s@.take(e as int), p@),
        decreases e,
    {
        proof {
            let t = s@.take(e as int);
            assert(t.skip(t.len() - p@.len()) =~= s@.subrange(e - p@.len(), e as int));
            assert(t.take(t.len() - p@.len()) =~= s@.take(e - p@.len()));
        }
        e = e - p.len();
    }
    proof {
        let t = s@.take(e as int);
        if e >= p.len() && has_suffix(t, p@) {
            assert(t.skip(t.len() - p@.len()) =~= s@.subrange(e - p@.len(), e as int));
        }
        assert(s@.subrange(0, e as int) =~= t);
    }
    slice_chars(s, 0, e)
}

/// `s` without the prefix `p`, if it has it (`str::strip_prefix`).
pub open spec fn strip_prefix_spec(s: Seq<char>, p: Seq<char>) -> Option<Seq<char>> {
    if has_prefix(s, p) {
        Some(s.skip(p.len() as int))
    } else {
        None
    }
}

/// `s` without the suffix `p`, if it has it (`str::strip_suffix`).
pub open spec fn strip_suffix_spec(s: Seq<char>, p: Seq<char>) -> Option<Seq<char>> {
    if has_suffix(s, p) {
        Some(s.take(s.len() - p.len()))
    } else {
        None
    }
}

pub fn strip_prefix(s: &[char], p: &[char]) -> (res: Option<Vec<char>>)
    ensures
        match res {
            Some(r) => strip_prefix_spec(s@, p@) == Some(r@),
            None => strip_prefix_spec(s@, p@) is None,
        },
{
    if starts_with(s, p) {
        let r = slice_chars(s, p.len(), s.len());
        assert(r@ =~= s@.skip(p@.len() as int));
        Some(r)
    } else {
        None
    }
}

pub fn strip_suffix(s: &[char], p: &[char]) -> (res: Option<Vec<char>>)
    ensures
        match res {
            Some(r) => strip_suffix_spec(s@, p@) == Some(r@),
            None => strip_suffix_spec(s@, p@) is None,
        },
{
    if ends_with(s, p) {
        let r = slice_chars(s, 0, s.len() - p.len());
        assert(r@ =~= s@.take(s@.len() - p@.len()));
        Some(r)
    } else {
        None
    }
}

/// The code of the ASCII lower-case form of `c` (other characters keep
/// their code).
pub open spec fn ascii_lower(c: char) -> u32 {
    if 'A' <= c <= 'Z' {
        ((c as u32) + 32) as u32
    } else {
        c as u32
    }
}

/// Equal up to ASCII case, as `str::eq_ignore_ascii_case` decides.
pub open spec fn eq_ignore_ascii_case_spec(a: Seq<char>, b: Seq<char>) -> bool {
    a.len() == b.len() && forall|i: int| 0 <= i < a.len() ==> ascii_lower(a[i]) == ascii_lower(b[i])
}

fn lower(c: char) -> (r: u32)
    ensures
        r == ascii_lower(c),
{
    if 'A' <= c && c <= 'Z' {
        c as u32 + 32
    } else {
        c as u32
    }
}

pub fn eq_ignore_ascii_case(a: &[char], b: &[char]) -> (r: bool)
    ensures
        r == eq_ignore_ascii_case_spec(a@, b@),
{
    if a.len() != b.len() {
        return false;
    }
    let mut i: usize = 0;
    while i < a.len()
        invariant
            a.len() == b.len(),
            i <= a.len(),
            forall|j: int| 0 <= j < i ==> ascii_lower(a@[j]) == ascii_lower(b@[j]),
        decreases a.len() - i,
    {
        if lower(a[i]) != lower(b[i]) {
            return false;
        }
        i = i + 1;
    }
    true
}

/// The text of bytes decoded as UTF-8, each invalid sequence replaced by
/// U+FFFD (what `String::from_utf8_lossy` gives).
pub uninterp spec fn lossy_utf8(bytes: Seq<u8>) -> Seq<char>;

/// `String::from_utf8_lossy`, made an owned `String`: the bytes decoded as
/// UTF-8, named by [`lossy_utf8`].
#[verifier::external_body]
pub(crate) fn utf8_lossy(bytes: &[u8]) -> (res: String)
    ensures
        res@ == lossy_utf8(bytes@),
{
    String::from_utf8_lossy(bytes).to_string()
}

} // verus!
