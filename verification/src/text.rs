//! Character-level string operations with their mathematical meaning.
//!
//! Strings are viewed as `Seq<char>`; the executable helpers work on
//! `Vec<char>` and convert to and from `String` at the edges.
use vstd::prelude::*;

verus! {

/// Unicode `White_Space`, the property that `char::is_whitespace` tests.
pub open spec fn is_space(c: char) -> bool {
    ||| ('\u{9}' <= c && c <= '\u{d}')
    ||| c == ' '
    ||| c == '\u{85}'
    ||| c == '\u{a0}'
    ||| c == '\u{1680}'
    ||| ('\u{2000}' <= c && c <= '\u{200a}')
    ||| c == '\u{2028}'
    ||| c == '\u{2029}'
    ||| c == '\u{202f}'
    ||| c == '\u{205f}'
    ||| c == '\u{3000}'
}

pub fn is_whitespace(c: char) -> (r: bool)
    ensures
        r == is_space(c),
{
    ('\u{9}' <= c && c <= '\u{d}') || c == ' ' || c == '\u{85}' || c == '\u{a0}' || c == '\u{1680}'
        || ('\u{2000}' <= c && c <= '\u{200a}') || c == '\u{2028}' || c == '\u{2029}' || c
        == '\u{202f}' || c == '\u{205f}' || c == '\u{3000}'
}

pub open spec fn is_ascii_digit(c: char) -> bool {
    '0' <= c && c <= '9'
}

pub open spec fn is_ascii_alpha(c: char) -> bool {
    ('a' <= c && c <= 'z') || ('A' <= c && c <= 'Z')
}

/// `char::to_ascii_lowercase`.
pub open spec fn lower_char(c: char) -> char {
    if 'A' <= c && c <= 'Z' {
        ((c as u32) + 32) as char
    } else {
        c
    }
}

pub open spec fn lower(s: Seq<char>) -> Seq<char> {
    s.map_values(|c: char| lower_char(c))
}

/// Number of bytes of the UTF-8 encoding of `c`.
pub open spec fn utf8_width(c: char) -> nat {
    if (c as u32) < 0x80 {
        1
    } else if (c as u32) < 0x800 {
        2
    } else if (c as u32) < 0x10000 {
        3
    } else {
        4
    }
}

/// Number of bytes of the UTF-8 encoding of `s` (what `str::len` returns).
pub open spec fn utf8_len(s: Seq<char>) -> nat
    decreases s.len(),
{
    if s.len() == 0 {
        0
    } else {
        utf8_len(s.drop_last()) + utf8_width(s.last())
    }
}

/// `str::trim_start`.
pub open spec fn trim_start(s: Seq<char>) -> Seq<char>
    decreases s.len(),
{
    if s.len() > 0 && is_space(s[0]) {
        trim_start(s.drop_first())
    } else {
        s
    }
}

/// `str::trim_end`.
pub open spec fn trim_end(s: Seq<char>) -> Seq<char>
    decreases s.len(),
{
    if s.len() > 0 && is_space(s.last()) {
        trim_end(s.drop_last())
    } else {
        s
    }
}

/// `str::trim`.
pub open spec fn trim(s: Seq<char>) -> Seq<char> {
    trim_end(trim_start(s))
}

pub open spec fn starts_with(s: Seq<char>, p: Seq<char>) -> bool {
    p.len() <= s.len() && s.subrange(0, p.len() as int) == p
}

pub open spec fn ends_with(s: Seq<char>, p: Seq<char>) -> bool {
    p.len() <= s.len() && s.subrange(s.len() - p.len(), s.len() as int) == p
}

/// `s` holds `p` as a contiguous piece.
pub open spec fn contains(s: Seq<char>, p: Seq<char>) -> bool {
    exists|i: int| 0 <= i && i + p.len() <= s.len() && #[trigger] s.subrange(i, i + p.len()) == p
}

/// `str::trim_start_matches` with a non-empty string pattern: strips the
/// pattern from the front as often as it occurs there.
pub open spec fn strip_all_prefix(s: Seq<char>, p: Seq<char>) -> Seq<char>
    decreases s.len(),
{
    if p.len() > 0 && starts_with(s, p) {
        strip_all_prefix(s.subrange(p.len() as int, s.len() as int), p)
    } else {
        s
    }
}

/// `str::replace` with a non-empty pattern: every non-overlapping occurrence,
/// scanned from the left, is replaced.
pub open spec fn replace_all(s: Seq<char>, from: Seq<char>, to: Seq<char>) -> Seq<char>
    decreases s.len(),
{
    if s.len() == 0 || from.len() == 0 {
        s
    } else if starts_with(s, from) {
        to + replace_all(s.subrange(from.len() as int, s.len() as int), from, to)
    } else {
        seq![s[0]] + replace_all(s.drop_first(), from, to)
    }
}

/// `<[String]>::join`.
pub open spec fn join(parts: Seq<Seq<char>>, sep: Seq<char>) -> Seq<char>
    decreases parts.len(),
{
    if parts.len() == 0 {
        seq![]
    } else if parts.len() == 1 {
        parts[0]
    } else {
        join(parts.drop_last(), sep) + sep + parts.last()
    }
}

/// Index of the first `c` in `s`, or `s.len()` when there is none.
pub open spec fn find_char(s: Seq<char>, c: char) -> nat
    decreases s.len(),
{
    if s.len() == 0 {
        0
    } else if s[0] == c {
        0
    } else {
        1 + find_char(s.drop_first(), c)
    }
}

/// A line as `str::lines` yields it: one trailing `'\r'` before the `'\n'` is dropped.
pub open spec fn strip_cr(l: Seq<char>) -> Seq<char> {
    if l.len() > 0 && l.last() == '\r' {
        l.drop_last()
    } else {
        l
    }
}

/// `str::lines`: split at `'\n'` (dropping a `'\r'` just before it); no empty
/// line is produced after a final `'\n'`.
pub open spec fn lines(s: Seq<char>) -> Seq<Seq<char>>
    decreases s.len(),
{
    if s.len() == 0 {
        seq![]
    } else {
        let i = find_char(s, '\n');
        if i < s.len() {
            seq![strip_cr(s.subrange(0, i as int))] + lines(s.subrange(i as int + 1, s.len() as int))
        } else {
            seq![s]
        }
    }
}

/// The characters of a string slice, in order.
pub fn chars_of(s: &str) -> (r: Vec<char>)
    ensures
        r@ == s@,
{
    let mut r: Vec<char> = Vec::new();
    for c in it: s.chars()
        invariant
            r@ == it.seq().take(it.index() as int),
            it.seq() == s@,
    {
        r.push(c);
    }
    r
}

/// Appends one character to a `String` (`String::push`).
#[verifier::external_body]
fn push_char(s: &mut String, c: char)
    ensures
        final(s)@ == old(s)@.push(c),
{
    s.push(c);
}

/// Builds a `String` from characters.
pub fn to_string(v: &Vec<char>) -> (r: String)
    ensures
        r@ == v@,
{
    let mut r = String::new();
    let mut i: usize = 0;
    while i < v.len()
        invariant
            i <= v.len(),
            r@ == v@.subrange(0, i as int),
        decreases v.len() - i,
    {
        push_char(&mut r, v[i]);
        i = i + 1;
        assert(r@ =~= v@.subrange(0, i as int));
    }
    assert(r@ =~= v@);
    r
}

/// `char::to_ascii_lowercase`: `A` to `Z` become `a` to `z`.
pub fn lower_char_exec(c: char) -> (r: char)
    ensures
        r == lower_char(c),
{
    if 'A' <= c && c <= 'Z' {
        let code: u8 = (c as u32 + 32) as u8;
        code as char
    } else {
        c
    }
}

/// The copy of `v[start..end]`.
pub fn slice(v: &Vec<char>, start: usize, end: usize) -> (r: Vec<char>)
    requires
        start <= end <= v.len(),
    ensures
        r@ == v@.subrange(start as int, end as int),
{
    let mut r: Vec<char> = Vec::new();
    let mut i = start;
    while i < end
        invariant
            start <= i <= end <= v.len(),
            r@ == v@.subrange(start as int, i as int),
        decreases end - i,
    {
        r.push(v[i]);
        i = i + 1;
        assert(r@ =~= v@.subrange(start as int, i as int));
    }
    r
}

/// Appends `b` to `a`.
pub fn append(a: &mut Vec<char>, b: &Vec<char>)
    ensures
        final(a)@ == old(a)@ + b@,
{
    let mut i: usize = 0;
    while i < b.len()
        invariant
            i <= b.len(),
            a@ == old(a)@ + b@.subrange(0, i as int),
        decreases b.len() - i,
    {
        a.push(b[i]);
        i = i + 1;
        assert(a@ =~= old(a)@ + b@.subrange(0, i as int));
    }
    assert(b@.subrange(0, b.len() as int) =~= b@);
}

/// `a + b` as a new vector.
pub fn concat(a: &Vec<char>, b: &Vec<char>) -> (r: Vec<char>)
    ensures
        r@ == a@ + b@,
{
    let mut r = a.clone();
    append(&mut r, b);
    r
}

pub fn eq(a: &Vec<char>, b: &Vec<char>) -> (r: bool)
    ensures
        r == (a@ == b@),
{
    if a.len() != b.len() {
        return false;
    }
    let mut i: usize = 0;
    while i < a.len()
        invariant
            i <= a.len() == b.len(),
            a@.subrange(0, i as int) == b@.subrange(0, i as int),
        decreases a.len() - i,
    {
        if a[i] != b[i] {
            assert(a@[i as int] != b@[i as int]);
            return false;
        }
        i = i + 1;
        assert(a@.subrange(0, i as int) =~= a@.subrange(0, i - 1) + seq![a@[i - 1]]);
        assert(b@.subrange(0, i as int) =~= b@.subrange(0, i - 1) + seq![b@[i - 1]]);
    }
    assert(a@ =~= a@.subrange(0, a.len() as int));
    assert(b@ =~= b@.subrange(0, b.len() as int));
    true
}

/// Does `v` hold `p` at position `at`?
pub fn matches_at(v: &Vec<char>, p: &Vec<char>, at: usize) -> (r: bool)
    requires
        at <= v.len(),
    ensures
        r == (at + p.len() <= v.len() && v@.subrange(at as int, at + p.len()) == p@),
{
    if p.len() > v.len() - at {
        return false;
    }
    let mut i: usize = 0;
    while i < p.len()
        invariant
            at + p.len() <= v.len(),
            i <= p.len(),
            v@.subrange(at as int, at + i) == p@.subrange(0, i as int),
        decreases p.len() - i,
    {
        if v[at + i] != p[i] {
            assert(v@.subrange(at as int, at + p.len())[i as int] != p@[i as int]);
            return false;
        }
        i = i + 1;
        assert(v@.subrange(at as int, at + i) =~= v@.subrange(at as int, at + i - 1) + seq![
            v@[at + i - 1],
        ]);
        assert(p@.subrange(0, i as int) =~= p@.subrange(0, i - 1) + seq![p@[i - 1]]);
    }
    assert(p@ =~= p@.subrange(0, p.len() as int));
    true
}

pub fn starts_with_exec(v: &Vec<char>, p: &Vec<char>) -> (r: bool)
    ensures
        r == starts_with(v@, p@),
{
    matches_at(v, p, 0)
}

pub fn ends_with_exec(v: &Vec<char>, p: &Vec<char>) -> (r: bool)
    ensures
        r == ends_with(v@, p@),
{
    if p.len() > v.len() {
        return false;
    }
    matches_at(v, p, v.len() - p.len())
}

pub fn contains_exec(v: &Vec<char>, p: &Vec<char>) -> (r: bool)
    ensures
        r == contains(v@, p@),
{
    if p.len() > v.len() {
        return false;
    }
    if p.len() == 0 {
        assert(v@.subrange(0, 0 + p@.len() as int) =~= p@);
        return true;
    }
    let mut i: usize = 0;
    while i <= v.len() - p.len()
        invariant
            0 < p.len() <= v.len(),
            i <= v.len() - p.len() + 1,
            forall|k: int| 0 <= k < i ==> #[trigger] v@.subrange(k, k + p.len()) != p@,
        decreases v.len() - p.len() + 1 - i,
    {
        if matches_at(v, p, i) {
            return true;
        }
        i = i + 1;
    }
    false
}

pub fn contains_char(v: &Vec<char>, c: char) -> (r: bool)
    ensures
        r == v@.contains(c),
{
    let mut i: usize = 0;
    while i < v.len()
        invariant
            i <= v.len(),
            forall|k: int| 0 <= k < i ==> v@[k] != c,
        decreases v.len() - i,
    {
        if v[i] == c {
            return true;
        }
        i = i + 1;
    }
    false
}

proof fn lemma_trim_start_step(s: Seq<char>, i: int)
    requires
        0 <= i < s.len(),
        is_space(s[i]),
    ensures
        trim_start(s.subrange(i, s.len() as int)) == trim_start(s.subrange(i + 1, s.len() as int)),
{
    assert(s.subrange(i, s.len() as int).drop_first() =~= s.subrange(i + 1, s.len() as int));
}

proof fn lemma_trim_end_step(s: Seq<char>, j: int)
    requires
        0 < j <= s.len(),
        is_space(s[j - 1]),
    ensures
        trim_end(s.subrange(0, j)) == trim_end(s.subrange(0, j - 1)),
{
    assert(s.subrange(0, j).drop_last() =~= s.subrange(0, j - 1));
}

/// Index of the first non-space character (the length of the leading space).
pub fn leading_space_end(v: &Vec<char>) -> (r: usize)
    ensures
        r <= v.len(),
        trim_start(v@) == v@.subrange(r as int, v.len() as int),
{
    let mut i: usize = 0;
    assert(v@.subrange(0, v.len() as int) =~= v@);
    while i < v.len() && is_whitespace(v[i])
        invariant
            i <= v.len(),
            trim_start(v@) == trim_start(v@.subrange(i as int, v.len() as int)),
        decreases v.len() - i,
    {
        proof {
            lemma_trim_start_step(v@, i as int);
        }
        i = i + 1;
    }
    proof {
        r_trim_start_done(v@, i as int);
    }
    i
}

proof fn r_trim_start_done(s: Seq<char>, i: int)
    requires
        0 <= i <= s.len(),
        i == s.len() || !is_space(s[i]),
    ensures
        trim_start(s.subrange(i, s.len() as int)) == s.subrange(i, s.len() as int),
{
    let t = s.subrange(i, s.len() as int);
    if t.len() > 0 {
        assert(t[0] == s[i]);
    }
}

/// `trim_start`, as a new vector.
pub fn trim_start_exec(v: &Vec<char>) -> (r: Vec<char>)
    ensures
        r@ == trim_start(v@),
{
    let i = leading_space_end(v);
    slice(v, i, v.len())
}

/// `trim`, as a new vector.
pub fn trim_exec(v: &Vec<char>) -> (r: Vec<char>)
    ensures
        r@ == trim(v@),
{
    let t = trim_start_exec(v);
    let mut j = t.len();
    assert(t@.subrange(0, j as int) =~= t@);
    while j > 0 && is_whitespace(t[j - 1])
        invariant
            j <= t.len(),
            trim_end(t@) == trim_end(t@.subrange(0, j as int)),
        decreases j,
    {
        proof {
            lemma_trim_end_step(t@, j as int);
        }
        j = j - 1;
    }
    proof {
        let u = t@.subrange(0, j as int);
        if u.len() > 0 {
            assert(u.last() == t@[j - 1]);
        }
    }
    slice(&t, 0, j)
}

/// `to_ascii_lowercase` of a whole string.
pub fn lower_exec(v: &Vec<char>) -> (r: Vec<char>)
    ensures
        r@ == lower(v@),
{
    let mut r: Vec<char> = Vec::new();
    let mut i: usize = 0;
    while i < v.len()
        invariant
            i <= v.len(),
            r@ == lower(v@.subrange(0, i as int)),
        decreases v.len() - i,
    {
        r.push(lower_char_exec(v[i]));
        i = i + 1;
        assert(lower(v@.subrange(0, i as int)) =~= lower(v@.subrange(0, i - 1)).push(
            lower_char(v@[i - 1]),
        ));
    }
    assert(v@.subrange(0, v.len() as int) =~= v@);
    r
}

/// `str::eq_ignore_ascii_case`.
pub open spec fn eq_ignore_case(a: Seq<char>, b: Seq<char>) -> bool {
    lower(a) == lower(b)
}

pub fn eq_ignore_case_exec(a: &Vec<char>, b: &Vec<char>) -> (r: bool)
    ensures
        r == eq_ignore_case(a@, b@),
{
    let la = lower_exec(a);
    let lb = lower_exec(b);
    eq(&la, &lb)
}

/// `str::trim_start_matches` with a non-empty pattern.
pub fn strip_all_prefix_exec(v: &Vec<char>, p: &Vec<char>) -> (r: Vec<char>)
    ensures
        r@ == strip_all_prefix(v@, p@),
{
    if p.len() == 0 {
        return v.clone();
    }
    let mut i: usize = 0;
    assert(v@.subrange(0, v.len() as int) =~= v@);
    while i < v.len() && matches_at(v, p, i)
        invariant
            p.len() > 0,
            i <= v.len(),
            strip_all_prefix(v@, p@) == strip_all_prefix(v@.subrange(i as int, v.len() as int), p@),
        decreases v.len() - i,
    {
        proof {
            let t = v@.subrange(i as int, v.len() as int);
            assert(t.subrange(0, p.len() as int) =~= v@.subrange(i as int, i + p.len()));
            assert(t.subrange(p.len() as int, t.len() as int) =~= v@.subrange(
                i + p.len(),
                v.len() as int,
            ));
        }
        i = i + p.len();
    }
    proof {
        let t = v@.subrange(i as int, v.len() as int);
        if t.len() > 0 && starts_with(t, p@) {
            assert(t.subrange(0, p.len() as int) =~= v@.subrange(i as int, i + p.len()));
        }
        assert(v@.subrange(0, v.len() as int) =~= v@);
    }
    slice(v, i, v.len())
}

/// `str::replace` with a non-empty pattern.
pub fn replace_all_exec(v: &Vec<char>, from: &Vec<char>, to: &Vec<char>) -> (r: Vec<char>)
    ensures
        r@ == replace_all(v@, from@, to@),
{
    if from.len() == 0 {
        return v.clone();
    }
    let mut r: Vec<char> = Vec::new();
    let mut i: usize = 0;
    assert(v@.subrange(0, v.len() as int) =~= v@);
    assert(r@ + replace_all(v@, from@, to@) =~= replace_all(v@, from@, to@));
    while i < v.len()
        invariant
            from.len() > 0,
            i <= v.len(),
            r@ + replace_all(v@.subrange(i as int, v.len() as int), from@, to@) == replace_all(
                v@,
                from@,
                to@,
            ),
        decreases v.len() - i,
    {
        let ghost t = v@.subrange(i as int, v.len() as int);
        if matches_at(v, from, i) {
            proof {
                assert(t.subrange(0, from.len() as int) =~= v@.subrange(i as int, i + from.len()));
                assert(t.subrange(from.len() as int, t.len() as int) =~= v@.subrange(
                    i + from.len(),
                    v.len() as int,
                ));
            }
            let ghost before = r@;
            append(&mut r, to);
            i = i + from.len();
            assert(r@ + replace_all(v@.subrange(i as int, v.len() as int), from@, to@) =~= before
                + (to@ + replace_all(v@.subrange(i as int, v.len() as int), from@, to@)));
        } else {
            proof {
                if starts_with(t, from@) {
                    assert(t.subrange(0, from.len() as int) =~= v@.subrange(
                        i as int,
                        i + from.len(),
                    ));
                }
                assert(t.drop_first() =~= v@.subrange(i + 1, v.len() as int));
            }
            let ghost before = r@;
            r.push(v[i]);
            i = i + 1;
            assert(r@ + replace_all(v@.subrange(i as int, v.len() as int), from@, to@) =~= before
                + (seq![v@[i - 1]] + replace_all(v@.subrange(i as int, v.len() as int), from@, to@)));
        }
    }
    assert(r@ + replace_all(v@.subrange(i as int, v.len() as int), from@, to@) =~= r@);
    r
}

/// `parts.join(sep)`.
pub fn join_exec(parts: &Vec<Vec<char>>, sep: &Vec<char>) -> (r: Vec<char>)
    ensures
        r@ == join(parts@.map_values(|p: Vec<char>| p@), sep@),
{
    let ghost ps = parts@.map_values(|p: Vec<char>| p@);
    let mut r: Vec<char> = Vec::new();
    let mut i: usize = 0;
    while i < parts.len()
        invariant
            i <= parts.len(),
            ps == parts@.map_values(|p: Vec<char>| p@),
            r@ == join(ps.subrange(0, i as int), sep@),
        decreases parts.len() - i,
    {
        proof {
            assert(ps.subrange(0, i + 1).drop_last() =~= ps.subrange(0, i as int));
        }
        if i > 0 {
            append(&mut r, sep);
        }
        append(&mut r, &parts[i]);
        i = i + 1;
        proof {
            if i == 1 {
                assert(r@ =~= ps.subrange(0, 1)[0]);
            }
        }
    }
    assert(ps.subrange(0, parts.len() as int) =~= ps);
    r
}

/// Index of the first `c` at or after `start`, or `v.len()`.
pub fn find_char_from(v: &Vec<char>, c: char, start: usize) -> (r: usize)
    requires
        start <= v.len(),
    ensures
        start <= r <= v.len(),
        r - start == find_char(v@.subrange(start as int, v.len() as int), c),
        forall|k: int| start <= k < r ==> v@[k] != c,
        r < v.len() ==> v@[r as int] == c,
{
    let mut j = start;
    while j < v.len() && v[j] != c
        invariant
            start <= j <= v.len(),
            find_char(v@.subrange(start as int, v.len() as int), c) == (j - start) + find_char(
                v@.subrange(j as int, v.len() as int),
                c,
            ),
            forall|k: int| start <= k < j ==> v@[k] != c,
        decreases v.len() - j,
    {
        assert(v@.subrange(j as int, v.len() as int).drop_first() =~= v@.subrange(
            j + 1,
            v.len() as int,
        ));
        j = j + 1;
    }
    proof {
        let t = v@.subrange(j as int, v.len() as int);
        if j < v.len() {
            assert(t[0] == c);
        }
    }
    j
}

pub fn strip_cr_exec(v: Vec<char>) -> (r: Vec<char>)
    ensures
        r@ == strip_cr(v@),
{
    let mut v = v;
    if v.len() > 0 && v[v.len() - 1] == '\r' {
        v.pop();
    }
    v
}

/// `str::lines`.
pub fn lines_exec(v: &Vec<char>) -> (r: Vec<Vec<char>>)
    ensures
        r@.map_values(|l: Vec<char>| l@) == lines(v@),
{
    let mut r: Vec<Vec<char>> = Vec::new();
    let mut start: usize = 0;
    assert(v@.subrange(0, v.len() as int) =~= v@);
    assert(r@.map_values(|l: Vec<char>| l@) + lines(v@) =~= lines(v@));
    while start < v.len()
        invariant
            start <= v.len(),
            r@.map_values(|l: Vec<char>| l@) + lines(v@.subrange(start as int, v.len() as int))
                == lines(v@),
        decreases v.len() - start,
    {
        let ghost t = v@.subrange(start as int, v.len() as int);
        let ghost before = r@.map_values(|l: Vec<char>| l@);
        let j = find_char_from(v, '\n', start);
        if j < v.len() {
            let line = strip_cr_exec(slice(v, start, j));
            proof {
                assert(t.subrange(0, j - start) =~= v@.subrange(start as int, j as int));
                assert(t.subrange(j - start + 1, t.len() as int) =~= v@.subrange(
                    j + 1,
                    v.len() as int,
                ));
            }
            r.push(line);
            start = j + 1;
            assert(r@.map_values(|l: Vec<char>| l@) =~= before.push(line@));
            assert(r@.map_values(|l: Vec<char>| l@) + lines(v@.subrange(start as int, v.len() as int))
                =~= before + lines(t));
        } else {
            let line = slice(v, start, v.len());
            r.push(line);
            start = v.len();
            assert(r@.map_values(|l: Vec<char>| l@) =~= before.push(line@));
            assert(lines(v@.subrange(start as int, v.len() as int)) =~= Seq::<Seq<char>>::empty());
            assert(r@.map_values(|l: Vec<char>| l@) + lines(v@.subrange(start as int, v.len() as int))
                =~= before + lines(t));
        }
    }
    assert(lines(v@.subrange(start as int, v.len() as int)) =~= Seq::<Seq<char>>::empty());
    assert(r@.map_values(|l: Vec<char>| l@) =~= r@.map_values(|l: Vec<char>| l@) + lines(
        v@.subrange(start as int, v.len() as int),
    ));
    r
}

/// Number of UTF-8 bytes of `c` (`char::len_utf8`).
pub fn utf8_width_exec(c: char) -> (r: usize)
    ensures
        r == utf8_width(c),
{
    let u = c as u32;
    if u < 0x80 {
        1
    } else if u < 0x800 {
        2
    } else if u < 0x10000 {
        3
    } else {
        4
    }
}

/// The digit character for `d < 10`.
pub open spec fn digit_char(d: nat) -> char {
    ((d + 48) as u32) as char
}

/// The decimal text of a number, as `Display` prints it.
pub open spec fn decimal(n: nat) -> Seq<char>
    decreases n,
{
    if n < 10 {
        seq![digit_char(n)]
    } else {
        decimal(n / 10).push(digit_char(n % 10))
    }
}

fn digit_exec(d: u128) -> (r: char)
    requires
        d < 10,
    ensures
        r == digit_char(d as nat),
{
    if d == 0 {
        '0'
    } else if d == 1 {
        '1'
    } else if d == 2 {
        '2'
    } else if d == 3 {
        '3'
    } else if d == 4 {
        '4'
    } else if d == 5 {
        '5'
    } else if d == 6 {
        '6'
    } else if d == 7 {
        '7'
    } else if d == 8 {
        '8'
    } else {
        '9'
    }
}

/// The decimal text of `n`.
pub fn decimal_exec(n: u128) -> (r: Vec<char>)
    ensures
        r@ == decimal(n as nat),
    decreases n,
{
    if n < 10 {
        let mut r: Vec<char> = Vec::new();
        r.push(digit_exec(n));
        assert(r@ =~= seq![digit_char(n as nat)]);
        r
    } else {
        let mut r = decimal_exec(n / 10);
        r.push(digit_exec(n % 10));
        r
    }
}

/// The test "the text is not empty".
pub open spec fn is_nonempty() -> spec_fn(Seq<char>) -> bool {
    |s: Seq<char>| s.len() > 0
}

/// The test "the text holds more than white space".
pub open spec fn is_nonblank() -> spec_fn(Seq<char>) -> bool {
    |s: Seq<char>| trim(s).len() > 0
}

pub open spec fn views(v: Seq<Vec<char>>) -> Seq<Seq<char>> {
    v.map_values(|x: Vec<char>| x@)
}

/// The parts that are not empty (or, with `blank_too`, not blank), in order.
pub fn keep_filled(parts: Vec<Vec<char>>, blank_too: bool) -> (r: Vec<Vec<char>>)
    ensures
        views(r@) == views(parts@).filter(if blank_too {
            is_nonblank()
        } else {
            is_nonempty()
        }),
{
    let ghost pred = if blank_too {
        is_nonblank()
    } else {
        is_nonempty()
    };
    let ghost s = views(parts@);
    let mut rest = parts;
    let mut out: Vec<Vec<char>> = Vec::new();
    let mut n: usize = 0;
    assert(views(rest@) =~= s.subrange(0, s.len() as int));
    assert(s.len() == rest.len());
    assert(s.subrange(0, 0).filter(pred) =~= Seq::<Seq<char>>::empty()) by {
        reveal(Seq::filter);
    }
    assert(views(out@) =~= Seq::<Seq<char>>::empty());
    while rest.len() > 0
        invariant
            n + rest.len() == s.len(),
            s.len() <= usize::MAX,
            views(rest@) == s.subrange(n as int, s.len() as int),
            views(out@) == s.subrange(0, n as int).filter(pred),
            pred == if blank_too {
                is_nonblank()
            } else {
                is_nonempty()
            },
        decreases rest.len(),
    {
        let ghost old_rest = rest@;
        let x = rest.remove(0);
        assert(views(old_rest)[0] == x@);
        assert(x@ == s[n as int]);
        assert(views(rest@) =~= views(old_rest).subrange(1, views(old_rest).len() as int));
        let keep = if blank_too {
            trim_exec(&x).len() > 0
        } else {
            x.len() > 0
        };
        assert(keep == pred(x@));
        proof {
            assert(s.subrange(0, n + 1) =~= s.subrange(0, n as int).push(x@));
            s.subrange(0, n as int).lemma_filter_push(x@, pred);
        }
        if keep {
            let ghost before = views(out@);
            out.push(x);
            assert(views(out@) =~= before.push(s[n as int]));
        }
        n = n + 1;
        assert(views(rest@) =~= s.subrange(n as int, s.len() as int));
    }
    assert(s.subrange(0, n as int) =~= s);
    out
}

pub proof fn lemma_utf8_len_add(a: Seq<char>, b: Seq<char>)
    ensures
        utf8_len(a + b) == utf8_len(a) + utf8_len(b),
    decreases b.len(),
{
    if b.len() == 0 {
        assert(a + b =~= a);
    } else {
        assert((a + b).drop_last() =~= a + b.drop_last());
        lemma_utf8_len_add(a, b.drop_last());
    }
}

pub proof fn lemma_utf8_len_mono(s: Seq<char>, i: int)
    requires
        0 <= i <= s.len(),
    ensures
        utf8_len(s.subrange(0, i)) <= utf8_len(s),
    decreases s.len() - i,
{
    if i < s.len() {
        lemma_utf8_len_mono(s, i + 1);
        assert(s.subrange(0, i + 1).drop_last() =~= s.subrange(0, i));
    } else {
        assert(s.subrange(0, i) =~= s);
    }
}

} // verus!
