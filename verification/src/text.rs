//! Character-level helpers shared by the header parser and the
//! identity resolver: searching, trimming and equality on `&str`.

use vstd::prelude::*;

verus! {

/// True of the characters that `str::trim` removes: the Unicode
/// whitespace code points.
pub open spec fn is_ws(c: char) -> bool {
    c == ' ' || c == '\t' || c == '\n' || c == '\r' || c == '\u{0b}' || c == '\u{0c}'
        || c == '\u{85}' || c == '\u{a0}' || c == '\u{1680}'
        || ('\u{2000}' <= c && c <= '\u{200a}')
        || c == '\u{2028}' || c == '\u{2029}' || c == '\u{202f}' || c == '\u{205f}'
        || c == '\u{3000}'
}

/// Whether `c` is a Unicode whitespace character.
pub fn is_ws_char(c: char) -> (r: bool)
    ensures
        r == is_ws(c),
{
    c == ' ' || c == '\t' || c == '\n' || c == '\r' || c == '\u{0b}' || c == '\u{0c}'
        || c == '\u{85}' || c == '\u{a0}' || c == '\u{1680}'
        || ('\u{2000}' <= c && c <= '\u{200a}')
        || c == '\u{2028}' || c == '\u{2029}' || c == '\u{202f}' || c == '\u{205f}'
        || c == '\u{3000}'
}

/// Index of the first occurrence of `c` in `s` at or after `pos`.
pub open spec fn spec_find_from(s: Seq<char>, pos: nat, c: char) -> Option<nat>
    decreases s.len() - pos when pos <= s.len()
{
    if pos >= s.len() {
        None
    } else if s[pos as int] == c {
        Some(pos)
    } else {
        spec_find_from(s, pos + 1, c)
    }
}

/// First occurrence of `c` in `s` at or after `from`.
pub fn find_from(s: &str, from: usize, c: char) -> (r: Option<usize>)
    requires
        from <= s@.len(),
    ensures
        match r {
            Some(i) => from <= i < s@.len() && spec_find_from(s@, from as nat, c) == Some(
                i as nat,
            ),
            None => spec_find_from(s@, from as nat, c) is None,
        },
{
    let n = s.unicode_len();
    let mut i = from;
    while i < n
        invariant
            from <= i <= n,
            n == s@.len(),
            spec_find_from(s@, from as nat, c) == spec_find_from(s@, i as nat, c),
        decreases n - i,
    {
        if s.get_char(i) == c {
            return Some(i);
        }
        i = i + 1;
    }
    None
}

/// Index just before `pos` of the last occurrence of `c` in `s` strictly
/// before `pos`.
pub open spec fn spec_rfind_before(s: Seq<char>, pos: nat, c: char) -> Option<nat>
    decreases pos,
{
    if pos == 0 {
        None
    } else if s[pos - 1] == c {
        Some((pos - 1) as nat)
    } else {
        spec_rfind_before(s, (pos - 1) as nat, c)
    }
}

/// Last occurrence of `c` in `s`.
pub fn rfind(s: &str, c: char) -> (r: Option<usize>)
    ensures
        match r {
            Some(i) => i < s@.len() && spec_rfind_before(s@, s@.len(), c) == Some(i as nat),
            None => spec_rfind_before(s@, s@.len(), c) is None,
        },
{
    let n = s.unicode_len();
    let mut pos = n;
    while pos > 0
        invariant
            pos <= n,
            n == s@.len(),
            spec_rfind_before(s@, n as nat, c) == spec_rfind_before(s@, pos as nat, c),
        decreases pos,
    {
        if s.get_char(pos - 1) == c {
            return Some(pos - 1);
        }
        pos = pos - 1;
    }
    None
}

/// Index of the first non-whitespace character of `s` at or after `pos`
/// (`s.len()` when all of the rest is whitespace).
pub open spec fn spec_skip_ws(s: Seq<char>, pos: nat) -> nat
    decreases s.len() - pos when pos <= s.len()
{
    if pos >= s.len() {
        s.len()
    } else if is_ws(s[pos as int]) {
        spec_skip_ws(s, pos + 1)
    } else {
        pos
    }
}

pub proof fn lemma_skip_ws_bounds(s: Seq<char>, pos: nat)
    requires
        pos <= s.len(),
    ensures
        pos <= spec_skip_ws(s, pos) <= s.len(),
        spec_skip_ws(s, pos) < s.len() ==> !is_ws(s[spec_skip_ws(s, pos) as int]),
    decreases s.len() - pos,
{
    if pos < s.len() && is_ws(s[pos as int]) {
        lemma_skip_ws_bounds(s, pos + 1);
    }
}

/// One past the last non-whitespace character of `s` strictly before
/// `pos` (0 when all of the front is whitespace).
pub open spec fn spec_rskip_ws(s: Seq<char>, pos: nat) -> nat
    decreases pos,
{
    if pos == 0 {
        0
    } else if is_ws(s[pos - 1]) {
        spec_rskip_ws(s, (pos - 1) as nat)
    } else {
        pos
    }
}

pub proof fn lemma_rskip_ws_bounds(s: Seq<char>, pos: nat)
    requires
        pos <= s.len(),
    ensures
        spec_rskip_ws(s, pos) <= pos,
    decreases pos,
{
    if pos > 0 && is_ws(s[pos - 1]) {
        lemma_rskip_ws_bounds(s, (pos - 1) as nat);
    }
}

/// Where no `c` stands at or after `pos` and before `k`, and one stands
/// at `k`, the search from `pos` lands exactly at `k`.
pub proof fn lemma_find_from_lands(s: Seq<char>, pos: nat, k: nat, c: char)
    requires
        pos <= k < s.len(),
        forall|j: int| pos <= j < k ==> s[j] != c,
        s[k as int] == c,
    ensures
        spec_find_from(s, pos, c) == Some(k),
    decreases k - pos,
{
    if pos < k {
        lemma_find_from_lands(s, pos + 1, k, c);
    }
}

/// Skipping whitespace in a concatenation from inside the right part
/// skips exactly what the right part skips.
pub proof fn lemma_skip_ws_concat(p: Seq<char>, b: Seq<char>, pos: nat)
    requires
        pos <= b.len(),
    ensures
        spec_skip_ws(p + b, (p.len() + pos) as nat) == p.len() + spec_skip_ws(b, pos),
    decreases b.len() - pos,
{
    if pos < b.len() && is_ws(b[pos as int]) {
        lemma_skip_ws_concat(p, b, pos + 1);
    }
}

/// A trim-stable sequence prefixed by one space trims back to itself.
pub proof fn lemma_trim_space_prefix(x: Seq<char>)
    requires
        spec_trim(x) == x,
    ensures
        spec_trim(seq![' '] + x) == x,
{
    let s = seq![' '] + x;
    assert(s.len() == 1 + x.len());
    assert(s[0] == ' ');
    if x.len() == 0 {
        assert(spec_skip_ws(s, 1) == 1);
        assert(spec_skip_ws(s, 0) == 1);
        assert(spec_rskip_ws(s, 0) == 0);
        assert(spec_rskip_ws(s, 1) == 0);
        assert(spec_trim(s) =~= Seq::<char>::empty());
        assert(x =~= Seq::<char>::empty());
    } else {
        lemma_skip_ws_bounds(x, 0);
        lemma_rskip_ws_bounds(x, x.len());
        let a = spec_skip_ws(x, 0);
        let bb = spec_rskip_ws(x, x.len());
        if a >= bb {
            assert(spec_trim(x) =~= Seq::<char>::empty());
            assert(x.len() == 0);
        }
        assert(a < bb);
        assert(x.subrange(a as int, bb as int).len() == bb - a);
        assert(a == 0 && bb == x.len());
        if is_ws(x[0]) {
            lemma_skip_ws_bounds(x, 1);
            assert(spec_skip_ws(x, 0) == spec_skip_ws(x, 1));
            assert(false);
        }
        if is_ws(x[x.len() - 1]) {
            lemma_rskip_ws_bounds(x, (x.len() - 1) as nat);
            assert(spec_rskip_ws(x, x.len()) == spec_rskip_ws(x, (x.len() - 1) as nat));
            assert(false);
        }
        assert(s[1] == x[0]);
        assert(spec_skip_ws(s, 0) == spec_skip_ws(s, 1));
        assert(spec_skip_ws(s, 1) == 1);
        assert(s[s.len() - 1] == x[x.len() - 1]);
        assert(spec_rskip_ws(s, s.len()) == s.len());
        assert(s.subrange(1, s.len() as int) =~= x);
    }
}

/// `s` with leading whitespace removed.
pub open spec fn spec_trim_start(s: Seq<char>) -> Seq<char> {
    s.subrange(spec_skip_ws(s, 0) as int, s.len() as int)
}

/// `s` with leading and trailing whitespace removed, as `str::trim`
/// leaves it.
pub open spec fn spec_trim(s: Seq<char>) -> Seq<char> {
    let a = spec_skip_ws(s, 0);
    let b = spec_rskip_ws(s, s.len());
    if a >= b {
        Seq::empty()
    } else {
        s.subrange(a as int, b as int)
    }
}

/// `s` with leading and trailing whitespace removed.
pub fn trim<'a>(s: &'a str) -> (r: &'a str)
    ensures
        r@ == spec_trim(s@),
{
    let n = s.unicode_len();
    let mut a: usize = 0;
    while a < n && is_ws_char(s.get_char(a))
        invariant
            a <= n,
            n == s@.len(),
            spec_skip_ws(s@, 0) == spec_skip_ws(s@, a as nat),
        decreases n - a,
    {
        a = a + 1;
    }
    let mut b = n;
    while b > 0 && is_ws_char(s.get_char(b - 1))
        invariant
            b <= n,
            n == s@.len(),
            spec_rskip_ws(s@, n as nat) == spec_rskip_ws(s@, b as nat),
        decreases b,
    {
        b = b - 1;
    }
    if a >= b {
        proof {
            assert(s@.subrange(0int, 0int) =~= Seq::<char>::empty());
        }
        s.substring_char(0, 0)
    } else {
        s.substring_char(a, b)
    }
}

/// Whether two strings hold the same characters.
pub fn str_eq(a: &str, b: &str) -> (r: bool)
    ensures
        r == (a@ == b@),
{
    let na = a.unicode_len();
    let nb = b.unicode_len();
    if na != nb {
        proof {
            assert(a@ != b@);
        }
        return false;
    }
    let mut i: usize = 0;
    while i < na
        invariant
            i <= na,
            na == a@.len(),
            na == b@.len(),
            forall|j: int| 0 <= j < i ==> a@[j] == b@[j],
        decreases na - i,
    {
        if a.get_char(i) != b.get_char(i) {
            return false;
        }
        i = i + 1;
    }
    proof {
        assert(a@ =~= b@);
    }
    true
}

/// Relies on `String::push`: appends exactly the one character.
#[verifier::external_body]
pub fn push_char(s: &mut String, c: char)
    ensures
        final(s)@ == old(s)@.push(c),
{
    s.push(c)
}

} // verus!
