//! Parser for a document's optional leading header block: a region
//! delimited by `---` markers holding `key: value` lines, followed by
//! the body.

use vstd::prelude::*;
use crate::text::{
    find_from, is_ws_char, push_char, spec_find_from, spec_skip_ws, spec_trim, str_eq, trim,
};

verus! {

/// Whether the three-character delimiter `---` stands at index `i`.
pub open spec fn is_delim_at(s: Seq<char>, i: int) -> bool {
    &&& 0 <= i
    &&& i + 3 <= s.len()
    &&& s[i] == '-'
    &&& s[i + 1] == '-'
    &&& s[i + 2] == '-'
}

/// Index of the first delimiter occurrence at or after `pos`.
pub open spec fn spec_find_delim(s: Seq<char>, pos: nat) -> Option<nat>
    decreases s.len() - pos when pos <= s.len()
{
    if pos + 3 > s.len() {
        None
    } else if is_delim_at(s, pos as int) {
        Some(pos)
    } else {
        spec_find_delim(s, pos + 1)
    }
}

/// First delimiter occurrence in `s` at or after `from`.
pub fn find_delim(s: &str, from: usize) -> (r: Option<usize>)
    requires
        from <= s@.len(),
    ensures
        match r {
            Some(k) => from <= k && k + 3 <= s@.len() && spec_find_delim(s@, from as nat)
                == Some(k as nat),
            None => spec_find_delim(s@, from as nat) is None,
        },
{
    let n = s.unicode_len();
    let mut i = from;
    while n - i >= 3
        invariant
            from <= i <= n,
            n == s@.len(),
            spec_find_delim(s@, from as nat) == spec_find_delim(s@, i as nat),
        decreases n - i,
    {
        if s.get_char(i) == '-' && s.get_char(i + 1) == '-' && s.get_char(i + 2) == '-' {
            return Some(i);
        }
        i = i + 1;
    }
    None
}

/// Where no delimiter stands at or after `pos` and before `k`, and one
/// stands at `k`, the search from `pos` lands exactly at `k`.
pub proof fn lemma_find_delim_lands(s: Seq<char>, pos: nat, k: nat)
    requires
        pos <= k,
        k + 3 <= s.len(),
        forall|j: int| pos <= j < k ==> !is_delim_at(s, j),
        is_delim_at(s, k as int),
    ensures
        spec_find_delim(s, pos) == Some(k),
    decreases k - pos,
{
    if pos < k {
        lemma_find_delim_lands(s, pos + 1, k);
    }
}

/// `s` without one matching layer of surrounding double or single
/// quotes, when both ends carry the same quote character.
pub open spec fn spec_strip_quotes(s: Seq<char>) -> Seq<char> {
    if s.len() >= 2 && s[0] == s[s.len() - 1] && (s[0] == '"' || s[0] == '\'') {
        s.subrange(1, s.len() - 1)
    } else {
        s
    }
}

/// Removes one matching layer of surrounding quotes, if present.
pub fn strip_quotes<'a>(s: &'a str) -> (r: &'a str)
    ensures
        r@ == spec_strip_quotes(s@),
{
    let n = s.unicode_len();
    if n >= 2 {
        let f = s.get_char(0);
        let l = s.get_char(n - 1);
        if f == l && (f == '"' || f == '\'') {
            return s.substring_char(1, n - 1);
        }
    }
    s
}

/// The entries one header line yields: none when the line has no colon,
/// else the pair of the trimmed key and the trimmed, quote-stripped
/// value around the line's first colon.
pub open spec fn spec_line_entries(line: Seq<char>) -> Seq<(Seq<char>, Seq<char>)> {
    match spec_find_from(line, 0, ':') {
        None => Seq::empty(),
        Some(c) => seq![
            (
                spec_trim(line.subrange(0, c as int)),
                spec_strip_quotes(spec_trim(line.subrange(c + 1 as int, line.len() as int))),
            ),
        ],
    }
}

/// The entries of the header region of `h` from `pos` on, line by line
/// in order of appearance (lines split at `'\n'`).
pub open spec fn spec_entries_from(h: Seq<char>, pos: nat) -> Seq<(Seq<char>, Seq<char>)>
    decreases h.len() - pos when pos <= h.len()
{
    if pos >= h.len() {
        Seq::empty()
    } else {
        match spec_find_from(h, pos, '\n') {
            Some(k0) => {
                let k = if k0 < pos {
                    pos
                } else if k0 >= h.len() {
                    (h.len() - 1) as nat
                } else {
                    k0
                };
                spec_line_entries(h.subrange(pos as int, k as int)) + spec_entries_from(h, k + 1)
            },
            None => spec_line_entries(h.subrange(pos as int, h.len() as int)),
        }
    }
}

/// Whether `s` holds no occurrence of the `---` delimiter.
pub open spec fn delim_free(s: Seq<char>) -> bool {
    forall|i: int|
        0 <= i && i + 3 <= s.len() ==> !(#[trigger] s[i] == '-' && s[i + 1] == '-' && s[i + 2]
            == '-')
}

/// Whether `s` opens with a terminated header block: it begins with the
/// delimiter and a second delimiter follows.
pub open spec fn spec_has_header(s: Seq<char>) -> bool {
    is_delim_at(s, 0) && spec_find_delim(s, 3) is Some
}

/// What parsing a document yields: its header entries in order of
/// appearance, and its body. Without a terminated header block the
/// entries are empty and the body is the document unchanged; otherwise
/// the entries come from the region between the first two delimiters
/// and the body is everything after the second delimiter with leading
/// whitespace removed.
pub open spec fn spec_parse_markdown(s: Seq<char>) -> (Seq<(Seq<char>, Seq<char>)>, Seq<char>) {
    if !spec_has_header(s) {
        (Seq::empty(), s)
    } else {
        let k = spec_find_delim(s, 3)->Some_0;
        (
            spec_entries_from(s.subrange(3, k as int), 0),
            s.subrange(spec_skip_ws(s, (k + 3) as nat) as int, s.len() as int),
        )
    }
}

/// The value of the last entry named `key`, the way a map built by
/// inserting the entries in order would answer.
pub open spec fn spec_lookup(
    entries: Seq<(Seq<char>, Seq<char>)>,
    key: Seq<char>,
) -> Option<Seq<char>>
    decreases entries.len(),
{
    if entries.len() == 0 {
        None
    } else if entries.last().0 == key {
        Some(entries.last().1)
    } else {
        spec_lookup(entries.drop_last(), key)
    }
}

/// The parsed header: its `key: value` entries in order of appearance.
/// On duplicate keys a lookup answers with the last occurrence.
#[derive(Debug)]
pub struct Header {
    pub entries: Vec<(String, String)>,
}

/// The entries of `v` as character sequences.
pub open spec fn entries_view(v: Seq<(String, String)>) -> Seq<(Seq<char>, Seq<char>)> {
    Seq::new(v.len(), |i: int| (v[i].0@, v[i].1@))
}

impl View for Header {
    type V = Seq<(Seq<char>, Seq<char>)>;

    open spec fn view(&self) -> Seq<(Seq<char>, Seq<char>)> {
        entries_view(self.entries@)
    }
}

impl Header {
    /// The value declared for `key`, the last occurrence winning.
    pub fn get<'a>(&'a self, key: &str) -> (r: Option<&'a String>)
        ensures
            match r {
                Some(v) => spec_lookup(self@, key@) == Some(v@),
                None => spec_lookup(self@, key@) is None,
            },
    {
        let n = self.entries.len();
        proof {
            assert(self@.take(n as int) =~= self@);
        }
        let mut j = n;
        while j > 0
            invariant
                j <= n,
                n == self.entries.len(),
                spec_lookup(self@, key@) == spec_lookup(self@.take(j as int), key@),
            decreases j,
        {
            proof {
                assert(self@.take(j as int).drop_last() =~= self@.take(j - 1));
                assert(self@.take(j as int).last() == (self.entries@[j - 1].0@, self.entries@[j
                    - 1].1@));
            }
            if str_eq(self.entries[j - 1].0.as_str(), key) {
                return Some(&self.entries[j - 1].1);
            }
            j = j - 1;
        }
        proof {
            assert(self@.take(0int) =~= Seq::<(Seq<char>, Seq<char>)>::empty());
        }
        None
    }
}

/// Parses the header region `h` line by line.
fn parse_entries(h: &str) -> (r: Vec<(String, String)>)
    ensures
        entries_view(r@) == spec_entries_from(h@, 0),
{
    let n = h.unicode_len();
    let mut entries: Vec<(String, String)> = Vec::new();
    let mut pos: usize = 0;
    while pos < n
        invariant
            pos <= n,
            n == h@.len(),
            entries_view(entries@) + spec_entries_from(h@, pos as nat) == spec_entries_from(
                h@,
                0,
            ),
        decreases n - pos,
    {
        let ghost entries_before = entries_view(entries@);
        let k = find_from(h, pos, '\n');
        let line_end = match k {
            Some(k) => k,
            None => n,
        };
        let line = h.substring_char(pos, line_end);
        proof {
            assert(line@ == h@.subrange(pos as int, line_end as int));
        }
        let line_len = line.unicode_len();
        match find_from(line, 0, ':') {
            Some(c) => {
                let key = trim(line.substring_char(0, c));
                let raw = trim(line.substring_char(c + 1, line_len));
                let val = strip_quotes(raw);
                proof {
                    assert(line@.subrange(0, c as int) == line@.subrange(0int, c as int));
                }
                entries.push((key.to_owned(), val.to_owned()));
                proof {
                    assert(entries_view(entries@) =~= entries_before + spec_line_entries(line@));
                }
            },
            None => {
                proof {
                    assert(entries_view(entries@) =~= entries_before + spec_line_entries(line@));
                }
            },
        }
        let next = match k {
            Some(k) => k + 1,
            None => n,
        };
        proof {
            if k is Some {
                assert(spec_entries_from(h@, pos as nat) == spec_line_entries(line@)
                    + spec_entries_from(h@, next as nat));
            } else {
                assert(spec_entries_from(h@, next as nat) =~= Seq::<(Seq<char>, Seq<char>)>::empty());
                assert(spec_entries_from(h@, pos as nat) == spec_line_entries(line@));
            }
            assert(entries_before + (spec_line_entries(line@) + spec_entries_from(h@, next as nat))
                =~= (entries_before + spec_line_entries(line@)) + spec_entries_from(h@, next as nat));
        }
        pos = next;
    }
    proof {
        assert(spec_entries_from(h@, pos as nat) =~= Seq::<(Seq<char>, Seq<char>)>::empty());
        assert(entries_view(entries@) + spec_entries_from(h@, pos as nat) =~= entries_view(
            entries@,
        ));
    }
    entries
}

/// Splits a document into its header entries and its body.
///
/// A header block is present only when the text begins with `---` and a
/// second `---` follows; otherwise the header is empty and the body is
/// the text unchanged. Within the block, each line holding a colon
/// yields one entry: the trimmed key before the first colon, and the
/// value after it, trimmed and stripped of one matching layer of
/// quotes. Lines without a colon are skipped. The body is everything
/// after the second delimiter, with leading whitespace removed.
pub fn parse_document(content: &str) -> (r: (Header, String))
    ensures
        ({
            let (m, b) = spec_parse_markdown(content@);
            r.0@ == m && r.1@ == b
        }),
        !spec_has_header(content@) ==> r.0@.len() == 0 && r.1@ == content@,
{
    let n = content.unicode_len();
    if n < 3 || !(content.get_char(0) == '-' && content.get_char(1) == '-' && content.get_char(2)
        == '-') {
        return (Header { entries: Vec::new() }, content.to_owned());
    }
    match find_delim(content, 3) {
        None => (Header { entries: Vec::new() }, content.to_owned()),
        Some(k) => {
            let header_str = content.substring_char(3, k);
            let entries = parse_entries(header_str);
            let mut p = k + 3;
            while p < n && is_ws_char(content.get_char(p))
                invariant
                    k + 3 <= p <= n,
                    n == content@.len(),
                    spec_skip_ws(content@, (k + 3) as nat) == spec_skip_ws(content@, p as nat),
                decreases n - p,
            {
                p = p + 1;
            }
            let body = content.substring_char(p, n);
            (Header { entries }, body.to_owned())
        },
    }
}

/// `parse_document`, in the `Result` shape callers consume. Parsing
/// never fails: a malformed or absent header only means an empty
/// mapping and an unchanged body.
pub fn parse_markdown(content: &str) -> (r: Result<(Header, String), String>)
    ensures
        r is Ok,
        ({
            let (m, b) = spec_parse_markdown(content@);
            r->Ok_0.0@ == m && r->Ok_0.1@ == b
        }),
        !spec_has_header(content@) ==> r->Ok_0.0@.len() == 0 && r->Ok_0.1@ == content@,
{
    Ok(parse_document(content))
}

/// Parsing leaves nothing of a header in the body: when the returned
/// body does not itself open with a terminated header block, parsing it
/// again yields an empty header and that same body.
pub proof fn lemma_parse_idempotent(s: Seq<char>)
    requires
        !spec_has_header(spec_parse_markdown(s).1),
    ensures
        spec_parse_markdown(spec_parse_markdown(s).1) == (
            Seq::<(Seq<char>, Seq<char>)>::empty(),
            spec_parse_markdown(s).1,
        ),
{
}

} // verus!
