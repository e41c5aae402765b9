//! Identity resolution: the id and display title a document falls back
//! to when its header declares none, both derived from its file name.

use vstd::prelude::*;
use crate::text::{push_char, rfind, spec_rfind_before};

verus! {

/// The final path component of `p`: everything after the last `/`, or
/// all of `p` when it has none.
pub open spec fn spec_file_name(p: Seq<char>) -> Seq<char> {
    match spec_rfind_before(p, p.len(), '/') {
        Some(k) => p.subrange(k + 1 as int, p.len() as int),
        None => p,
    }
}

/// The stem of a file name: the part before its last `.`, the whole
/// name when it has none or starts with its only one, and nothing for
/// an empty name or a relative-reference name (`.`/`..`).
pub open spec fn spec_stem(name: Seq<char>) -> Option<Seq<char>> {
    if name.len() == 0 || name =~= seq!['.'] || name =~= seq!['.', '.'] {
        None
    } else {
        match spec_rfind_before(name, name.len(), '.') {
            None => Some(name),
            Some(d) => if d == 0 {
                Some(name)
            } else {
                Some(name.subrange(0, d as int))
            },
        }
    }
}

/// `s` with every `-` and `_` replaced by a space.
pub open spec fn spec_separators_to_spaces(s: Seq<char>) -> Seq<char> {
    s.map_values(|c: char| if c == '-' || c == '_' { ' ' } else { c })
}

/// The id a document falls back to: its file name's stem, or `unknown`
/// when the path has no usable file name.
pub open spec fn spec_id_from_path(p: Seq<char>) -> Seq<char> {
    match spec_stem(spec_file_name(p)) {
        Some(st) => st,
        None => "unknown"@,
    }
}

/// The title a document falls back to: its file name's stem with `-`
/// and `_` turned into spaces, or `Untitled` when the path has no
/// usable file name.
pub open spec fn spec_title_from_filename(p: Seq<char>) -> Seq<char> {
    match spec_stem(spec_file_name(p)) {
        Some(st) => spec_separators_to_spaces(st),
        None => "Untitled"@,
    }
}

/// The stem of the file name of `path`, when it has one.
pub fn file_stem(path: &str) -> (r: Option<String>)
    ensures
        match r {
            Some(st) => spec_stem(spec_file_name(path@)) == Some(st@),
            None => spec_stem(spec_file_name(path@)) is None,
        },
{
    let pn = path.unicode_len();
    let name = match rfind(path, '/') {
        Some(k) => path.substring_char(k + 1, pn),
        None => path,
    };
    proof {
        assert(name@ == spec_file_name(path@));
    }
    let nl = name.unicode_len();
    if nl == 0 {
        return None;
    }
    if nl == 1 && name.get_char(0) == '.' {
        proof {
            assert(name@ =~= seq!['.']);
        }
        return None;
    }
    if nl == 2 && name.get_char(0) == '.' && name.get_char(1) == '.' {
        proof {
            assert(name@ =~= seq!['.', '.']);
        }
        return None;
    }
    proof {
        assert(!(name@ =~= seq!['.']));
        assert(!(name@ =~= seq!['.', '.']));
    }
    match rfind(name, '.') {
        None => Some(name.to_owned()),
        Some(d) => if d == 0 {
            Some(name.to_owned())
        } else {
            Some(name.substring_char(0, d).to_owned())
        },
    }
}

/// The fallback id for the document at `path`: the file name without
/// its extension, or `unknown` when the path has no usable file name.
pub fn extract_id_from_path(path: &str) -> (r: String)
    ensures
        r@ == spec_id_from_path(path@),
{
    match file_stem(path) {
        Some(st) => st,
        None => "unknown".to_owned(),
    }
}

/// `s` with every `-` and `_` replaced by a space.
pub fn separators_to_spaces(s: &str) -> (r: String)
    ensures
        r@ == spec_separators_to_spaces(s@),
{
    let n = s.unicode_len();
    let mut out = String::new();
    let mut i: usize = 0;
    while i < n
        invariant
            i <= n,
            n == s@.len(),
            out@ =~= spec_separators_to_spaces(s@).subrange(0, i as int),
        decreases n - i,
    {
        let c = s.get_char(i);
        let c2 = if c == '-' || c == '_' {
            ' '
        } else {
            c
        };
        push_char(&mut out, c2);
        proof {
            assert(spec_separators_to_spaces(s@).subrange(0, i + 1 as int)
                =~= spec_separators_to_spaces(s@).subrange(0, i as int).push(
                spec_separators_to_spaces(s@)[i as int]));
        }
        i = i + 1;
    }
    proof {
        assert(spec_separators_to_spaces(s@).subrange(0, n as int) =~= spec_separators_to_spaces(
            s@,
        ));
    }
    out
}

/// The fallback title for the document at `path`: the file name without
/// its extension, separators turned into spaces, or `Untitled` when the
/// path has no usable file name. Case is kept as it stands.
pub fn extract_title_from_filename(path: &str) -> (r: String)
    ensures
        r@ == spec_title_from_filename(path@),
{
    match file_stem(path) {
        Some(st) => separators_to_spaces(st.as_str()),
        None => "Untitled".to_owned(),
    }
}

} // verus!
