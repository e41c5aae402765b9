//! Nodes: the in-memory form of one document, assembled from a file's
//! root-relative path and its text, plus the decision rules of the
//! scan and find operations.

use vstd::prelude::*;
use crate::header::{
    delim_free, is_delim_at, lemma_find_delim_lands, parse_document, spec_lookup,
    spec_parse_markdown,
};
use crate::text::{
    is_ws, lemma_find_from_lands, lemma_skip_ws_bounds, lemma_skip_ws_concat,
    lemma_trim_space_prefix, spec_skip_ws, spec_trim, spec_trim_start,
};
use crate::header::{
    spec_entries_from, spec_find_delim, spec_has_header, spec_line_entries, spec_strip_quotes,
};
use crate::identity::{
    extract_id_from_path, extract_title_from_filename, file_stem, spec_file_name,
    spec_id_from_path, spec_stem, spec_title_from_filename,
};
use crate::text::str_eq;

verus! {

/// One document of the knowledge base.
#[derive(Debug)]
pub struct Node {
    /// Unique name: declared in the header, or the file name's stem.
    pub id: String,
    /// Display name: declared in the header, or derived from the file
    /// name.
    pub title: String,
    /// The document's body, with any header block stripped and leading
    /// whitespace removed.
    pub content: String,
    /// Slash-separated path of the source file, relative to the
    /// knowledge-base root.
    pub path: String,
    /// Declared in the header, absent otherwise.
    pub classification: Option<String>,
}

/// A node as its character sequences.
pub struct NodeView {
    pub id: Seq<char>,
    pub title: Seq<char>,
    pub content: Seq<char>,
    pub path: Seq<char>,
    pub classification: Option<Seq<char>>,
}

impl View for Node {
    type V = NodeView;

    open spec fn view(&self) -> NodeView {
        NodeView {
            id: self.id@,
            title: self.title@,
            content: self.content@,
            path: self.path@,
            classification: match self.classification {
                Some(ref c) => Some(c@),
                None => None,
            },
        }
    }
}

/// The node a document at root-relative path `rel_path` with text
/// `content` denotes: header-declared id, title and classification,
/// with the file name supplying id and title when the header does not.
pub open spec fn spec_node_of(rel_path: Seq<char>, content: Seq<char>) -> NodeView {
    let m = spec_parse_markdown(content).0;
    NodeView {
        id: match spec_lookup(m, "id"@) {
            Some(v) => v,
            None => spec_id_from_path(rel_path),
        },
        title: match spec_lookup(m, "title"@) {
            Some(v) => v,
            None => spec_title_from_filename(rel_path),
        },
        content: spec_parse_markdown(content).1,
        path: rel_path,
        classification: spec_lookup(m, "classification"@),
    }
}

/// Assembles the node for the document at root-relative path
/// `relative_path` holding `content`.
pub fn make_node(relative_path: &str, content: &str) -> (r: Node)
    ensures
        r@ == spec_node_of(relative_path@, content@),
{
    let (header, body) = parse_document(content);
    let id = match header.get("id") {
        Some(v) => v.clone(),
        None => extract_id_from_path(relative_path),
    };
    let title = match header.get("title") {
        Some(v) => v.clone(),
        None => extract_title_from_filename(relative_path),
    };
    let classification = match header.get("classification") {
        Some(v) => Some(v.clone()),
        None => None,
    };
    Node { id, title, content: body, path: relative_path.to_owned(), classification }
}

/// Whether the document at `rel_path` holding `content` answers to
/// `node_id`: its resolved id equals it, or its file name's stem does.
pub open spec fn spec_id_matches(
    rel_path: Seq<char>,
    content: Seq<char>,
    node_id: Seq<char>,
) -> bool {
    let m = spec_parse_markdown(content).0;
    let id = match spec_lookup(m, "id"@) {
        Some(v) => v,
        None => spec_id_from_path(rel_path),
    };
    id == node_id || spec_stem(spec_file_name(rel_path)) == Some(node_id)
}

/// The node for the document at `relative_path` holding `content`, when
/// that document answers to `node_id`; nothing otherwise. Both match
/// strategies — resolved id and file-name stem — are tried together.
pub fn match_node(relative_path: &str, content: &str, node_id: &str) -> (r: Option<Node>)
    ensures
        r is Some <==> spec_id_matches(relative_path@, content@, node_id@),
        r is Some ==> r->Some_0@ == spec_node_of(relative_path@, content@),
{
    let (header, _body) = parse_document(content);
    let id = match header.get("id") {
        Some(v) => v.clone(),
        None => extract_id_from_path(relative_path),
    };
    let stem_matches = match file_stem(relative_path) {
        Some(st) => str_eq(st.as_str(), node_id),
        None => false,
    };
    if str_eq(id.as_str(), node_id) || stem_matches {
        Some(make_node(relative_path, content))
    } else {
        None
    }
}

/// What a domain scan returns: a missing domain directory yields an
/// empty result, not an error; otherwise the walk's outcome stands as
/// it is.
pub fn scan_outcome(domain_dir_exists: bool, walked: Result<Vec<Node>, String>) -> (r: Result<
    Vec<Node>,
    String,
>)
    ensures
        !domain_dir_exists ==> r is Ok && r->Ok_0@.len() == 0,
        domain_dir_exists ==> r == walked,
{
    if !domain_dir_exists {
        Ok(Vec::new())
    } else {
        walked
    }
}

/// What a node lookup returns: an absent document root is its own
/// error, a walk that found nothing is a not-found error naming the id,
/// and a found node is handed back as it is.
pub fn find_outcome(root_exists: bool, found: Option<Node>, node_id: &str) -> (r: Result<
    Node,
    String,
>)
    ensures
        !root_exists ==> r is Err && r->Err_0@ == "Nodes directory not found"@,
        root_exists && found is Some ==> r is Ok && r->Ok_0 == found->Some_0,
        root_exists && found is None ==> r is Err && r->Err_0@ == "Node '"@ + node_id@
            + "' not found"@,
{
    if !root_exists {
        return Err("Nodes directory not found".to_owned());
    }
    match found {
        Some(n) => Ok(n),
        None => {
            let mut msg = "Node '".to_owned();
            msg.append(node_id);
            msg.append("' not found");
            Err(msg)
        },
    }
}

/// The root-relative directory of a domain's documents.
pub fn domain_dir_rel_path(domain: &str) -> (r: String)
    ensures
        r@ == "nodes/"@ + domain@,
{
    let mut p = "nodes/".to_owned();
    p.append(domain);
    p
}

/// The root-relative path of a domain's relationship file.
pub fn relationships_rel_path(domain: &str) -> (r: String)
    ensures
        r@ == "data/relationships/domains/"@ + domain@ + "-relationships.json"@,
{
    let mut p = "data/relationships/domains/".to_owned();
    p.append(domain);
    p.append("-relationships.json");
    p
}


/// Round trip: a document written with a header declaring `id: x` and
/// `title: y` above a body `b` resolves back to a node whose id is `x`,
/// whose title is `y`, whose content is `b` with leading whitespace
/// removed, and which declares no classification — whatever its path.
/// The declared values must be single-line, free of the `---`
/// delimiter, and stable under trimming and quote-stripping, as the
/// header syntax cannot carry other values.
pub proof fn lemma_written_node_round_trip(p: Seq<char>, x: Seq<char>, y: Seq<char>, b: Seq<char>)
    requires
        forall|j: int| 0 <= j < x.len() ==> x[j] != '\n',
        forall|j: int| 0 <= j < y.len() ==> y[j] != '\n',
        delim_free(x),
        delim_free(y),
        spec_trim(x) == x,
        spec_trim(y) == y,
        spec_strip_quotes(x) == x,
        spec_strip_quotes(y) == y,
    ensures
        ({
            let doc = "---\nid: "@ + x + "\ntitle: "@ + y + "\n---\n"@ + b;
            &&& spec_node_of(p, doc).id == x
            &&& spec_node_of(p, doc).title == y
            &&& spec_node_of(p, doc).content == spec_trim_start(b)
            &&& spec_node_of(p, doc).classification is None
            &&& spec_node_of(p, doc).path == p
        }),
{
    reveal_strlit("---\nid: ");
    reveal_strlit("\ntitle: ");
    reveal_strlit("\n---\n");
    reveal_strlit("id");
    reveal_strlit("title");
    reveal_strlit("classification");
    let l1 = "---\nid: "@;
    let l2 = "\ntitle: "@;
    let l3 = "\n---\n"@;
    let xl = x.len() as int;
    let yl = y.len() as int;
    let doc = l1 + x + l2 + y + l3 + b;
    assert(l1.len() == 8 && l2.len() == 8 && l3.len() == 5);
    assert(l1[0] == '-' && l1[1] == '-' && l1[2] == '-' && l1[3] == '\n' && l1[4] == 'i' && l1[5]
        == 'd' && l1[6] == ':' && l1[7] == ' ');
    assert(l2[0] == '\n' && l2[1] == 't' && l2[2] == 'i' && l2[3] == 't' && l2[4] == 'l' && l2[5]
        == 'e' && l2[6] == ':' && l2[7] == ' ');
    assert(l3[0] == '\n' && l3[1] == '-' && l3[2] == '-' && l3[3] == '-' && l3[4] == '\n');
    let k0 = 16 + xl + yl;
    let kk = k0 + 1;
    assert(doc.len() == 21 + xl + yl + b.len());
    assert(is_delim_at(doc, 0));
    assert(is_delim_at(doc, kk)) by {
        assert(doc[kk] == l3[1] && doc[kk + 1] == l3[2] && doc[kk + 2] == l3[3]);
    }
    assert forall|j: int| 3 <= j < kk implies !is_delim_at(doc, j) by {
        if is_delim_at(doc, j) {
            if j < 8 {
                assert(doc[j] == l1[j]);
            } else if j + 3 <= 8 + xl {
                assert(doc[j] == x[j - 8] && doc[j + 1] == x[j - 7] && doc[j + 2] == x[j - 6]);
                assert(!(x[j - 8] == '-' && x[j - 8 + 1] == '-' && x[j - 8 + 2] == '-'));
            } else if j < 8 + xl {
                assert(doc[8 + xl] == l2[0]);
                assert(8 + xl == j + 1 || 8 + xl == j + 2);
            } else if j < 16 + xl {
                assert(doc[j] == l2[j - 8 - xl]);
            } else if j + 3 <= 16 + xl + yl {
                assert(doc[j] == y[j - 16 - xl] && doc[j + 1] == y[j - 15 - xl] && doc[j + 2] == y[j
                    - 14 - xl]);
                assert(!(y[j - 16 - xl] == '-' && y[j - 16 - xl + 1] == '-' && y[j - 16 - xl + 2]
                    == '-'));
            } else if j < k0 {
                assert(doc[k0] == l3[0]);
                assert(k0 == j + 1 || k0 == j + 2);
            } else {
                assert(doc[j] == l3[0]);
            }
        }
    }
    lemma_find_delim_lands(doc, 3, kk as nat);
    assert(spec_has_header(doc));
    let h = doc.subrange(3, kk);
    assert(h.len() == 14 + xl + yl);
    // the header region, line by line
    assert(h[0] == '\n');
    let line0 = h.subrange(0, 0);
    assert(line0 =~= Seq::<char>::empty());
    assert(spec_line_entries(line0) =~= Seq::<(Seq<char>, Seq<char>)>::empty());
    // the id line
    assert forall|j: int| 1 <= j < 5 + xl implies h[j] != '\n' by {
        if j < 5 {
            assert(h[j] == l1[j + 3]);
        } else {
            assert(h[j] == x[j - 5]);
        }
    }
    assert(h[5 + xl] == l2[0]);
    lemma_find_from_lands(h, 1, (5 + xl) as nat, '\n');
    let line1 = h.subrange(1, 5 + xl);
    assert(line1[0] == 'i' && line1[1] == 'd' && line1[2] == ':' && line1[3] == ' ');
    lemma_find_from_lands(line1, 0, 2, ':');
    assert(line1.subrange(0, 2) =~= "id"@);
    assert(spec_trim("id"@) == "id"@) by {
        assert(!is_ws('i') && !is_ws('d'));
        assert("id"@.subrange(0, 2) =~= "id"@);
    }
    assert(line1.subrange(3, line1.len() as int) =~= seq![' '] + x);
    lemma_trim_space_prefix(x);
    assert(spec_line_entries(line1) =~= seq![("id"@, x)]);
    // the title line
    assert forall|j: int| 6 + xl <= j < 13 + xl + yl implies h[j] != '\n' by {
        if j < 13 + xl {
            assert(h[j] == l2[j - 5 - xl]);
        } else {
            assert(h[j] == y[j - 13 - xl]);
        }
    }
    assert(h[13 + xl + yl] == l3[0]);
    lemma_find_from_lands(h, (6 + xl) as nat, (13 + xl + yl) as nat, '\n');
    let line2 = h.subrange(6 + xl, 13 + xl + yl);
    assert(line2[0] == 't' && line2[1] == 'i' && line2[2] == 't' && line2[3] == 'l' && line2[4]
        == 'e' && line2[5] == ':' && line2[6] == ' ');
    lemma_find_from_lands(line2, 0, 5, ':');
    assert(line2.subrange(0, 5) =~= "title"@);
    assert(spec_trim("title"@) == "title"@) by {
        assert(!is_ws('t') && !is_ws('i') && !is_ws('l') && !is_ws('e'));
        assert("title"@.subrange(0, 5) =~= "title"@);
    }
    assert(line2.subrange(6, line2.len() as int) =~= seq![' '] + y);
    lemma_trim_space_prefix(y);
    assert(spec_line_entries(line2) =~= seq![("title"@, y)]);
    // the entries, assembled
    assert(spec_entries_from(h, (14 + xl + yl) as nat) =~= Seq::<(Seq<char>, Seq<char>)>::empty());
    assert(spec_entries_from(h, (6 + xl) as nat) == spec_line_entries(line2) + spec_entries_from(
        h,
        (14 + xl + yl) as nat,
    ));
    assert(spec_entries_from(h, 1) == spec_line_entries(line1) + spec_entries_from(
        h,
        (6 + xl) as nat,
    ));
    assert(spec_entries_from(h, 0) == spec_line_entries(line0) + spec_entries_from(h, 1));
    let m = spec_entries_from(h, 0);
    let e1 = ("id"@, x);
    let e2 = ("title"@, y);
    assert(m =~= seq![e1, e2]);
    assert("id"@.len() == 2 && "title"@.len() == 5 && "classification"@.len() == 14);
    assert(m.last() == e2 && m.drop_last() =~= seq![e1]);
    assert(seq![e1].last() == e1 && seq![e1].drop_last() =~= Seq::<(Seq<char>, Seq<char>)>::empty());
    assert(spec_lookup(Seq::<(Seq<char>, Seq<char>)>::empty(), "classification"@) is None);
    assert(spec_lookup(seq![e1], "id"@) == Some(x));
    assert(spec_lookup(seq![e1], "classification"@) is None);
    assert(spec_lookup(m, "id"@) == Some(x));
    assert(spec_lookup(m, "title"@) == Some(y));
    assert(spec_lookup(m, "classification"@) is None);
    // the body
    let pre = l1 + x + l2 + y + l3;
    assert(pre.len() == k0 + 5);
    assert(doc =~= pre + b);
    lemma_skip_ws_bounds(b, 0);
    let s0 = spec_skip_ws(b, 0) as int;
    lemma_skip_ws_concat(pre, b, 0);
    assert(spec_skip_ws(pre + b, (k0 + 5) as nat) == k0 + 5 + s0);
    assert(doc[k0 + 4] == l3[4]);
    assert(is_ws('\n'));
    assert(spec_skip_ws(doc, (kk + 3) as nat) == spec_skip_ws(doc, (k0 + 5) as nat));
    assert(spec_skip_ws(doc, (k0 + 5) as nat) == k0 + 5 + s0);
    assert(doc.subrange(k0 + 5 + s0, doc.len() as int) =~= spec_trim_start(b));
    // and the parse, put together
    assert(spec_find_delim(doc, 3) == Some(kk as nat));
    assert(spec_parse_markdown(doc).0 == m);
    assert(spec_parse_markdown(doc).1 == spec_trim_start(b));
}

} // verus!
