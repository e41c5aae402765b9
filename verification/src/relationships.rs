//! Relationship files: the decoded contents of one domain's
//! relationship document, and the verified decoding of a parsed JSON
//! value into that shape.

use vstd::prelude::*;
use crate::json::{parse_json, parsed_json, JsonNum, JsonNumView, JsonVal};
use crate::text::str_eq;

verus! {

broadcast use vstd::string::group_string_axioms;

/// A directed, typed edge between two node ids. The ids are not held
/// against the node set: dangling references are legal.
#[derive(Debug)]
pub struct Relationship {
    pub source: String,
    pub target: String,
    /// The edge's classification, the file's `type` field.
    pub rel_type: String,
    /// Optional numeric weight, kept as the number it was written as.
    pub strength: Option<JsonNum>,
    /// Optional unstructured payload, opaque to this layer.
    pub metadata: Option<JsonVal>,
}

#[verifier::ext_equal]
pub struct RelationshipView {
    pub source: Seq<char>,
    pub target: Seq<char>,
    pub rel_type: Seq<char>,
    pub strength: Option<JsonNumView>,
    pub metadata: Option<JsonVal>,
}

impl View for Relationship {
    type V = RelationshipView;

    open spec fn view(&self) -> RelationshipView {
        RelationshipView {
            source: self.source@,
            target: self.target@,
            rel_type: self.rel_type@,
            strength: match self.strength {
                Some(ref n) => Some(n@),
                None => None,
            },
            metadata: self.metadata,
        }
    }
}

/// The decoded contents of one domain's relationship file.
#[derive(Debug)]
pub struct RelationshipFile {
    pub domain: Option<String>,
    /// Declared count; not held against the list's length, a stale
    /// count is acceptable.
    pub total_relationships: Option<usize>,
    pub relationships: Vec<Relationship>,
}

#[verifier::ext_equal]
pub struct RelationshipFileView {
    pub domain: Option<Seq<char>>,
    pub total_relationships: Option<usize>,
    pub relationships: Seq<RelationshipView>,
}

pub open spec fn rels_view(v: Seq<Relationship>) -> Seq<RelationshipView> {
    v.map_values(|r: Relationship| r@)
}

impl View for RelationshipFile {
    type V = RelationshipFileView;

    open spec fn view(&self) -> RelationshipFileView {
        RelationshipFileView {
            domain: match self.domain {
                Some(ref d) => Some(d@),
                None => None,
            },
            total_relationships: self.total_relationships,
            relationships: rels_view(self.relationships@),
        }
    }
}

/// The value under `key` among an object's fields, the last occurrence
/// winning.
pub open spec fn spec_obj_lookup(
    fields: Seq<(String, JsonVal)>,
    key: Seq<char>,
) -> Option<JsonVal>
    decreases fields.len(),
{
    if fields.len() == 0 {
        None
    } else if fields.last().0@ == key {
        Some(fields.last().1)
    } else {
        spec_obj_lookup(fields.drop_last(), key)
    }
}

/// A required string field: the looked-up value must be a string.
pub open spec fn spec_req_str(v: Option<JsonVal>) -> Option<Seq<char>> {
    match v {
        Some(JsonVal::Str(s)) => Some(s@),
        _ => None,
    }
}

/// An optional string field: absent or null is an absent value, a
/// string is its text, anything else refuses to decode (outer `None`).
pub open spec fn spec_opt_str(v: Option<JsonVal>) -> Option<Option<Seq<char>>> {
    match v {
        None => Some(None),
        Some(JsonVal::Null) => Some(None),
        Some(JsonVal::Str(s)) => Some(Some(s@)),
        Some(_) => None,
    }
}

/// An optional numeric field: absent or null is an absent value, a
/// number is kept, anything else refuses to decode (outer `None`).
pub open spec fn spec_opt_num(v: Option<JsonVal>) -> Option<Option<JsonNumView>> {
    match v {
        None => Some(None),
        Some(JsonVal::Null) => Some(None),
        Some(JsonVal::Num(n)) => Some(Some(n@)),
        Some(_) => None,
    }
}

/// An optional count field: absent or null is an absent value, a
/// non-negative integer fitting `usize` is its value, anything else
/// refuses to decode (outer `None`).
pub open spec fn spec_opt_count(v: Option<JsonVal>) -> Option<Option<usize>> {
    match v {
        None => Some(None),
        Some(JsonVal::Null) => Some(None),
        Some(JsonVal::Num(n)) => match n.int_val {
            Some(u) => if u <= usize::MAX {
                Some(Some(u as usize))
            } else {
                None
            },
            None => None,
        },
        Some(_) => None,
    }
}

/// An optional opaque field: absent or null is an absent value,
/// anything else is carried as it stands.
pub open spec fn spec_opt_val(v: Option<JsonVal>) -> Option<JsonVal> {
    match v {
        None => None,
        Some(JsonVal::Null) => None,
        Some(x) => Some(x),
    }
}

/// How one relationship decodes from a JSON value: an object with
/// required string fields `source`, `target` and `type`, an optional
/// numeric `strength` and an optional opaque `metadata`; unknown fields
/// are ignored; anything else refuses to decode.
pub open spec fn spec_decode_relationship(v: JsonVal) -> Option<RelationshipView> {
    match v {
        JsonVal::Obj(fields) => {
            let src = spec_req_str(spec_obj_lookup(fields@, "source"@));
            let tgt = spec_req_str(spec_obj_lookup(fields@, "target"@));
            let ty = spec_req_str(spec_obj_lookup(fields@, "type"@));
            let st = spec_opt_num(spec_obj_lookup(fields@, "strength"@));
            if src is Some && tgt is Some && ty is Some && st is Some {
                Some(
                    RelationshipView {
                        source: src->Some_0,
                        target: tgt->Some_0,
                        rel_type: ty->Some_0,
                        strength: st->Some_0,
                        metadata: spec_opt_val(spec_obj_lookup(fields@, "metadata"@)),
                    },
                )
            } else {
                None
            }
        },
        _ => None,
    }
}

/// How a list of relationships decodes: element by element, in order;
/// one refusal refuses the list.
pub open spec fn spec_decode_relationships(vs: Seq<JsonVal>) -> Option<Seq<RelationshipView>>
    decreases vs.len(),
{
    if vs.len() == 0 {
        Some(Seq::empty())
    } else {
        match (spec_decode_relationship(vs.first()), spec_decode_relationships(vs.drop_first())) {
            (Some(r), Some(rs)) => Some(seq![r] + rs),
            _ => None,
        }
    }
}

/// How a relationship file decodes from a JSON value: an object with an
/// optional string `domain`, an optional count `total_relationships`,
/// and a required `relationships` array; unknown fields are ignored; a
/// missing `relationships` list refuses to decode, it is not an empty
/// default.
pub open spec fn spec_decode_rel_file(v: JsonVal) -> Option<RelationshipFileView> {
    match v {
        JsonVal::Obj(fields) => {
            let dom = spec_opt_str(spec_obj_lookup(fields@, "domain"@));
            let tot = spec_opt_count(spec_obj_lookup(fields@, "total_relationships"@));
            let rels = match spec_obj_lookup(fields@, "relationships"@) {
                Some(JsonVal::Arr(items)) => spec_decode_relationships(items@),
                _ => None,
            };
            if dom is Some && tot is Some && rels is Some {
                Some(
                    RelationshipFileView {
                        domain: dom->Some_0,
                        total_relationships: tot->Some_0,
                        relationships: rels->Some_0,
                    },
                )
            } else {
                None
            }
        },
        _ => None,
    }
}

/// Pulls apart an object's fields, keeping the last value seen under
/// each of the five keys a relationship reads.
fn split_rel_fields(fields: Vec<(String, JsonVal)>) -> (r: (
    Option<JsonVal>,
    Option<JsonVal>,
    Option<JsonVal>,
    Option<JsonVal>,
    Option<JsonVal>,
))
    ensures
        r.0 == spec_obj_lookup(fields@, "source"@),
        r.1 == spec_obj_lookup(fields@, "target"@),
        r.2 == spec_obj_lookup(fields@, "type"@),
        r.3 == spec_obj_lookup(fields@, "strength"@),
        r.4 == spec_obj_lookup(fields@, "metadata"@),
{
    let ghost orig = fields@;
    let mut rest = fields;
    let mut src: Option<JsonVal> = None;
    let mut tgt: Option<JsonVal> = None;
    let mut ty: Option<JsonVal> = None;
    let mut st: Option<JsonVal> = None;
    let mut md: Option<JsonVal> = None;
    let ghost mut i: int = 0;
    proof {
        assert(orig.take(0int) =~= Seq::<(String, JsonVal)>::empty());
    }
    while rest.len() > 0
        invariant
            0 <= i <= orig.len(),
            rest@ =~= orig.skip(i),
            src == spec_obj_lookup(orig.take(i), "source"@),
            tgt == spec_obj_lookup(orig.take(i), "target"@),
            ty == spec_obj_lookup(orig.take(i), "type"@),
            st == spec_obj_lookup(orig.take(i), "strength"@),
            md == spec_obj_lookup(orig.take(i), "metadata"@),
        decreases rest@.len(),
    {
        let (k, val) = rest.remove(0);
        proof {
            reveal_strlit("source");
            reveal_strlit("target");
            reveal_strlit("type");
            reveal_strlit("strength");
            reveal_strlit("metadata");
            assert("source"@.len() == 6 && "target"@.len() == 6 && "type"@.len() == 4
                && "strength"@.len() == 8 && "metadata"@.len() == 8);
            assert("source"@[0] == 's' && "target"@[0] == 't' && "strength"@[0] == 's'
                && "metadata"@[0] == 'm');
            assert(k == orig[i].0 && val == orig[i].1);
            assert(rest@ =~= orig.skip(i + 1));
            assert(orig.take(i + 1).drop_last() =~= orig.take(i));
            assert(orig.take(i + 1).last() == orig[i]);
        }
        if str_eq(k.as_str(), "source") {
            src = Some(val);
        } else if str_eq(k.as_str(), "target") {
            tgt = Some(val);
        } else if str_eq(k.as_str(), "type") {
            ty = Some(val);
        } else if str_eq(k.as_str(), "strength") {
            st = Some(val);
        } else if str_eq(k.as_str(), "metadata") {
            md = Some(val);
        }
        proof {
            i = i + 1;
        }
    }
    proof {
        assert(orig.take(orig.len() as int) =~= orig);
        assert(i == orig.len());
    }
    (src, tgt, ty, st, md)
}

/// Decodes one relationship, as `spec_decode_relationship` describes.
fn decode_relationship(v: JsonVal) -> (r: Result<Relationship, String>)
    ensures
        r is Ok <==> spec_decode_relationship(v) is Some,
        r is Ok ==> r->Ok_0@ == spec_decode_relationship(v)->Some_0,
{
    let fields = match v {
        JsonVal::Obj(f) => f,
        _ => {
            return Err("Failed to parse JSON: relationship is not an object".to_owned());
        },
    };
    let (src, tgt, ty, st, md) = split_rel_fields(fields);
    let source = match src {
        Some(JsonVal::Str(s)) => s,
        _ => {
            return Err("Failed to parse JSON: relationship source".to_owned());
        },
    };
    let target = match tgt {
        Some(JsonVal::Str(s)) => s,
        _ => {
            return Err("Failed to parse JSON: relationship target".to_owned());
        },
    };
    let rel_type = match ty {
        Some(JsonVal::Str(s)) => s,
        _ => {
            return Err("Failed to parse JSON: relationship type".to_owned());
        },
    };
    let strength = match st {
        None => None,
        Some(JsonVal::Null) => None,
        Some(JsonVal::Num(n)) => Some(n),
        Some(_) => {
            return Err("Failed to parse JSON: relationship strength".to_owned());
        },
    };
    let metadata = match md {
        None => None,
        Some(JsonVal::Null) => None,
        Some(x) => Some(x),
    };
    Ok(Relationship { source, target, rel_type, strength, metadata })
}

/// Decodes a relationship list element by element, draining the list.
#[verifier::loop_isolation(false)]
fn decode_relationships(rest: &mut Vec<JsonVal>) -> (r: Result<Vec<Relationship>, String>)
    ensures
        r is Ok <==> spec_decode_relationships(old(rest)@) is Some,
        r is Ok ==> rels_view(r->Ok_0@) == spec_decode_relationships(old(rest)@)->Some_0,
{
    let ghost orig = old(rest)@;
    let mut acc: Vec<Relationship> = Vec::new();
    proof {
        assert(rels_view(acc@) =~= Seq::<RelationshipView>::empty());
    }
    while rest.len() > 0
        invariant
            match spec_decode_relationships(rest@) {
                Some(tail) => spec_decode_relationships(orig) matches Some(whole) && whole
                    =~= rels_view(acc@) + tail,
                None => spec_decode_relationships(orig) is None,
            },
        decreases rest@.len(),
    {
        let ghost rest_before = rest@;
        let item = rest.remove(0);
        proof {
            assert(item == rest_before.first());
            assert(rest@ =~= rest_before.drop_first());
        }
        match decode_relationship(item) {
            Ok(rel) => {
                let ghost acc_before = acc@;
                acc.push(rel);
                proof {
                    assert(rels_view(acc@) =~= rels_view(acc_before).push(rel@));
                    if spec_decode_relationships(rest@) is Some {
                        let tail = spec_decode_relationships(rest@)->Some_0;
                        assert(rels_view(acc_before) + (seq![rel@] + tail) =~= rels_view(acc@)
                            + tail);
                    }
                }
            },
            Err(e) => {
                return Err(e);
            },
        }
    }
    proof {
        assert(rest@.len() == 0);
        assert(spec_decode_relationships(rest@) == Some(Seq::<RelationshipView>::empty()));
        assert(rels_view(acc@) + Seq::<RelationshipView>::empty() =~= rels_view(acc@));
    }
    Ok(acc)
}

/// Pulls apart an object's fields, keeping the last value seen under
/// each of the three keys a relationship file reads.
fn split_file_fields(fields: Vec<(String, JsonVal)>) -> (r: (
    Option<JsonVal>,
    Option<JsonVal>,
    Option<JsonVal>,
))
    ensures
        r.0 == spec_obj_lookup(fields@, "domain"@),
        r.1 == spec_obj_lookup(fields@, "total_relationships"@),
        r.2 == spec_obj_lookup(fields@, "relationships"@),
{
    let ghost orig = fields@;
    let mut rest = fields;
    let mut dom: Option<JsonVal> = None;
    let mut tot: Option<JsonVal> = None;
    let mut rels: Option<JsonVal> = None;
    let ghost mut i: int = 0;
    proof {
        assert(orig.take(0int) =~= Seq::<(String, JsonVal)>::empty());
    }
    while rest.len() > 0
        invariant
            0 <= i <= orig.len(),
            rest@ =~= orig.skip(i),
            dom == spec_obj_lookup(orig.take(i), "domain"@),
            tot == spec_obj_lookup(orig.take(i), "total_relationships"@),
            rels == spec_obj_lookup(orig.take(i), "relationships"@),
        decreases rest@.len(),
    {
        let (k, val) = rest.remove(0);
        proof {
            reveal_strlit("domain");
            reveal_strlit("total_relationships");
            reveal_strlit("relationships");
            assert("domain"@.len() == 6 && "total_relationships"@.len() == 19
                && "relationships"@.len() == 13);
            assert(k == orig[i].0 && val == orig[i].1);
            assert(rest@ =~= orig.skip(i + 1));
            assert(orig.take(i + 1).drop_last() =~= orig.take(i));
            assert(orig.take(i + 1).last() == orig[i]);
        }
        if str_eq(k.as_str(), "domain") {
            dom = Some(val);
        } else if str_eq(k.as_str(), "total_relationships") {
            tot = Some(val);
        } else if str_eq(k.as_str(), "relationships") {
            rels = Some(val);
        }
        proof {
            i = i + 1;
        }
    }
    proof {
        assert(orig.take(orig.len() as int) =~= orig);
        assert(i == orig.len());
    }
    (dom, tot, rels)
}

/// Decodes a whole relationship file, as `spec_decode_rel_file`
/// describes.
pub fn decode_rel_file(v: JsonVal) -> (r: Result<RelationshipFile, String>)
    ensures
        r is Ok <==> spec_decode_rel_file(v) is Some,
        r is Ok ==> r->Ok_0@ == spec_decode_rel_file(v)->Some_0,
{
    let fields = match v {
        JsonVal::Obj(f) => f,
        _ => {
            return Err("Failed to parse JSON: not an object".to_owned());
        },
    };
    let (dom, tot, rels) = split_file_fields(fields);
    let domain = match dom {
        None => None,
        Some(JsonVal::Null) => None,
        Some(JsonVal::Str(s)) => Some(s),
        Some(_) => {
            return Err("Failed to parse JSON: domain".to_owned());
        },
    };
    let total_relationships = match tot {
        None => None,
        Some(JsonVal::Null) => None,
        Some(JsonVal::Num(n)) => match n.int_val {
            Some(u) => if u <= usize::MAX as u64 {
                Some(u as usize)
            } else {
                return Err("Failed to parse JSON: total_relationships".to_owned());
            },
            None => {
                return Err("Failed to parse JSON: total_relationships".to_owned());
            },
        },
        Some(_) => {
            return Err("Failed to parse JSON: total_relationships".to_owned());
        },
    };
    let items = match rels {
        Some(JsonVal::Arr(items)) => items,
        _ => {
            return Err("Failed to parse JSON: missing relationships".to_owned());
        },
    };
    let mut items = items;
    let relationships = match decode_relationships(&mut items) {
        Ok(rs) => rs,
        Err(e) => {
            return Err(e);
        },
    };
    Ok(RelationshipFile { domain, total_relationships, relationships })
}

/// Decodes the text of one domain's relationship file: `serde_json`
/// parses the text, and the value is held to the file's shape. Fails
/// with a decode error when the text is not well-formed JSON or does
/// not conform.
pub fn load_relationship_file(content: &str) -> (r: Result<RelationshipFile, String>)
    ensures
        parsed_json(content@) is None ==> r is Err,
        parsed_json(content@) matches Some(v) ==> {
            &&& r is Ok <==> spec_decode_rel_file(v) is Some
            &&& r is Ok ==> r->Ok_0@ == spec_decode_rel_file(v)->Some_0
        },
{
    match parse_json(content) {
        Err(e) => Err(e),
        Ok(v) => decode_rel_file(v),
    }
}

} // verus!
