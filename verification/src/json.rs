//! JSON documents as this library reads them.
//!
//! The text is parsed by `serde_json` behind one trusted wrapper; the tree
//! it yields is converted, variant by variant, into the crate's own `Json`
//! type, so that every decision taken over the document afterwards is
//! verified.  Numbers keep only what the manifest decoder can consume: a
//! non-negative integer, a negative integer, or the mark of any other
//! number.

use vstd::prelude::*;
use vstd::string::StringSliceAdditionalSpecFns;
use vstd::utf8::encode_utf8_decode_utf8;

verus! {

broadcast use
    vstd::std_specs::vec::axiom_vec_decreases_to_view,
    vstd::seq::axiom_seq_index_decreases,
    vstd::seq::axiom_seq_subrange_decreases;

#[verifier::external_type_specification]
#[verifier::external_body]
pub struct ExValue(serde_json::Value);

/// A JSON value held in plain data.
pub enum Json {
    Null,
    Bool(bool),
    /// A number that is a non-negative integer.
    UInt(u64),
    /// A number that is a negative integer.
    Int(i64),
    /// A number that is neither: a fraction or out of the integer range.
    NumOther,
    Str(String),
    Arr(Vec<Json>),
    Obj(Vec<(String, Json)>),
}

/// The mathematical value of a `Json` tree.
pub enum JsonV {
    Null,
    Bool(bool),
    UInt(u64),
    Int(i64),
    NumOther,
    Str(Seq<char>),
    Arr(Seq<JsonV>),
    Obj(Seq<(Seq<char>, JsonV)>),
}

/// The value a `Json` tree holds.
pub open spec fn json_view(j: Json) -> JsonV
    decreases j,
{
    match j {
        Json::Null => JsonV::Null,
        Json::Bool(b) => JsonV::Bool(b),
        Json::UInt(u) => JsonV::UInt(u),
        Json::Int(i) => JsonV::Int(i),
        Json::NumOther => JsonV::NumOther,
        Json::Str(s) => JsonV::Str(s@),
        Json::Arr(v) => JsonV::Arr(json_view_seq(v@)),
        Json::Obj(v) => JsonV::Obj(json_view_fields(v@)),
    }
}

/// The values an array's elements hold.
pub open spec fn json_view_seq(s: Seq<Json>) -> Seq<JsonV>
    decreases s,
{
    if s.len() == 0 {
        Seq::empty()
    } else {
        seq![json_view(s[0])] + json_view_seq(s.subrange(1, s.len() as int))
    }
}

/// The keys and values an object's fields hold.
pub open spec fn json_view_fields(s: Seq<(String, Json)>) -> Seq<(Seq<char>, JsonV)>
    decreases s,
{
    if s.len() == 0 {
        Seq::empty()
    } else {
        seq![(s[0].0@, json_view(s[0].1))] + json_view_fields(s.subrange(1, s.len() as int))
    }
}

/// An array view holds one value per element, in order.
pub proof fn lemma_view_seq(s: Seq<Json>)
    ensures
        json_view_seq(s).len() == s.len(),
        forall|i: int| 0 <= i < s.len() ==> json_view_seq(s)[i] == json_view(#[trigger] s[i]),
    decreases s.len(),
{
    if s.len() > 0 {
        let rest = s.subrange(1, s.len() as int);
        lemma_view_seq(rest);
        assert forall|i: int| 0 <= i < s.len() implies json_view_seq(s)[i] == json_view(
            #[trigger] s[i],
        ) by {
            if i > 0 {
                assert(rest[i - 1] == s[i]);
                assert(json_view_seq(s)[i] == json_view_seq(rest)[i - 1]);
            }
        }
    }
}

/// An object view holds one key-value pair per field, in order.
pub proof fn lemma_view_fields(s: Seq<(String, Json)>)
    ensures
        json_view_fields(s).len() == s.len(),
        forall|i: int|
            0 <= i < s.len() ==> json_view_fields(s)[i] == ((#[trigger] s[i]).0@, json_view(
                s[i].1,
            )),
    decreases s.len(),
{
    if s.len() > 0 {
        let rest = s.subrange(1, s.len() as int);
        lemma_view_fields(rest);
        assert forall|i: int| 0 <= i < s.len() implies json_view_fields(s)[i] == ((
        #[trigger] s[i]).0@, json_view(s[i].1)) by {
            if i > 0 {
                assert(rest[i - 1] == s[i]);
                assert(json_view_fields(s)[i] == json_view_fields(rest)[i - 1]);
            }
        }
    }
}

/// The JSON value a text parses to, or `None` when the text is not JSON.
pub uninterp spec fn json_of(s: Seq<char>) -> Option<JsonV>;

/// The value of a parsed `serde_json` tree, as this library reads it.
pub uninterp spec fn value_rep(v: serde_json::Value) -> JsonV;

/// Relies on serde_json::Value's variants: the conversion moves each field
/// into the matching variant of this crate's own tree, taking of numbers
/// only their integer reading.
#[verifier::external_body]
fn json_from_value(v: &serde_json::Value) -> (r: Json)
    ensures
        json_view(r) == value_rep(*v),
{
    match v {
        serde_json::Value::Null => Json::Null,
        serde_json::Value::Bool(b) => Json::Bool(*b),
        serde_json::Value::Number(n) => match (n.as_u64(), n.as_i64()) {
            (Some(u), _) => Json::UInt(u),
            (None, Some(i)) => Json::Int(i),
            (None, None) => Json::NumOther,
        },
        serde_json::Value::String(s) => Json::Str(s.clone()),
        serde_json::Value::Array(a) => Json::Arr(a.iter().map(json_from_value).collect()),
        serde_json::Value::Object(m) => Json::Obj(
            m.iter().map(|(k, x)| (k.clone(), json_from_value(x))).collect(),
        ),
    }
}

/// Relies on serde_json::from_str::<serde_json::Value>: whether a text is
/// well-formed JSON, and which value it then holds, depend on the text
/// alone.
#[verifier::external_body]
pub(crate) fn parse_json(s: &str) -> (r: Option<Json>)
    ensures
        (r is Some) == (json_of(s@) is Some),
        r matches Some(j) ==> Some(json_view(j)) == json_of(s@),
{
    match serde_json::from_str::<serde_json::Value>(s) {
        Ok(v) => Some(json_from_value(&v)),
        Err(_) => None,
    }
}

/// Whether two strings hold the same characters.
pub fn str_eq(a: &str, b: &str) -> (r: bool)
    ensures
        r == (a@ == b@),
{
    proof {
        encode_utf8_decode_utf8(a@);
        encode_utf8_decode_utf8(b@);
    }
    let ab = a.as_bytes();
    let bb = b.as_bytes();
    if ab.len() != bb.len() {
        return false;
    }
    let mut i: usize = 0;
    while i < ab.len()
        invariant
            i <= ab.len() == bb.len(),
            ab@ == a.spec_bytes(),
            bb@ == b.spec_bytes(),
            forall|j: int| 0 <= j < i ==> ab@[j] == bb@[j],
        decreases ab.len() - i,
    {
        if ab[i] != bb[i] {
            proof {
                assert(a.spec_bytes() != b.spec_bytes());
            }
            return false;
        }
        i = i + 1;
    }
    proof {
        assert(a.spec_bytes() =~= b.spec_bytes());
        encode_utf8_decode_utf8(a@);
        encode_utf8_decode_utf8(b@);
    }
    true
}

/// The value under `key` among an object's fields: the first match.
pub open spec fn obj_get(fields: Seq<(Seq<char>, JsonV)>, key: Seq<char>) -> Option<JsonV>
    decreases fields.len(),
{
    if fields.len() == 0 {
        None
    } else if fields[0].0 == key {
        Some(fields[0].1)
    } else {
        obj_get(fields.drop_first(), key)
    }
}

/// Looks a key up among an object's fields.
pub fn json_get<'a>(fields: &'a Vec<(String, Json)>, key: &str) -> (r: Option<&'a Json>)
    ensures
        match r {
            Some(j) => Some(json_view(*j)) == obj_get(json_view_fields(fields@), key@),
            None => obj_get(json_view_fields(fields@), key@) is None,
        },
{
    let ghost all = json_view_fields(fields@);
    proof {
        lemma_view_fields(fields@);
        assert(all.skip(0) =~= all);
    }
    let mut i: usize = 0;
    while i < fields.len()
        invariant
            i <= fields@.len(),
            all == json_view_fields(fields@),
            all.len() == fields@.len(),
            obj_get(all.skip(i as int), key@) == obj_get(all, key@),
        decreases fields@.len() - i,
    {
        if str_eq(fields[i].0.as_str(), key) {
            proof {
                lemma_view_fields(fields@);
                assert(all.skip(i as int)[0] == all[i as int]);
            }
            return Some(&fields[i].1);
        }
        proof {
            lemma_view_fields(fields@);
            assert(all.skip(i as int)[0] == all[i as int]);
            assert(all.skip(i as int).subrange(1, all.skip(i as int).len() as int) =~= all.skip(
                i + 1,
            ));
        }
        i = i + 1;
    }
    proof {
        assert(all.skip(i as int) =~= Seq::<(Seq<char>, JsonV)>::empty());
    }
    None
}

} // verus!
