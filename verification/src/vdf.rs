//! Valve KeyValues (VDF) documents, as the `keyvalues_parser` crate reads them,
//! held in the library's own types.

use vstd::prelude::*;
use crate::text::str_eq;

verus! {

/// A value: a string, or an object mapping keys to one or more values, its
/// entries in the order in which the parser's map yields them.
pub enum VdfValue {
    Str(String),
    Obj(Vec<VdfEntry>),
}

/// A key of an object with the values written under it, in document order.
pub struct VdfEntry {
    pub key: String,
    pub values: Vec<VdfValue>,
}

/// A whole document: one top-level key and its value.
pub struct Vdf {
    pub key: String,
    pub value: VdfValue,
}

#[verifier::external_type_specification]
#[verifier::external_body]
pub struct ExKeyValuesValue<'a>(keyvalues_parser::Value<'a>);

/// What `keyvalues_parser::parse` makes of `text`: the document it reads, or
/// the message (its `Display` text) of the parse error it reports.
pub uninterp spec fn parsed_vdf(text: Seq<char>) -> Result<Vdf, Seq<char>>;

/// Copies a `keyvalues_parser::Value` into the library's `VdfValue`, one for
/// one: a string stays a string, an object keeps its entries in the order in
/// which the map yields them and each entry its values in order.
#[verifier::external_body]
fn vdf_value_from(v: &keyvalues_parser::Value) -> VdfValue {
    match v {
        keyvalues_parser::Value::Str(s) => VdfValue::Str(s.to_string()),
        keyvalues_parser::Value::Obj(o) => VdfValue::Obj(
            o.iter().map(|(k, vs)| VdfEntry { key: k.to_string(), values: vs.iter().map(vdf_value_from).collect() }).collect(),
        ),
    }
}

/// Calls `keyvalues_parser::parse`. Trusted: the document read, or the message
/// of the parse error, is a function of the text alone (named `parsed_vdf`).
#[verifier::external_body]
fn vdf_parse(text: &str) -> (r: Result<Vdf, String>)
    ensures
        match r {
            Ok(v) => parsed_vdf(text@) == Ok::<Vdf, Seq<char>>(v),
            Err(e) => parsed_vdf(text@) == Err::<Vdf, Seq<char>>(e@),
        },
{
    match keyvalues_parser::parse(text) {
        Ok(p) => Ok(Vdf { key: p.key.to_string(), value: vdf_value_from(&p.value) }),
        Err(e) => Err(e.to_string()),
    }
}

/// Reads a KeyValues document; on a parse error, the parser's message.
pub fn parse_vdf(text: &str) -> (r: Result<Vdf, String>)
    ensures
        match r {
            Ok(v) => parsed_vdf(text@) == Ok::<Vdf, Seq<char>>(v),
            Err(e) => parsed_vdf(text@) == Err::<Vdf, Seq<char>>(e@),
        },
{
    vdf_parse(text)
}

/// The values under `key` in an object's entries (the first entry with that key).
pub open spec fn obj_get(entries: Seq<VdfEntry>, key: Seq<char>) -> Option<Seq<VdfValue>>
    decreases entries.len(),
{
    if entries.len() == 0 {
        None
    } else if entries[0].key@ == key {
        Some(entries[0].values@)
    } else {
        obj_get(entries.drop_first(), key)
    }
}

/// The keys of an object's entries, in order.
pub open spec fn obj_keys(entries: Seq<VdfEntry>) -> Seq<Seq<char>> {
    entries.map_values(|e: VdfEntry| e.key@)
}

/// The object that the first of some values is, if it is one.
pub open spec fn first_obj(values: Seq<VdfValue>) -> Option<Seq<VdfEntry>> {
    if values.len() > 0 {
        match values[0] {
            VdfValue::Obj(es) => Some(es@),
            VdfValue::Str(_) => None,
        }
    } else {
        None
    }
}

/// The string that the first of some values is, if it is one.
pub open spec fn first_str(values: Seq<VdfValue>) -> Option<Seq<char>> {
    if values.len() > 0 {
        match values[0] {
            VdfValue::Str(s) => Some(s@),
            VdfValue::Obj(_) => None,
        }
    } else {
        None
    }
}

/// Looks up `key` among an object's entries.
pub fn obj_lookup<'a>(entries: &'a Vec<VdfEntry>, key: &str) -> (r: Option<&'a Vec<VdfValue>>)
    ensures
        match r {
            Some(vs) => obj_get(entries@, key@) == Some(vs@),
            None => obj_get(entries@, key@) is None,
        },
{
    let mut i: usize = 0;
    assert(entries@.skip(0) =~= entries@);
    while i < entries.len()
        invariant
            i <= entries.len(),
            obj_get(entries@, key@) == obj_get(entries@.skip(i as int), key@),
        decreases entries.len() - i,
    {
        assert(entries@.skip(i as int).drop_first() =~= entries@.skip(i + 1));
        if str_eq(entries[i].key.as_str(), key) {
            return Some(&entries[i].values);
        }
        i = i + 1;
    }
    None
}

/// The object that the first of some values is, if it is one.
pub fn first_obj_of(values: &Vec<VdfValue>) -> (r: Option<&Vec<VdfEntry>>)
    ensures
        match r {
            Some(es) => first_obj(values@) == Some(es@),
            None => first_obj(values@) is None,
        },
{
    if values.len() == 0 {
        return None;
    }
    match &values[0] {
        VdfValue::Obj(es) => Some(es),
        VdfValue::Str(_) => None,
    }
}

/// The string that the first of some values is, if it is one.
pub fn first_str_of(values: &Vec<VdfValue>) -> (r: Option<&String>)
    ensures
        match r {
            Some(s) => first_str(values@) == Some(s@),
            None => first_str(values@) is None,
        },
{
    if values.len() == 0 {
        return None;
    }
    match &values[0] {
        VdfValue::Str(s) => Some(s),
        VdfValue::Obj(_) => None,
    }
}

} // verus!
