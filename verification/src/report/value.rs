//! The values that documents are made of.

use vstd::prelude::*;

use crate::text::{hexadecimal, prefixed_hex};

verus! {

broadcast use vstd::std_specs::vec::group_vec_axioms;

/// A structured value.
#[derive(Debug)]
pub enum JsonValue {
    Null,
    Bool(bool),
    Unsigned(u64),
    Signed(i64),
    Text(String),
    List(Vec<JsonValue>),
    Object(Vec<JsonField>),
}

/// A named value of an object.
#[derive(Debug)]
pub struct JsonField {
    pub key: &'static str,
    pub value: JsonValue,
}

/// The mathematical value of a structured value.
pub ghost enum JsonTree {
    Null,
    Bool(bool),
    Number(int),
    Text(Seq<char>),
    List(Seq<JsonTree>),
    Object(Seq<(Seq<char>, JsonTree)>),
}

/// The tree of a structured value.
pub open spec fn tree(value: JsonValue) -> JsonTree
    decreases value,
{
    match value {
        JsonValue::Null => JsonTree::Null,
        JsonValue::Bool(flag) => JsonTree::Bool(flag),
        JsonValue::Unsigned(number) => JsonTree::Number(number as int),
        JsonValue::Signed(number) => JsonTree::Number(number as int),
        JsonValue::Text(text) => JsonTree::Text(text@),
        JsonValue::List(items) => JsonTree::List(
            Seq::new(
                items@.len(),
                |i: int|
                    if 0 <= i < items@.len() {
                        tree(items@[i])
                    } else {
                        JsonTree::Null
                    },
            ),
        ),
        JsonValue::Object(fields) => JsonTree::Object(
            Seq::new(
                fields@.len(),
                |i: int|
                    if 0 <= i < fields@.len() {
                        (fields@[i].key@, tree(fields@[i].value))
                    } else {
                        (Seq::empty(), JsonTree::Null)
                    },
            ),
        ),
    }
}

/// The fields of an object that has none.
pub open spec fn no_fields() -> Seq<(Seq<char>, JsonTree)> {
    Seq::empty()
}

/// The trees of the fields of an object.
pub open spec fn field_trees(fields: Seq<JsonField>) -> Seq<(Seq<char>, JsonTree)> {
    Seq::new(fields.len(), |i: int| (fields[i].key@, tree(fields[i].value)))
}

/// The trees of the items of a list.
pub open spec fn item_trees(items: Seq<JsonValue>) -> Seq<JsonTree> {
    Seq::new(items.len(), |i: int| tree(items[i]))
}

/// Makes an object of fields.
pub fn object(fields: Vec<JsonField>) -> (r: JsonValue)
    ensures
        tree(r) == JsonTree::Object(field_trees(fields@)),
{
    let value = JsonValue::Object(fields);
    assert(tree(value)->Object_0 =~= field_trees(fields@));
    value
}

/// Makes a list of items.
pub fn list(items: Vec<JsonValue>) -> (r: JsonValue)
    ensures
        tree(r) == JsonTree::List(item_trees(items@)),
{
    let value = JsonValue::List(items);
    assert(tree(value)->List_0 =~= item_trees(items@));
    value
}

/// An object without fields yet.
pub fn new_fields() -> (r: Vec<JsonField>)
    ensures
        field_trees(r@) == no_fields(),
{
    let fields: Vec<JsonField> = Vec::new();
    assert(field_trees(fields@) =~= Seq::<(Seq<char>, JsonTree)>::empty());
    fields
}

/// Adds a field to an object.
pub fn put(fields: &mut Vec<JsonField>, key: &'static str, value: JsonValue)
    ensures
        field_trees(final(fields)@) == field_trees(old(fields)@).push((key@, tree(value))),
{
    let ghost before = fields@;
    fields.push(JsonField { key, value });
    assert(field_trees(fields@) =~= field_trees(before).push((key@, tree(value))));
}

/// The tree of a number.
pub open spec fn number_tree(value: int) -> JsonTree {
    JsonTree::Number(value)
}

/// The tree of a hexadecimal number with at least `width` digits.
pub open spec fn hex_tree(value: nat, width: nat) -> JsonTree {
    JsonTree::Text("0x"@ + hexadecimal(value, width))
}

/// The tree of an optional number.
pub open spec fn optional_number_tree(value: Option<usize>) -> JsonTree {
    match value {
        Some(value) => JsonTree::Number(value as int),
        None => JsonTree::Null,
    }
}

/// The tree of an optional hexadecimal number.
pub open spec fn optional_hex_tree(value: Option<usize>) -> JsonTree {
    match value {
        Some(value) => hex_tree(value as nat, 0),
        None => JsonTree::Null,
    }
}

/// The tree of an optional text.
pub open spec fn optional_text_tree(value: Option<String>) -> JsonTree {
    match value {
        Some(text) => JsonTree::Text(text@),
        None => JsonTree::Null,
    }
}

/// The unsigned value with the bits of `value`.
pub open spec fn unsigned32(value: i32) -> nat {
    if value >= 0 {
        value as nat
    } else {
        (value + 0x1_0000_0000) as nat
    }
}

/// A number.
pub fn number(value: usize) -> (r: JsonValue)
    ensures
        tree(r) == number_tree(value as int),
{
    JsonValue::Unsigned(value as u64)
}

/// A number.
pub fn number32(value: u32) -> (r: JsonValue)
    ensures
        tree(r) == number_tree(value as int),
{
    JsonValue::Unsigned(value as u64)
}

/// A signed number.
pub fn signed(value: i32) -> (r: JsonValue)
    ensures
        tree(r) == number_tree(value as int),
{
    JsonValue::Signed(value as i64)
}

/// A flag.
pub fn flag(value: bool) -> (r: JsonValue)
    ensures
        tree(r) == JsonTree::Bool(value),
{
    JsonValue::Bool(value)
}

/// A text.
pub fn text(value: &str) -> (r: JsonValue)
    ensures
        tree(r) == JsonTree::Text(value@),
{
    JsonValue::Text(value.to_owned())
}

/// An optional text.
pub fn optional_text(value: &Option<String>) -> (r: JsonValue)
    ensures
        tree(r) == optional_text_tree(*value),
{
    match value {
        Some(value) => JsonValue::Text(value.clone()),
        None => JsonValue::Null,
    }
}

/// Formats one pointer-sized value as uppercase hexadecimal.
pub fn format_hex(value: usize) -> (r: String)
    ensures
        r@ == "0x"@ + hexadecimal(value as nat, 0),
{
    prefixed_hex(value as u64, 0)
}

/// Formats one optional pointer-sized value as uppercase hexadecimal.
pub fn format_optional_hex(value: Option<usize>) -> (r: Option<String>)
    ensures
        match value {
            Some(value) => r is Some && r->0@ == "0x"@ + hexadecimal(value as nat, 0),
            None => r is None,
        },
{
    match value {
        Some(value) => Some(format_hex(value)),
        None => None,
    }
}

/// A hexadecimal number.
pub fn hex(value: usize) -> (r: JsonValue)
    ensures
        tree(r) == hex_tree(value as nat, 0),
{
    JsonValue::Text(format_hex(value))
}

/// A hexadecimal number with at least `width` digits.
pub fn hex32(value: u32, width: usize) -> (r: JsonValue)
    ensures
        tree(r) == hex_tree(value as nat, width as nat),
{
    JsonValue::Text(prefixed_hex(value as u64, width))
}

/// The bits of a status as an eight-digit hexadecimal number.
pub fn status_hex(value: i32) -> (r: JsonValue)
    ensures
        tree(r) == hex_tree(unsigned32(value), 8),
{
    let bits: u64 = if value >= 0 {
        value as u64
    } else {
        (value as i64 + 0x1_0000_0000) as u64
    };
    JsonValue::Text(prefixed_hex(bits, 8))
}

/// An optional number.
pub fn optional_number(value: Option<usize>) -> (r: JsonValue)
    ensures
        tree(r) == optional_number_tree(value),
{
    match value {
        Some(value) => JsonValue::Unsigned(value as u64),
        None => JsonValue::Null,
    }
}

/// An optional hexadecimal number.
pub fn optional_hex(value: Option<usize>) -> (r: JsonValue)
    ensures
        tree(r) == optional_hex_tree(value),
{
    match format_optional_hex(value) {
        Some(text) => JsonValue::Text(text),
        None => JsonValue::Null,
    }
}

} // verus!
