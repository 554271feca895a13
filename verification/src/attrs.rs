//! Typed access to the attributes of a start tag.
//!
//! A field is looked up by name; where a name occurs more than once the last
//! occurrence counts. A required field that is missing or does not convert
//! makes the element malformed; an optional one is then simply absent.

use vstd::prelude::*;
use crate::events::{views, Attribute, AttributeView};
use crate::text::{parse_i32, parse_i32_spec, parse_u32, parse_u32_spec, str_eq};

verus! {

/// The value of the last attribute called `name`, if there is one.
pub open spec fn attr_value(attrs: Seq<AttributeView>, name: Seq<char>) -> Option<Seq<char>>
    decreases attrs.len(),
{
    if attrs.len() == 0 {
        None
    } else if attrs.last().name == name {
        Some(attrs.last().value)
    } else {
        attr_value(attrs.drop_last(), name)
    }
}

/// The attribute `name` read as an unsigned integer.
pub open spec fn attr_u32(attrs: Seq<AttributeView>, name: Seq<char>) -> Option<u32> {
    match attr_value(attrs, name) {
        Some(v) => parse_u32_spec(v),
        None => None,
    }
}

/// The attribute `name` read as a signed integer.
pub open spec fn attr_i32(attrs: Seq<AttributeView>, name: Seq<char>) -> Option<i32> {
    match attr_value(attrs, name) {
        Some(v) => parse_i32_spec(v),
        None => None,
    }
}

/// Looks an attribute up by name.
pub fn find_attr<'a>(attrs: &'a Vec<Attribute>, name: &str) -> (r: Option<&'a String>)
    ensures
        match r {
            Some(v) => attr_value(views(attrs@), name@) == Some(v@),
            None => attr_value(views(attrs@), name@) is None,
        },
{
    let ghost all = views(attrs@);
    let mut i: usize = attrs.len();
    assert(all.take(i as int) =~= all);
    while i > 0
        invariant
            i <= attrs@.len(),
            all == views(attrs@),
            attr_value(all, name@) == attr_value(all.take(i as int), name@),
        decreases i,
    {
        i -= 1;
        proof {
            assert(all.take(i + 1).drop_last() =~= all.take(i as int));
            assert(all.take(i + 1).last() == attrs@[i as int]@);
        }
        if str_eq(attrs[i].name.as_str(), name) {
            return Some(&attrs[i].value);
        }
    }
    proof {
        assert(all.take(0).len() == 0);
    }
    None
}

/// Reads an attribute as text.
pub fn get_string(attrs: &Vec<Attribute>, name: &str) -> (r: Option<String>)
    ensures
        text_of(r) == attr_value(views(attrs@), name@),
{
    match find_attr(attrs, name) {
        Some(v) => Some(v.clone()),
        None => None,
    }
}

/// Reads an attribute as an unsigned integer.
pub fn get_u32(attrs: &Vec<Attribute>, name: &str) -> (r: Option<u32>)
    ensures
        r == attr_u32(views(attrs@), name@),
{
    match find_attr(attrs, name) {
        Some(v) => parse_u32(v.as_str()),
        None => None,
    }
}

/// Reads an attribute as a signed integer.
pub fn get_i32(attrs: &Vec<Attribute>, name: &str) -> (r: Option<i32>)
    ensures
        r == attr_i32(views(attrs@), name@),
{
    match find_attr(attrs, name) {
        Some(v) => parse_i32(v.as_str()),
        None => None,
    }
}

/// The attribute `name` as text, or `default` where it is missing.
pub open spec fn attr_text_or(attrs: Seq<AttributeView>, name: Seq<char>, default: Seq<char>) -> Seq<
    char,
> {
    match attr_value(attrs, name) {
        Some(v) => v,
        None => default,
    }
}

/// Reads an attribute as text, with a default for a missing one.
pub fn get_string_or(attrs: &Vec<Attribute>, name: &str, default: &str) -> (r: String)
    ensures
        r@ == attr_text_or(views(attrs@), name@, default@),
{
    match find_attr(attrs, name) {
        Some(v) => v.clone(),
        None => default.to_owned(),
    }
}

/// The attribute `name` as a switch: on for the integer 1, off for any other
/// integer, and `default` where it is missing or no integer.
pub open spec fn attr_flag_or(attrs: Seq<AttributeView>, name: Seq<char>, default: bool) -> bool {
    match attr_i32(attrs, name) {
        Some(v) => v == 1,
        None => default,
    }
}

/// Reads an attribute as a switch, with a default.
pub fn get_flag_or(attrs: &Vec<Attribute>, name: &str, default: bool) -> (r: bool)
    ensures
        r == attr_flag_or(views(attrs@), name@, default),
{
    match get_i32(attrs, name) {
        Some(v) => v == 1,
        None => default,
    }
}

/// The attribute `name` as an unsigned integer, or `default` where it is
/// missing or no such integer.
pub open spec fn attr_u32_or(attrs: Seq<AttributeView>, name: Seq<char>, default: u32) -> u32 {
    match attr_u32(attrs, name) {
        Some(v) => v,
        None => default,
    }
}

/// Reads an attribute as an unsigned integer, with a default.
pub fn get_u32_or(attrs: &Vec<Attribute>, name: &str, default: u32) -> (r: u32)
    ensures
        r == attr_u32_or(views(attrs@), name@, default),
{
    match get_u32(attrs, name) {
        Some(v) => v,
        None => default,
    }
}

/// An optional text attribute.
pub open spec fn attr_text(attrs: Seq<AttributeView>, name: Seq<char>) -> Option<Seq<char>> {
    attr_value(attrs, name)
}

/// The text of an optional string.
pub open spec fn text_of(value: Option<String>) -> Option<Seq<char>> {
    match value {
        Some(v) => Some(v@),
        None => None,
    }
}

} // verus!
