//! The metadata of a GGUF file.

use crate::config::Single;
use candle_core::quantized::gguf_file::Value;
use candle_core::Error;
use vstd::hash_map::StringHashMap;
use vstd::prelude::*;

verus! {

/// The number that a metadata value holds, where it holds one of 32 unsigned bits.
pub uninterp spec fn value_u32(v: Value) -> Option<u32>;

/// The bit pattern of the float that a metadata value holds, where it holds one of 32 bits.
pub uninterp spec fn value_f32_bits(v: Value) -> Option<u32>;

/// The text that a metadata value holds, where it holds one.
pub uninterp spec fn value_text(v: Value) -> Option<Seq<char>>;

/// How reading a 32-bit unsigned number off a metadata value may fail.
pub uninterp spec fn to_u32_may_fail(v: Value, e: Error) -> bool;

/// How reading a 32-bit float off a metadata value may fail.
pub uninterp spec fn to_f32_may_fail(v: Value, e: Error) -> bool;

/// How reading text off a metadata value may fail.
pub uninterp spec fn to_string_may_fail(v: Value, e: Error) -> bool;

/// `Value::to_u32` gives the number of a 32-bit unsigned value, and fails for every other.
pub assume_specification[ Value::to_u32 ](v: &Value) -> (r: Result<u32, Error>)
    ensures
        match r {
            Ok(n) => value_u32(*v) == Some(n),
            Err(e) => value_u32(*v) is None && to_u32_may_fail(*v, e),
        },
;

/// `Value::to_string` gives the text of a string value, and fails for every other.
pub assume_specification[ Value::to_string ](v: &Value) -> (r: Result<&String, Error>)
    ensures
        match r {
            Ok(s) => value_text(*v) == Some(s@),
            Err(e) => value_text(*v) is None && to_string_may_fail(*v, e),
        },
;

/// `Value::to_f32` gives the float of a 32-bit float value, here by its bits, and fails for every
/// other.
#[verifier::external_body]
fn value_to_f32_bits(v: &Value) -> (r: Result<u32, Error>)
    ensures
        match r {
            Ok(bits) => value_f32_bits(*v) == Some(bits),
            Err(e) => value_f32_bits(*v) is None && to_f32_may_fail(*v, e),
        },
{
    match v.to_f32() {
        Ok(x) => Ok(x.to_bits()),
        Err(e) => Err(e),
    }
}

/// The entries of a GGUF file's metadata, by key.
pub struct Metadata {
    entries: StringHashMap<Value>,
}

impl View for Metadata {
    type V = Map<Seq<char>, Value>;

    closed spec fn view(&self) -> Map<Seq<char>, Value> {
        self.entries@
    }
}

impl Metadata {
    /// Metadata without an entry.
    pub fn new() -> (md: Metadata)
        ensures
            md@ == Map::<Seq<char>, Value>::empty(),
    {
        Metadata { entries: StringHashMap::new() }
    }

    /// Puts `value` under `key`, in place of what stood there.
    pub fn insert(&mut self, key: String, value: Value)
        ensures
            final(self)@ == old(self)@.insert(key@, value),
    {
        self.entries.insert(key, value);
    }

    /// The value under `key`.
    pub fn get(&self, key: &str) -> (value: Option<&Value>)
        ensures
            match value {
                Some(v) => self@.contains_key(key@) && *v == self@[key@],
                None => !self@.contains_key(key@),
            },
    {
        self.entries.get(key)
    }
}

/// What a metadata key gave.
#[derive(Debug)]
pub enum Field<T> {
    /// There is no such entry.
    Missing,
    /// The entry holds a value of another type.
    Invalid(Error),
    /// The entry holds this.
    Found(T),
}

/// Whether `field` is what the number under `key` reads as.
pub open spec fn is_u32_field(
    md: Map<Seq<char>, Value>,
    key: Seq<char>,
    field: Field<u32>,
) -> bool {
    match field {
        Field::Missing => !md.contains_key(key),
        Field::Invalid(e) => {
            &&& md.contains_key(key)
            &&& value_u32(md[key]) is None
            &&& to_u32_may_fail(md[key], e)
        },
        Field::Found(n) => md.contains_key(key) && value_u32(md[key]) == Some(n),
    }
}

/// Whether `field` is what the float under `key` reads as.
pub open spec fn is_f32_field(
    md: Map<Seq<char>, Value>,
    key: Seq<char>,
    field: Field<Single>,
) -> bool {
    match field {
        Field::Missing => !md.contains_key(key),
        Field::Invalid(e) => {
            &&& md.contains_key(key)
            &&& value_f32_bits(md[key]) is None
            &&& to_f32_may_fail(md[key], e)
        },
        Field::Found(x) => md.contains_key(key) && value_f32_bits(md[key]) == Some(x.bits),
    }
}

/// A number is found exactly where the entry holds one, missing exactly where there is no entry,
/// and of another type otherwise.
pub proof fn a_number_is_found_where_it_stands(
    md: Map<Seq<char>, Value>,
    key: Seq<char>,
    field: Field<u32>,
)
    requires
        is_u32_field(md, key, field),
    ensures
        field is Missing == !md.contains_key(key),
        field is Found == (md.contains_key(key) && value_u32(md[key]) is Some),
        field matches Field::Found(n) ==> value_u32(md[key]) == Some(n),
        field matches Field::Invalid(e) ==> to_u32_may_fail(md[key], e),
{
}

/// A float is found exactly where the entry holds one, missing exactly where there is no entry, and
/// of another type otherwise.
pub proof fn a_float_is_found_where_it_stands(
    md: Map<Seq<char>, Value>,
    key: Seq<char>,
    field: Field<Single>,
)
    requires
        is_f32_field(md, key, field),
    ensures
        field is Missing == !md.contains_key(key),
        field is Found == (md.contains_key(key) && value_f32_bits(md[key]) is Some),
        field matches Field::Found(x) ==> value_f32_bits(md[key]) == Some(x.bits),
        field matches Field::Invalid(e) ==> to_f32_may_fail(md[key], e),
{
}

impl Metadata {
    /// Reads the number under `key`.
    pub fn u32_field(&self, key: &str) -> (field: Field<u32>)
        ensures
            is_u32_field(self@, key@, field),
    {
        match self.get(key) {
            None => Field::Missing,
            Some(v) => match v.to_u32() {
                Ok(n) => Field::Found(n),
                Err(e) => Field::Invalid(e),
            },
        }
    }

    /// Reads the float under `key`.
    pub fn f32_field(&self, key: &str) -> (field: Field<Single>)
        ensures
            is_f32_field(self@, key@, field),
    {
        match self.get(key) {
            None => Field::Missing,
            Some(v) => match value_to_f32_bits(v) {
                Ok(bits) => Field::Found(Single { bits }),
                Err(e) => Field::Invalid(e),
            },
        }
    }
}

} // verus!
