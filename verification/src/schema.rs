//! The type graph model: the closed vocabulary of schema shapes the renderer
//! consumes.  Every constraint and default is carried as a plain value;
//! floating-point numbers appear only through their already-rendered decimal
//! text, which is all the renderer ever reads of them.

use vstd::prelude::*;
use crate::strutil::{spec_quoted, dec_int, quote, fmt_i64, str_eq};

verus! {

/// A single literal value, as it appears in enums, literal types and
/// defaults.  A float is carried as its decimal rendering.
#[derive(Clone, Debug)]
pub enum LiteralValue {
    Text(String),
    Integer(i64),
    Float(String),
    Boolean(bool),
}

/// One named or inline type occurrence: metadata plus the structural payload.
pub struct Schema {
    pub deprecated: Option<String>,
    pub description: Option<String>,
    pub name: Option<String>,
    pub nullable: bool,
    pub optional: bool,
    pub ty: SchemaType,
}

/// The closed set of structural shapes a schema's payload can take.
pub enum SchemaType {
    Null,
    Unknown,
    Boolean(Box<BooleanType>),
    Integer(Box<IntegerType>),
    Float(Box<FloatType>),
    Text(Box<StringType>),
    Literal(Box<LiteralType>),
    Array(Box<ArrayType>),
    Object(Box<ObjectType>),
    Tuple(Box<TupleType>),
    Union(Box<UnionType>),
    Enum(Box<EnumType>),
    Struct(Box<StructType>),
    Reference(String),
}

#[derive(Clone, Debug)]
pub struct BooleanType {
    pub default: Option<bool>,
}

#[derive(Clone, Debug)]
pub struct IntegerType {
    pub default: Option<i64>,
    pub enum_values: Option<Vec<i64>>,
    pub maximum: Option<i64>,
    pub maximum_exclusive: Option<i64>,
    pub minimum: Option<i64>,
    pub minimum_exclusive: Option<i64>,
    pub multiple_of: Option<i64>,
}

/// Float bounds and defaults are already-rendered decimal text: the renderer
/// only ever splices them into the output verbatim.
#[derive(Clone, Debug)]
pub struct FloatType {
    pub default: Option<String>,
    pub enum_values: Option<Vec<String>>,
    pub maximum: Option<String>,
    pub maximum_exclusive: Option<String>,
    pub minimum: Option<String>,
    pub minimum_exclusive: Option<String>,
    pub multiple_of: Option<String>,
}

#[derive(Clone, Debug)]
pub struct StringType {
    pub default: Option<String>,
    pub data_size: Option<String>,
    pub duration: Option<String>,
    pub enum_values: Option<Vec<String>>,
    pub format: Option<String>,
    pub max_length: Option<u64>,
    pub min_length: Option<u64>,
    pub pattern: Option<String>,
}

pub struct LiteralType {
    pub value: LiteralValue,
}

pub struct ArrayType {
    pub items_type: Schema,
    pub max_length: Option<u64>,
    pub min_length: Option<u64>,
    pub unique: Option<bool>,
    pub has_default: bool,
}

pub struct ObjectType {
    pub key_type: Schema,
    pub value_type: Schema,
    pub max_length: Option<u64>,
    pub min_length: Option<u64>,
    pub required: Option<Vec<String>>,
    pub has_default: bool,
}

pub struct TupleType {
    pub items_types: Vec<Schema>,
}

pub struct UnionType {
    pub variants_types: Vec<Schema>,
}

pub struct EnumType {
    pub name: String,
    pub values: Vec<LiteralValue>,
    pub default: Option<LiteralValue>,
}

pub struct StructType {
    pub fields: Vec<SchemaField>,
    pub partial: bool,
}

/// One struct field: its name, nested schema and presentation flags.
pub struct SchemaField {
    pub name: String,
    pub schema: Schema,
    pub comment: Option<String>,
    pub deprecated: Option<String>,
    pub hidden: bool,
    pub optional: bool,
}

/// The Pkl text of one literal value: strings quoted, everything else bare.
pub open spec fn spec_literal(v: LiteralValue) -> Seq<char> {
    match v {
        LiteralValue::Text(s) => spec_quoted(s@),
        LiteralValue::Integer(i) => dec_int(i as int),
        LiteralValue::Float(f) => f@,
        LiteralValue::Boolean(b) => if b { "true"@ } else { "false"@ },
    }
}

/// Renders one literal value as Pkl text.
pub fn literal_text(v: &LiteralValue) -> (r: String)
    ensures
        r@ == spec_literal(*v),
{
    match v {
        LiteralValue::Text(s) => quote(s.as_str()),
        LiteralValue::Integer(i) => fmt_i64(*i),
        LiteralValue::Float(f) => f.clone(),
        LiteralValue::Boolean(b) => {
            let mut r = String::new();
            if *b {
                r.append("true");
            } else {
                r.append("false");
            }
            proof {
                assert(r@ =~= spec_literal(*v));
            }
            r
        },
    }
}

/// Value equality of two literals: same variant, same payload.
pub open spec fn spec_lit_eq(a: LiteralValue, b: LiteralValue) -> bool {
    match (a, b) {
        (LiteralValue::Text(x), LiteralValue::Text(y)) => x@ == y@,
        (LiteralValue::Integer(x), LiteralValue::Integer(y)) => x == y,
        (LiteralValue::Float(x), LiteralValue::Float(y)) => x@ == y@,
        (LiteralValue::Boolean(x), LiteralValue::Boolean(y)) => x == y,
        _ => false,
    }
}

/// Compares two literal values.
pub fn lit_eq(a: &LiteralValue, b: &LiteralValue) -> (r: bool)
    ensures
        r == spec_lit_eq(*a, *b),
{
    match (a, b) {
        (LiteralValue::Text(x), LiteralValue::Text(y)) => str_eq(x.as_str(), y.as_str()),
        (LiteralValue::Integer(x), LiteralValue::Integer(y)) => *x == *y,
        (LiteralValue::Float(x), LiteralValue::Float(y)) => str_eq(x.as_str(), y.as_str()),
        (LiteralValue::Boolean(x), LiteralValue::Boolean(y)) => *x == *y,
        _ => false,
    }
}

} // verus!
