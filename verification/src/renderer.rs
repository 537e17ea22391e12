//! The type-expression synthesizer, the declaration emitters, the alias
//! flusher and the `render` orchestrator.

use vstd::prelude::*;
use indexmap::IndexMap;
use std::collections::HashSet;
use crate::strutil::{
    dec_int, dec_nat, lower_of, spec_join, spec_quoted, spec_repeat, fmt_i64, fmt_u64,
    join_strings, push_char, quote, str_eq, str_lowercase, str_repeat, str_starts_with,
    spec_starts_with, char_is_space, is_unicode_space,
};
use crate::ident::{
    spec_pascal, spec_camel, spec_escape, to_pascal_case, to_camel_case, escape_name,
};
use crate::schema::{
    Schema, SchemaType, StringType, LiteralValue, SchemaField, StructType, EnumType,
    spec_literal, literal_text, spec_lit_eq, lit_eq,
};
use crate::options::{PklSchemaOptions, RenderError, ConfigTranslation};
use crate::constraints::{
    views, lemma_views_push, spec_constraints, render_constraints, spec_default_suffix,
    render_default_value,
};
use crate::imap::{
    alias_entries, graph_entries, has_key, key_value, first_key_index, lemma_first_key_index,
    spec_insert, spec_pad_name,
    spec_fresh_alias, max_key_len, lemma_key_len_bound, aliases_new, aliases_len, aliases_get,
    aliases_insert, aliases_get_index, graph_new, graph_len, graph_contains, graph_get_index,
};

verus! {

/// Renders idiomatic Pkl schema declarations with type annotations and
/// constraints.
pub struct PklSchemaRenderer {
    /// The type graph snapshot for the current pass.
    pub schemas: IndexMap<String, Schema>,
    /// The caller's options.
    pub options: PklSchemaOptions,
    /// The current nesting depth, for indentation.
    pub depth: usize,
    /// Synthesized type aliases, name to body, in insertion order.
    pub typealiases: IndexMap<String, String>,
    /// Type names already proven to be valid references.
    pub references: HashSet<String>,
}

// ---------------------------------------------------------------------------
// The type-expression synthesizer, specification side.
// ---------------------------------------------------------------------------

/// The fixed-width integer type name matching the bounds, or the generic
/// `Int` when no canonical pair matches.
pub open spec fn spec_integer_base(mn: Option<i64>, mx: Option<i64>) -> Seq<char> {
    match (mn, mx) {
        (Option::Some(a), Option::Some(b)) => {
            if a == 0 && b == 255 {
                "UInt8"@
            } else if a == 0 && b == 65535 {
                "UInt16"@
            } else if a == 0 && b == 4294967295 {
                "UInt32"@
            } else if a == -128 && b == 127 {
                "Int8"@
            } else if a == -32768 && b == 32767 {
                "Int16"@
            } else if a == -2147483648 && b == 2147483647 {
                "Int32"@
            } else {
                "Int"@
            }
        },
        _ => "Int"@,
    }
}

/// The base type name of a string schema: a unit-parameterized `Duration`
/// or `DataSize` for those format tags, else the generic `String`.
pub open spec fn spec_text_base(st: StringType) -> Seq<char> {
    match st.format {
        Option::Some(f) => {
            if f@ == "duration"@ {
                match st.duration {
                    Option::Some(d) => "Duration<"@ + lower_of(d@) + ">"@,
                    Option::None => "Duration"@,
                }
            } else if f@ == "data-size"@ || f@ == "datasize"@ {
                match st.data_size {
                    Option::Some(d) => "DataSize<"@ + lower_of(d@) + ">"@,
                    Option::None => "DataSize"@,
                }
            } else {
                "String"@
            }
        },
        Option::None => "String"@,
    }
}

/// Whether a union variant carries a present default, for default-variant
/// marking.
pub open spec fn spec_variant_has_default(ty: SchemaType) -> bool {
    match ty {
        SchemaType::Boolean(bt) => bt.default is Some,
        SchemaType::Integer(it) => it.default is Some,
        SchemaType::Float(ft) => ft.default is Some,
        SchemaType::Text(st) => st.default is Some,
        SchemaType::Array(at) => at.has_default,
        SchemaType::Object(ot) => ot.has_default,
        _ => false,
    }
}

/// The rendered text of every literal in the list.
pub open spec fn spec_literal_all(vs: Seq<LiteralValue>) -> Seq<Seq<char>> {
    vs.map_values(|v: LiteralValue| spec_literal(v))
}

/// Whether the list holds a literal equal to `d`.
pub open spec fn spec_has_lit(vs: Seq<LiteralValue>, d: LiteralValue) -> bool {
    exists|i: int| 0 <= i < vs.len() && spec_lit_eq(#[trigger] vs[i], d)
}

/// The position of the first literal equal to `d`.
pub open spec fn spec_first_lit(vs: Seq<LiteralValue>, d: LiteralValue) -> int
    decreases vs.len(),
{
    if vs.len() == 0 {
        0
    } else if spec_lit_eq(vs[0], d) {
        0
    } else {
        1 + spec_first_lit(vs.skip(1), d)
    }
}

/// When a matching literal exists its first position is in range, matches,
/// and nothing before it does.
pub proof fn lemma_first_lit(vs: Seq<LiteralValue>, d: LiteralValue)
    requires
        spec_has_lit(vs, d),
    ensures
        0 <= spec_first_lit(vs, d) < vs.len(),
        spec_lit_eq(vs[spec_first_lit(vs, d)], d),
        forall|j: int| 0 <= j < spec_first_lit(vs, d) ==> !spec_lit_eq(#[trigger] vs[j], d),
    decreases vs.len(),
{
    if vs.len() == 0 {
    } else if spec_lit_eq(vs[0], d) {
    } else {
        let tail = vs.skip(1);
        assert(spec_has_lit(tail, d)) by {
            let i = choose|i: int| 0 <= i < vs.len() && spec_lit_eq(#[trigger] vs[i], d);
            assert(tail[i - 1] == vs[i]);
        }
        lemma_first_lit(tail, d);
        assert forall|j: int| 0 <= j < spec_first_lit(vs, d) implies !spec_lit_eq(
            #[trigger] vs[j],
            d,
        ) by {
            if j > 0 {
                assert(tail[j - 1] == vs[j]);
            }
        }
    }
}

/// The enum's variant texts with the first literal equal to the default, if
/// any, marked with `*`; with no match nothing is marked.
pub open spec fn spec_enum_variants(et: EnumType) -> Seq<Seq<char>> {
    let vt = spec_literal_all(et.values@);
    match et.default {
        Option::Some(d) => {
            if spec_has_lit(et.values@, d) {
                let j = spec_first_lit(et.values@, d);
                vt.update(j, "*"@ + vt[j])
            } else {
                vt
            }
        },
        Option::None => vt,
    }
}

/// The name an enum alias is synthesized under: the enum's own name in
/// upper camel case, or a fresh `EnumType<n>` when it has none.
pub open spec fn spec_enum_alias_name(et: EnumType, al: Seq<(Seq<char>, Seq<char>)>) -> Seq<
    char,
> {
    if et.name@.len() == 0 {
        "EnumType"@ + dec_nat(al.len())
    } else {
        spec_pascal(et.name@)
    }
}

/// What synthesizing one type expression produces: the expression text or
/// an unsupported-shape message, and the alias table that results.  The
/// table can change even when the synthesis fails partway through, but it
/// only ever grows: a fresh alias whose name is already taken by a
/// different body is given a fresh, lengthened name instead of replacing
/// the entry.
pub open spec fn spec_field_type(
    s: Schema,
    al: Seq<(Seq<char>, Seq<char>)>,
    enabled: bool,
) -> (Result<Seq<char>, Seq<char>>, Seq<(Seq<char>, Seq<char>)>)
    decreases s, 0int, 0int,
{
    match s.ty {
        SchemaType::Boolean(_) => (
            Result::Ok("Boolean"@ + spec_constraints(s.ty, s.optional, enabled)),
            al,
        ),
        SchemaType::Integer(it) => {
            match it.enum_values {
                Option::Some(vs) => {
                    let body = spec_join(
                        vs@.map_values(|v: i64| dec_int(v as int)),
                        "|"@,
                    );
                    let name = spec_fresh_alias(al, "IntegerEnum"@);
                    (Result::Ok(name), spec_insert(al, name, body))
                },
                Option::None => (
                    Result::Ok(
                        spec_integer_base(it.minimum, it.maximum) + spec_constraints(
                            s.ty,
                            s.optional,
                            enabled,
                        ),
                    ),
                    al,
                ),
            }
        },
        SchemaType::Float(ft) => {
            match ft.enum_values {
                Option::Some(vs) => {
                    let body = spec_join(vs@.map_values(|v: String| v@), "|"@);
                    let name = spec_fresh_alias(al, "FloatEnum"@);
                    (Result::Ok(name), spec_insert(al, name, body))
                },
                Option::None => (
                    Result::Ok("Number"@ + spec_constraints(s.ty, s.optional, enabled)),
                    al,
                ),
            }
        },
        SchemaType::Text(st) => {
            match st.enum_values {
                Option::Some(vs) => {
                    let body = spec_join(vs@.map_values(|v: String| spec_quoted(v@)), "|"@);
                    let name = spec_fresh_alias(al, "StringEnum"@);
                    (Result::Ok(name), spec_insert(al, name, body))
                },
                Option::None => (
                    Result::Ok(
                        spec_text_base(*st) + spec_constraints(s.ty, s.optional, enabled),
                    ),
                    al,
                ),
            }
        },
        SchemaType::Array(at) => {
            let (r0, al0) = spec_field_type(at.items_type, al, enabled);
            match r0 {
                Result::Err(e) => (Result::Err(e), al0),
                Result::Ok(t) => (
                    Result::Ok(
                        "Listing<"@ + t + ">"@ + spec_constraints(s.ty, s.optional, enabled),
                    ),
                    al0,
                ),
            }
        },
        SchemaType::Object(ot) => {
            let (r0, al0) = spec_field_type(ot.key_type, al, enabled);
            match r0 {
                Result::Err(e) => (Result::Err(e), al0),
                Result::Ok(kt) => {
                    let (r1, al1) = spec_field_type(ot.value_type, al0, enabled);
                    match r1 {
                        Result::Err(e) => (Result::Err(e), al1),
                        Result::Ok(vt) => (
                            Result::Ok(
                                "Mapping<"@ + kt + ", "@ + vt + ">"@ + spec_constraints(
                                    s.ty,
                                    s.optional,
                                    enabled,
                                ),
                            ),
                            al1,
                        ),
                    }
                },
            }
        },
        SchemaType::Tuple(tt) => {
            if tt.items_types.len() == 2 {
                let (r0, al0) = spec_field_type(tt.items_types[0], al, enabled);
                match r0 {
                    Result::Err(e) => (Result::Err(e), al0),
                    Result::Ok(a) => {
                        let (r1, al1) = spec_field_type(tt.items_types[1], al0, enabled);
                        match r1 {
                            Result::Err(e) => (Result::Err(e), al1),
                            Result::Ok(b) => (
                                Result::Ok(
                                    "Pair<"@ + a + ", "@ + b + ">"@ + spec_constraints(
                                        s.ty,
                                        s.optional,
                                        enabled,
                                    ),
                                ),
                                al1,
                            ),
                        }
                    },
                }
            } else if tt.items_types.len() == 1 {
                let (r0, al0) = spec_field_type(tt.items_types[0], al, enabled);
                match r0 {
                    Result::Err(e) => (Result::Err(e), al0),
                    Result::Ok(t) => (
                        Result::Ok(
                            "Listing<"@ + t + ">"@ + spec_constraints(s.ty, s.optional, enabled),
                        ),
                        al0,
                    ),
                }
            } else if tt.items_types.len() == 0 {
                (
                    Result::Ok("Dynamic"@ + spec_constraints(s.ty, s.optional, enabled)),
                    al,
                )
            } else {
                (
                    Result::Err(
                        "tuple arity "@ + dec_nat(tt.items_types@.len()) + " unsupported"@,
                    ),
                    al,
                )
            }
        },
        SchemaType::Union(ut) => {
            let (r0, al0) = spec_union_parts(ut.variants_types, 0, al, enabled, false);
            match r0 {
                Result::Err(e) => (Result::Err(e), al0),
                Result::Ok(parts) => {
                    let joined = spec_join(parts, "|"@);
                    if ut.variants_types.len() > 3 {
                        let name = spec_fresh_alias(al0, "UnionType"@);
                        (Result::Ok(name + spec_constraints(s.ty, s.optional, enabled)),
                        spec_insert(al0, name, joined))
                    } else {
                        (
                            Result::Ok(
                                joined + spec_constraints(s.ty, s.optional, enabled),
                            ),
                            al0,
                        )
                    }
                },
            }
        },
        SchemaType::Enum(et) => {
            let body = spec_join(spec_enum_variants(*et), "|"@);
            let name = spec_enum_alias_name(*et, al);
            if has_key(al, name) && key_value(al, name) == body {
                (Result::Ok(name + spec_constraints(s.ty, s.optional, enabled)), al)
            } else if !has_key(al, name) {
                (
                    Result::Ok(name + spec_constraints(s.ty, s.optional, enabled)),
                    spec_insert(al, name, body),
                )
            } else {
                let fresh = spec_pad_name(al, name + dec_nat(al.len()));
                (
                    Result::Ok(fresh + spec_constraints(s.ty, s.optional, enabled)),
                    spec_insert(al, fresh, body),
                )
            }
        },
        SchemaType::Literal(lt) => (
            Result::Ok(spec_literal(lt.value) + spec_constraints(s.ty, s.optional, enabled)),
            al,
        ),
        SchemaType::Struct(st) => {
            let (r0, al0) = spec_inline_fields(st.fields, 0, al, enabled);
            match r0 {
                Result::Err(e) => (Result::Err(e), al0),
                Result::Ok(parts) => (
                    Result::Ok(
                        "{"@ + spec_join(parts, ", "@) + "}"@ + spec_constraints(
                            s.ty,
                            s.optional,
                            enabled,
                        ),
                    ),
                    al0,
                ),
            }
        },
        SchemaType::Reference(name) => (
            Result::Ok(spec_pascal(name@) + spec_constraints(s.ty, s.optional, enabled)),
            al,
        ),
        SchemaType::Null => (
            Result::Ok("nothing"@ + spec_constraints(s.ty, s.optional, enabled)),
            al,
        ),
        SchemaType::Unknown => (
            Result::Ok("unknown"@ + spec_constraints(s.ty, s.optional, enabled)),
            al,
        ),
    }
}

/// The union's variant expressions from position `i` on: each variant
/// synthesized in turn, the first defaulted variant after `marked` becomes
/// true getting a `*` prefix, errors propagating with the table as it
/// stands.
pub open spec fn spec_union_parts(
    items: Vec<Schema>,
    i: int,
    al: Seq<(Seq<char>, Seq<char>)>,
    enabled: bool,
    marked: bool,
) -> (Result<Seq<Seq<char>>, Seq<char>>, Seq<(Seq<char>, Seq<char>)>)
    decreases items, 1int, items.len() - i,
{
    if i < 0 || i >= items.len() {
        (Result::Ok(Seq::empty()), al)
    } else {
        let (r0, al0) = spec_field_type(items[i], al, enabled);
        match r0 {
            Result::Err(e) => (Result::Err(e), al0),
            Result::Ok(t) => {
                let hd = spec_variant_has_default(items[i].ty);
                let part = if hd && !marked {
                    "*"@ + t
                } else {
                    t
                };
                let (r1, al1) = spec_union_parts(items, i + 1, al0, enabled, marked || hd);
                match r1 {
                    Result::Err(e) => (Result::Err(e), al1),
                    Result::Ok(ps) => (Result::Ok(seq![part] + ps), al1),
                }
            },
        }
    }
}

/// The anonymous-struct field expressions from position `i` on: each
/// visible field's escaped lower-camel name, synthesized type and optional
/// marker, errors propagating.
pub open spec fn spec_inline_fields(
    fields: Vec<SchemaField>,
    i: int,
    al: Seq<(Seq<char>, Seq<char>)>,
    enabled: bool,
) -> (Result<Seq<Seq<char>>, Seq<char>>, Seq<(Seq<char>, Seq<char>)>)
    decreases fields, 1int, fields.len() - i,
{
    if i < 0 || i >= fields.len() {
        (Result::Ok(Seq::empty()), al)
    } else if fields[i].hidden {
        spec_inline_fields(fields, i + 1, al, enabled)
    } else {
        let (r0, al0) = spec_field_type(fields[i].schema, al, enabled);
        match r0 {
            Result::Err(e) => (Result::Err(e), al0),
            Result::Ok(t) => {
                let part = spec_escape(spec_camel(fields[i].name@)) + ": "@ + t + (
                if fields[i].optional {
                    "?"@
                } else {
                    Seq::empty()
                });
                let (r1, al1) = spec_inline_fields(fields, i + 1, al0, enabled);
                match r1 {
                    Result::Err(e) => (Result::Err(e), al1),
                    Result::Ok(ps) => (Result::Ok(seq![part] + ps), al1),
                }
            },
        }
    }
}


// ---------------------------------------------------------------------------
// The type-expression synthesizer, executable side.
// ---------------------------------------------------------------------------

/// Whether a union variant carries a present default.
pub fn variant_has_default(ty: &SchemaType) -> (r: bool)
    ensures
        r == spec_variant_has_default(*ty),
{
    match ty {
        SchemaType::Boolean(bt) => bt.default.is_some(),
        SchemaType::Integer(it) => it.default.is_some(),
        SchemaType::Float(ft) => ft.default.is_some(),
        SchemaType::Text(st) => st.default.is_some(),
        SchemaType::Array(at) => at.has_default,
        SchemaType::Object(ot) => ot.has_default,
        _ => false,
    }
}

/// Renders every literal in the list.
pub fn map_literal_texts(vs: &Vec<LiteralValue>) -> (r: Vec<String>)
    ensures
        views(r@) == spec_literal_all(vs@),
{
    let mut r: Vec<String> = Vec::new();
    proof {
        assert(views(r@) =~= spec_literal_all(vs@.take(0)));
    }
    let mut i: usize = 0;
    while i < vs.len()
        invariant
            i <= vs.len(),
            views(r@) == spec_literal_all(vs@.take(i as int)),
        decreases vs.len() - i,
    {
        let t = literal_text(&vs[i]);
        proof {
            lemma_views_push(r@, t);
            assert(spec_literal_all(vs@.take(i as int + 1)) =~= spec_literal_all(
                vs@.take(i as int),
            ).push(spec_literal(vs@[i as int])));
        }
        r.push(t);
        i += 1;
    }
    proof {
        assert(vs@.take(vs@.len() as int) =~= vs@);
    }
    r
}

/// Renders every number in the list as decimal text.
pub fn map_i64_texts(vs: &Vec<i64>) -> (r: Vec<String>)
    ensures
        views(r@) == vs@.map_values(|v: i64| dec_int(v as int)),
{
    let ghost goal = vs@.map_values(|v: i64| dec_int(v as int));
    let mut r: Vec<String> = Vec::new();
    proof {
        assert(views(r@) =~= vs@.take(0).map_values(|v: i64| dec_int(v as int)));
    }
    let mut i: usize = 0;
    while i < vs.len()
        invariant
            i <= vs.len(),
            views(r@) == vs@.take(i as int).map_values(|v: i64| dec_int(v as int)),
        decreases vs.len() - i,
    {
        let t = fmt_i64(vs[i]);
        proof {
            lemma_views_push(r@, t);
            assert(vs@.take(i as int + 1).map_values(|v: i64| dec_int(v as int)) =~= vs@.take(
                i as int,
            ).map_values(|v: i64| dec_int(v as int)).push(dec_int(vs@[i as int] as int)));
        }
        r.push(t);
        i += 1;
    }
    proof {
        assert(vs@.take(vs@.len() as int) =~= vs@);
    }
    r
}

/// Copies every string in the list.
pub fn clone_all(vs: &Vec<String>) -> (r: Vec<String>)
    ensures
        views(r@) == vs@.map_values(|v: String| v@),
{
    let mut r: Vec<String> = Vec::new();
    proof {
        assert(views(r@) =~= vs@.take(0).map_values(|v: String| v@));
    }
    let mut i: usize = 0;
    while i < vs.len()
        invariant
            i <= vs.len(),
            views(r@) == vs@.take(i as int).map_values(|v: String| v@),
        decreases vs.len() - i,
    {
        let t = vs[i].clone();
        proof {
            lemma_views_push(r@, t);
            assert(vs@.take(i as int + 1).map_values(|v: String| v@) =~= vs@.take(
                i as int,
            ).map_values(|v: String| v@).push(vs@[i as int]@));
        }
        r.push(t);
        i += 1;
    }
    proof {
        assert(vs@.take(vs@.len() as int) =~= vs@);
    }
    r
}

/// Quotes every string in the list.
pub fn quote_each(vs: &Vec<String>) -> (r: Vec<String>)
    ensures
        views(r@) == vs@.map_values(|v: String| spec_quoted(v@)),
{
    let mut r: Vec<String> = Vec::new();
    proof {
        assert(views(r@) =~= vs@.take(0).map_values(|v: String| spec_quoted(v@)));
    }
    let mut i: usize = 0;
    while i < vs.len()
        invariant
            i <= vs.len(),
            views(r@) == vs@.take(i as int).map_values(|v: String| spec_quoted(v@)),
        decreases vs.len() - i,
    {
        let t = quote(vs[i].as_str());
        proof {
            lemma_views_push(r@, t);
            assert(vs@.take(i as int + 1).map_values(|v: String| spec_quoted(v@)) =~= vs@.take(
                i as int,
            ).map_values(|v: String| spec_quoted(v@)).push(spec_quoted(vs@[i as int]@)));
        }
        r.push(t);
        i += 1;
    }
    proof {
        assert(vs@.take(vs@.len() as int) =~= vs@);
    }
    r
}

/// Finds the first literal equal to `d`, if any.
pub fn find_lit(vs: &Vec<LiteralValue>, d: &LiteralValue) -> (r: Option<usize>)
    ensures
        spec_has_lit(vs@, *d) ==> r is Some,
        spec_has_lit(vs@, *d) ==> r->0 == spec_first_lit(vs@, *d),
        !spec_has_lit(vs@, *d) ==> r is None,
{
    let mut i: usize = 0;
    while i < vs.len()
        invariant
            i <= vs.len(),
            forall|j: int| 0 <= j < i ==> !spec_lit_eq(#[trigger] vs@[j], *d),
        decreases vs.len() - i,
    {
        if lit_eq(&vs[i], d) {
            proof {
                assert(spec_has_lit(vs@, *d));
                lemma_first_lit(vs@, *d);
                let f = spec_first_lit(vs@, *d);
                if f < i {
                    assert(spec_lit_eq(vs@[f], *d));
                }
                if f > i {
                    assert(!spec_lit_eq(vs@[i as int], *d));
                }
            }
            return Some(i);
        }
        i += 1;
    }
    proof {
        if spec_has_lit(vs@, *d) {
            let w = choose|w: int| 0 <= w < vs@.len() && spec_lit_eq(#[trigger] vs@[w], *d);
            assert(!spec_lit_eq(vs@[w], *d));
        }
    }
    None
}

/// The prefix followed by the table's current size, unpadded.
pub fn numbered_name(prefix: &str, aliases: &IndexMap<String, String>) -> (r: String)
    ensures
        r@ == prefix@ + dec_nat(alias_entries(*aliases).len()),
{
    let n = aliases_len(aliases);
    let nt = fmt_u64(n as u64);
    let mut r = String::new();
    r.append(prefix);
    r.append(nt.as_str());
    proof {
        assert(r@ =~= prefix@ + dec_nat(alias_entries(*aliases).len()));
    }
    r
}

/// Lengthens the candidate name with underscores until no table entry
/// carries it.
pub fn pad_alias_name(aliases: &IndexMap<String, String>, base: String) -> (r: String)
    ensures
        r@ == spec_pad_name(alias_entries(*aliases), base@),
        !has_key(alias_entries(*aliases), r@),
{
    let ghost es = alias_entries(*aliases);
    let mut cur = base;
    let mut done = false;
    while !done
        invariant
            es == alias_entries(*aliases),
            spec_pad_name(es, base@) == spec_pad_name(es, cur@),
            done ==> !has_key(es, cur@),
        decreases (if cur@.len() <= max_key_len(es) {
            max_key_len(es) + 1 - cur@.len()
        } else {
            0int
        }) + (if done {
            0int
        } else {
            1int
        }),
    {
        let taken = match aliases_get(aliases, cur.as_str()) {
            Option::Some(_) => true,
            Option::None => false,
        };
        if taken {
            proof {
                lemma_key_len_bound(es, cur@);
                assert(cur@.push('_') =~= cur@ + seq!['_']);
            }
            push_char(&mut cur, '_');
        } else {
            done = true;
        }
    }
    cur
}

/// The name for a fresh synthesized alias: the prefix followed by the
/// table's current size, padded past any entry that already carries it.
pub fn fresh_alias_name(prefix: &str, aliases: &IndexMap<String, String>) -> (r: String)
    ensures
        r@ == spec_fresh_alias(alias_entries(*aliases), prefix@),
{
    let base = numbered_name(prefix, aliases);
    pad_alias_name(aliases, base)
}

/// Synthesizes the Pkl type expression of one schema occurrence, inserting
/// any aliases it needs into the table; fails only on an unsupported shape,
/// and then with the table as it stood when the failure was found.
#[verifier::rlimit(100)]
pub fn render_field_type(
    enabled: bool,
    aliases: &mut IndexMap<String, String>,
    schema: &Schema,
) -> (r: Result<String, RenderError>)
    ensures
        ({
            let sres = spec_field_type(*schema, alias_entries(*old(aliases)), enabled);
            &&& alias_entries(*final(aliases)) == sres.1
            &&& (match r {
                Result::Ok(t) => (sres.0 matches Result::Ok(tv) && t@ == tv),
                Result::Err(e) => (sres.0 matches Result::Err(m) && (e matches
                RenderError::UnsupportedShape(em) && em@ == m)),
            })
        }),
    decreases *schema, 0int, 0int,
{
    match &schema.ty {
        SchemaType::Boolean(_) => {
            let mut out = String::new();
            out.append("Boolean");
            let cons = render_constraints(enabled, schema);
            out.append(cons.as_str());
            proof {
                assert(out@ =~= "Boolean"@ + spec_constraints(
                    schema.ty,
                    schema.optional,
                    enabled,
                ));
            }
            Ok(out)
        },
        SchemaType::Integer(it) => {
            match &it.enum_values {
                Option::Some(vs) => {
                    let texts = map_i64_texts(vs);
                    let body = join_strings(&texts, "|");
                    let name = fresh_alias_name("IntegerEnum", aliases);
                    let base = name.clone();
                    aliases_insert(aliases, name, body);
                    Ok(base)
                },
                Option::None => {
                    let mut out = String::new();
                    let mut matched = false;
                    if let Option::Some(mn) = &it.minimum {
                        if let Option::Some(mx) = &it.maximum {
                            let a = *mn;
                            let b = *mx;
                            if a == 0 && b == 255 {
                                out.append("UInt8");
                                matched = true;
                                proof {
                                    assert(out@ =~= "UInt8"@);
                                }
                            } else if a == 0 && b == 65535 {
                                out.append("UInt16");
                                matched = true;
                                proof {
                                    assert(out@ =~= "UInt16"@);
                                }
                            } else if a == 0 && b == 4294967295 {
                                out.append("UInt32");
                                matched = true;
                                proof {
                                    assert(out@ =~= "UInt32"@);
                                }
                            } else if a == -128 && b == 127 {
                                out.append("Int8");
                                matched = true;
                                proof {
                                    assert(out@ =~= "Int8"@);
                                }
                            } else if a == -32768 && b == 32767 {
                                out.append("Int16");
                                matched = true;
                                proof {
                                    assert(out@ =~= "Int16"@);
                                }
                            } else if a == -2147483648 && b == 2147483647 {
                                out.append("Int32");
                                matched = true;
                                proof {
                                    assert(out@ =~= "Int32"@);
                                }
                            }
                        }
                    }
                    if !matched {
                        out.append("Int");
                        proof {
                            assert(out@ =~= "Int"@);
                        }
                    }
                    proof {
                        assert(out@ == spec_integer_base(it.minimum, it.maximum));
                    }
                    let cons = render_constraints(enabled, schema);
                    out.append(cons.as_str());
                    Ok(out)
                },
            }
        },
        SchemaType::Float(ft) => {
            match &ft.enum_values {
                Option::Some(vs) => {
                    let texts = clone_all(vs);
                    let body = join_strings(&texts, "|");
                    let name = fresh_alias_name("FloatEnum", aliases);
                    let base = name.clone();
                    aliases_insert(aliases, name, body);
                    Ok(base)
                },
                Option::None => {
                    let mut out = String::new();
                    out.append("Number");
                    let cons = render_constraints(enabled, schema);
                    out.append(cons.as_str());
                    proof {
                        assert(out@ =~= "Number"@ + spec_constraints(
                            schema.ty,
                            schema.optional,
                            enabled,
                        ));
                    }
                    Ok(out)
                },
            }
        },
        SchemaType::Text(st) => {
            match &st.enum_values {
                Option::Some(vs) => {
                    let texts = quote_each(vs);
                    let body = join_strings(&texts, "|");
                    let name = fresh_alias_name("StringEnum", aliases);
                    let base = name.clone();
                    aliases_insert(aliases, name, body);
                    Ok(base)
                },
                Option::None => {
                    let mut out = String::new();
                    let mut tagged = false;
                    if let Option::Some(f) = &st.format {
                        if str_eq(f.as_str(), "duration") {
                            tagged = true;
                            match &st.duration {
                                Option::Some(d) => {
                                    let lo = str_lowercase(d.as_str());
                                    out.append("Duration<");
                                    out.append(lo.as_str());
                                    out.append(">");
                                    proof {
                                        assert(out@ =~= "Duration<"@ + lower_of(d@) + ">"@);
                                    }
                                },
                                Option::None => {
                                    out.append("Duration");
                                    proof {
                                        assert(out@ =~= "Duration"@);
                                    }
                                },
                            }
                        } else if str_eq(f.as_str(), "data-size") || str_eq(
                            f.as_str(),
                            "datasize",
                        ) {
                            tagged = true;
                            match &st.data_size {
                                Option::Some(d) => {
                                    let lo = str_lowercase(d.as_str());
                                    out.append("DataSize<");
                                    out.append(lo.as_str());
                                    out.append(">");
                                    proof {
                                        assert(out@ =~= "DataSize<"@ + lower_of(d@) + ">"@);
                                    }
                                },
                                Option::None => {
                                    out.append("DataSize");
                                    proof {
                                        assert(out@ =~= "DataSize"@);
                                    }
                                },
                            }
                        }
                    }
                    if !tagged {
                        out.append("String");
                        proof {
                            assert(out@ =~= "String"@);
                        }
                    }
                    proof {
                        assert(out@ == spec_text_base(**st));
                    }
                    let cons = render_constraints(enabled, schema);
                    out.append(cons.as_str());
                    Ok(out)
                },
            }
        },
        SchemaType::Array(at) => {
            let item = match render_field_type(enabled, aliases, &at.items_type) {
                Ok(t) => t,
                Err(e) => {
                    return Err(e);
                },
            };
            let mut out = String::new();
            out.append("Listing<");
            out.append(item.as_str());
            out.append(">");
            let cons = render_constraints(enabled, schema);
            out.append(cons.as_str());
            proof {
                assert(out@ =~= "Listing<"@ + item@ + ">"@ + spec_constraints(
                    schema.ty,
                    schema.optional,
                    enabled,
                ));
            }
            Ok(out)
        },
        SchemaType::Object(ot) => {
            let kt = match render_field_type(enabled, aliases, &ot.key_type) {
                Ok(t) => t,
                Err(e) => {
                    return Err(e);
                },
            };
            let vt = match render_field_type(enabled, aliases, &ot.value_type) {
                Ok(t) => t,
                Err(e) => {
                    return Err(e);
                },
            };
            let mut out = String::new();
            out.append("Mapping<");
            out.append(kt.as_str());
            out.append(", ");
            out.append(vt.as_str());
            out.append(">");
            let cons = render_constraints(enabled, schema);
            out.append(cons.as_str());
            proof {
                assert(out@ =~= "Mapping<"@ + kt@ + ", "@ + vt@ + ">"@ + spec_constraints(
                    schema.ty,
                    schema.optional,
                    enabled,
                ));
            }
            Ok(out)
        },
        SchemaType::Tuple(tt) => {
            if tt.items_types.len() == 2 {
                let a = match render_field_type(enabled, aliases, &tt.items_types[0]) {
                    Ok(t) => t,
                    Err(e) => {
                        return Err(e);
                    },
                };
                let b = match render_field_type(enabled, aliases, &tt.items_types[1]) {
                    Ok(t) => t,
                    Err(e) => {
                        return Err(e);
                    },
                };
                let mut out = String::new();
                out.append("Pair<");
                out.append(a.as_str());
                out.append(", ");
                out.append(b.as_str());
                out.append(">");
                let cons = render_constraints(enabled, schema);
                out.append(cons.as_str());
                proof {
                    assert(out@ =~= "Pair<"@ + a@ + ", "@ + b@ + ">"@ + spec_constraints(
                        schema.ty,
                        schema.optional,
                        enabled,
                    ));
                }
                Ok(out)
            } else if tt.items_types.len() == 1 {
                let t = match render_field_type(enabled, aliases, &tt.items_types[0]) {
                    Ok(t) => t,
                    Err(e) => {
                        return Err(e);
                    },
                };
                let mut out = String::new();
                out.append("Listing<");
                out.append(t.as_str());
                out.append(">");
                let cons = render_constraints(enabled, schema);
                out.append(cons.as_str());
                proof {
                    assert(out@ =~= "Listing<"@ + t@ + ">"@ + spec_constraints(
                        schema.ty,
                        schema.optional,
                        enabled,
                    ));
                }
                Ok(out)
            } else if tt.items_types.len() == 0 {
                let mut out = String::new();
                out.append("Dynamic");
                let cons = render_constraints(enabled, schema);
                out.append(cons.as_str());
                proof {
                    assert(out@ =~= "Dynamic"@ + spec_constraints(
                        schema.ty,
                        schema.optional,
                        enabled,
                    ));
                }
                Ok(out)
            } else {
                let nt = fmt_u64(tt.items_types.len() as u64);
                let mut m = String::new();
                m.append("tuple arity ");
                m.append(nt.as_str());
                m.append(" unsupported");
                proof {
                    assert(m@ =~= "tuple arity "@ + dec_nat(tt.items_types@.len())
                        + " unsupported"@);
                }
                Err(RenderError::UnsupportedShape(m))
            }
        },
        SchemaType::Union(ut) => {
            let ghost items = ut.variants_types;
            let ghost al_in = alias_entries(*aliases);
            let mut parts: Vec<String> = Vec::new();
            let mut marked = false;
            let mut i: usize = 0;
            proof {
                assert(views(parts@) =~= Seq::<Seq<char>>::empty());
                assert(Seq::<Seq<char>>::empty() + spec_union_parts(
                    items,
                    0,
                    al_in,
                    enabled,
                    false,
                ).0->Ok_0 =~= spec_union_parts(items, 0, al_in, enabled, false).0->Ok_0);
            }
            #[verifier::loop_isolation(false)]
            while i < ut.variants_types.len()
                invariant
                    i <= ut.variants_types.len(),
                    items == ut.variants_types,
                    ({
                        let t = spec_union_parts(
                            items,
                            i as int,
                            alias_entries(*aliases),
                            enabled,
                            marked,
                        );
                        let full = spec_union_parts(items, 0, al_in, enabled, false);
                        match t.0 {
                            Result::Ok(ps) => full == (
                                Result::<Seq<Seq<char>>, Seq<char>>::Ok(views(parts@) + ps),
                                t.1,
                            ),
                            Result::Err(e) => full == (
                                Result::<Seq<Seq<char>>, Seq<char>>::Err(e),
                                t.1,
                            ),
                        }
                    }),
                decreases ut.variants_types.len() - i,
            {
                let ghost al_before = alias_entries(*aliases);
                let vr = render_field_type(enabled, aliases, &ut.variants_types[i]);
                match vr {
                    Err(e) => {
                        return Err(e);
                    },
                    Ok(t) => {
                        let hd = variant_has_default(&ut.variants_types[i].ty);
                        let ghost tview = t@;
                        let part: String = if hd && !marked {
                            let mut p = String::new();
                            p.append("*");
                            p.append(t.as_str());
                            proof {
                                assert(p@ =~= "*"@ + tview);
                            }
                            p
                        } else {
                            t
                        };
                        proof {
                            let step = spec_union_parts(items, i as int, al_before, enabled, marked);
                            let next = spec_union_parts(
                                items,
                                i as int + 1,
                                alias_entries(*aliases),
                                enabled,
                                marked || hd,
                            );
                            lemma_views_push(parts@, part);
                            if next.0 is Ok {
                                assert(views(parts@) + (seq![part@] + next.0->Ok_0) =~= views(
                                    parts@,
                                ).push(part@) + next.0->Ok_0);
                            }
                        }
                        parts.push(part);
                        if hd {
                            marked = true;
                        }
                    },
                }
                i += 1;
            }
            proof {
                assert(views(parts@) + Seq::<Seq<char>>::empty() =~= views(parts@));
            }
            let joined = join_strings(&parts, "|");
            if ut.variants_types.len() > 3 {
                let name = fresh_alias_name("UnionType", aliases);
                let mut base = name.clone();
                aliases_insert(aliases, name, joined);
                let cons = render_constraints(enabled, schema);
                base.append(cons.as_str());
                Ok(base)
            } else {
                let mut base = joined;
                let cons = render_constraints(enabled, schema);
                base.append(cons.as_str());
                Ok(base)
            }
        },
        SchemaType::Enum(et) => {
            let mut variants = map_literal_texts(&et.values);
            let ghost vt = spec_literal_all(et.values@);
            if let Option::Some(d) = &et.default {
                match find_lit(&et.values, d) {
                    Option::Some(j) => {
                        proof {
                            assert(spec_has_lit(et.values@, *d));
                            lemma_first_lit(et.values@, *d);
                            assert(views(variants@).len() == variants@.len());
                            assert(vt[j as int] == variants@[j as int]@);
                        }
                        let old_s = variants[j].clone();
                        let mut nv = String::new();
                        nv.append("*");
                        nv.append(old_s.as_str());
                        proof {
                            assert(nv@ =~= "*"@ + vt[j as int]);
                        }
                        variants.set(j, nv);
                        proof {
                            assert(views(variants@) =~= vt.update(j as int, "*"@ + vt[j as int]));
                        }
                    },
                    Option::None => {},
                }
            }
            proof {
                assert(views(variants@) == spec_enum_variants(**et));
            }
            let body = join_strings(&variants, "|");
            let name: String = if et.name.unicode_len() == 0 {
                numbered_name("EnumType", aliases)
            } else {
                to_pascal_case(et.name.as_str())
            };
            let mut reuse = false;
            let mut collide = false;
            match aliases_get(aliases, name.as_str()) {
                Option::Some(ex) => {
                    if str_eq(ex.as_str(), body.as_str()) {
                        reuse = true;
                    } else {
                        collide = true;
                    }
                },
                Option::None => {},
            }
            let mut base: String;
            if reuse {
                base = name;
            } else if collide {
                let ghost name_view = name@;
                let n = aliases_len(aliases);
                let nt = fmt_u64(n as u64);
                let mut candidate = name;
                candidate.append(nt.as_str());
                proof {
                    assert(candidate@ =~= name_view + dec_nat(
                        alias_entries(*aliases).len(),
                    ));
                }
                let fresh = pad_alias_name(aliases, candidate);
                base = fresh.clone();
                aliases_insert(aliases, fresh, body);
            } else {
                base = name.clone();
                aliases_insert(aliases, name, body);
            }
            let cons = render_constraints(enabled, schema);
            base.append(cons.as_str());
            Ok(base)
        },
        SchemaType::Literal(lt) => {
            let mut out = literal_text(&lt.value);
            let cons = render_constraints(enabled, schema);
            out.append(cons.as_str());
            Ok(out)
        },
        SchemaType::Struct(st) => {
            let ghost fields = st.fields;
            let ghost al_in = alias_entries(*aliases);
            let mut parts: Vec<String> = Vec::new();
            let mut i: usize = 0;
            proof {
                assert(views(parts@) =~= Seq::<Seq<char>>::empty());
                assert(Seq::<Seq<char>>::empty() + spec_inline_fields(
                    fields,
                    0,
                    al_in,
                    enabled,
                ).0->Ok_0 =~= spec_inline_fields(fields, 0, al_in, enabled).0->Ok_0);
            }
            #[verifier::loop_isolation(false)]
            while i < st.fields.len()
                invariant
                    i <= st.fields.len(),
                    fields == st.fields,
                    ({
                        let t = spec_inline_fields(
                            fields,
                            i as int,
                            alias_entries(*aliases),
                            enabled,
                        );
                        let full = spec_inline_fields(fields, 0, al_in, enabled);
                        match t.0 {
                            Result::Ok(ps) => full == (
                                Result::<Seq<Seq<char>>, Seq<char>>::Ok(views(parts@) + ps),
                                t.1,
                            ),
                            Result::Err(e) => full == (
                                Result::<Seq<Seq<char>>, Seq<char>>::Err(e),
                                t.1,
                            ),
                        }
                    }),
                decreases st.fields.len() - i,
            {
                let field = &st.fields[i];
                if field.hidden {
                    i += 1;
                    continue ;
                }
                let ghost al_before = alias_entries(*aliases);
                let vr = render_field_type(enabled, aliases, &field.schema);
                match vr {
                    Err(e) => {
                        return Err(e);
                    },
                    Ok(t) => {
                        let camel = to_camel_case(field.name.as_str());
                        let escaped = escape_name(camel.as_str());
                        let mut part = String::new();
                        part.append(escaped.as_str());
                        part.append(": ");
                        part.append(t.as_str());
                        if field.optional {
                            part.append("?");
                            proof {
                                assert(part@ =~= spec_escape(spec_camel(field.name@)) + ": "@
                                    + t@ + "?"@);
                            }
                        } else {
                            proof {
                                assert(part@ =~= spec_escape(spec_camel(field.name@)) + ": "@
                                    + t@ + Seq::<char>::empty());
                            }
                        }
                        proof {
                            let next = spec_inline_fields(
                                fields,
                                i as int + 1,
                                alias_entries(*aliases),
                                enabled,
                            );
                            lemma_views_push(parts@, part);
                            if next.0 is Ok {
                                assert(views(parts@) + (seq![part@] + next.0->Ok_0) =~= views(
                                    parts@,
                                ).push(part@) + next.0->Ok_0);
                            }
                        }
                        parts.push(part);
                    },
                }
                i += 1;
            }
            proof {
                assert(views(parts@) + Seq::<Seq<char>>::empty() =~= views(parts@));
            }
            let joined = join_strings(&parts, ", ");
            let mut out = String::new();
            out.append("{");
            out.append(joined.as_str());
            out.append("}");
            let cons = render_constraints(enabled, schema);
            out.append(cons.as_str());
            proof {
                assert(out@ =~= "{"@ + joined@ + "}"@ + spec_constraints(
                    schema.ty,
                    schema.optional,
                    enabled,
                ));
            }
            Ok(out)
        },
        SchemaType::Reference(name) => {
            let mut out = to_pascal_case(name.as_str());
            let cons = render_constraints(enabled, schema);
            out.append(cons.as_str());
            Ok(out)
        },
        SchemaType::Null => {
            let mut out = String::new();
            out.append("nothing");
            let cons = render_constraints(enabled, schema);
            out.append(cons.as_str());
            proof {
                assert(out@ =~= "nothing"@ + spec_constraints(
                    schema.ty,
                    schema.optional,
                    enabled,
                ));
            }
            Ok(out)
        },
        SchemaType::Unknown => {
            let mut out = String::new();
            out.append("unknown");
            let cons = render_constraints(enabled, schema);
            out.append(cons.as_str());
            proof {
                assert(out@ =~= "unknown"@ + spec_constraints(
                    schema.ty,
                    schema.optional,
                    enabled,
                ));
            }
            Ok(out)
        },
    }
}


// ---------------------------------------------------------------------------
// Documentation and deprecation annotations.
// ---------------------------------------------------------------------------

/// The doc-comment line for a description, when docs are enabled and the
/// description is non-empty.
pub open spec fn spec_docs(
    enabled: bool,
    indent_unit: Seq<char>,
    depth: nat,
    desc: Option<Seq<char>>,
) -> Seq<char> {
    if !enabled {
        Seq::empty()
    } else {
        match desc {
            Option::Some(d) => if d.len() > 0 {
                spec_repeat(indent_unit, depth) + "/// "@ + d + "\n"@
            } else {
                Seq::empty()
            },
            Option::None => Seq::empty(),
        }
    }
}

/// Renders the doc-comment line for a description.
pub fn render_docs(
    enabled: bool,
    indent_unit: &str,
    depth: usize,
    description: Option<&String>,
) -> (r: String)
    ensures
        r@ == spec_docs(
            enabled,
            indent_unit@,
            depth as nat,
            match description {
                Option::Some(d) => Option::Some(d@),
                Option::None => Option::None,
            },
        ),
{
    if !enabled {
        return String::new();
    }
    match description {
        Option::Some(d) => {
            if d.unicode_len() > 0 {
                let ind = str_repeat(indent_unit, depth);
                let mut r = String::new();
                r.append(ind.as_str());
                r.append("/// ");
                r.append(d.as_str());
                r.append("\n");
                proof {
                    assert(r@ =~= spec_repeat(indent_unit@, depth as nat) + "/// "@ + d@
                        + "\n"@);
                }
                r
            } else {
                String::new()
            }
        },
        Option::None => String::new(),
    }
}

/// The string with leading whitespace removed.
pub open spec fn spec_skip_ws(s: Seq<char>) -> Seq<char>
    decreases s.len(),
{
    if s.len() > 0 && is_unicode_space(s[0]) {
        spec_skip_ws(s.skip(1))
    } else {
        s
    }
}

/// The longest whitespace-free prefix of the string.
pub open spec fn spec_take_word(s: Seq<char>) -> Seq<char>
    decreases s.len(),
{
    if s.len() > 0 && !is_unicode_space(s[0]) {
        seq![s[0]] + spec_take_word(s.skip(1))
    } else {
        Seq::empty()
    }
}

/// The first whitespace-separated token of the string, if any.
pub open spec fn spec_first_token(s: Seq<char>) -> Option<Seq<char>> {
    let t = spec_take_word(spec_skip_ws(s));
    if t.len() == 0 {
        Option::None
    } else {
        Option::Some(t)
    }
}

/// Extracts the first whitespace-separated token.
pub fn first_token(s: &str) -> (r: Option<String>)
    ensures
        match r {
            Option::Some(t) => (spec_first_token(s@) matches Option::Some(tv) && t@ == tv),
            Option::None => spec_first_token(s@) is None,
        },
{
    let len = s.unicode_len();
    let mut i: usize = 0;
    proof {
        assert(s@.skip(0) =~= s@);
    }
    while i < len && char_is_space(s.get_char(i))
        invariant
            len == s@.len(),
            i <= len,
            spec_skip_ws(s@) == spec_skip_ws(s@.skip(i as int)),
        decreases len - i,
    {
        proof {
            assert(s@.skip(i as int)[0] == s@[i as int]);
            assert(s@.skip(i as int).skip(1) =~= s@.skip(i as int + 1));
        }
        i += 1;
    }
    proof {
        if i < len {
            assert(s@.skip(i as int)[0] == s@[i as int]);
        } else {
            assert(s@.skip(i as int) =~= Seq::<char>::empty());
        }
        assert(spec_skip_ws(s@) == s@.skip(i as int));
    }
    let mut tok = String::new();
    let mut j: usize = i;
    while j < len && !char_is_space(s.get_char(j))
        invariant
            len == s@.len(),
            i <= j <= len,
            spec_take_word(s@.skip(i as int)) == tok@ + spec_take_word(s@.skip(j as int)),
        decreases len - j,
    {
        proof {
            assert(s@.skip(j as int)[0] == s@[j as int]);
            assert(s@.skip(j as int).skip(1) =~= s@.skip(j as int + 1));
        }
        let c = s.get_char(j);
        push_char(&mut tok, c);
        proof {
            assert(tok@ + spec_take_word(s@.skip(j as int + 1)) =~= (tok@.drop_last() + (
            seq![s@[j as int]] + spec_take_word(s@.skip(j as int + 1)))));
        }
        j += 1;
    }
    proof {
        if j < len {
            assert(s@.skip(j as int)[0] == s@[j as int]);
        } else {
            assert(s@.skip(j as int) =~= Seq::<char>::empty());
        }
        assert(spec_take_word(s@.skip(j as int)) =~= Seq::<char>::empty());
        assert(tok@ + Seq::<char>::empty() =~= tok@);
        assert(spec_take_word(spec_skip_ws(s@)) == tok@);
    }
    if tok.unicode_len() == 0 {
        Option::None
    } else {
        Option::Some(tok)
    }
}

/// The string with leading `v` and `V` characters removed.
pub open spec fn spec_trim_v_front(s: Seq<char>) -> Seq<char>
    decreases s.len(),
{
    if s.len() > 0 && (s[0] == 'v' || s[0] == 'V') {
        spec_trim_v_front(s.skip(1))
    } else {
        s
    }
}

/// The string with trailing `v` and `V` characters removed.
pub open spec fn spec_trim_v_back(s: Seq<char>) -> Seq<char>
    decreases s.len(),
{
    if s.len() > 0 && (s.last() == 'v' || s.last() == 'V') {
        spec_trim_v_back(s.drop_last())
    } else {
        s
    }
}

/// The string with `v` and `V` trimmed from both ends.
pub open spec fn spec_trim_v(s: Seq<char>) -> Seq<char> {
    spec_trim_v_back(spec_trim_v_front(s))
}

/// Trims `v` and `V` characters from both ends of the string.
pub fn trim_v(s: &str) -> (r: String)
    ensures
        r@ == spec_trim_v(s@),
{
    let len = s.unicode_len();
    let mut a: usize = 0;
    proof {
        assert(s@.skip(0) =~= s@);
    }
    while a < len && (s.get_char(a) == 'v' || s.get_char(a) == 'V')
        invariant
            len == s@.len(),
            a <= len,
            spec_trim_v_front(s@) == spec_trim_v_front(s@.skip(a as int)),
        decreases len - a,
    {
        proof {
            assert(s@.skip(a as int)[0] == s@[a as int]);
            assert(s@.skip(a as int).skip(1) =~= s@.skip(a as int + 1));
        }
        a += 1;
    }
    proof {
        if a < len {
            assert(s@.skip(a as int)[0] == s@[a as int]);
        } else {
            assert(s@.skip(a as int) =~= Seq::<char>::empty());
        }
        assert(spec_trim_v_front(s@) == s@.skip(a as int));
    }
    let mut b: usize = len;
    while b > a && (s.get_char(b - 1) == 'v' || s.get_char(b - 1) == 'V')
        invariant
            len == s@.len(),
            a <= b <= len,
            spec_trim_v_back(s@.skip(a as int)) == spec_trim_v_back(
                s@.subrange(a as int, b as int),
            ),
        decreases b,
    {
        proof {
            let cur = s@.subrange(a as int, b as int);
            assert(cur.last() == s@[b as int - 1]);
            assert(cur.drop_last() =~= s@.subrange(a as int, b as int - 1));
        }
        b -= 1;
    }
    proof {
        let cur = s@.subrange(a as int, b as int);
        if b > a {
            assert(cur.last() == s@[b as int - 1]);
        }
        assert(spec_trim_v_back(s@.skip(a as int)) == cur);
    }
    let out = s.substring_char(a, b);
    let mut r = String::new();
    r.append(out);
    proof {
        assert(r@ =~= s@.subrange(a as int, b as int));
    }
    r
}

/// The `since = "..."` part extracted from a deprecation message that
/// starts with `since `, holding the first token with `v`/`V` trimmed.
pub open spec fn spec_since_parts(msg: Seq<char>) -> Seq<Seq<char>> {
    if spec_starts_with(msg, "since "@) {
        let tail = msg.skip("since "@.len() as int);
        match spec_first_token(tail) {
            Option::Some(tok) => seq!["since = \""@ + spec_trim_v(tok) + "\""@],
            Option::None => Seq::empty(),
        }
    } else {
        Seq::empty()
    }
}

/// The deprecation annotation of a field or schema, when deprecations are
/// enabled: a bare `@Deprecated` for an empty message, else a braced
/// annotation carrying the extracted `since` version and the full message.
pub open spec fn spec_deprecation(
    enabled: bool,
    indent_unit: Seq<char>,
    depth: nat,
    dep: Option<Seq<char>>,
) -> Seq<char> {
    if !enabled {
        Seq::empty()
    } else {
        match dep {
            Option::None => Seq::empty(),
            Option::Some(msg) => {
                if msg.len() == 0 {
                    spec_repeat(indent_unit, depth) + "@Deprecated\n"@
                } else {
                    let parts = spec_since_parts(msg).push("message = \""@ + msg + "\""@);
                    if parts.len() == 1 {
                        spec_repeat(indent_unit, depth) + "@Deprecated { "@ + parts[0]
                            + " }\n"@
                    } else {
                        spec_repeat(indent_unit, depth) + "@Deprecated { "@ + spec_join(
                            parts,
                            "; "@,
                        ) + " }\n"@
                    }
                }
            },
        }
    }
}

/// The deprecation message that applies to a field: the field's own, else
/// its schema's.
pub open spec fn spec_dep_of(
    field_dep: Option<Seq<char>>,
    schema_dep: Option<Seq<char>>,
) -> Option<Seq<char>> {
    match field_dep {
        Option::Some(d) => Option::Some(d),
        Option::None => schema_dep,
    }
}

/// Renders the deprecation annotation for a schema, preferring the field's
/// own message when one is given.
pub fn render_deprecation(
    enabled: bool,
    indent_unit: &str,
    depth: usize,
    schema: &Schema,
    field: Option<&SchemaField>,
) -> (r: String)
    ensures
        r@ == spec_deprecation(
            enabled,
            indent_unit@,
            depth as nat,
            spec_dep_of(
                match field {
                    Option::Some(f) => match f.deprecated {
                        Option::Some(d) => Option::Some(d@),
                        Option::None => Option::None,
                    },
                    Option::None => Option::None,
                },
                match schema.deprecated {
                    Option::Some(d) => Option::Some(d@),
                    Option::None => Option::None,
                },
            ),
        ),
{
    if !enabled {
        return String::new();
    }
    let dep: Option<&String> = match field {
        Option::Some(f) => match &f.deprecated {
            Option::Some(d) => Option::Some(d),
            Option::None => match &schema.deprecated {
                Option::Some(d) => Option::Some(d),
                Option::None => Option::None,
            },
        },
        Option::None => match &schema.deprecated {
            Option::Some(d) => Option::Some(d),
            Option::None => Option::None,
        },
    };
    match dep {
        Option::None => String::new(),
        Option::Some(msg) => {
            let ind = str_repeat(indent_unit, depth);
            if msg.unicode_len() == 0 {
                let mut r = String::new();
                r.append(ind.as_str());
                r.append("@Deprecated\n");
                proof {
                    assert(r@ =~= spec_repeat(indent_unit@, depth as nat) + "@Deprecated\n"@);
                }
                r
            } else {
                let mut parts: Vec<String> = Vec::new();
                proof {
                    assert(views(parts@) =~= Seq::<Seq<char>>::empty());
                }
                if str_starts_with(msg.as_str(), "since ") {
                    let plen = "since ".unicode_len();
                    let mlen = msg.as_str().unicode_len();
                    let tail = msg.as_str().substring_char(plen, mlen);
                    match first_token(tail) {
                        Option::Some(tok) => {
                            let trimmed = trim_v(tok.as_str());
                            let mut p = String::new();
                            p.append("since = \"");
                            p.append(trimmed.as_str());
                            p.append("\"");
                            proof {
                                assert(p@ =~= "since = \""@ + spec_trim_v(
                                    spec_first_token(msg@.skip("since "@.len() as int))->0,
                                ) + "\""@);
                                lemma_views_push(parts@, p);
                            }
                            parts.push(p);
                        },
                        Option::None => {},
                    }
                }
                proof {
                    assert(views(parts@) == spec_since_parts(msg@));
                }
                let mut m = String::new();
                m.append("message = \"");
                m.append(msg.as_str());
                m.append("\"");
                proof {
                    assert(m@ =~= "message = \""@ + msg@ + "\""@);
                    lemma_views_push(parts@, m);
                }
                parts.push(m);
                let mut r = String::new();
                r.append(ind.as_str());
                r.append("@Deprecated { ");
                if parts.len() == 1 {
                    r.append(parts[0].as_str());
                } else {
                    let joined = join_strings(&parts, "; ");
                    r.append(joined.as_str());
                }
                r.append(" }\n");
                proof {
                    if views(parts@).len() == 1 {
                        assert(r@ =~= spec_repeat(indent_unit@, depth as nat)
                            + "@Deprecated { "@ + views(parts@)[0] + " }\n"@);
                    } else {
                        assert(r@ =~= spec_repeat(indent_unit@, depth as nat)
                            + "@Deprecated { "@ + spec_join(views(parts@), "; "@) + " }\n"@);
                    }
                }
                r
            }
        },
    }
}


// ---------------------------------------------------------------------------
// Declaration emitters, alias flusher, orchestrator: specification side.
// ---------------------------------------------------------------------------

/// Whether the name is on the caller's exclusion list.
pub open spec fn spec_excluded(name: Seq<char>, ex: Seq<String>) -> bool {
    exists|k: int| 0 <= k < ex.len() && (#[trigger] ex[k])@ == name
}

/// Tests the name against the exclusion list.
pub fn is_excluded(name: &str, ex: &Vec<String>) -> (r: bool)
    ensures
        r == spec_excluded(name@, ex@),
{
    let mut k: usize = 0;
    while k < ex.len()
        invariant
            k <= ex.len(),
            forall|j: int| 0 <= j < k ==> (#[trigger] ex@[j])@ != name@,
        decreases ex.len() - k,
    {
        if str_eq(ex[k].as_str(), name) {
            return true;
        }
        k += 1;
    }
    false
}

/// The description that documents a field: its own comment, else its
/// schema's description.
pub open spec fn spec_field_desc(f: SchemaField) -> Option<Seq<char>> {
    match f.comment {
        Option::Some(c) => Option::Some(c@),
        Option::None => match f.schema.description {
            Option::Some(d) => Option::Some(d@),
            Option::None => Option::None,
        },
    }
}

/// The output elements of the fields from position `i` on: for each field
/// that is neither hidden nor excluded, its deprecation element, its doc
/// element when it has a description, the property line, and a blank
/// separator; errors propagate from type synthesis.
pub open spec fn spec_field_blocks(
    fields: Vec<SchemaField>,
    i: int,
    al: Seq<(Seq<char>, Seq<char>)>,
    opts: PklSchemaOptions,
    depth: nat,
) -> (Result<Seq<Seq<char>>, Seq<char>>, Seq<(Seq<char>, Seq<char>)>)
    decreases fields, 1int, fields.len() - i,
{
    if i < 0 || i >= fields.len() {
        (Result::Ok(Seq::empty()), al)
    } else if fields[i].hidden || spec_excluded(fields[i].name@, opts.exclude_properties@) {
        spec_field_blocks(fields, i + 1, al, opts, depth)
    } else {
        let f = fields[i];
        let dep = spec_deprecation(
            opts.include_deprecated,
            opts.indent@,
            depth,
            spec_dep_of(
                match f.deprecated {
                    Option::Some(d) => Option::Some(d@),
                    Option::None => Option::None,
                },
                match f.schema.deprecated {
                    Option::Some(d) => Option::Some(d@),
                    Option::None => Option::None,
                },
            ),
        );
        let desc = spec_field_desc(f);
        let (ft, al0) = spec_field_type(f.schema, al, opts.include_constraints);
        match ft {
            Result::Err(e) => (Result::Err(e), al0),
            Result::Ok(t) => {
                let line = spec_repeat(opts.indent@, depth) + spec_escape(spec_camel(f.name@))
                    + ": "@ + t + (if f.optional {
                    "?"@
                } else {
                    Seq::<char>::empty()
                }) + spec_default_suffix(f.schema.ty, opts.include_defaults);
                let head = if desc is Some {
                    seq![dep, spec_docs(opts.include_docs, opts.indent@, depth, desc)]
                } else {
                    seq![dep]
                };
                let blocks = head + seq![line, Seq::<char>::empty()];
                let (rest, al1) = spec_field_blocks(fields, i + 1, al0, opts, depth);
                match rest {
                    Result::Err(e) => (Result::Err(e), al1),
                    Result::Ok(ps) => (Result::Ok(blocks + ps), al1),
                }
            },
        }
    }
}

/// One whole struct declaration as output elements: optional doc element,
/// the declaration header, a blank line, then the field blocks.
pub open spec fn spec_struct_decl(
    name: Seq<char>,
    st: StructType,
    desc: Option<Seq<char>>,
    al: Seq<(Seq<char>, Seq<char>)>,
    opts: PklSchemaOptions,
    keyword: Seq<char>,
    base_depth: nat,
    field_depth: nat,
) -> (Result<Seq<Seq<char>>, Seq<char>>, Seq<(Seq<char>, Seq<char>)>) {
    let head = (if desc is Some {
        seq![spec_docs(opts.include_docs, opts.indent@, base_depth, desc)]
    } else {
        Seq::<Seq<char>>::empty()
    }) + seq![keyword + " "@ + spec_escape(spec_pascal(name)), Seq::<char>::empty()];
    let (fb, al1) = spec_field_blocks(st.fields, 0, al, opts, field_depth);
    match fb {
        Result::Err(e) => (Result::Err(e), al1),
        Result::Ok(ps) => (Result::Ok(head + ps), al1),
    }
}

/// The alias declarations of the first `i` table entries, one line each.
pub open spec fn spec_alias_lines_pre(es: Seq<(Seq<char>, Seq<char>)>, i: int) -> Seq<
    Seq<char>,
>
    decreases i,
{
    if i <= 0 {
        Seq::empty()
    } else {
        spec_alias_lines_pre(es, i - 1).push(
            "typealias "@ + es[i - 1].0 + " = "@ + es[i - 1].1,
        )
    }
}

/// The flushed alias block: one `typealias` line per entry in insertion
/// order, with a blank line after the block; empty when the table is empty.
pub open spec fn spec_alias_text(es: Seq<(Seq<char>, Seq<char>)>) -> Seq<char> {
    if es.len() == 0 {
        Seq::empty()
    } else {
        spec_join(spec_alias_lines_pre(es, es.len() as int).push(Seq::<char>::empty()), "\n"@)
    }
}

/// The nested class declarations of the graph entries from position `i`
/// on, one element per struct-shaped entry; the root entry at position
/// `skip` and entries of other shapes are passed over.
pub open spec fn spec_class_blocks(
    entries: Seq<(Seq<char>, Schema)>,
    i: int,
    skip: int,
    al: Seq<(Seq<char>, Seq<char>)>,
    opts: PklSchemaOptions,
    depth: nat,
) -> (Result<Seq<Seq<char>>, Seq<char>>, Seq<(Seq<char>, Seq<char>)>)
    decreases entries.len() - i,
{
    if i < 0 || i >= entries.len() {
        (Result::Ok(Seq::empty()), al)
    } else if i == skip {
        spec_class_blocks(entries, i + 1, skip, al, opts, depth)
    } else {
        match entries[i].1.ty {
            SchemaType::Struct(st) => {
                let (d, al0) = spec_struct_decl(
                    entries[i].0,
                    *st,
                    match entries[i].1.description {
                        Option::Some(dd) => Option::Some(dd@),
                        Option::None => Option::None,
                    },
                    al,
                    opts,
                    "class"@,
                    depth,
                    depth + 1,
                );
                match d {
                    Result::Err(e) => (Result::Err(e), al0),
                    Result::Ok(elems) => {
                        let text = spec_join(elems, "\n"@);
                        let (rest, al1) = spec_class_blocks(entries, i + 1, skip, al0, opts, depth);
                        match rest {
                            Result::Err(e) => (Result::Err(e), al1),
                            Result::Ok(ps) => (Result::Ok(seq![text] + ps), al1),
                        }
                    },
                }
            },
            _ => spec_class_blocks(entries, i + 1, skip, al, opts, depth),
        }
    }
}

/// The name the root declaration carries: the caller's override when given,
/// else the graph's first key.
pub open spec fn spec_root_name(entries: Seq<(Seq<char>, Schema)>, opts: PklSchemaOptions) -> Seq<
    char,
> {
    match opts.module_name {
        Option::Some(n) => n@,
        Option::None => entries[0].0,
    }
}

/// The position of the entry rendered as the root: the override's own
/// entry when the override names a key of the graph, else the first entry.
pub open spec fn spec_root_index(
    entries: Seq<(Seq<char>, Schema)>,
    opts: PklSchemaOptions,
) -> int {
    match opts.module_name {
        Option::Some(n) => if has_key(entries, n@) {
            first_key_index(entries, n@)
        } else {
            0
        },
        Option::None => 0,
    }
}

/// The root declaration keyword per the caller's translation choice.
pub open spec fn spec_root_keyword(opts: PklSchemaOptions) -> Seq<char> {
    if opts.config_translation == ConfigTranslation::Module {
        "module"@
    } else {
        "class"@
    }
}

/// The whole rendered document over a non-empty graph: the root
/// declaration's header block, the flushed aliases right after it, the
/// root's own property blocks, then one class declaration per remaining
/// struct-shaped entry, all joined with newlines.
pub open spec fn spec_render(
    entries: Seq<(Seq<char>, Schema)>,
    al: Seq<(Seq<char>, Seq<char>)>,
    opts: PklSchemaOptions,
    depth: nat,
) -> (Result<Seq<char>, Seq<char>>, Seq<(Seq<char>, Seq<char>)>) {
    let root_name = spec_root_name(entries, opts);
    let keyword = spec_root_keyword(opts);
    let header_line = keyword + " "@ + spec_escape(spec_pascal(root_name));
    let root_idx = spec_root_index(entries, opts);
    let root = entries[root_idx].1;
    match root.ty {
        SchemaType::Struct(st) => {
            let (fb, al1) = spec_field_blocks(st.fields, 0, al, opts, depth);
            match fb {
                Result::Err(e) => (Result::Err(e), al1),
                Result::Ok(fbs) => {
                    let (cb, al2) = spec_class_blocks(entries, 0, root_idx, al1, opts, depth);
                    match cb {
                        Result::Err(e) => (Result::Err(e), al2),
                        Result::Ok(cbs) => {
                            let atext = spec_alias_text(al2);
                            let head = (if root.description is Some {
                                seq![spec_docs(
                                    opts.include_docs,
                                    opts.indent@,
                                    depth,
                                    match root.description {
                                        Option::Some(d) => Option::Some(d@),
                                        Option::None => Option::None,
                                    },
                                )]
                            } else {
                                Seq::<Seq<char>>::empty()
                            }) + seq![header_line, Seq::<char>::empty()];
                            let elems = head + (if atext.len() > 0 {
                                seq![atext]
                            } else {
                                Seq::<Seq<char>>::empty()
                            }) + fbs + cbs;
                            (Result::Ok(spec_join(elems, "\n"@)), al2)
                        },
                    }
                },
            }
        },
        _ => {
            let (vt, al1) = spec_field_type(root, al, opts.include_constraints);
            match vt {
                Result::Err(e) => (Result::Err(e), al1),
                Result::Ok(t) => {
                    let (cb, al2) = spec_class_blocks(entries, 0, root_idx, al1, opts, depth);
                    match cb {
                        Result::Err(e) => (Result::Err(e), al2),
                        Result::Ok(cbs) => {
                            let atext = spec_alias_text(al2);
                            let elems = seq![header_line, Seq::<char>::empty()] + (if atext.len()
                                > 0 {
                                seq![atext]
                            } else {
                                Seq::<Seq<char>>::empty()
                            }) + seq!["value: "@ + t] + cbs;
                            (Result::Ok(spec_join(elems, "\n"@)), al2)
                        },
                    }
                },
            }
        },
    }
}


// ---------------------------------------------------------------------------
// Declaration emitters, alias flusher, orchestrator: executable side.
// ---------------------------------------------------------------------------

/// Appends every element of `src` to `dst`.
pub fn append_all(dst: &mut Vec<String>, src: &Vec<String>)
    ensures
        final(dst)@ == old(dst)@ + src@,
{
    let ghost base = dst@;
    let mut i: usize = 0;
    proof {
        assert(base + src@.take(0) =~= base);
    }
    while i < src.len()
        invariant
            i <= src.len(),
            dst@ == base + src@.take(i as int),
        decreases src.len() - i,
    {
        let c = src[i].clone();
        proof {
            assert(c == src@[i as int]);
            assert((base + src@.take(i as int)).push(src@[i as int]) =~= base + src@.take(
                i as int + 1,
            ));
        }
        dst.push(c);
        i += 1;
    }
    proof {
        assert(base + src@.take(src@.len() as int) =~= base + src@);
    }
}

/// Emits the output elements of a struct's visible, non-excluded fields.
#[verifier::rlimit(80)]
pub fn render_field_blocks(
    opts: &PklSchemaOptions,
    aliases: &mut IndexMap<String, String>,
    depth: usize,
    structure: &StructType,
) -> (r: Result<Vec<String>, RenderError>)
    ensures
        ({
            let sres = spec_field_blocks(
                structure.fields,
                0,
                alias_entries(*old(aliases)),
                *opts,
                depth as nat,
            );
            &&& alias_entries(*final(aliases)) == sres.1
            &&& (match r {
                Result::Ok(v) => (sres.0 matches Result::Ok(ps) && views(v@) == ps),
                Result::Err(e) => (sres.0 matches Result::Err(m) && (e matches
                RenderError::UnsupportedShape(em) && em@ == m)),
            })
        }),
{
    let ghost fields = structure.fields;
    let ghost al_in = alias_entries(*aliases);
    let mut out: Vec<String> = Vec::new();
    let mut i: usize = 0;
    proof {
        assert(views(out@) =~= Seq::<Seq<char>>::empty());
        assert(Seq::<Seq<char>>::empty() + spec_field_blocks(
            fields,
            0,
            al_in,
            *opts,
            depth as nat,
        ).0->Ok_0 =~= spec_field_blocks(fields, 0, al_in, *opts, depth as nat).0->Ok_0);
    }
    #[verifier::loop_isolation(false)]
    while i < structure.fields.len()
        invariant
            i <= structure.fields.len(),
            ({
                let t = spec_field_blocks(
                    fields,
                    i as int,
                    alias_entries(*aliases),
                    *opts,
                    depth as nat,
                );
                let full = spec_field_blocks(fields, 0, al_in, *opts, depth as nat);
                match t.0 {
                    Result::Ok(ps) => full == (
                        Result::<Seq<Seq<char>>, Seq<char>>::Ok(views(out@) + ps),
                        t.1,
                    ),
                    Result::Err(e) => full == (
                        Result::<Seq<Seq<char>>, Seq<char>>::Err(e),
                        t.1,
                    ),
                }
            }),
        decreases structure.fields.len() - i,
    {
        let field = &structure.fields[i];
        if field.hidden || is_excluded(field.name.as_str(), &opts.exclude_properties) {
            proof {
                assert(spec_field_blocks(
                    fields,
                    i as int,
                    alias_entries(*aliases),
                    *opts,
                    depth as nat,
                ) == spec_field_blocks(
                    fields,
                    i as int + 1,
                    alias_entries(*aliases),
                    *opts,
                    depth as nat,
                ));
            }
            i += 1;
            continue ;
        }
        let dep = render_deprecation(
            opts.include_deprecated,
            opts.indent.as_str(),
            depth,
            &field.schema,
            Option::Some(field),
        );
        let desc: Option<&String> = match &field.comment {
            Option::Some(c) => Option::Some(c),
            Option::None => match &field.schema.description {
                Option::Some(d) => Option::Some(d),
                Option::None => Option::None,
            },
        };
        let ghost al_before = alias_entries(*aliases);
        let ghost out_before = views(out@);
        let ft = match render_field_type(opts.include_constraints, aliases, &field.schema) {
            Ok(t) => t,
            Err(e) => {
                return Err(e);
            },
        };
        let ind = str_repeat(opts.indent.as_str(), depth);
        let camel = to_camel_case(field.name.as_str());
        let escaped = escape_name(camel.as_str());
        let mut line = String::new();
        line.append(ind.as_str());
        line.append(escaped.as_str());
        line.append(": ");
        line.append(ft.as_str());
        if field.optional {
            line.append("?");
        }
        let dflt = render_default_value(opts.include_defaults, &field.schema);
        line.append(dflt.as_str());
        proof {
            let f = fields[i as int];
            if f.optional {
                assert(line@ =~= spec_repeat(opts.indent@, depth as nat) + spec_escape(
                    spec_camel(f.name@),
                ) + ": "@ + ft@ + "?"@ + spec_default_suffix(
                    f.schema.ty,
                    opts.include_defaults,
                ));
            } else {
                assert(line@ =~= spec_repeat(opts.indent@, depth as nat) + spec_escape(
                    spec_camel(f.name@),
                ) + ": "@ + ft@ + Seq::<char>::empty() + spec_default_suffix(
                    f.schema.ty,
                    opts.include_defaults,
                ));
            }
        }
        out.push(dep);
        match desc {
            Option::Some(d) => {
                let doc = render_docs(
                    opts.include_docs,
                    opts.indent.as_str(),
                    depth,
                    Option::Some(d),
                );
                out.push(doc);
            },
            Option::None => {},
        }
        out.push(line);
        out.push(String::new());
        proof {
            let f = fields[i as int];
            let step = spec_field_blocks(fields, i as int, al_before, *opts, depth as nat);
            let next = spec_field_blocks(
                fields,
                i as int + 1,
                alias_entries(*aliases),
                *opts,
                depth as nat,
            );
            let dep_s = spec_deprecation(
                opts.include_deprecated,
                opts.indent@,
                depth as nat,
                spec_dep_of(
                    match f.deprecated {
                        Option::Some(d) => Option::Some(d@),
                        Option::None => Option::None,
                    },
                    match f.schema.deprecated {
                        Option::Some(d) => Option::Some(d@),
                        Option::None => Option::None,
                    },
                ),
            );
            let line_s = line@;
            let doc_s = spec_docs(
                opts.include_docs,
                opts.indent@,
                depth as nat,
                spec_field_desc(f),
            );
            let head_s = if spec_field_desc(f) is Some {
                seq![dep_s, doc_s]
            } else {
                seq![dep_s]
            };
            let blocks_s = head_s + seq![line_s, Seq::<char>::empty()];
            if spec_field_desc(f) is Some {
                assert(views(out@) =~= out_before + seq![
                    dep_s,
                    doc_s,
                    line_s,
                    Seq::<char>::empty(),
                ]);
                assert(blocks_s =~= seq![dep_s, doc_s, line_s, Seq::<char>::empty()]);
            } else {
                assert(views(out@) =~= out_before + seq![dep_s, line_s, Seq::<char>::empty()]);
                assert(blocks_s =~= seq![dep_s, line_s, Seq::<char>::empty()]);
            }
            assert(views(out@) == out_before + blocks_s);
            if next.0 is Ok {
                assert((out_before + blocks_s) + next.0->Ok_0 =~= out_before + (blocks_s
                    + next.0->Ok_0));
            }
        }
        i += 1;
    }
    proof {
        assert(views(out@) + Seq::<Seq<char>>::empty() =~= views(out@));
    }
    Ok(out)
}

/// Emits one whole struct declaration as output elements, with the given
/// declaration keyword and depths.
pub fn emit_struct_elems(
    opts: &PklSchemaOptions,
    aliases: &mut IndexMap<String, String>,
    keyword: &str,
    base_depth: usize,
    field_depth: usize,
    name: &str,
    structure: &StructType,
    description: Option<&String>,
) -> (r: Result<Vec<String>, RenderError>)
    ensures
        ({
            let sres = spec_struct_decl(
                name@,
                *structure,
                match description {
                    Option::Some(d) => Option::Some(d@),
                    Option::None => Option::None,
                },
                alias_entries(*old(aliases)),
                *opts,
                keyword@,
                base_depth as nat,
                field_depth as nat,
            );
            &&& alias_entries(*final(aliases)) == sres.1
            &&& (match r {
                Result::Ok(v) => (sres.0 matches Result::Ok(ps) && views(v@) == ps),
                Result::Err(e) => (sres.0 matches Result::Err(m) && (e matches
                RenderError::UnsupportedShape(em) && em@ == m)),
            })
        }),
{
    let mut out: Vec<String> = Vec::new();
    match description {
        Option::Some(d) => {
            let doc = render_docs(
                opts.include_docs,
                opts.indent.as_str(),
                base_depth,
                Option::Some(d),
            );
            out.push(doc);
        },
        Option::None => {},
    }
    let pascal = to_pascal_case(name);
    let escaped = escape_name(pascal.as_str());
    let mut header = String::new();
    header.append(keyword);
    header.append(" ");
    header.append(escaped.as_str());
    proof {
        assert(header@ =~= keyword@ + " "@ + spec_escape(spec_pascal(name@)));
    }
    out.push(header);
    out.push(String::new());
    let ghost head = views(out@);
    let fb = match render_field_blocks(opts, aliases, field_depth, structure) {
        Ok(v) => v,
        Err(e) => {
            return Err(e);
        },
    };
    append_all(&mut out, &fb);
    proof {
        let sres = spec_struct_decl(
            name@,
            *structure,
            match description {
                Option::Some(d) => Option::Some(d@),
                Option::None => Option::None,
            },
            alias_entries(*old(aliases)),
            *opts,
            keyword@,
            base_depth as nat,
            field_depth as nat,
        );
        if description is Some {
            assert(head =~= seq![
                spec_docs(
                    opts.include_docs,
                    opts.indent@,
                    base_depth as nat,
                    match description {
                        Option::Some(d) => Option::Some(d@),
                        Option::None => Option::None,
                    },
                ),
            ] + seq![keyword@ + " "@ + spec_escape(spec_pascal(name@)), Seq::<char>::empty()]);
        } else {
            assert(head =~= Seq::<Seq<char>>::empty() + seq![
                keyword@ + " "@ + spec_escape(spec_pascal(name@)),
                Seq::<char>::empty(),
            ]);
        }
        assert(views(out@) =~= head + views(fb@));
    }
    Ok(out)
}

/// Renders one alias declaration per table entry, in insertion order, with
/// a blank line after the block.
pub fn render_typealiases(aliases: &IndexMap<String, String>) -> (r: String)
    ensures
        r@ == spec_alias_text(alias_entries(*aliases)),
{
    let n = aliases_len(aliases);
    if n == 0 {
        return String::new();
    }
    let ghost es = alias_entries(*aliases);
    let mut lines: Vec<String> = Vec::new();
    let mut i: usize = 0;
    proof {
        assert(views(lines@) =~= spec_alias_lines_pre(es, 0));
    }
    while i < n
        invariant
            i <= n,
            n == alias_entries(*aliases).len(),
            es == alias_entries(*aliases),
            views(lines@) == spec_alias_lines_pre(es, i as int),
        decreases n - i,
    {
        let p = aliases_get_index(aliases, i);
        match p {
            Option::Some(kv) => {
                let mut line = String::new();
                line.append("typealias ");
                line.append(kv.0.as_str());
                line.append(" = ");
                line.append(kv.1.as_str());
                proof {
                    assert(line@ =~= "typealias "@ + es[i as int].0 + " = "@ + es[i as int].1);
                    lemma_views_push(lines@, line);
                }
                lines.push(line);
            },
            Option::None => {
                proof {
                    assert(false);
                }
            },
        }
        i += 1;
    }
    lines.push(String::new());
    proof {
        lemma_views_push(lines@.drop_last().push(lines@.last()), lines@.last());
        assert(views(lines@) =~= spec_alias_lines_pre(es, es.len() as int).push(
            Seq::<char>::empty(),
        ));
    }
    join_strings(&lines, "\n")
}


// ---------------------------------------------------------------------------
// The renderer's public surface.
// ---------------------------------------------------------------------------

/// The tuple shape as a type expression, without constraints: a pair for
/// two slots, a listing for one, `Dynamic` for none, and an unsupported
/// shape for anything longer.
pub open spec fn spec_tuple_text(
    tt: crate::schema::TupleType,
    al: Seq<(Seq<char>, Seq<char>)>,
    enabled: bool,
) -> (Result<Seq<char>, Seq<char>>, Seq<(Seq<char>, Seq<char>)>) {
    if tt.items_types.len() == 2 {
        let (r0, al0) = spec_field_type(tt.items_types[0], al, enabled);
        match r0 {
            Result::Err(e) => (Result::Err(e), al0),
            Result::Ok(a) => {
                let (r1, al1) = spec_field_type(tt.items_types[1], al0, enabled);
                match r1 {
                    Result::Err(e) => (Result::Err(e), al1),
                    Result::Ok(b) => (Result::Ok("Pair<"@ + a + ", "@ + b + ">"@), al1),
                }
            },
        }
    } else if tt.items_types.len() == 1 {
        let (r0, al0) = spec_field_type(tt.items_types[0], al, enabled);
        match r0 {
            Result::Err(e) => (Result::Err(e), al0),
            Result::Ok(t) => (Result::Ok("Listing<"@ + t + ">"@), al0),
        }
    } else if tt.items_types.len() == 0 {
        (Result::Ok("Dynamic"@), al)
    } else {
        (
            Result::Err("tuple arity "@ + dec_nat(tt.items_types@.len()) + " unsupported"@),
            al,
        )
    }
}

impl PklSchemaRenderer {
    /// Builds a renderer over an empty graph with the given options.
    pub fn new(options: PklSchemaOptions) -> (r: Self)
        ensures
            graph_entries(r.schemas).len() == 0,
            alias_entries(r.typealiases).len() == 0,
            r.references@ == Set::<String>::empty(),
            r.depth == 0,
            r.options == options,
    {
        PklSchemaRenderer {
            schemas: graph_new(),
            options,
            depth: 0,
            typealiases: aliases_new(),
            references: HashSet::new(),
        }
    }

    /// Builds a renderer with the benchmark options.
    pub fn default() -> (r: Self)
        ensures
            graph_entries(r.schemas).len() == 0,
            alias_entries(r.typealiases).len() == 0,
            r.references@ == Set::<String>::empty(),
            r.depth == 0,
            r.options.include_docs == true,
            r.options.include_constraints == true,
            r.options.include_defaults == true,
            r.options.include_deprecated == false,
            r.options.module_name is None,
            r.options.indent@ == "  "@,
            r.options.exclude_properties@.len() == 0,
            r.options.config_translation == ConfigTranslation::Module,
    {
        PklSchemaRenderer::new(Default::default())
    }

    /// The indentation for the current nesting depth.
    pub fn indent(&self) -> (r: String)
        ensures
            r@ == spec_repeat(self.options.indent@, self.depth as nat),
    {
        str_repeat(self.options.indent.as_str(), self.depth)
    }

    /// Whether the name is a key of the type graph, and so renderable as a
    /// bare reference.
    pub fn is_reference(&self, name: &str) -> (r: bool)
        ensures
            r == has_key(graph_entries(self.schemas), name@),
    {
        graph_contains(&self.schemas, name)
    }

    /// The sequence-of-unknown fallback for arrays handled outside the
    /// synthesizer.
    pub fn render_array(&self) -> (r: String)
        ensures
            r@ == "Listing<unknown>"@,
    {
        let mut r = String::new();
        r.append("Listing<unknown>");
        proof {
            assert(r@ =~= "Listing<unknown>"@);
        }
        r
    }

    /// The boolean type name.
    pub fn render_boolean(&self) -> (r: String)
        ensures
            r@ == "Boolean"@,
    {
        let mut r = String::new();
        r.append("Boolean");
        proof {
            assert(r@ =~= "Boolean"@);
        }
        r
    }

    /// The enum's literal set as a bar-joined expression, unmarked.
    pub fn render_enum(&self, enum_type: &EnumType) -> (r: String)
        ensures
            r@ == spec_join(spec_literal_all(enum_type.values@), "|"@),
    {
        let texts = map_literal_texts(&enum_type.values);
        join_strings(&texts, "|")
    }

    /// The generic floating-point type name.
    pub fn render_float(&self) -> (r: String)
        ensures
            r@ == "Number"@,
    {
        let mut r = String::new();
        r.append("Number");
        proof {
            assert(r@ =~= "Number"@);
        }
        r
    }

    /// The generic integer type name.
    pub fn render_integer(&self) -> (r: String)
        ensures
            r@ == "Int"@,
    {
        let mut r = String::new();
        r.append("Int");
        proof {
            assert(r@ =~= "Int"@);
        }
        r
    }

    /// One literal value as Pkl text.
    pub fn render_literal(&self, literal: &crate::schema::LiteralType) -> (r: String)
        ensures
            r@ == spec_literal(literal.value),
    {
        literal_text(&literal.value)
    }

    /// The bottom type name.
    pub fn render_null(&self) -> (r: String)
        ensures
            r@ == "nothing"@,
    {
        let mut r = String::new();
        r.append("nothing");
        proof {
            assert(r@ =~= "nothing"@);
        }
        r
    }

    /// The mapping-of-unknown fallback for objects handled outside the
    /// synthesizer.
    pub fn render_object(&self) -> (r: String)
        ensures
            r@ == "Mapping<String, unknown>"@,
    {
        let mut r = String::new();
        r.append("Mapping<String, unknown>");
        proof {
            assert(r@ =~= "Mapping<String, unknown>"@);
        }
        r
    }

    /// A by-name reference as its exported, case-converted name.
    pub fn render_reference(&self, reference: &str) -> (r: String)
        ensures
            r@ == spec_pascal(reference@),
    {
        to_pascal_case(reference)
    }

    /// The generic string type name.
    pub fn render_string(&self) -> (r: String)
        ensures
            r@ == "String"@,
    {
        let mut r = String::new();
        r.append("String");
        proof {
            assert(r@ =~= "String"@);
        }
        r
    }

    /// The top type name.
    pub fn render_unknown(&self) -> (r: String)
        ensures
            r@ == "unknown"@,
    {
        let mut r = String::new();
        r.append("unknown");
        proof {
            assert(r@ =~= "unknown"@);
        }
        r
    }

    /// An inline struct occurrence as an anonymous structural expression
    /// over its visible fields.
    pub fn render_struct(&mut self, structure: &StructType) -> (r: Result<String, RenderError>)
        ensures
            ({
                let sres = spec_inline_fields(
                    structure.fields,
                    0,
                    alias_entries(old(self).typealiases),
                    old(self).options.include_constraints,
                );
                &&& alias_entries(final(self).typealiases) == sres.1
                &&& final(self).options == old(self).options
                &&& final(self).depth == old(self).depth
                &&& graph_entries(final(self).schemas) == graph_entries(old(self).schemas)
                &&& (match r {
                    Result::Ok(t) => (sres.0 matches Result::Ok(ps) && t@ == "{"@ + spec_join(
                        ps,
                        ", "@,
                    ) + "}"@),
                    Result::Err(e) => (sres.0 matches Result::Err(m) && (e matches
                    RenderError::UnsupportedShape(em) && em@ == m)),
                })
            }),
    {
        let enabled = self.options.include_constraints;
        let ghost fields = structure.fields;
        let ghost al_in = alias_entries(self.typealiases);
        let mut parts: Vec<String> = Vec::new();
        let mut i: usize = 0;
        proof {
            assert(views(parts@) =~= Seq::<Seq<char>>::empty());
            assert(Seq::<Seq<char>>::empty() + spec_inline_fields(
                fields,
                0,
                al_in,
                enabled,
            ).0->Ok_0 =~= spec_inline_fields(fields, 0, al_in, enabled).0->Ok_0);
        }
        #[verifier::loop_isolation(false)]
        while i < structure.fields.len()
            invariant
                i <= structure.fields.len(),
                self.options == old(self).options,
                self.depth == old(self).depth,
                graph_entries(self.schemas) == graph_entries(old(self).schemas),
                ({
                    let t = spec_inline_fields(
                        fields,
                        i as int,
                        alias_entries(self.typealiases),
                        enabled,
                    );
                    let full = spec_inline_fields(fields, 0, al_in, enabled);
                    match t.0 {
                        Result::Ok(ps) => full == (
                            Result::<Seq<Seq<char>>, Seq<char>>::Ok(views(parts@) + ps),
                            t.1,
                        ),
                        Result::Err(e) => full == (
                            Result::<Seq<Seq<char>>, Seq<char>>::Err(e),
                            t.1,
                        ),
                    }
                }),
            decreases structure.fields.len() - i,
        {
            let field = &structure.fields[i];
            if field.hidden {
                i += 1;
                continue ;
            }
            let ghost al_before = alias_entries(self.typealiases);
            let vr = render_field_type(enabled, &mut self.typealiases, &field.schema);
            match vr {
                Err(e) => {
                    return Err(e);
                },
                Ok(t) => {
                    let camel = to_camel_case(field.name.as_str());
                    let escaped = escape_name(camel.as_str());
                    let mut part = String::new();
                    part.append(escaped.as_str());
                    part.append(": ");
                    part.append(t.as_str());
                    if field.optional {
                        part.append("?");
                        proof {
                            assert(part@ =~= spec_escape(spec_camel(field.name@)) + ": "@ + t@
                                + "?"@);
                        }
                    } else {
                        proof {
                            assert(part@ =~= spec_escape(spec_camel(field.name@)) + ": "@ + t@
                                + Seq::<char>::empty());
                        }
                    }
                    proof {
                        let next = spec_inline_fields(
                            fields,
                            i as int + 1,
                            alias_entries(self.typealiases),
                            enabled,
                        );
                        lemma_views_push(parts@, part);
                        if next.0 is Ok {
                            assert(views(parts@) + (seq![part@] + next.0->Ok_0) =~= views(
                                parts@,
                            ).push(part@) + next.0->Ok_0);
                        }
                    }
                    parts.push(part);
                },
            }
            i += 1;
        }
        proof {
            assert(views(parts@) + Seq::<Seq<char>>::empty() =~= views(parts@));
        }
        let joined = join_strings(&parts, ", ");
        let mut out = String::new();
        out.append("{");
        out.append(joined.as_str());
        out.append("}");
        proof {
            assert(out@ =~= "{"@ + joined@ + "}"@);
        }
        Ok(out)
    }

    /// A tuple occurrence as a pair or listing expression; more than two
    /// slots is an unsupported shape.
    pub fn render_tuple(&mut self, tuple: &crate::schema::TupleType) -> (r: Result<
        String,
        RenderError,
    >)
        ensures
            ({
                let sres = spec_tuple_text(
                    *tuple,
                    alias_entries(old(self).typealiases),
                    old(self).options.include_constraints,
                );
                &&& alias_entries(final(self).typealiases) == sres.1
                &&& final(self).options == old(self).options
                &&& final(self).depth == old(self).depth
                &&& graph_entries(final(self).schemas) == graph_entries(old(self).schemas)
                &&& (match r {
                    Result::Ok(t) => (sres.0 matches Result::Ok(tv) && t@ == tv),
                    Result::Err(e) => (sres.0 matches Result::Err(m) && (e matches
                    RenderError::UnsupportedShape(em) && em@ == m)),
                })
            }),
    {
        let enabled = self.options.include_constraints;
        if tuple.items_types.len() == 2 {
            let a = match render_field_type(enabled, &mut self.typealiases, &tuple.items_types[0]) {
                Ok(t) => t,
                Err(e) => {
                    return Err(e);
                },
            };
            let b = match render_field_type(enabled, &mut self.typealiases, &tuple.items_types[1]) {
                Ok(t) => t,
                Err(e) => {
                    return Err(e);
                },
            };
            let mut out = String::new();
            out.append("Pair<");
            out.append(a.as_str());
            out.append(", ");
            out.append(b.as_str());
            out.append(">");
            proof {
                assert(out@ =~= "Pair<"@ + a@ + ", "@ + b@ + ">"@);
            }
            Ok(out)
        } else if tuple.items_types.len() == 1 {
            let t = match render_field_type(enabled, &mut self.typealiases, &tuple.items_types[0]) {
                Ok(t) => t,
                Err(e) => {
                    return Err(e);
                },
            };
            let mut out = String::new();
            out.append("Listing<");
            out.append(t.as_str());
            out.append(">");
            proof {
                assert(out@ =~= "Listing<"@ + t@ + ">"@);
            }
            Ok(out)
        } else if tuple.items_types.len() == 0 {
            let mut out = String::new();
            out.append("Dynamic");
            proof {
                assert(out@ =~= "Dynamic"@);
            }
            Ok(out)
        } else {
            let nt = fmt_u64(tuple.items_types.len() as u64);
            let mut m = String::new();
            m.append("tuple arity ");
            m.append(nt.as_str());
            m.append(" unsupported");
            proof {
                assert(m@ =~= "tuple arity "@ + dec_nat(tuple.items_types@.len())
                    + " unsupported"@);
            }
            Err(RenderError::UnsupportedShape(m))
        }
    }

    /// A union occurrence as its variants joined with the union operator,
    /// with no default marking and no alias hoisting.
    pub fn render_union(&mut self, union_type: &crate::schema::UnionType) -> (r: Result<
        String,
        RenderError,
    >)
        ensures
            ({
                let sres = spec_union_parts(
                    union_type.variants_types,
                    0,
                    alias_entries(old(self).typealiases),
                    old(self).options.include_constraints,
                    true,
                );
                &&& alias_entries(final(self).typealiases) == sres.1
                &&& final(self).options == old(self).options
                &&& final(self).depth == old(self).depth
                &&& graph_entries(final(self).schemas) == graph_entries(old(self).schemas)
                &&& (match r {
                    Result::Ok(t) => (sres.0 matches Result::Ok(ps) && t@ == spec_join(
                        ps,
                        "|"@,
                    )),
                    Result::Err(e) => (sres.0 matches Result::Err(m) && (e matches
                    RenderError::UnsupportedShape(em) && em@ == m)),
                })
            }),
    {
        let enabled = self.options.include_constraints;
        let ghost items = union_type.variants_types;
        let ghost al_in = alias_entries(self.typealiases);
        let mut parts: Vec<String> = Vec::new();
        let mut i: usize = 0;
        proof {
            assert(views(parts@) =~= Seq::<Seq<char>>::empty());
            assert(Seq::<Seq<char>>::empty() + spec_union_parts(
                items,
                0,
                al_in,
                enabled,
                true,
            ).0->Ok_0 =~= spec_union_parts(items, 0, al_in, enabled, true).0->Ok_0);
        }
        #[verifier::loop_isolation(false)]
        while i < union_type.variants_types.len()
            invariant
                i <= union_type.variants_types.len(),
                self.options == old(self).options,
                self.depth == old(self).depth,
                graph_entries(self.schemas) == graph_entries(old(self).schemas),
                ({
                    let t = spec_union_parts(
                        items,
                        i as int,
                        alias_entries(self.typealiases),
                        enabled,
                        true,
                    );
                    let full = spec_union_parts(items, 0, al_in, enabled, true);
                    match t.0 {
                        Result::Ok(ps) => full == (
                            Result::<Seq<Seq<char>>, Seq<char>>::Ok(views(parts@) + ps),
                            t.1,
                        ),
                        Result::Err(e) => full == (
                            Result::<Seq<Seq<char>>, Seq<char>>::Err(e),
                            t.1,
                        ),
                    }
                }),
            decreases union_type.variants_types.len() - i,
        {
            let vr = render_field_type(
                enabled,
                &mut self.typealiases,
                &union_type.variants_types[i],
            );
            match vr {
                Err(e) => {
                    return Err(e);
                },
                Ok(t) => {
                    proof {
                        let next = spec_union_parts(
                            items,
                            i as int + 1,
                            alias_entries(self.typealiases),
                            enabled,
                            true,
                        );
                        lemma_views_push(parts@, t);
                        if next.0 is Ok {
                            assert(views(parts@) + (seq![t@] + next.0->Ok_0) =~= views(
                                parts@,
                            ).push(t@) + next.0->Ok_0);
                        }
                    }
                    parts.push(t);
                },
            }
            i += 1;
        }
        proof {
            assert(views(parts@) + Seq::<Seq<char>>::empty() =~= views(parts@));
        }
        Ok(join_strings(&parts, "|"))
    }

    /// Emits a struct as the root module-style declaration.
    pub fn render_struct_as_module(
        &mut self,
        name: &str,
        structure: &StructType,
        schema: &Schema,
    ) -> (r: Result<String, RenderError>)
        ensures
            ({
                let sres = spec_struct_decl(
                    name@,
                    *structure,
                    match schema.description {
                        Option::Some(d) => Option::Some(d@),
                        Option::None => Option::None,
                    },
                    alias_entries(old(self).typealiases),
                    old(self).options,
                    "module"@,
                    old(self).depth as nat,
                    old(self).depth as nat,
                );
                &&& alias_entries(final(self).typealiases) == sres.1
                &&& final(self).options == old(self).options
                &&& final(self).depth == old(self).depth
                &&& graph_entries(final(self).schemas) == graph_entries(old(self).schemas)
                &&& (match r {
                    Result::Ok(t) => (sres.0 matches Result::Ok(ps) && t@ == spec_join(
                        ps,
                        "\n"@,
                    )),
                    Result::Err(e) => (sres.0 matches Result::Err(m) && (e matches
                    RenderError::UnsupportedShape(em) && em@ == m)),
                })
            }),
    {
        let depth = self.depth;
        let elems = match emit_struct_elems(
            &self.options,
            &mut self.typealiases,
            "module",
            depth,
            depth,
            name,
            structure,
            schema.description.as_ref(),
        ) {
            Ok(v) => v,
            Err(e) => {
                return Err(e);
            },
        };
        Ok(join_strings(&elems, "\n"))
    }

    /// Emits a struct as a nested class declaration, one indentation level
    /// deeper.
    pub fn render_as_class(
        &mut self,
        name: &str,
        structure: &StructType,
        schema: &Schema,
    ) -> (r: Result<String, RenderError>)
        requires
            old(self).depth < 100000,
        ensures
            ({
                let sres = spec_struct_decl(
                    name@,
                    *structure,
                    match schema.description {
                        Option::Some(d) => Option::Some(d@),
                        Option::None => Option::None,
                    },
                    alias_entries(old(self).typealiases),
                    old(self).options,
                    "class"@,
                    old(self).depth as nat,
                    old(self).depth as nat + 1,
                );
                &&& alias_entries(final(self).typealiases) == sres.1
                &&& final(self).options == old(self).options
                &&& final(self).depth == old(self).depth
                &&& graph_entries(final(self).schemas) == graph_entries(old(self).schemas)
                &&& (match r {
                    Result::Ok(t) => (sres.0 matches Result::Ok(ps) && t@ == spec_join(
                        ps,
                        "\n"@,
                    )),
                    Result::Err(e) => (sres.0 matches Result::Err(m) && (e matches
                    RenderError::UnsupportedShape(em) && em@ == m)),
                })
            }),
    {
        let depth = self.depth;
        let elems = match emit_struct_elems(
            &self.options,
            &mut self.typealiases,
            "class",
            depth,
            depth + 1,
            name,
            structure,
            schema.description.as_ref(),
        ) {
            Ok(v) => v,
            Err(e) => {
                return Err(e);
            },
        };
        Ok(join_strings(&elems, "\n"))
    }
}


/// Finds the position of the graph entry carrying the key, if any.
pub fn find_graph_key(m: &IndexMap<String, Schema>, k: &str) -> (r: Option<usize>)
    ensures
        has_key(graph_entries(*m), k@) ==> r is Some,
        has_key(graph_entries(*m), k@) ==> r->0 == first_key_index(graph_entries(*m), k@),
        !has_key(graph_entries(*m), k@) ==> r is None,
{
    let ghost es = graph_entries(*m);
    let n = graph_len(m);
    let mut i: usize = 0;
    while i < n
        invariant
            n == es.len(),
            es == graph_entries(*m),
            i <= n,
            forall|j: int| 0 <= j < i ==> (#[trigger] es[j]).0 != k@,
        decreases n - i,
    {
        match graph_get_index(m, i) {
            Option::Some(kv) => {
                if str_eq(kv.0.as_str(), k) {
                    proof {
                        assert(es[i as int].0 == k@);
                        assert(has_key(es, k@));
                        lemma_first_key_index(es, k@);
                        let f = first_key_index(es, k@);
                        if f < i {
                            assert(es[f].0 != k@);
                        }
                    }
                    return Option::Some(i);
                }
            },
            Option::None => {
                proof {
                    assert(false);
                }
            },
        }
        i += 1;
    }
    proof {
        if has_key(es, k@) {
            let w = choose|w: int| 0 <= w < es.len() && (#[trigger] es[w]).0 == k@;
            assert(es[w].0 != k@);
        }
    }
    Option::None
}


/// Emits one class declaration per struct-shaped graph entry, in graph
/// order, passing over the root entry.
#[verifier::rlimit(80)]
pub fn render_class_blocks(
    opts: &PklSchemaOptions,
    aliases: &mut IndexMap<String, String>,
    graph: &IndexMap<String, Schema>,
    root_idx: usize,
    depth: usize,
) -> (r: Result<Vec<String>, RenderError>)
    requires
        depth < 100000,
    ensures
        ({
            let sres = spec_class_blocks(
                graph_entries(*graph),
                0,
                root_idx as int,
                alias_entries(*old(aliases)),
                *opts,
                depth as nat,
            );
            &&& alias_entries(*final(aliases)) == sres.1
            &&& (match r {
                Result::Ok(v) => (sres.0 matches Result::Ok(ps) && views(v@) == ps),
                Result::Err(e) => (sres.0 matches Result::Err(m) && (e matches
                RenderError::UnsupportedShape(em) && em@ == m)),
            })
        }),
{
    let ghost entries = graph_entries(*graph);
    let ghost al1 = alias_entries(*aliases);
    let n = graph_len(graph);
        let mut class_texts: Vec<String> = Vec::new();
        let mut i: usize = 0;
        proof {
            assert(views(class_texts@) =~= Seq::<Seq<char>>::empty());
            assert(Seq::<Seq<char>>::empty() + spec_class_blocks(
                entries,
                0,
                root_idx as int,
                al1,
                (*opts),
                depth as nat,
            ).0->Ok_0 =~= spec_class_blocks(
                entries,
                0,
                root_idx as int,
                al1,
                (*opts),
                depth as nat,
            ).0->Ok_0);
        }
        #[verifier::loop_isolation(false)]
        while i < n
            invariant
                0 <= i <= n,
                graph_entries(*graph) == entries,
                ({
                    let t = spec_class_blocks(
                        entries,
                        i as int,
                        root_idx as int,
                        alias_entries(*aliases),
                        (*opts),
                        depth as nat,
                    );
                    let full = spec_class_blocks(
                        entries,
                        0,
                        root_idx as int,
                        al1,
                        (*opts),
                        depth as nat,
                    );
                    match t.0 {
                        Result::Ok(ps) => full == (
                            Result::<Seq<Seq<char>>, Seq<char>>::Ok(views(class_texts@) + ps),
                            t.1,
                        ),
                        Result::Err(e) => full == (
                            Result::<Seq<Seq<char>>, Seq<char>>::Err(e),
                            t.1,
                        ),
                    }
                }),
            decreases n - i,
        {
            if i == root_idx {
                proof {
                    assert(spec_class_blocks(
                        entries,
                        i as int,
                        root_idx as int,
                        alias_entries(*aliases),
                        (*opts),
                        depth as nat,
                    ) == spec_class_blocks(
                        entries,
                        i as int + 1,
                        root_idx as int,
                        alias_entries(*aliases),
                        (*opts),
                        depth as nat,
                    ));
                }
                i += 1;
                continue ;
            }
            match graph_get_index(graph, i) {
                Option::Some(kv) => {
                    let cname: &String = kv.0;
                    let csch: &Schema = kv.1;
                    match &csch.ty {
                        SchemaType::Struct(st) => {
                            let elems = match emit_struct_elems(
                                opts,
                                aliases,
                                "class",
                                depth,
                                depth + 1,
                                cname.as_str(),
                                &**st,
                                csch.description.as_ref(),
                            ) {
                                Ok(v) => v,
                                Err(e) => {
                                    return Err(e);
                                },
                            };
                            let text = join_strings(&elems, "\n");
                            proof {
                                let next = spec_class_blocks(
                                    entries,
                                    i as int + 1,
                                    root_idx as int,
                                    alias_entries(*aliases),
                                    (*opts),
                                    depth as nat,
                                );
                                lemma_views_push(class_texts@, text);
                                if next.0 is Ok {
                                    assert(views(class_texts@) + (seq![text@] + next.0->Ok_0)
                                        =~= views(class_texts@).push(text@) + next.0->Ok_0);
                                }
                            }
                            class_texts.push(text);
                        },
                        _ => {
                            proof {
                                assert(spec_class_blocks(
                                    entries,
                                    i as int,
                                    root_idx as int,
                                    alias_entries(*aliases),
                                    (*opts),
                                    depth as nat,
                                ) == spec_class_blocks(
                                    entries,
                                    i as int + 1,
                                    root_idx as int,
                                    alias_entries(*aliases),
                                    (*opts),
                                    depth as nat,
                                ));
                            }
                        },
                    }
                },
                Option::None => {
                    proof {
                        assert(false);
                    }
                },
            }
            i += 1;
        }
        proof {
            assert(views(class_texts@) + Seq::<Seq<char>>::empty() =~= views(class_texts@));
        }
    proof {
        assert(views(class_texts@) + Seq::<Seq<char>>::empty() =~= views(class_texts@));
    }
    Ok(class_texts)
}


impl PklSchemaRenderer {
    /// Renders the whole type graph: the root declaration, the synthesized
    /// aliases spliced right after its header, the remaining struct-shaped
    /// entries as classes; an empty graph is refused, and the first
    /// unsupported shape aborts the render with no partial output.
    #[verifier::rlimit(100)]
    #[verifier::spinoff_prover]
    pub fn render(&mut self, schemas: IndexMap<String, Schema>) -> (r: Result<
        String,
        RenderError,
    >)
        requires
            old(self).depth < 100000,
        ensures
            graph_entries(final(self).schemas) == graph_entries(schemas),
            final(self).options == old(self).options,
            final(self).depth == old(self).depth,
            graph_entries(schemas).len() == 0 ==> (r matches Err(e) && e matches
                RenderError::MissingRoot),
            graph_entries(schemas).len() == 0 ==> alias_entries(final(self).typealiases)
                == alias_entries(old(self).typealiases),
            graph_entries(schemas).len() > 0 ==> ({
                let sres = spec_render(
                    graph_entries(schemas),
                    alias_entries(old(self).typealiases),
                    old(self).options,
                    old(self).depth as nat,
                );
                &&& alias_entries(final(self).typealiases) == sres.1
                &&& (match r {
                    Result::Ok(t) => (sres.0 matches Result::Ok(tv) && t@ == tv),
                    Result::Err(e) => (sres.0 matches Result::Err(m) && (e matches
                    RenderError::UnsupportedShape(em) && em@ == m)),
                })
            }),
    {
        self.schemas = schemas;
        let n = graph_len(&self.schemas);
        if n == 0 {
            return Err(RenderError::MissingRoot);
        }
        let ghost entries = graph_entries(self.schemas);
        let ghost al_in = alias_entries(self.typealiases);
        let ghost opts0 = self.options;
        let depth = self.depth;

        let root_idx: usize = match &self.options.module_name {
            Option::Some(nm) => {
                match find_graph_key(&self.schemas, nm.as_str()) {
                    Option::Some(i) => {
                        proof {
                            lemma_first_key_index(entries, nm@);
                        }
                        i
                    },
                    Option::None => 0,
                }
            },
            Option::None => 0,
        };
        proof {
            assert(root_idx as int == spec_root_index(entries, opts0));
            assert(root_idx < n);
        }

        let root_name: String = match &self.options.module_name {
            Option::Some(nm) => nm.clone(),
            Option::None => {
                match graph_get_index(&self.schemas, 0) {
                    Option::Some(kv) => kv.0.clone(),
                    Option::None => {
                        proof {
                            assert(false);
                        }
                        String::new()
                    },
                }
            },
        };
        let keyword: &str = match self.options.config_translation {
            ConfigTranslation::Module => "module",
            ConfigTranslation::Class => "class",
        };
        let pascal = to_pascal_case(root_name.as_str());
        let escaped = escape_name(pascal.as_str());
        let mut header = String::new();
        header.append(keyword);
        header.append(" ");
        header.append(escaped.as_str());
        proof {
            assert(header@ =~= spec_root_keyword(opts0) + " "@ + spec_escape(
                spec_pascal(spec_root_name(entries, opts0)),
            ));
        }

        let mut field_elems: Vec<String> = Vec::new();
        let mut value_line: Option<String> = Option::None;
        let mut root_doc: Option<String> = Option::None;
        let is_struct_root: bool;
        match graph_get_index(&self.schemas, root_idx) {
            Option::Some(kv) => {
                let sref: &Schema = kv.1;
                match &sref.ty {
                    SchemaType::Struct(st) => {
                        is_struct_root = true;
                        match &sref.description {
                            Option::Some(d) => {
                                let doc = render_docs(
                                    self.options.include_docs,
                                    self.options.indent.as_str(),
                                    depth,
                                    Option::Some(d),
                                );
                                root_doc = Option::Some(doc);
                            },
                            Option::None => {},
                        }
                        let fb = match render_field_blocks(
                            &self.options,
                            &mut self.typealiases,
                            depth,
                            &**st,
                        ) {
                            Ok(v) => v,
                            Err(e) => {
                                return Err(e);
                            },
                        };
                        field_elems = fb;
                    },
                    _ => {
                        is_struct_root = false;
                        let vt = match render_field_type(
                            self.options.include_constraints,
                            &mut self.typealiases,
                            sref,
                        ) {
                            Ok(t) => t,
                            Err(e) => {
                                return Err(e);
                            },
                        };
                        let mut line = String::new();
                        line.append("value: ");
                        line.append(vt.as_str());
                        proof {
                            assert(line@ =~= "value: "@ + vt@);
                        }
                        value_line = Option::Some(line);
                    },
                }
            },
            Option::None => {
                proof {
                    assert(false);
                }
                is_struct_root = false;
            },
        }
        let ghost al1 = alias_entries(self.typealiases);

        let class_texts = match render_class_blocks(
            &self.options,
            &mut self.typealiases,
            &self.schemas,
            root_idx,
            depth,
        ) {
            Ok(v) => v,
            Err(e) => {
                return Err(e);
            },
        };
        let ghost al2 = alias_entries(self.typealiases);
        let atext = render_typealiases(&self.typealiases);

        let mut elems: Vec<String> = Vec::new();
        match &root_doc {
            Option::Some(d) => {
                elems.push(d.clone());
            },
            Option::None => {},
        }
        elems.push(header);
        elems.push(String::new());
        if atext.unicode_len() > 0 {
            elems.push(atext);
        }
        if is_struct_root {
            append_all(&mut elems, &field_elems);
        } else {
            match &value_line {
                Option::Some(l) => {
                    elems.push(l.clone());
                },
                Option::None => {
                    proof {
                        assert(false);
                    }
                },
            }
        }
        append_all(&mut elems, &class_texts);
        proof {
            let sres = spec_render(entries, al_in, opts0, depth as nat);
            let root = entries[spec_root_index(entries, opts0)].1;
            let header_line = spec_root_keyword(opts0) + " "@ + spec_escape(
                spec_pascal(spec_root_name(entries, opts0)),
            );
            let at = spec_alias_text(al2);
            if is_struct_root {
                let fbs = spec_field_blocks(
                    match root.ty {
                        SchemaType::Struct(st) => st.fields,
                        _ => arbitrary(),
                    },
                    0,
                    al_in,
                    opts0,
                    depth as nat,
                ).0->Ok_0;
                let cbs = spec_class_blocks(
                    entries,
                    0,
                    root_idx as int,
                    al1,
                    opts0,
                    depth as nat,
                ).0->Ok_0;
                let head = (if root.description is Some {
                    seq![spec_docs(
                        opts0.include_docs,
                        opts0.indent@,
                        depth as nat,
                        match root.description {
                            Option::Some(d) => Option::Some(d@),
                            Option::None => Option::None,
                        },
                    )]
                } else {
                    Seq::<Seq<char>>::empty()
                }) + seq![header_line, Seq::<char>::empty()];
                let want = head + (if at.len() > 0 {
                    seq![at]
                } else {
                    Seq::<Seq<char>>::empty()
                }) + fbs + cbs;
                assert(views(elems@) =~= want);
            } else {
                let vt = spec_field_type(root, al_in, opts0.include_constraints).0->Ok_0;
                let cbs = spec_class_blocks(
                    entries,
                    0,
                    root_idx as int,
                    al1,
                    opts0,
                    depth as nat,
                ).0->Ok_0;
                let want = seq![header_line, Seq::<char>::empty()] + (if at.len() > 0 {
                    seq![at]
                } else {
                    Seq::<Seq<char>>::empty()
                }) + seq!["value: "@ + vt] + cbs;
                assert(views(elems@) =~= want);
            }
        }
        Ok(join_strings(&elems, "\n"))
    }
}

} // verus!






