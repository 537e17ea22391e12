//! The library's general laws, stated and proved over the same spec
//! functions that the executable contracts use.

use vstd::prelude::*;
use crate::ident::{spec_pascal, spec_is_keyword, spec_escape};
use crate::schema::{Schema, SchemaType};
use crate::constraints::spec_constraints;
use crate::renderer::{
    spec_field_type, spec_union_parts, spec_inline_fields, spec_integer_base, spec_text_base,
    spec_enum_alias_name, spec_variant_has_default, spec_field_blocks, spec_class_blocks,
    spec_struct_decl, spec_render, spec_root_index, spec_excluded,
};
use crate::options::PklSchemaOptions;
use crate::schema::SchemaField;
use crate::strutil::dec_nat;
use crate::imap::{
    has_key, key_value, spec_insert, lemma_first_key_index, lemma_insert_found, lemma_pad_fresh,
};

verus! {

/// Idempotent alias reuse: synthesizing the same named enum twice adds at
/// most one alias-table entry, and the second synthesis leaves the table
/// exactly as the first left it and returns the same expression.  The one
/// input left out is a table that already binds the enum's alias name to a
/// different body: there the first synthesis must pick a fresh name, and
/// so must the second.
pub proof fn law_alias_reuse(s: Schema, al: Seq<(Seq<char>, Seq<char>)>, enabled: bool)
    requires
        s.ty is Enum,
        (s.ty->Enum_0).name@.len() > 0,
        ({
            let et = s.ty->Enum_0;
            let name = spec_enum_alias_name(*et, al);
            let body = crate::strutil::spec_join(
                crate::renderer::spec_enum_variants(*et),
                "|"@,
            );
            !has_key(al, name) || key_value(al, name) == body
        }),
    ensures
        ({
            let (r1, al1) = spec_field_type(s, al, enabled);
            let (r2, al2) = spec_field_type(s, al1, enabled);
            &&& al1.len() <= al.len() + 1
            &&& al2 == al1
            &&& r2 == r1
        }),
{
    let et = s.ty->Enum_0;
    let name = spec_enum_alias_name(*et, al);
    let body = crate::strutil::spec_join(crate::renderer::spec_enum_variants(*et), "|"@);
    let (r1, al1) = spec_field_type(s, al, enabled);
    if has_key(al, name) && key_value(al, name) == body {
        assert(al1 == al);
    } else {
        assert(al1 == spec_insert(al, name, body));
        lemma_insert_found(al, name, body);
        if has_key(al, name) {
            lemma_first_key_index(al, name);
        }
    }
    assert(spec_enum_alias_name(*et, al1) == name);
    assert(has_key(al1, name) && key_value(al1, name) == body);
}

/// Keyword safety: escaping changes every reserved word and leaves every
/// other name untouched.
pub proof fn law_keyword_escape(s: Seq<char>)
    ensures
        spec_is_keyword(s) ==> spec_escape(s) != s,
        !spec_is_keyword(s) ==> spec_escape(s) == s,
{
    if spec_is_keyword(s) {
        reveal_strlit("`");
        assert(spec_escape(s).len() == s.len() + 2);
    }
}

/// Round-trip of fixed-width ranges: each of the six canonical bound pairs
/// produces its fixed-width type name, never the generic integer fallback,
/// and an integer schema without enumerated values synthesizes exactly that
/// base name followed by its constraint refinement, touching no aliases.
pub proof fn law_fixed_width_ranges(s: Schema, al: Seq<(Seq<char>, Seq<char>)>, enabled: bool)
    requires
        s.ty is Integer,
        (s.ty->Integer_0).enum_values is None,
        ({
            let it = s.ty->Integer_0;
            ||| (it.minimum, it.maximum) == (Option::Some(0i64), Option::Some(255i64))
            ||| (it.minimum, it.maximum) == (Option::Some(0i64), Option::Some(65535i64))
            ||| (it.minimum, it.maximum) == (Option::Some(0i64), Option::Some(4294967295i64))
            ||| (it.minimum, it.maximum) == (Option::Some(-128i64), Option::Some(127i64))
            ||| (it.minimum, it.maximum) == (Option::Some(-32768i64), Option::Some(32767i64))
            ||| (it.minimum, it.maximum) == (
                Option::Some(-2147483648i64),
                Option::Some(2147483647i64),
            )
        }),
    ensures
        ({
            let it = s.ty->Integer_0;
            let base = spec_integer_base(it.minimum, it.maximum);
            &&& base != "Int"@
            &&& ((it.minimum, it.maximum) == (Option::Some(0i64), Option::Some(255i64)) ==> base
                == "UInt8"@)
            &&& ((it.minimum, it.maximum) == (Option::Some(0i64), Option::Some(65535i64))
                ==> base == "UInt16"@)
            &&& ((it.minimum, it.maximum) == (Option::Some(0i64), Option::Some(4294967295i64))
                ==> base == "UInt32"@)
            &&& ((it.minimum, it.maximum) == (Option::Some(-128i64), Option::Some(127i64))
                ==> base == "Int8"@)
            &&& ((it.minimum, it.maximum) == (Option::Some(-32768i64), Option::Some(32767i64))
                ==> base == "Int16"@)
            &&& ((it.minimum, it.maximum) == (
                Option::Some(-2147483648i64),
                Option::Some(2147483647i64),
            ) ==> base == "Int32"@)
            &&& spec_field_type(s, al, enabled) == (
                Result::<Seq<char>, Seq<char>>::Ok(
                    base + spec_constraints(s.ty, s.optional, enabled),
                ),
                al,
            )
        }),
{
    reveal_strlit("Int");
    reveal_strlit("UInt8");
    reveal_strlit("UInt16");
    reveal_strlit("UInt32");
    reveal_strlit("Int8");
    reveal_strlit("Int16");
    reveal_strlit("Int32");
    assert("Int"@.len() == 3);
    assert("UInt8"@.len() == 5);
    assert("UInt16"@.len() == 6);
    assert("UInt32"@.len() == 6);
    assert("Int8"@.len() == 4);
    assert("Int16"@.len() == 5);
    assert("Int32"@.len() == 5);
}

/// Constraint monotonicity, the disabling direction: with constraints
/// switched off no schema contributes any refinement text at all.
pub proof fn law_constraints_disabled(ty: SchemaType, optional: bool)
    ensures
        spec_constraints(ty, optional, false) == Seq::<char>::empty(),
{
}

/// Constraint monotonicity, the expression side: with constraints switched
/// off, an integer, float or string schema without enumerated values
/// synthesizes its bare base type name with nothing appended, and leaves
/// the alias table untouched.
pub proof fn law_constraint_toggle(s: Schema, al: Seq<(Seq<char>, Seq<char>)>)
    requires
        s.ty is Integer || s.ty is Float || s.ty is Text,
        s.ty is Integer ==> (s.ty->Integer_0).enum_values is None,
        s.ty is Float ==> (s.ty->Float_0).enum_values is None,
        s.ty is Text ==> (s.ty->Text_0).enum_values is None,
    ensures
        ({
            let (r, al1) = spec_field_type(s, al, false);
            &&& al1 == al
            &&& (s.ty is Integer ==> r == Result::<Seq<char>, Seq<char>>::Ok(
                spec_integer_base((s.ty->Integer_0).minimum, (s.ty->Integer_0).maximum),
            ))
            &&& (s.ty is Float ==> r == Result::<Seq<char>, Seq<char>>::Ok("Number"@))
            &&& (s.ty is Text ==> r == Result::<Seq<char>, Seq<char>>::Ok(
                spec_text_base(*(s.ty->Text_0)),
            ))
        }),
{
    law_constraints_disabled(s.ty, s.optional);
    if s.ty is Integer {
        let base = spec_integer_base((s.ty->Integer_0).minimum, (s.ty->Integer_0).maximum);
        assert(base + Seq::<char>::empty() =~= base);
    }
    if s.ty is Float {
        assert("Number"@ + Seq::<char>::empty() =~= "Number"@);
    }
    if s.ty is Text {
        let base = spec_text_base(*(s.ty->Text_0));
        assert(base + Seq::<char>::empty() =~= base);
    }
}

/// Reference non-inlining: a reference field's emitted type is exactly the
/// target name's case-converted form.  It does not depend on the alias
/// table, on the referenced definition, or on anything else in the graph,
/// so no chain of references — including a self-reference — is ever
/// expanded inline.
pub proof fn law_reference_not_inlined(s: Schema, al: Seq<(Seq<char>, Seq<char>)>, enabled: bool)
    requires
        s.ty is Reference,
    ensures
        spec_field_type(s, al, enabled) == (
            Result::<Seq<char>, Seq<char>>::Ok(spec_pascal((s.ty->Reference_0)@)),
            al,
        ),
{
    assert(spec_constraints(s.ty, s.optional, enabled) == Seq::<char>::empty());
    assert(spec_pascal((s.ty->Reference_0)@) + Seq::<char>::empty() =~= spec_pascal(
        (s.ty->Reference_0)@,
    ));
}


/// Whether `b` begins with exactly the entries of `a`, in order.
pub open spec fn table_extends(a: Seq<(Seq<char>, Seq<char>)>, b: Seq<(Seq<char>, Seq<char>)>,
) -> bool {
    a.len() <= b.len() && forall|i: int| 0 <= i < a.len() ==> b[i] == a[i]
}

/// Synthesis only appends aliases: every `(name, body)` pair present in the
/// table before a synthesis is present unchanged and in place after it, and
/// the table never shrinks — whether the synthesis succeeds or fails.
pub proof fn law_synthesis_appends(s: Schema, al: Seq<(Seq<char>, Seq<char>)>, enabled: bool)
    ensures
        table_extends(al, spec_field_type(s, al, enabled).1),
    decreases s, 0int, 0int,
{
    match s.ty {
        SchemaType::Integer(it) => {
            if it.enum_values is Some {
                lemma_pad_fresh(al, "IntegerEnum"@ + dec_nat(al.len()));
            }
        },
        SchemaType::Float(ft) => {
            if ft.enum_values is Some {
                lemma_pad_fresh(al, "FloatEnum"@ + dec_nat(al.len()));
            }
        },
        SchemaType::Text(st) => {
            if st.enum_values is Some {
                lemma_pad_fresh(al, "StringEnum"@ + dec_nat(al.len()));
            }
        },
        SchemaType::Array(at) => {
            law_synthesis_appends(at.items_type, al, enabled);
        },
        SchemaType::Object(ot) => {
            law_synthesis_appends(ot.key_type, al, enabled);
            let al0 = spec_field_type(ot.key_type, al, enabled).1;
            law_synthesis_appends(ot.value_type, al0, enabled);
        },
        SchemaType::Tuple(tt) => {
            if tt.items_types.len() == 2 {
                law_synthesis_appends(tt.items_types[0], al, enabled);
                let al0 = spec_field_type(tt.items_types[0], al, enabled).1;
                law_synthesis_appends(tt.items_types[1], al0, enabled);
            } else if tt.items_types.len() == 1 {
                law_synthesis_appends(tt.items_types[0], al, enabled);
            }
        },
        SchemaType::Union(ut) => {
            law_union_appends(ut.variants_types, 0, al, enabled, false);
            let al0 = spec_union_parts(ut.variants_types, 0, al, enabled, false).1;
            if ut.variants_types.len() > 3 && spec_union_parts(
                ut.variants_types,
                0,
                al,
                enabled,
                false,
            ).0 is Ok {
                lemma_pad_fresh(al0, "UnionType"@ + dec_nat(al0.len()));
            }
        },
        SchemaType::Enum(et) => {
            let name = spec_enum_alias_name(*et, al);
            if has_key(al, name) {
                let body = crate::strutil::spec_join(
                    crate::renderer::spec_enum_variants(*et),
                    "|"@,
                );
                if key_value(al, name) != body {
                    lemma_pad_fresh(al, name + dec_nat(al.len()));
                }
            }
        },
        SchemaType::Struct(st) => {
            law_inline_appends(st.fields, 0, al, enabled);
        },
        _ => {},
    }
}

/// The union helper of `law_synthesis_appends`.
pub proof fn law_union_appends(
    items: Vec<Schema>,
    i: int,
    al: Seq<(Seq<char>, Seq<char>)>,
    enabled: bool,
    marked: bool,
)
    ensures
        table_extends(al, spec_union_parts(items, i, al, enabled, marked).1),
    decreases items, 1int, items.len() - i,
{
    if 0 <= i < items.len() {
        law_synthesis_appends(items[i], al, enabled);
        let (r0, al0) = spec_field_type(items[i], al, enabled);
        if r0 is Ok {
            let hd = crate::renderer::spec_variant_has_default(items[i].ty);
            law_union_appends(items, i + 1, al0, enabled, marked || hd);
        }
    }
}

/// The inline-struct helper of `law_synthesis_appends`.
pub proof fn law_inline_appends(
    fields: Vec<SchemaField>,
    i: int,
    al: Seq<(Seq<char>, Seq<char>)>,
    enabled: bool,
)
    ensures
        table_extends(al, spec_inline_fields(fields, i, al, enabled).1),
    decreases fields, 1int, fields.len() - i,
{
    if 0 <= i < fields.len() {
        if fields[i].hidden {
            law_inline_appends(fields, i + 1, al, enabled);
        } else {
            law_synthesis_appends(fields[i].schema, al, enabled);
            let (r0, al0) = spec_field_type(fields[i].schema, al, enabled);
            if r0 is Ok {
                law_inline_appends(fields, i + 1, al0, enabled);
            }
        }
    }
}


/// Whether a tuple of more than two slots stands anywhere the synthesizer
/// visits in this schema: directly, under arrays, objects, renderable
/// tuples, union variants, or visible struct fields.
pub open spec fn spec_has_bad_tuple(s: Schema) -> bool
    decreases s, 0int, 0int,
{
    match s.ty {
        SchemaType::Array(at) => spec_has_bad_tuple(at.items_type),
        SchemaType::Object(ot) => spec_has_bad_tuple(ot.key_type) || spec_has_bad_tuple(
            ot.value_type,
        ),
        SchemaType::Tuple(tt) => {
            ||| tt.items_types.len() > 2
            ||| (tt.items_types.len() >= 1 && spec_has_bad_tuple(tt.items_types[0]))
            ||| (tt.items_types.len() == 2 && spec_has_bad_tuple(tt.items_types[1]))
        },
        SchemaType::Union(ut) => spec_union_has_bad(ut.variants_types, 0),
        SchemaType::Struct(st) => spec_fields_have_bad(st.fields, 0),
        _ => false,
    }
}

/// Whether some union variant from position `i` on holds a bad tuple.
pub open spec fn spec_union_has_bad(items: Vec<Schema>, i: int) -> bool
    decreases items, 1int, items.len() - i,
{
    if i < 0 || i >= items.len() {
        false
    } else {
        spec_has_bad_tuple(items[i]) || spec_union_has_bad(items, i + 1)
    }
}

/// Whether some visible struct field from position `i` on holds a bad
/// tuple.
pub open spec fn spec_fields_have_bad(fields: Vec<SchemaField>, i: int) -> bool
    decreases fields, 1int, fields.len() - i,
{
    if i < 0 || i >= fields.len() {
        false
    } else {
        (!fields[i].hidden && spec_has_bad_tuple(fields[i].schema)) || spec_fields_have_bad(
            fields,
            i + 1,
        )
    }
}

/// Unsupported shapes always surface: when a tuple of more than two slots
/// stands anywhere the synthesizer visits, the synthesis fails — and so,
/// through `render`'s contract, the whole render fails with no output.
pub proof fn law_bad_tuple_fails(s: Schema, al: Seq<(Seq<char>, Seq<char>)>, enabled: bool)
    ensures
        spec_has_bad_tuple(s) ==> spec_field_type(s, al, enabled).0 is Err,
    decreases s, 0int, 0int,
{
    if spec_has_bad_tuple(s) {
        match s.ty {
            SchemaType::Array(at) => {
                law_bad_tuple_fails(at.items_type, al, enabled);
            },
            SchemaType::Object(ot) => {
                law_bad_tuple_fails(ot.key_type, al, enabled);
                let (r0, al0) = spec_field_type(ot.key_type, al, enabled);
                if r0 is Ok {
                    law_bad_tuple_fails(ot.value_type, al0, enabled);
                }
            },
            SchemaType::Tuple(tt) => {
                if tt.items_types.len() == 2 {
                    law_bad_tuple_fails(tt.items_types[0], al, enabled);
                    let (r0, al0) = spec_field_type(tt.items_types[0], al, enabled);
                    if r0 is Ok {
                        law_bad_tuple_fails(tt.items_types[1], al0, enabled);
                    }
                } else if tt.items_types.len() == 1 {
                    law_bad_tuple_fails(tt.items_types[0], al, enabled);
                }
            },
            SchemaType::Union(ut) => {
                law_union_bad_fails(ut.variants_types, 0, al, enabled, false);
            },
            SchemaType::Struct(st) => {
                law_fields_bad_fails(st.fields, 0, al, enabled);
            },
            _ => {},
        }
    }
}

/// The union helper of `law_bad_tuple_fails`.
pub proof fn law_union_bad_fails(
    items: Vec<Schema>,
    i: int,
    al: Seq<(Seq<char>, Seq<char>)>,
    enabled: bool,
    marked: bool,
)
    ensures
        spec_union_has_bad(items, i) ==> spec_union_parts(items, i, al, enabled, marked).0
            is Err,
    decreases items, 1int, items.len() - i,
{
    if 0 <= i < items.len() && spec_union_has_bad(items, i) {
        law_bad_tuple_fails(items[i], al, enabled);
        let (r0, al0) = spec_field_type(items[i], al, enabled);
        if r0 is Ok {
            let hd = spec_variant_has_default(items[i].ty);
            law_union_bad_fails(items, i + 1, al0, enabled, marked || hd);
        }
    }
}

/// The struct helper of `law_bad_tuple_fails`.
pub proof fn law_fields_bad_fails(
    fields: Vec<SchemaField>,
    i: int,
    al: Seq<(Seq<char>, Seq<char>)>,
    enabled: bool,
)
    ensures
        spec_fields_have_bad(fields, i) ==> spec_inline_fields(fields, i, al, enabled).0
            is Err,
    decreases fields, 1int, fields.len() - i,
{
    if 0 <= i < fields.len() && spec_fields_have_bad(fields, i) {
        if fields[i].hidden {
            law_fields_bad_fails(fields, i + 1, al, enabled);
        } else {
            law_bad_tuple_fails(fields[i].schema, al, enabled);
            let (r0, al0) = spec_field_type(fields[i].schema, al, enabled);
            if r0 is Ok {
                law_fields_bad_fails(fields, i + 1, al0, enabled);
            }
        }
    }
}


/// Whether some emitted (visible, non-excluded) field from position `i` on
/// holds a bad tuple.
pub open spec fn spec_blocks_have_bad(
    fields: Vec<SchemaField>,
    i: int,
    opts: PklSchemaOptions,
) -> bool
    decreases fields, 1int, fields.len() - i,
{
    if i < 0 || i >= fields.len() {
        false
    } else {
        (!fields[i].hidden && !spec_excluded(fields[i].name@, opts.exclude_properties@)
            && spec_has_bad_tuple(fields[i].schema)) || spec_blocks_have_bad(fields, i + 1, opts)
    }
}

/// The declaration-emitter step of `law_render_bad_tuple`.
pub proof fn law_blocks_bad_fails(
    fields: Vec<SchemaField>,
    i: int,
    al: Seq<(Seq<char>, Seq<char>)>,
    opts: PklSchemaOptions,
    depth: nat,
)
    ensures
        spec_blocks_have_bad(fields, i, opts) ==> spec_field_blocks(fields, i, al, opts, depth).0
            is Err,
    decreases fields, 1int, fields.len() - i,
{
    if 0 <= i < fields.len() && spec_blocks_have_bad(fields, i, opts) {
        if fields[i].hidden || spec_excluded(fields[i].name@, opts.exclude_properties@) {
            law_blocks_bad_fails(fields, i + 1, al, opts, depth);
        } else {
            law_bad_tuple_fails(fields[i].schema, al, opts.include_constraints);
            let (r0, al0) = spec_field_type(fields[i].schema, al, opts.include_constraints);
            if r0 is Ok {
                law_blocks_bad_fails(fields, i + 1, al0, opts, depth);
            }
        }
    }
}

/// Whether some class-emitted graph entry from position `i` on (the root
/// entry at `skip` aside) holds a bad tuple in a visible field.
pub open spec fn spec_classes_have_bad(
    entries: Seq<(Seq<char>, Schema)>,
    i: int,
    skip: int,
    opts: PklSchemaOptions,
) -> bool
    decreases entries.len() - i,
{
    if i < 0 || i >= entries.len() {
        false
    } else if i == skip {
        spec_classes_have_bad(entries, i + 1, skip, opts)
    } else {
        (entries[i].1.ty is Struct && spec_blocks_have_bad(
            (entries[i].1.ty->Struct_0).fields,
            0,
            opts,
        )) || spec_classes_have_bad(entries, i + 1, skip, opts)
    }
}

/// The class-pass step of `law_render_bad_tuple`.
pub proof fn law_classes_bad_fails(
    entries: Seq<(Seq<char>, Schema)>,
    i: int,
    skip: int,
    al: Seq<(Seq<char>, Seq<char>)>,
    opts: PklSchemaOptions,
    depth: nat,
)
    ensures
        spec_classes_have_bad(entries, i, skip, opts) ==> spec_class_blocks(
            entries,
            i,
            skip,
            al,
            opts,
            depth,
        ).0 is Err,
    decreases entries.len() - i,
{
    if 0 <= i < entries.len() && spec_classes_have_bad(entries, i, skip, opts) {
        if i == skip {
            law_classes_bad_fails(entries, i + 1, skip, al, opts, depth);
        } else {
            match entries[i].1.ty {
                SchemaType::Struct(st) => {
                    law_blocks_bad_fails(st.fields, 0, al, opts, depth + 1);
                    let (d, al0) = spec_struct_decl(
                        entries[i].0,
                        *st,
                        match entries[i].1.description {
                            Option::Some(dd) => Option::Some(dd@),
                            Option::None => Option::None,
                        },
                        al,
                        opts,
                        "class"@,
                        depth,
                        depth + 1,
                    );
                    if d is Ok {
                        law_classes_bad_fails(entries, i + 1, skip, al0, opts, depth);
                    }
                },
                _ => {
                    law_classes_bad_fails(entries, i + 1, skip, al, opts, depth);
                },
            }
        }
    }
}

/// Unsupported shapes fail the whole render: whenever a tuple of more than
/// two slots stands in any emitted declaration — among the root's visible
/// fields, in a non-struct root's own type expression, or among any nested
/// class's visible fields — `spec_render` yields an error, and `render`'s
/// contract then forces `Err` with no output text.
pub proof fn law_render_bad_tuple(
    entries: Seq<(Seq<char>, Schema)>,
    al: Seq<(Seq<char>, Seq<char>)>,
    opts: PklSchemaOptions,
    depth: nat,
)
    requires
        entries.len() > 0,
        ({
            let ri = spec_root_index(entries, opts);
            let root = entries[ri].1;
            ||| (root.ty is Struct && spec_blocks_have_bad((root.ty->Struct_0).fields, 0, opts))
            ||| (!(root.ty is Struct) && spec_has_bad_tuple(root))
            ||| spec_classes_have_bad(entries, 0, ri, opts)
        }),
    ensures
        spec_render(entries, al, opts, depth).0 is Err,
{
    let ri = spec_root_index(entries, opts);
    let root = entries[ri].1;
    match root.ty {
        SchemaType::Struct(st) => {
            law_blocks_bad_fails(st.fields, 0, al, opts, depth);
            let (fb, al1) = spec_field_blocks(st.fields, 0, al, opts, depth);
            if fb is Ok {
                law_classes_bad_fails(entries, 0, ri, al1, opts, depth);
            }
        },
        _ => {
            law_bad_tuple_fails(root, al, opts.include_constraints);
            let (vt, al1) = spec_field_type(root, al, opts.include_constraints);
            if vt is Ok {
                law_classes_bad_fails(entries, 0, ri, al1, opts, depth);
            }
        },
    }
}

/// Unsupported tuple arity: a tuple of more than two slots always fails the
/// synthesis with the arity message, leaving the alias table untouched, and
/// so — through `render`'s contract — aborts the whole render with no
/// output.
pub proof fn law_tuple_unsupported(s: Schema, al: Seq<(Seq<char>, Seq<char>)>, enabled: bool)
    requires
        s.ty is Tuple,
        (s.ty->Tuple_0).items_types.len() > 2,
    ensures
        spec_field_type(s, al, enabled) == (
            Result::<Seq<char>, Seq<char>>::Err(
                "tuple arity "@ + dec_nat((s.ty->Tuple_0).items_types@.len()) + " unsupported"@,
            ),
            al,
        ),
{
}

} // verus!
