//! Boolean refinement clauses and default-value suffixes: the part of the
//! type-expression synthesizer that re-expresses range, length, pattern,
//! format, uniqueness and required-key constraints as Pkl refinements.

use vstd::prelude::*;
use crate::strutil::{
    dec_int, dec_nat, spec_join, spec_quoted, spec_contains, fmt_i64, fmt_u64, join_strings,
    quote, str_contains, str_eq,
};
use crate::schema::{Schema, SchemaType, StringType, ArrayType, ObjectType};

verus! {

/// The views of a vector of strings.
pub open spec fn views(v: Seq<String>) -> Seq<Seq<char>> {
    v.map_values(|s: String| s@)
}

/// Appending a string appends its view.
pub proof fn lemma_views_push(v: Seq<String>, s: String)
    ensures
        views(v.push(s)) == views(v).push(s@),
{
    assert(views(v.push(s)) =~= views(v).push(s@));
}

/// Clauses joined with `&&` and wrapped in parentheses; empty when there is
/// no clause.
pub open spec fn spec_wrap_clauses(cs: Seq<Seq<char>>) -> Seq<char> {
    if cs.len() == 0 {
        Seq::empty()
    } else {
        "("@ + spec_join(cs, " && "@) + ")"@
    }
}

/// Joins the clauses with `&&` inside parentheses, or returns the empty
/// string when there is none.
pub fn clauses_text(cs: &Vec<String>) -> (r: String)
    ensures
        r@ == spec_wrap_clauses(views(cs@)),
{
    if cs.len() == 0 {
        String::new()
    } else {
        let joined = join_strings(cs, " && ");
        let mut r = String::new();
        r.append("(");
        r.append(joined.as_str());
        r.append(")");
        proof {
            assert(r@ =~= "("@ + spec_join(views(cs@), " && "@) + ")"@);
        }
        r
    }
}

/// The view of an optional string.
pub open spec fn view_opt(o: Option<String>) -> Option<Seq<char>> {
    match o {
        Option::Some(s) => Option::Some(s@),
        Option::None => Option::None,
    }
}

/// The decimal text of an optional signed number.
pub open spec fn spec_i64_text(o: Option<i64>) -> Option<Seq<char>> {
    match o {
        Option::Some(v) => Option::Some(dec_int(v as int)),
        Option::None => Option::None,
    }
}

/// The decimal text of an optional length.
pub open spec fn spec_u64_text(o: Option<u64>) -> Option<Seq<char>> {
    match o {
        Option::Some(v) => Option::Some(dec_nat(v as nat)),
        Option::None => Option::None,
    }
}

/// The numeric refinement clauses, in emission order: inclusive bounds,
/// exclusive bounds, then the modulus check.
pub open spec fn spec_number_clauses(
    minimum: Option<Seq<char>>,
    maximum: Option<Seq<char>>,
    min_ex: Option<Seq<char>>,
    max_ex: Option<Seq<char>>,
    multiple: Option<Seq<char>>,
) -> Seq<Seq<char>> {
    let cs0 = Seq::<Seq<char>>::empty();
    let cs1 = match (minimum, maximum) {
        (Option::Some(mn), Option::Some(mx)) => cs0.push(
            "isBetween("@ + mn + ", "@ + mx + ")"@,
        ),
        (Option::Some(mn), Option::None) => cs0.push("this >= "@ + mn),
        (Option::None, Option::Some(mx)) => cs0.push("this <= "@ + mx),
        (Option::None, Option::None) => cs0,
    };
    let cs2 = match min_ex {
        Option::Some(m) => cs1.push("this > "@ + m),
        Option::None => cs1,
    };
    let cs3 = match max_ex {
        Option::Some(m) => cs2.push("this < "@ + m),
        Option::None => cs2,
    };
    match multiple {
        Option::Some(m) => cs3.push("this % "@ + m + " == 0"@),
        Option::None => cs3,
    }
}

/// Builds the numeric refinement clauses from already-rendered bound texts.
pub fn number_clauses(
    minimum: &Option<String>,
    maximum: &Option<String>,
    min_ex: &Option<String>,
    max_ex: &Option<String>,
    multiple: &Option<String>,
) -> (r: Vec<String>)
    ensures
        views(r@) == spec_number_clauses(
            view_opt(*minimum),
            view_opt(*maximum),
            view_opt(*min_ex),
            view_opt(*max_ex),
            view_opt(*multiple),
        ),
{
    let mut cs: Vec<String> = Vec::new();
    proof {
        assert(views(cs@) =~= Seq::<Seq<char>>::empty());
    }
    match (minimum, maximum) {
        (Option::Some(mn), Option::Some(mx)) => {
            let mut c = String::new();
            c.append("isBetween(");
            c.append(mn.as_str());
            c.append(", ");
            c.append(mx.as_str());
            c.append(")");
            proof {
                assert(c@ =~= "isBetween("@ + mn@ + ", "@ + mx@ + ")"@);
                lemma_views_push(cs@, c);
            }
            cs.push(c);
        },
        (Option::Some(mn), Option::None) => {
            let mut c = String::new();
            c.append("this >= ");
            c.append(mn.as_str());
            proof {
                assert(c@ =~= "this >= "@ + mn@);
                lemma_views_push(cs@, c);
            }
            cs.push(c);
        },
        (Option::None, Option::Some(mx)) => {
            let mut c = String::new();
            c.append("this <= ");
            c.append(mx.as_str());
            proof {
                assert(c@ =~= "this <= "@ + mx@);
                lemma_views_push(cs@, c);
            }
            cs.push(c);
        },
        (Option::None, Option::None) => {},
    }
    if let Option::Some(m) = min_ex {
        let mut c = String::new();
        c.append("this > ");
        c.append(m.as_str());
        proof {
            assert(c@ =~= "this > "@ + m@);
            lemma_views_push(cs@, c);
        }
        cs.push(c);
    }
    if let Option::Some(m) = max_ex {
        let mut c = String::new();
        c.append("this < ");
        c.append(m.as_str());
        proof {
            assert(c@ =~= "this < "@ + m@);
            lemma_views_push(cs@, c);
        }
        cs.push(c);
    }
    if let Option::Some(m) = multiple {
        let mut c = String::new();
        c.append("this % ");
        c.append(m.as_str());
        c.append(" == 0");
        proof {
            assert(c@ =~= "this % "@ + m@ + " == 0"@);
            lemma_views_push(cs@, c);
        }
        cs.push(c);
    }
    cs
}

/// Renders an optional signed bound as decimal text.
pub fn i64_text(o: &Option<i64>) -> (r: Option<String>)
    ensures
        view_opt(r) == spec_i64_text(*o),
{
    match o {
        Option::Some(v) => Option::Some(fmt_i64(*v)),
        Option::None => Option::None,
    }
}

/// Renders an optional length as decimal text.
pub fn u64_text(o: &Option<u64>) -> (r: Option<String>)
    ensures
        view_opt(r) == spec_u64_text(*o),
{
    match o {
        Option::Some(v) => Option::Some(fmt_u64(*v)),
        Option::None => Option::None,
    }
}

/// Whether the bounds are exactly one of the six canonical fixed-width
/// integer ranges, which the synthesizer expresses as a type name instead
/// of a range refinement.
pub open spec fn spec_is_fixed_width(mn: Option<i64>, mx: Option<i64>) -> bool {
    ||| (mn, mx) == (Option::Some(0i64), Option::Some(255i64))
    ||| (mn, mx) == (Option::Some(0i64), Option::Some(65535i64))
    ||| (mn, mx) == (Option::Some(0i64), Option::Some(4294967295i64))
    ||| (mn, mx) == (Option::Some(-128i64), Option::Some(127i64))
    ||| (mn, mx) == (Option::Some(-32768i64), Option::Some(32767i64))
    ||| (mn, mx) == (Option::Some(-2147483648i64), Option::Some(2147483647i64))
}

/// Tests the bounds against the six canonical fixed-width ranges.
pub fn is_fixed_width(mn: &Option<i64>, mx: &Option<i64>) -> (r: bool)
    ensures
        r == spec_is_fixed_width(*mn, *mx),
{
    if let Option::Some(a) = mn {
        if let Option::Some(b) = mx {
            return (*a == 0 && *b == 255) || (*a == 0 && *b == 65535) || (*a == 0 && *b
                == 4294967295) || (*a == -128 && *b == 127) || (*a == -32768 && *b == 32767)
                || (*a == -2147483648 && *b == 2147483647);
        }
    }
    false
}

/// The numeric constraint text of a schema: integer and float shapes only.
/// A captured fixed-width range is already expressed by the base type name,
/// so its bounds produce no range clause; exclusive bounds and the modulus
/// check are kept either way.
pub open spec fn spec_number_constraints(ty: SchemaType) -> Seq<char> {
    match ty {
        SchemaType::Integer(it) => spec_wrap_clauses(
            spec_number_clauses(
                if spec_is_fixed_width(it.minimum, it.maximum) {
                    Option::None
                } else {
                    spec_i64_text(it.minimum)
                },
                if spec_is_fixed_width(it.minimum, it.maximum) {
                    Option::None
                } else {
                    spec_i64_text(it.maximum)
                },
                spec_i64_text(it.minimum_exclusive),
                spec_i64_text(it.maximum_exclusive),
                spec_i64_text(it.multiple_of),
            ),
        ),
        SchemaType::Float(ft) => spec_wrap_clauses(
            spec_number_clauses(
                view_opt(ft.minimum),
                view_opt(ft.maximum),
                view_opt(ft.minimum_exclusive),
                view_opt(ft.maximum_exclusive),
                view_opt(ft.multiple_of),
            ),
        ),
        _ => Seq::empty(),
    }
}

/// Combines the present numeric bounds of an integer or float schema into
/// one parenthesized refinement.
pub fn set_number_constraints(schema: &Schema) -> (r: String)
    ensures
        r@ == spec_number_constraints(schema.ty),
{
    match &schema.ty {
        SchemaType::Integer(it) => {
            let fixed = is_fixed_width(&it.minimum, &it.maximum);
            let mn = if fixed {
                Option::None
            } else {
                i64_text(&it.minimum)
            };
            let mx = if fixed {
                Option::None
            } else {
                i64_text(&it.maximum)
            };
            let mne = i64_text(&it.minimum_exclusive);
            let mxe = i64_text(&it.maximum_exclusive);
            let mo = i64_text(&it.multiple_of);
            let cs = number_clauses(&mn, &mx, &mne, &mxe, &mo);
            clauses_text(&cs)
        },
        SchemaType::Float(ft) => {
            let cs = number_clauses(
                &ft.minimum,
                &ft.maximum,
                &ft.minimum_exclusive,
                &ft.maximum_exclusive,
                &ft.multiple_of,
            );
            clauses_text(&cs)
        },
        _ => String::new(),
    }
}

/// The length refinement clause shared by string, array and object shapes:
/// both bounds, a lower bound alone, or an upper bound alone.
pub open spec fn spec_length_clauses(mn: Option<Seq<char>>, mx: Option<Seq<char>>) -> Seq<
    Seq<char>,
> {
    let cs0 = Seq::<Seq<char>>::empty();
    match (mn, mx) {
        (Option::Some(a), Option::Some(b)) => cs0.push(
            "this.length.isBetween("@ + a + ", "@ + b + ")"@,
        ),
        (Option::Some(a), Option::None) => cs0.push("this.length >= "@ + a),
        (Option::None, Option::Some(b)) => cs0.push("this.length <= "@ + b),
        (Option::None, Option::None) => cs0,
    }
}

/// Builds the length clause from optional bounds.
pub fn length_clauses(mn: &Option<u64>, mx: &Option<u64>) -> (r: Vec<String>)
    ensures
        views(r@) == spec_length_clauses(spec_u64_text(*mn), spec_u64_text(*mx)),
{
    let mut cs: Vec<String> = Vec::new();
    proof {
        assert(views(cs@) =~= Seq::<Seq<char>>::empty());
    }
    let mnt = u64_text(mn);
    let mxt = u64_text(mx);
    match (&mnt, &mxt) {
        (Option::Some(a), Option::Some(b)) => {
            let mut c = String::new();
            c.append("this.length.isBetween(");
            c.append(a.as_str());
            c.append(", ");
            c.append(b.as_str());
            c.append(")");
            proof {
                assert(c@ =~= "this.length.isBetween("@ + a@ + ", "@ + b@ + ")"@);
                lemma_views_push(cs@, c);
            }
            cs.push(c);
        },
        (Option::Some(a), Option::None) => {
            let mut c = String::new();
            c.append("this.length >= ");
            c.append(a.as_str());
            proof {
                assert(c@ =~= "this.length >= "@ + a@);
                lemma_views_push(cs@, c);
            }
            cs.push(c);
        },
        (Option::None, Option::Some(b)) => {
            let mut c = String::new();
            c.append("this.length <= ");
            c.append(b.as_str());
            proof {
                assert(c@ =~= "this.length <= "@ + b@);
                lemma_views_push(cs@, c);
            }
            cs.push(c);
        },
        (Option::None, Option::None) => {},
    }
    cs
}

/// Whether any clause mentions the needle.
pub open spec fn any_contains(cs: Seq<Seq<char>>, needle: Seq<char>) -> bool {
    exists|i: int| 0 <= i < cs.len() && spec_contains(#[trigger] cs[i], needle)
}

/// Scans the clauses for one that mentions the needle.
pub fn any_contains_exec(cs: &Vec<String>, needle: &str) -> (r: bool)
    ensures
        r == any_contains(views(cs@), needle@),
{
    let mut i: usize = 0;
    while i < cs.len()
        invariant
            i <= cs.len(),
            forall|j: int| 0 <= j < i ==> !spec_contains(#[trigger] views(cs@)[j], needle@),
        decreases cs.len() - i,
    {
        if str_contains(cs[i].as_str(), needle) {
            proof {
                assert(views(cs@)[i as int] == cs@[i as int]@);
            }
            return true;
        }
        proof {
            assert(views(cs@)[i as int] == cs@[i as int]@);
        }
        i += 1;
    }
    false
}

/// The clauses with every one that mentions `length` removed.
pub open spec fn spec_drop_length(cs: Seq<Seq<char>>) -> Seq<Seq<char>>
    decreases cs.len(),
{
    if cs.len() == 0 {
        Seq::empty()
    } else {
        let rest = spec_drop_length(cs.drop_last());
        if spec_contains(cs.last(), "length"@) {
            rest
        } else {
            rest.push(cs.last())
        }
    }
}

/// Removes every clause that mentions `length`.
pub fn drop_length_clauses(cs: &Vec<String>) -> (r: Vec<String>)
    ensures
        views(r@) == spec_drop_length(views(cs@)),
{
    let mut r: Vec<String> = Vec::new();
    proof {
        assert(views(r@) =~= Seq::<Seq<char>>::empty());
        assert(views(cs@.take(0)) =~= Seq::<Seq<char>>::empty());
        assert(spec_drop_length(views(cs@.take(0))) =~= Seq::<Seq<char>>::empty());
    }
    let mut i: usize = 0;
    while i < cs.len()
        invariant
            i <= cs.len(),
            views(r@) == spec_drop_length(views(cs@.take(i as int))),
        decreases cs.len() - i,
    {
        let keep = !str_contains(cs[i].as_str(), "length");
        proof {
            let pre = views(cs@.take(i as int + 1));
            assert(pre.drop_last() =~= views(cs@.take(i as int)));
            assert(pre.last() == cs@[i as int]@);
        }
        if keep {
            let c = cs[i].clone();
            proof {
                lemma_views_push(r@, c);
            }
            r.push(c);
        }
        i += 1;
    }
    proof {
        assert(cs@.take(cs@.len() as int) =~= cs@);
    }
    r
}

/// The default-value suffix of a schema, when defaults are enabled: a
/// literal assignment for scalar shapes, and an empty listing or mapping
/// for flagged collection defaults.  An enum default is expressed only by
/// the `*` marker on its alias variant and renders no suffix here.
pub open spec fn spec_default_suffix(ty: SchemaType, enabled: bool) -> Seq<char> {
    if !enabled {
        Seq::empty()
    } else {
        match ty {
            SchemaType::Boolean(bt) => match bt.default {
                Option::Some(b) => if b {
                    " = true"@
                } else {
                    " = false"@
                },
                Option::None => Seq::empty(),
            },
            SchemaType::Integer(it) => match it.default {
                Option::Some(v) => " = "@ + dec_int(v as int),
                Option::None => Seq::empty(),
            },
            SchemaType::Float(ft) => match ft.default {
                Option::Some(v) => " = "@ + v@,
                Option::None => Seq::empty(),
            },
            SchemaType::Text(st) => match st.default {
                Option::Some(v) => " = "@ + spec_quoted(v@),
                Option::None => Seq::empty(),
            },
            SchemaType::Array(at) => if at.has_default {
                " = new Listing {}"@
            } else {
                Seq::empty()
            },
            SchemaType::Object(ot) => if ot.has_default {
                " = new Mapping {}"@
            } else {
                Seq::empty()
            },
            _ => Seq::empty(),
        }
    }
}

/// Renders the ` = value` suffix for a schema's default, when defaults are
/// enabled.
pub fn render_default_value(include_defaults: bool, schema: &Schema) -> (r: String)
    ensures
        r@ == spec_default_suffix(schema.ty, include_defaults),
{
    if !include_defaults {
        return String::new();
    }
    match &schema.ty {
        SchemaType::Boolean(bt) => match &bt.default {
            Option::Some(b) => {
                let mut r = String::new();
                if *b {
                    r.append(" = true");
                    proof {
                        assert(r@ =~= " = true"@);
                    }
                } else {
                    r.append(" = false");
                    proof {
                        assert(r@ =~= " = false"@);
                    }
                }
                r
            },
            Option::None => String::new(),
        },
        SchemaType::Integer(it) => match &it.default {
            Option::Some(v) => {
                let t = fmt_i64(*v);
                let mut r = String::new();
                r.append(" = ");
                r.append(t.as_str());
                proof {
                    assert(r@ =~= " = "@ + dec_int(*v as int));
                }
                r
            },
            Option::None => String::new(),
        },
        SchemaType::Float(ft) => match &ft.default {
            Option::Some(v) => {
                let mut r = String::new();
                r.append(" = ");
                r.append(v.as_str());
                proof {
                    assert(r@ =~= " = "@ + v@);
                }
                r
            },
            Option::None => String::new(),
        },
        SchemaType::Text(st) => match &st.default {
            Option::Some(v) => {
                let q = quote(v.as_str());
                let mut r = String::new();
                r.append(" = ");
                r.append(q.as_str());
                proof {
                    assert(r@ =~= " = "@ + spec_quoted(v@));
                }
                r
            },
            Option::None => String::new(),
        },
        SchemaType::Array(at) => {
            let mut r = String::new();
            if at.has_default {
                r.append(" = new Listing {}");
                proof {
                    assert(r@ =~= " = new Listing {}"@);
                }
            }
            r
        },
        SchemaType::Object(ot) => {
            let mut r = String::new();
            if ot.has_default {
                r.append(" = new Mapping {}");
                proof {
                    assert(r@ =~= " = new Mapping {}"@);
                }
            }
            r
        },
        _ => String::new(),
    }
}


/// The string refinement clauses, in emission order: length, pattern, one
/// format-specific check, and the non-blank check when the minimum length is
/// one and no clause so far mentions `length`.
pub open spec fn spec_string_clauses(st: StringType) -> Seq<Seq<char>> {
    let cs1 = spec_length_clauses(spec_u64_text(st.min_length), spec_u64_text(st.max_length));
    let cs2 = match st.pattern {
        Option::Some(p) => cs1.push("matches(Regex(#\""@ + p@ + "\"#))"@),
        Option::None => cs1,
    };
    let cs3 = match st.format {
        Option::Some(f) => if f@ == "email"@ {
            cs2.push("contains(\"@\")"@)
        } else if f@ == "uri"@ || f@ == "url"@ {
            cs2.push("startsWith(\"http\")"@)
        } else if f@ == "uuid"@ {
            cs2.push(
                "matches(Regex(#\"^[0-9a-f]{8}-[0-9a-f]{4}-[0-9a-f]{4}-[0-9a-f]{4}-[0-9a-f]{12}$\"#))"@,
            )
        } else if f@ == "ipv4"@ {
            cs2.push(
                "matches(Regex(#\"^((25[0-5]|(2[0-4]|1\\d|[1-9]|)\\d)\\.?\\b){4}$\"#))"@,
            )
        } else {
            cs2
        },
        Option::None => cs2,
    };
    if st.min_length == Option::Some(1u64) && !any_contains(cs3, "length"@) {
        cs3.push("!isBlank"@)
    } else {
        cs3
    }
}

/// Builds the string refinement clauses.
pub fn string_clauses(st: &StringType) -> (r: Vec<String>)
    ensures
        views(r@) == spec_string_clauses(*st),
{
    let mut cs = length_clauses(&st.min_length, &st.max_length);
    if let Option::Some(p) = &st.pattern {
        let mut c = String::new();
        c.append("matches(Regex(#\"");
        c.append(p.as_str());
        c.append("\"#))");
        proof {
            assert(c@ =~= "matches(Regex(#\""@ + p@ + "\"#))"@);
            lemma_views_push(cs@, c);
        }
        cs.push(c);
    }
    if let Option::Some(f) = &st.format {
        if str_eq(f.as_str(), "email") {
            let mut c = String::new();
            c.append("contains(\"@\")");
            proof {
                assert(c@ =~= "contains(\"@\")"@);
                lemma_views_push(cs@, c);
            }
            cs.push(c);
        } else if str_eq(f.as_str(), "uri") || str_eq(f.as_str(), "url") {
            let mut c = String::new();
            c.append("startsWith(\"http\")");
            proof {
                assert(c@ =~= "startsWith(\"http\")"@);
                lemma_views_push(cs@, c);
            }
            cs.push(c);
        } else if str_eq(f.as_str(), "uuid") {
            let mut c = String::new();
            c.append(
                "matches(Regex(#\"^[0-9a-f]{8}-[0-9a-f]{4}-[0-9a-f]{4}-[0-9a-f]{4}-[0-9a-f]{12}$\"#))",
            );
            proof {
                assert(c@
                    =~= "matches(Regex(#\"^[0-9a-f]{8}-[0-9a-f]{4}-[0-9a-f]{4}-[0-9a-f]{4}-[0-9a-f]{12}$\"#))"@);
                lemma_views_push(cs@, c);
            }
            cs.push(c);
        } else if str_eq(f.as_str(), "ipv4") {
            let mut c = String::new();
            c.append("matches(Regex(#\"^((25[0-5]|(2[0-4]|1\\d|[1-9]|)\\d)\\.?\\b){4}$\"#))");
            proof {
                assert(c@
                    =~= "matches(Regex(#\"^((25[0-5]|(2[0-4]|1\\d|[1-9]|)\\d)\\.?\\b){4}$\"#))"@);
                lemma_views_push(cs@, c);
            }
            cs.push(c);
        }
    }
    let mut add_blank = false;
    if let Option::Some(ml) = &st.min_length {
        if *ml == 1 && !any_contains_exec(&cs, "length") {
            add_blank = true;
        }
    }
    if add_blank {
        let mut c = String::new();
        c.append("!isBlank");
        proof {
            assert(c@ =~= "!isBlank"@);
            lemma_views_push(cs@, c);
        }
        cs.push(c);
    }
    cs
}

/// A clause followed by all the others.
pub fn prepend_clause(first: String, rest: &Vec<String>) -> (r: Vec<String>)
    ensures
        views(r@) == seq![first@] + views(rest@),
{
    let ghost fv = first@;
    let mut r: Vec<String> = Vec::new();
    proof {
        lemma_views_push(r@, first);
        assert(Seq::<Seq<char>>::empty().push(fv) =~= seq![fv] + views(rest@.take(0)));
    }
    r.push(first);
    let mut i: usize = 0;
    while i < rest.len()
        invariant
            i <= rest.len(),
            views(r@) == seq![fv] + views(rest@.take(i as int)),
        decreases rest.len() - i,
    {
        let c = rest[i].clone();
        proof {
            lemma_views_push(r@, c);
            assert((seq![fv] + views(rest@.take(i as int))).push(rest@[i as int]@) =~= seq![fv]
                + views(rest@.take(i as int + 1)));
        }
        r.push(c);
        i += 1;
    }
    proof {
        assert(rest@.take(rest@.len() as int) =~= rest@);
    }
    r
}

/// The array refinement clauses: length, distinctness, and the
/// single-element special cases, whose check takes the dropped length
/// clause's leading position.
pub open spec fn spec_array_clauses(at: ArrayType, optional: bool) -> Seq<Seq<char>> {
    let cs1 = spec_length_clauses(spec_u64_text(at.min_length), spec_u64_text(at.max_length));
    let cs2 = if at.unique == Option::Some(true) {
        cs1.push("this.isDistinct"@)
    } else {
        cs1
    };
    let cs3 = if at.min_length == Option::Some(1u64) && at.max_length == Option::Some(1u64) {
        seq!["this.single"@] + spec_drop_length(cs2)
    } else {
        cs2
    };
    if at.max_length == Option::Some(1u64) && at.min_length is None {
        seq![
            if optional {
                "this.singleOrNull"@
            } else {
                "this.single"@
            },
        ] + spec_drop_length(cs3)
    } else {
        cs3
    }
}

/// Builds the array refinement clauses; `optional` picks between the
/// single-element and single-or-absent checks.
pub fn array_clauses(at: &ArrayType, optional: bool) -> (r: Vec<String>)
    ensures
        views(r@) == spec_array_clauses(*at, optional),
{
    let mut cs = length_clauses(&at.min_length, &at.max_length);
    let mut uniq = false;
    if let Option::Some(u) = &at.unique {
        if *u {
            uniq = true;
        }
    }
    if uniq {
        let mut c = String::new();
        c.append("this.isDistinct");
        proof {
            assert(c@ =~= "this.isDistinct"@);
            lemma_views_push(cs@, c);
        }
        cs.push(c);
    }
    let mut one_exact = false;
    if let Option::Some(mn) = &at.min_length {
        if let Option::Some(mx) = &at.max_length {
            if *mn == 1 && *mx == 1 {
                one_exact = true;
            }
        }
    }
    if one_exact {
        let filtered = drop_length_clauses(&cs);
        let mut c = String::new();
        c.append("this.single");
        proof {
            assert(c@ =~= "this.single"@);
        }
        cs = prepend_clause(c, &filtered);
    }
    let mut one_loose = false;
    if let Option::Some(mx) = &at.max_length {
        if *mx == 1 && at.min_length.is_none() {
            one_loose = true;
        }
    }
    if one_loose {
        let filtered = drop_length_clauses(&cs);
        let mut c = String::new();
        if optional {
            c.append("this.singleOrNull");
            proof {
                assert(c@ =~= "this.singleOrNull"@);
            }
        } else {
            c.append("this.single");
            proof {
                assert(c@ =~= "this.single"@);
            }
        }
        cs = prepend_clause(c, &filtered);
    }
    cs
}

/// Each key wrapped in double quotes.
pub open spec fn spec_quoted_all(keys: Seq<String>) -> Seq<Seq<char>> {
    keys.map_values(|k: String| spec_quoted(k@))
}

/// Quotes every key.
pub fn quote_all(keys: &Vec<String>) -> (r: Vec<String>)
    ensures
        views(r@) == spec_quoted_all(keys@),
{
    let mut r: Vec<String> = Vec::new();
    proof {
        assert(views(r@) =~= spec_quoted_all(keys@.take(0)));
    }
    let mut i: usize = 0;
    while i < keys.len()
        invariant
            i <= keys.len(),
            views(r@) == spec_quoted_all(keys@.take(i as int)),
        decreases keys.len() - i,
    {
        let q = quote(keys[i].as_str());
        proof {
            lemma_views_push(r@, q);
            assert(spec_quoted_all(keys@.take(i as int + 1)) =~= spec_quoted_all(
                keys@.take(i as int),
            ).push(spec_quoted(keys@[i as int]@)));
        }
        r.push(q);
        i += 1;
    }
    proof {
        assert(keys@.take(keys@.len() as int) =~= keys@);
    }
    r
}

/// The object refinement clauses: length, then the required-key check when
/// a non-empty required set is present.
pub open spec fn spec_object_clauses(ot: ObjectType) -> Seq<Seq<char>> {
    let cs1 = spec_length_clauses(spec_u64_text(ot.min_length), spec_u64_text(ot.max_length));
    match ot.required {
        Option::Some(keys) => if keys.len() > 0 {
            cs1.push(
                "List("@ + spec_join(spec_quoted_all(keys@), ", "@)
                    + ").every((k) -> this.containsKey(k))"@,
            )
        } else {
            cs1
        },
        Option::None => cs1,
    }
}

/// Builds the object refinement clauses.
pub fn object_clauses(ot: &ObjectType) -> (r: Vec<String>)
    ensures
        views(r@) == spec_object_clauses(*ot),
{
    let mut cs = length_clauses(&ot.min_length, &ot.max_length);
    if let Option::Some(keys) = &ot.required {
        if keys.len() > 0 {
            let qs = quote_all(keys);
            let joined = join_strings(&qs, ", ");
            let mut c = String::new();
            c.append("List(");
            c.append(joined.as_str());
            c.append(").every((k) -> this.containsKey(k))");
            proof {
                assert(c@ =~= "List("@ + spec_join(spec_quoted_all(keys@), ", "@)
                    + ").every((k) -> this.containsKey(k))"@);
                lemma_views_push(cs@, c);
            }
            cs.push(c);
        }
    }
    cs
}

/// The full constraint text of a schema, when constraints are enabled:
/// numeric refinements for integers and floats, and the string, array and
/// object clause sets, parenthesized; every other shape has none.
pub open spec fn spec_constraints(ty: SchemaType, optional: bool, enabled: bool) -> Seq<char> {
    if !enabled {
        Seq::empty()
    } else {
        match ty {
            SchemaType::Integer(_) => spec_number_constraints(ty),
            SchemaType::Float(_) => spec_number_constraints(ty),
            SchemaType::Text(st) => spec_wrap_clauses(spec_string_clauses(*st)),
            SchemaType::Array(at) => spec_wrap_clauses(spec_array_clauses(*at, optional)),
            SchemaType::Object(ot) => spec_wrap_clauses(spec_object_clauses(*ot)),
            _ => Seq::empty(),
        }
    }
}

/// Renders a schema's constraint refinement, when constraints are enabled.
pub fn render_constraints(enabled: bool, schema: &Schema) -> (r: String)
    ensures
        r@ == spec_constraints(schema.ty, schema.optional, enabled),
{
    if !enabled {
        return String::new();
    }
    match &schema.ty {
        SchemaType::Integer(_) => set_number_constraints(schema),
        SchemaType::Float(_) => set_number_constraints(schema),
        SchemaType::Text(st) => {
            let cs = string_clauses(st);
            clauses_text(&cs)
        },
        SchemaType::Array(at) => {
            let cs = array_clauses(at, schema.optional);
            clauses_text(&cs)
        },
        SchemaType::Object(ot) => {
            let cs = object_clauses(ot);
            clauses_text(&cs)
        },
        _ => String::new(),
    }
}

} // verus!

