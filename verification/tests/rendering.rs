//! End-to-end rendering tests over concrete type graphs.

use indexmap::IndexMap;
use spklr::schema::{
    Schema, SchemaType, BooleanType, IntegerType, FloatType, StringType, LiteralType, ArrayType,
    ObjectType, TupleType, UnionType, EnumType, StructType, SchemaField, LiteralValue,
};
use spklr::options::{PklSchemaOptions, RenderError};
use spklr::renderer::{PklSchemaRenderer, render_field_type, render_typealiases};
use spklr::imap::aliases_insert;

fn schema(ty: SchemaType) -> Schema {
    Schema {
        deprecated: None,
        description: None,
        name: None,
        nullable: false,
        optional: false,
        ty,
    }
}

fn int_type() -> IntegerType {
    IntegerType {
        default: None,
        enum_values: None,
        maximum: None,
        maximum_exclusive: None,
        minimum: None,
        minimum_exclusive: None,
        multiple_of: None,
    }
}

fn string_type() -> StringType {
    StringType {
        default: None,
        data_size: None,
        duration: None,
        enum_values: None,
        format: None,
        max_length: None,
        min_length: None,
        pattern: None,
    }
}

fn float_type() -> FloatType {
    FloatType {
        default: None,
        enum_values: None,
        maximum: None,
        maximum_exclusive: None,
        minimum: None,
        minimum_exclusive: None,
        multiple_of: None,
    }
}

fn field(name: &str, s: Schema) -> SchemaField {
    SchemaField {
        name: name.to_string(),
        schema: s,
        comment: None,
        deprecated: None,
        hidden: false,
        optional: false,
    }
}

fn struct_schema(fields: Vec<SchemaField>) -> Schema {
    schema(SchemaType::Struct(Box::new(StructType { fields, partial: false })))
}

fn one_field_graph(field_name: &str, fs: Schema) -> IndexMap<String, Schema> {
    let mut graph = IndexMap::new();
    graph.insert("Config".to_string(), struct_schema(vec![field(field_name, fs)]));
    graph
}

fn render_default(graph: IndexMap<String, Schema>) -> String {
    let mut r = PklSchemaRenderer::default();
    r.render(graph).expect("render should succeed")
}

#[test]
fn uint8_root_property() {
    let mut it = int_type();
    it.minimum = Some(0);
    it.maximum = Some(255);
    let out = render_default(one_field_graph("max_retries", schema(SchemaType::Integer(Box::new(it)))));
    assert!(out.contains("module Config"));
    // A captured fixed-width range is expressed by the type name alone.
    assert!(out.contains("maxRetries: UInt8\n"));
    assert!(!out.contains("isBetween"));
}

#[test]
fn fixed_width_keeps_step_and_exclusive_clauses() {
    let mut it = int_type();
    it.minimum = Some(0);
    it.maximum = Some(255);
    it.multiple_of = Some(5);
    let out = render_default(one_field_graph("step", schema(SchemaType::Integer(Box::new(it)))));
    assert!(out.contains("step: UInt8(this % 5 == 0)"));
    assert!(!out.contains("isBetween"));
}

#[test]
fn fixed_width_bases() {
    let cases: Vec<(i64, i64, &str)> = vec![
        (0, 255, "UInt8"),
        (0, 65535, "UInt16"),
        (0, 4294967295, "UInt32"),
        (-128, 127, "Int8"),
        (-32768, 32767, "Int16"),
        (-2147483648, 2147483647, "Int32"),
        (0, 256, "Int"),
    ];
    for (mn, mx, expected) in cases {
        let mut it = int_type();
        it.minimum = Some(mn);
        it.maximum = Some(mx);
        let mut aliases = IndexMap::new();
        let got = render_field_type(false, &mut aliases, &schema(SchemaType::Integer(Box::new(it))))
            .unwrap();
        assert_eq!(got, expected);
        assert_eq!(aliases.len(), 0);
    }
}

#[test]
fn string_length_one_keeps_between_clause() {
    let mut st = string_type();
    st.min_length = Some(1);
    st.max_length = Some(1);
    let out = render_default(one_field_graph("code", schema(SchemaType::Text(Box::new(st)))));
    assert!(out.contains("code: String(this.length.isBetween(1, 1))"));
    assert!(!out.contains("isBlank"));
}

#[test]
fn string_min_only_clause() {
    let mut st = string_type();
    st.min_length = Some(1);
    let out = render_default(one_field_graph("name", schema(SchemaType::Text(Box::new(st)))));
    assert!(out.contains("name: String(this.length >= 1)"));
    assert!(!out.contains("isBlank"));
}

#[test]
fn string_format_clauses() {
    let mut st = string_type();
    st.format = Some("email".to_string());
    let out = render_default(one_field_graph("mail", schema(SchemaType::Text(Box::new(st)))));
    assert!(out.contains("mail: String(contains(\"@\"))"));

    let mut st = string_type();
    st.format = Some("url".to_string());
    let out = render_default(one_field_graph("link", schema(SchemaType::Text(Box::new(st)))));
    assert!(out.contains("link: String(startsWith(\"http\"))"));
}

#[test]
fn string_pattern_clause() {
    let mut st = string_type();
    st.pattern = Some("^[a-z]+$".to_string());
    let out = render_default(one_field_graph("slug", schema(SchemaType::Text(Box::new(st)))));
    assert!(out.contains("slug: String(matches(Regex(#\"^[a-z]+$\"#)))"));
}

#[test]
fn duration_and_data_size_bases() {
    let mut st = string_type();
    st.format = Some("duration".to_string());
    st.duration = Some("MS".to_string());
    let out = render_default(one_field_graph("wait", schema(SchemaType::Text(Box::new(st)))));
    assert!(out.contains("wait: Duration<ms>"));

    let mut st = string_type();
    st.format = Some("data-size".to_string());
    let out = render_default(one_field_graph("cap", schema(SchemaType::Text(Box::new(st)))));
    assert!(out.contains("cap: DataSize"));
}

#[test]
fn enum_default_marks_variant() {
    let et = EnumType {
        name: String::new(),
        values: vec![
            LiteralValue::Text("a".to_string()),
            LiteralValue::Text("b".to_string()),
            LiteralValue::Text("c".to_string()),
        ],
        default: Some(LiteralValue::Text("b".to_string())),
    };
    let out = render_default(one_field_graph("color", schema(SchemaType::Enum(Box::new(et)))));
    assert!(out.contains("typealias EnumType0 = \"a\"|*\"b\"|\"c\""));
    assert!(out.contains("color: EnumType0\n"));
    // The default is expressed by the marker alone, with no assignment.
    assert!(!out.contains("color: EnumType0 ="));
    // The alias block stands right after the module header, before the field.
    let alias_at = out.find("typealias EnumType0").unwrap();
    let field_at = out.find("color: EnumType0").unwrap();
    assert!(alias_at < field_at);
}

#[test]
fn enum_default_without_match_marks_nothing() {
    let et = EnumType {
        name: String::new(),
        values: vec![LiteralValue::Text("a".to_string()), LiteralValue::Text("b".to_string())],
        default: Some(LiteralValue::Text("zz".to_string())),
    };
    let out = render_default(one_field_graph("mode", schema(SchemaType::Enum(Box::new(et)))));
    assert!(out.contains("typealias EnumType0 = \"a\"|\"b\""));
    assert!(!out.contains("*"));
}

#[test]
fn named_enum_alias_reused_once() {
    let make = || EnumType {
        name: "color_kind".to_string(),
        values: vec![LiteralValue::Text("red".to_string()), LiteralValue::Text("blue".to_string())],
        default: None,
    };
    let graph = {
        let mut g = IndexMap::new();
        g.insert(
            "Config".to_string(),
            struct_schema(vec![
                field("first", schema(SchemaType::Enum(Box::new(make())))),
                field("second", schema(SchemaType::Enum(Box::new(make())))),
            ]),
        );
        g
    };
    let out = render_default(graph);
    assert_eq!(out.matches("typealias ColorKind = \"red\"|\"blue\"").count(), 1);
    assert!(out.contains("first: ColorKind"));
    assert!(out.contains("second: ColorKind"));
}

#[test]
fn tuple_of_three_fails_whole_render() {
    let tt = TupleType {
        items_types: vec![
            schema(SchemaType::Boolean(Box::new(BooleanType { default: None }))),
            schema(SchemaType::Text(Box::new(string_type()))),
            schema(SchemaType::Integer(Box::new(int_type()))),
        ],
    };
    let mut r = PklSchemaRenderer::default();
    let res = r.render(one_field_graph("triple", schema(SchemaType::Tuple(Box::new(tt)))));
    match res {
        Err(RenderError::UnsupportedShape(m)) => {
            assert_eq!(m, "tuple arity 3 unsupported");
        }
        _ => panic!("expected an unsupported-shape failure"),
    }
}

#[test]
fn tuple_of_two_renders_pair() {
    let tt = TupleType {
        items_types: vec![
            schema(SchemaType::Text(Box::new(string_type()))),
            schema(SchemaType::Integer(Box::new(int_type()))),
        ],
    };
    let out = render_default(one_field_graph("pair", schema(SchemaType::Tuple(Box::new(tt)))));
    assert!(out.contains("pair: Pair<String, Int>"));
}

#[test]
fn shared_reference_never_inlined() {
    let mut graph = IndexMap::new();
    graph.insert(
        "Config".to_string(),
        struct_schema(vec![
            field("shipping", schema(SchemaType::Reference("Address".to_string()))),
            field("billing", schema(SchemaType::Reference("Address".to_string()))),
        ]),
    );
    graph.insert(
        "Address".to_string(),
        struct_schema(vec![field("street", schema(SchemaType::Text(Box::new(string_type()))))]),
    );
    let out = render_default(graph);
    assert!(out.contains("shipping: Address"));
    assert!(out.contains("billing: Address"));
    assert_eq!(out.matches("class Address").count(), 1);
    assert_eq!(out.matches("street: String").count(), 1);
}

#[test]
fn self_reference_renders_as_name() {
    let mut graph = IndexMap::new();
    graph.insert(
        "Node".to_string(),
        struct_schema(vec![field("next", schema(SchemaType::Reference("Node".to_string())))]),
    );
    let out = render_default(graph);
    assert!(out.contains("module Node"));
    assert!(out.contains("next: Node"));
}

#[test]
fn keyword_field_and_module_names_escaped() {
    let mut graph = IndexMap::new();
    graph.insert(
        "class".to_string(),
        struct_schema(vec![field("hidden", schema(SchemaType::Boolean(Box::new(BooleanType {
            default: None,
        }))))]),
    );
    let out = render_default(graph);
    assert!(out.contains("module `Class`") || out.contains("module Class"));
    // `class` case-converts to `Class`, which is not reserved; the field
    // name stays lower-case and is.
    assert!(out.contains("`hidden`: Boolean"));
}

#[test]
fn constraint_toggle_removes_refinements() {
    let mut it = int_type();
    it.minimum = Some(3);
    it.maximum = Some(9);
    it.multiple_of = Some(3);
    let build = || one_field_graph("n", schema(SchemaType::Integer(Box::new(it.clone()))));

    let on = render_default(build());
    assert!(on.contains("n: Int(isBetween(3, 9) && this % 3 == 0)"));

    let mut opts = PklSchemaOptions::default();
    opts.include_constraints = false;
    let mut r = PklSchemaRenderer::new(opts);
    let off = r.render(build()).unwrap();
    assert!(off.contains("n: Int"));
    assert!(!off.contains("isBetween"));
    assert!(!off.contains("%"));
}

#[test]
fn exclusive_and_modulus_clauses() {
    let mut it = int_type();
    it.minimum_exclusive = Some(0);
    it.multiple_of = Some(5);
    let out = render_default(one_field_graph("step", schema(SchemaType::Integer(Box::new(it)))));
    assert!(out.contains("step: Int(this > 0 && this % 5 == 0)"));
}

#[test]
fn float_bounds_rendered_verbatim() {
    let mut ft = float_type();
    ft.minimum = Some("0.5".to_string());
    let out = render_default(one_field_graph("ratio", schema(SchemaType::Float(Box::new(ft)))));
    assert!(out.contains("ratio: Number(this >= 0.5)"));
}

#[test]
fn array_single_or_null_depends_on_optional() {
    let make = |optional: bool| {
        let at = ArrayType {
            items_type: schema(SchemaType::Text(Box::new(string_type()))),
            max_length: Some(1),
            min_length: None,
            unique: Some(true),
            has_default: false,
        };
        let mut s = schema(SchemaType::Array(Box::new(at)));
        s.optional = optional;
        s
    };
    let strict = render_default(one_field_graph("one", make(false)));
    assert!(strict.contains("one: Listing<String>(this.single && this.isDistinct)"));
    let loose = render_default(one_field_graph("one", make(true)));
    assert!(loose.contains("one: Listing<String>(this.singleOrNull && this.isDistinct)"));
}

#[test]
fn array_exactly_one_replaces_only_length_clause() {
    let at = ArrayType {
        items_type: schema(SchemaType::Integer(Box::new(int_type()))),
        max_length: Some(1),
        min_length: Some(1),
        unique: Some(true),
        has_default: false,
    };
    let out = render_default(one_field_graph("only", schema(SchemaType::Array(Box::new(at)))));
    // The single-element check stands where the length clause stood, with
    // the distinctness clause kept after it.
    assert!(out.contains("only: Listing<Int>(this.single && this.isDistinct)"));
    assert!(!out.contains("length"));
}

#[test]
fn object_required_keys_clause() {
    let ot = ObjectType {
        key_type: schema(SchemaType::Text(Box::new(string_type()))),
        value_type: schema(SchemaType::Integer(Box::new(int_type()))),
        max_length: None,
        min_length: None,
        required: Some(vec!["a".to_string(), "b".to_string()]),
        has_default: false,
    };
    let out = render_default(one_field_graph("env", schema(SchemaType::Object(Box::new(ot)))));
    assert!(out.contains(
        "env: Mapping<String, Int>(List(\"a\", \"b\").every((k) -> this.containsKey(k)))"
    ));
}

#[test]
fn default_value_suffixes() {
    let mut bt = BooleanType { default: Some(true) };
    let out = render_default(one_field_graph("flag", schema(SchemaType::Boolean(Box::new(bt)))));
    assert!(out.contains("flag: Boolean = true"));
    bt = BooleanType { default: Some(false) };
    let out = render_default(one_field_graph("flag", schema(SchemaType::Boolean(Box::new(bt)))));
    assert!(out.contains("flag: Boolean = false"));

    let mut it = int_type();
    it.default = Some(-42);
    let out = render_default(one_field_graph("n", schema(SchemaType::Integer(Box::new(it)))));
    assert!(out.contains("n: Int = -42"));

    let mut st = string_type();
    st.default = Some("x".to_string());
    let out = render_default(one_field_graph("s", schema(SchemaType::Text(Box::new(st)))));
    assert!(out.contains("s: String = \"x\""));

    let at = ArrayType {
        items_type: schema(SchemaType::Text(Box::new(string_type()))),
        max_length: None,
        min_length: None,
        unique: None,
        has_default: true,
    };
    let out = render_default(one_field_graph("xs", schema(SchemaType::Array(Box::new(at)))));
    assert!(out.contains("xs: Listing<String> = new Listing {}"));
}

#[test]
fn union_marks_first_default_variant() {
    let ut = UnionType {
        variants_types: vec![
            schema(SchemaType::Boolean(Box::new(BooleanType { default: Some(true) }))),
            schema(SchemaType::Text(Box::new(string_type()))),
        ],
    };
    let out = render_default(one_field_graph("choice", schema(SchemaType::Union(Box::new(ut)))));
    assert!(out.contains("choice: *Boolean|String"));
}

#[test]
fn wide_union_hoisted_into_alias() {
    let ut = UnionType {
        variants_types: vec![
            schema(SchemaType::Boolean(Box::new(BooleanType { default: None }))),
            schema(SchemaType::Text(Box::new(string_type()))),
            schema(SchemaType::Integer(Box::new(int_type()))),
            schema(SchemaType::Null),
        ],
    };
    let out = render_default(one_field_graph("any4", schema(SchemaType::Union(Box::new(ut)))));
    assert!(out.contains("typealias UnionType0 = Boolean|String|Int|nothing"));
    assert!(out.contains("any4: UnionType0"));
}

#[test]
fn integer_enum_aliases_are_numbered() {
    let mut a = int_type();
    a.enum_values = Some(vec![1, 2]);
    let mut b = int_type();
    b.enum_values = Some(vec![3, 4]);
    let mut g = IndexMap::new();
    g.insert(
        "Config".to_string(),
        struct_schema(vec![
            field("first", schema(SchemaType::Integer(Box::new(a)))),
            field("second", schema(SchemaType::Integer(Box::new(b)))),
        ]),
    );
    let out = render_default(g);
    assert!(out.contains("typealias IntegerEnum0 = 1|2"));
    assert!(out.contains("typealias IntegerEnum1 = 3|4"));
    assert!(out.contains("first: IntegerEnum0"));
    assert!(out.contains("second: IntegerEnum1"));
}

#[test]
fn literal_field_renders_inline() {
    let lt = LiteralType { value: LiteralValue::Text("on".to_string()) };
    let out = render_default(one_field_graph("state", schema(SchemaType::Literal(Box::new(lt)))));
    assert!(out.contains("state: \"on\""));
}

#[test]
fn hidden_and_excluded_fields_skipped() {
    let mut f = field("secret", schema(SchemaType::Text(Box::new(string_type()))));
    f.hidden = true;
    let shown = field("shown", schema(SchemaType::Text(Box::new(string_type()))));
    let skipped = field("internal", schema(SchemaType::Text(Box::new(string_type()))));
    let mut g = IndexMap::new();
    g.insert("Config".to_string(), struct_schema(vec![f, shown, skipped]));
    let mut opts = PklSchemaOptions::default();
    opts.exclude_properties = vec!["internal".to_string()];
    let mut r = PklSchemaRenderer::new(opts);
    let out = r.render(g).unwrap();
    assert!(!out.contains("secret"));
    assert!(!out.contains("internal"));
    assert!(out.contains("shown: String"));
}

#[test]
fn docs_and_comments_emitted() {
    let mut f = field("port", schema(SchemaType::Integer(Box::new(int_type()))));
    f.comment = Some("the port".to_string());
    let mut g = IndexMap::new();
    let mut root = struct_schema(vec![f]);
    root.description = Some("server settings".to_string());
    g.insert("Server".to_string(), root);
    let out = render_default(g);
    assert!(out.contains("/// server settings"));
    assert!(out.contains("/// the port"));
}

#[test]
fn deprecation_disabled_by_default() {
    let mut f = field("old", schema(SchemaType::Text(Box::new(string_type()))));
    f.deprecated = Some("since v1.2.0 use other".to_string());
    let mut g = IndexMap::new();
    g.insert("Config".to_string(), struct_schema(vec![f]));
    let out = render_default(g);
    assert!(!out.contains("@Deprecated"));
}

#[test]
fn deprecation_since_version_extracted() {
    let mut f = field("old", schema(SchemaType::Text(Box::new(string_type()))));
    f.deprecated = Some("since v1.2.0 use other".to_string());
    let mut g = IndexMap::new();
    g.insert("Config".to_string(), struct_schema(vec![f]));
    let mut opts = PklSchemaOptions::default();
    opts.include_deprecated = true;
    let mut r = PklSchemaRenderer::new(opts);
    let out = r.render(g).unwrap();
    assert!(out.contains(
        "@Deprecated { since = \"1.2.0\"; message = \"since v1.2.0 use other\" }"
    ));
}

#[test]
fn deprecation_bare_marker_for_empty_message() {
    let mut f = field("old", schema(SchemaType::Text(Box::new(string_type()))));
    f.deprecated = Some(String::new());
    let mut g = IndexMap::new();
    g.insert("Config".to_string(), struct_schema(vec![f]));
    let mut opts = PklSchemaOptions::default();
    opts.include_deprecated = true;
    let mut r = PklSchemaRenderer::new(opts);
    let out = r.render(g).unwrap();
    assert!(out.contains("@Deprecated\n"));
    assert!(!out.contains("@Deprecated {"));
}

#[test]
fn empty_graph_is_missing_root() {
    let mut r = PklSchemaRenderer::default();
    let res = r.render(IndexMap::new());
    assert!(matches!(res, Err(RenderError::MissingRoot)));
    assert_eq!(
        RenderError::MissingRoot.message(),
        "the schema graph is empty"
    );
}

#[test]
fn non_struct_root_wrapped_in_value_property() {
    let mut g = IndexMap::new();
    g.insert("Level".to_string(), schema(SchemaType::Text(Box::new(string_type()))));
    let out = render_default(g);
    assert!(out.starts_with("module Level\n\nvalue: String"));
}

#[test]
fn module_name_override_selects_its_entry() {
    let mut g = IndexMap::new();
    g.insert(
        "First".to_string(),
        struct_schema(vec![field("alpha", schema(SchemaType::Boolean(Box::new(BooleanType {
            default: None,
        }))))]),
    );
    g.insert(
        "Second".to_string(),
        struct_schema(vec![field("beta", schema(SchemaType::Text(Box::new(string_type()))))]),
    );
    let mut opts = PklSchemaOptions::default();
    opts.module_name = Some("Second".to_string());
    let mut r = PklSchemaRenderer::new(opts);
    let out = r.render(g).unwrap();
    // The override's own entry becomes the root; the other becomes a class.
    assert!(out.contains("module Second"));
    assert!(out.contains("beta: String"));
    assert!(out.contains("class First"));
    assert!(!out.contains("class Second"));
    assert_eq!(out.matches("beta: String").count(), 1);
}

#[test]
fn alias_collision_gets_a_fresh_name() {
    let red = EnumType {
        name: "color_kind".to_string(),
        values: vec![LiteralValue::Text("red".to_string()), LiteralValue::Text("blue".to_string())],
        default: None,
    };
    let warm = EnumType {
        name: "color_kind".to_string(),
        values: vec![LiteralValue::Text("amber".to_string())],
        default: None,
    };
    let mut g = IndexMap::new();
    g.insert(
        "Config".to_string(),
        struct_schema(vec![
            field("first", schema(SchemaType::Enum(Box::new(red)))),
            field("second", schema(SchemaType::Enum(Box::new(warm)))),
        ]),
    );
    let out = render_default(g);
    // The earlier alias survives untouched; the collision takes a fresh
    // numbered name.
    assert!(out.contains("typealias ColorKind = \"red\"|\"blue\""));
    assert!(out.contains("typealias ColorKind1 = \"amber\""));
    assert!(out.contains("first: ColorKind\n"));
    assert!(out.contains("second: ColorKind1\n"));
}

#[test]
fn module_name_override_wins() {
    let mut opts = PklSchemaOptions::default();
    opts.module_name = Some("my_settings".to_string());
    let mut r = PklSchemaRenderer::new(opts);
    let g = one_field_graph("x", schema(SchemaType::Boolean(Box::new(BooleanType {
        default: None,
    }))));
    let out = r.render(g).unwrap();
    assert!(out.contains("module MySettings"));
    assert!(!out.contains("module Config"));
}

#[test]
fn optional_fields_get_question_marker() {
    let mut f = field("maybe", schema(SchemaType::Text(Box::new(string_type()))));
    f.optional = true;
    let mut g = IndexMap::new();
    g.insert("Config".to_string(), struct_schema(vec![f]));
    let out = render_default(g);
    assert!(out.contains("maybe: String?"));
}

#[test]
fn typealias_flusher_is_idempotent() {
    let mut aliases = IndexMap::new();
    aliases_insert(&mut aliases, "A".to_string(), "1|2".to_string());
    aliases_insert(&mut aliases, "B".to_string(), "\"x\"|\"y\"".to_string());
    let once = render_typealiases(&aliases);
    let twice = render_typealiases(&aliases);
    assert_eq!(once, twice);
    assert_eq!(once, "typealias A = 1|2\ntypealias B = \"x\"|\"y\"\n");
}

#[test]
fn is_reference_tracks_graph_keys() {
    let mut r = PklSchemaRenderer::default();
    let mut g = IndexMap::new();
    g.insert(
        "Config".to_string(),
        struct_schema(vec![field("a", schema(SchemaType::Reference("Other".to_string())))]),
    );
    g.insert("Other".to_string(), struct_schema(vec![]));
    r.render(g).unwrap();
    assert!(r.is_reference("Config"));
    assert!(r.is_reference("Other"));
    assert!(!r.is_reference("Nope"));
}

#[test]
fn class_fields_indented_one_level() {
    let mut g = IndexMap::new();
    g.insert("Config".to_string(), struct_schema(vec![field(
        "addr",
        schema(SchemaType::Reference("Address".to_string())),
    )]));
    g.insert(
        "Address".to_string(),
        struct_schema(vec![field("street", schema(SchemaType::Text(Box::new(string_type()))))]),
    );
    let out = render_default(g);
    assert!(out.contains("class Address"));
    assert!(out.contains("\n  street: String"));
    // The root module's own field carries no indentation.
    assert!(out.contains("\naddr: Address"));
}
