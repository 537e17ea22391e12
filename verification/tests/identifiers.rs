//! Tests for the identifier layer, the render-type switch, per-shape
//! rendering helpers, and literal formatting.

use indexmap::IndexMap;
use spklr::ident::{to_pascal_case, to_camel_case, is_pkl_keyword, escape_name};
use spklr::options::{RenderType, RenderError, PklSchemaOptions};
use spklr::schema::{
    Schema, SchemaType, BooleanType, StringType, LiteralType, TupleType, UnionType, EnumType,
    StructType, SchemaField, LiteralValue, literal_text, lit_eq,
};
use spklr::renderer::PklSchemaRenderer;
use spklr::cli::{ConvertArgs, MoonConfig, SchemaFormat};

fn schema(ty: SchemaType) -> Schema {
    Schema {
        deprecated: None,
        description: None,
        name: None,
        nullable: false,
        optional: false,
        ty,
    }
}

fn text_schema() -> Schema {
    schema(SchemaType::Text(Box::new(StringType {
        default: None,
        data_size: None,
        duration: None,
        enum_values: None,
        format: None,
        max_length: None,
        min_length: None,
        pattern: None,
    })))
}

#[test]
fn pascal_case_conversion() {
    assert_eq!(to_pascal_case("max_retries"), "MaxRetries");
    assert_eq!(to_pascal_case("http-client"), "HttpClient");
    assert_eq!(to_pascal_case(""), "");
    assert_eq!(to_pascal_case("already"), "Already");
}

#[test]
fn camel_case_conversion() {
    assert_eq!(to_camel_case("max_retries"), "maxRetries");
    assert_eq!(to_camel_case("max-retries"), "maxRetries");
    assert_eq!(to_camel_case(""), "");
    assert_eq!(to_camel_case("Simple"), "simple");
    // A leading separator capitalizes the next character before the
    // first-character lowering is consumed.
    assert_eq!(to_camel_case("_ab"), "Ab");
}

#[test]
fn keyword_detection_and_escaping() {
    for kw in ["module", "class", "typealias", "nothing", "when", "import*", "read*"] {
        assert!(is_pkl_keyword(kw));
        assert_eq!(escape_name(kw), format!("`{}`", kw));
    }
    for ok in ["config", "Module", "classes", "value"] {
        assert!(!is_pkl_keyword(ok));
        assert_eq!(escape_name(ok), ok);
    }
}

#[test]
fn render_type_parsing() {
    assert!(matches!(RenderType::parse("template"), Ok(RenderType::Template)));
    assert!(matches!(RenderType::parse("TMPL"), Ok(RenderType::Template)));
    assert!(matches!(RenderType::parse("t"), Ok(RenderType::Template)));
    assert!(matches!(RenderType::parse("Schema"), Ok(RenderType::Schema)));
    assert!(matches!(RenderType::parse("sch"), Ok(RenderType::Schema)));
    assert!(matches!(RenderType::parse("S"), Ok(RenderType::Schema)));
    match RenderType::parse("nope") {
        Err(e) => assert_eq!(e.message(), "unsupported option: nope"),
        Ok(_) => panic!("an unknown render type must be refused"),
    }
    let parsed: Result<RenderType, RenderError> = "template".parse();
    assert!(matches!(parsed, Ok(RenderType::Template)));
}

#[test]
fn literal_formatting() {
    assert_eq!(literal_text(&LiteralValue::Text("a b".to_string())), "\"a b\"");
    assert_eq!(literal_text(&LiteralValue::Integer(-7)), "-7");
    assert_eq!(literal_text(&LiteralValue::Float("2.5".to_string())), "2.5");
    assert_eq!(literal_text(&LiteralValue::Boolean(true)), "true");
    assert!(lit_eq(&LiteralValue::Integer(3), &LiteralValue::Integer(3)));
    assert!(!lit_eq(&LiteralValue::Integer(3), &LiteralValue::Boolean(true)));
}

#[test]
fn default_options_match_benchmark() {
    let o = PklSchemaOptions::default();
    assert!(o.include_docs);
    assert!(o.include_constraints);
    assert!(o.include_defaults);
    assert!(!o.include_deprecated);
    assert!(!o.comment_out_optional);
    assert_eq!(o.indent, "  ");
    assert!(o.module_name.is_none());
    assert!(o.exclude_properties.is_empty());
    assert!(o.added_imports.is_empty());
}

#[test]
fn per_shape_render_helpers() {
    let mut r = PklSchemaRenderer::default();
    assert_eq!(r.render_boolean(), "Boolean");
    assert_eq!(r.render_integer(), "Int");
    assert_eq!(r.render_float(), "Number");
    assert_eq!(r.render_string(), "String");
    assert_eq!(r.render_null(), "nothing");
    assert_eq!(r.render_unknown(), "unknown");
    assert_eq!(r.render_array(), "Listing<unknown>");
    assert_eq!(r.render_object(), "Mapping<String, unknown>");
    assert_eq!(r.render_reference("pkl_config"), "PklConfig");
    assert_eq!(
        r.render_literal(&LiteralType { value: LiteralValue::Integer(9) }),
        "9"
    );
    let et = EnumType {
        name: "e".to_string(),
        values: vec![LiteralValue::Integer(1), LiteralValue::Text("x".to_string())],
        default: Some(LiteralValue::Integer(1)),
    };
    // The bare enum helper joins the literal set without default marking.
    assert_eq!(r.render_enum(&et), "1|\"x\"");
}

#[test]
fn render_tuple_helper_arity_rules() {
    let mut r = PklSchemaRenderer::default();
    let two = TupleType { items_types: vec![text_schema(), text_schema()] };
    assert_eq!(r.render_tuple(&two).unwrap(), "Pair<String, String>");
    let one = TupleType { items_types: vec![text_schema()] };
    assert_eq!(r.render_tuple(&one).unwrap(), "Listing<String>");
    let zero = TupleType { items_types: vec![] };
    assert_eq!(r.render_tuple(&zero).unwrap(), "Dynamic");
    let four = TupleType {
        items_types: vec![text_schema(), text_schema(), text_schema(), text_schema()],
    };
    match r.render_tuple(&four) {
        Err(RenderError::UnsupportedShape(m)) => assert_eq!(m, "tuple arity 4 unsupported"),
        _ => panic!("expected an unsupported-shape failure"),
    }
}

#[test]
fn render_union_helper_joins_plain() {
    let mut r = PklSchemaRenderer::default();
    let ut = UnionType {
        variants_types: vec![
            schema(SchemaType::Boolean(Box::new(BooleanType { default: Some(true) }))),
            text_schema(),
        ],
    };
    // The bare union helper applies no default marking.
    assert_eq!(r.render_union(&ut).unwrap(), "Boolean|String");
}

#[test]
fn render_struct_helper_inlines_visible_fields() {
    let mut r = PklSchemaRenderer::default();
    let hidden = SchemaField {
        name: "secret".to_string(),
        schema: text_schema(),
        comment: None,
        deprecated: None,
        hidden: true,
        optional: false,
    };
    let shown = SchemaField {
        name: "some_name".to_string(),
        schema: text_schema(),
        comment: None,
        deprecated: None,
        hidden: false,
        optional: true,
    };
    let st = StructType { fields: vec![hidden, shown], partial: false };
    assert_eq!(r.render_struct(&st).unwrap(), "{someName: String?}");
}

#[test]
fn indent_scales_with_depth() {
    let mut r = PklSchemaRenderer::default();
    assert_eq!(r.indent(), "");
    r.depth = 2;
    assert_eq!(r.indent(), "    ");
}

#[test]
fn convert_args_carry_plain_values() {
    let args = ConvertArgs {
        config_type: MoonConfig::Project,
        input: "moon.yml".to_string(),
        output: None,
        from: Some(SchemaFormat::Yaml),
        to: Some(SchemaFormat::Pkl),
        force: false,
    };
    assert!(matches!(args.config_type, MoonConfig::Project));
    assert!(matches!(args.from, Some(SchemaFormat::Yaml)));
    assert!(matches!(args.to, Some(SchemaFormat::Pkl)));
    assert!(!args.force);
    assert_eq!(args.input, "moon.yml");
    let _graph: IndexMap<String, Schema> = IndexMap::new();
}
