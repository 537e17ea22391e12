//! Caller-supplied rendering options, the render-type switch, and the
//! renderer's typed failures.

use vstd::prelude::*;
use crate::strutil::{lower_of, str_lowercase, str_eq};

verus! {

/// Whether the output is meant as a template or as a schema.  The switch is
/// carried through the options; no rendering branch reads it.
#[derive(Clone, Copy, Debug, PartialEq, Eq, Structural)]
pub enum RenderType {
    Template,
    Schema,
}

/// How enum types are translated.
#[derive(Clone, Copy, Debug, PartialEq, Eq, Structural)]
pub enum EnumTranslation {
    TypeAlias,
    LiteralUnion,
}

/// Whether emitted classes or the root module carry the `open` modifier.
#[derive(Clone, Copy, Debug, PartialEq, Eq, Structural)]
pub enum OpenStructs {
    Open,
    Closed,
}

/// How the top-level struct is translated.
#[derive(Clone, Copy, Debug, PartialEq, Eq, Structural)]
pub enum ConfigTranslation {
    Module,
    Class,
}

/// How optional type annotations are rendered.
#[derive(Clone, Copy, Debug, PartialEq, Eq, Structural)]
pub enum OptionalFormat {
    Optional,
    OptionalExplicitNothing,
}

/// The policy for fields whose optionality is unknown.
#[derive(Clone, Copy, Debug, PartialEq, Eq, Structural)]
pub enum PropertyDefault {
    RequireProperties,
    OptionalProperties,
}

/// A typed rendering failure.
#[derive(Clone, Debug)]
pub enum RenderError {
    /// A structural shape the target notation cannot express at all.
    UnsupportedShape(String),
    /// An option value the renderer does not recognize.
    UnsupportedOption(String),
    /// The graph is empty, so there is no root to render.
    MissingRoot,
}

impl RenderError {
    /// A short human-readable account of the failure.
    pub fn message(&self) -> (r: String)
        ensures
            self matches RenderError::UnsupportedShape(m) ==> r@ == m@,
            self matches RenderError::UnsupportedOption(m) ==> r@ == "unsupported option: "@
                + m@,
            self matches RenderError::MissingRoot ==> r@ == "the schema graph is empty"@,
    {
        match self {
            RenderError::UnsupportedShape(m) => m.clone(),
            RenderError::UnsupportedOption(m) => {
                let mut r = String::new();
                r.append("unsupported option: ");
                r.append(m.as_str());
                proof {
                    assert(r@ =~= "unsupported option: "@ + m@);
                }
                r
            },
            RenderError::MissingRoot => {
                let mut r = String::new();
                r.append("the schema graph is empty");
                proof {
                    assert(r@ =~= "the schema graph is empty"@);
                }
                r
            },
        }
    }
}

/// The lowercased spellings accepted for the template render type.
pub open spec fn spec_is_template_word(s: Seq<char>) -> bool {
    s == "template"@ || s == "tmpl"@ || s == "t"@
}

/// The lowercased spellings accepted for the schema render type.
pub open spec fn spec_is_schema_word(s: Seq<char>) -> bool {
    s == "schema"@ || s == "sch"@ || s == "s"@
}

impl RenderType {
    /// Parses a render-type name, case-insensitively.
    pub fn parse(s: &str) -> (r: Result<RenderType, RenderError>)
        ensures
            (r matches Ok(v) && v == RenderType::Template) <==> spec_is_template_word(
                lower_of(s@),
            ),
            (r matches Ok(v) && v == RenderType::Schema) <==> spec_is_schema_word(lower_of(s@)),
            (r matches Err(e) && e matches RenderError::UnsupportedOption(m) && m@ == s@) <==> (
            !spec_is_template_word(lower_of(s@)) && !spec_is_schema_word(lower_of(s@))),
    {
        proof {
            reveal_strlit("template");
            reveal_strlit("tmpl");
            reveal_strlit("t");
            reveal_strlit("schema");
            reveal_strlit("sch");
            reveal_strlit("s");
            assert("template"@.len() == 8);
            assert("tmpl"@.len() == 4);
            assert("t"@.len() == 1);
            assert("schema"@.len() == 6);
            assert("sch"@.len() == 3);
            assert("s"@.len() == 1);
            assert("t"@[0] == 't' && "s"@[0] == 's');
        }
        let low = str_lowercase(s);
        let l = low.as_str();
        if str_eq(l, "template") || str_eq(l, "tmpl") || str_eq(l, "t") {
            Ok(RenderType::Template)
        } else if str_eq(l, "schema") || str_eq(l, "sch") || str_eq(l, "s") {
            Ok(RenderType::Schema)
        } else {
            let mut m = String::new();
            m.append(s);
            proof {
                assert(m@ =~= s@);
            }
            Err(RenderError::UnsupportedOption(m))
        }
    }
}

impl std::str::FromStr for RenderType {
    type Err = RenderError;

    fn from_str(s: &str) -> Result<RenderType, RenderError> {
        RenderType::parse(s)
    }
}

/// The full, caller-enumerated configuration of one rendering pass.
#[derive(Clone, Debug)]
pub struct PklSchemaOptions {
    /// The name to use for the root declaration in place of the graph's
    /// first key.
    pub module_name: Option<String>,
    /// Include documentation comments from schema descriptions.
    pub include_docs: bool,
    /// Include type constraints where available.
    pub include_constraints: bool,
    /// Whether the output is meant as a template or a schema.
    pub render_type: RenderType,
    /// Disable references and render all types inline recursively.
    pub disable_references: bool,
    /// The indentation unit.
    pub indent: String,
    /// Include default values in the schema.
    pub include_defaults: bool,
    /// Include deprecation annotations in the schema.
    pub include_deprecated: bool,
    /// Whether to comment out optional fields.
    pub comment_out_optional: bool,
    /// Property names excluded from the created schema.
    pub exclude_properties: Vec<String>,
    /// Import statements to prepend to the generated module, verbatim.
    pub added_imports: Vec<String>,
    /// How to translate enum types.
    pub enum_translation: EnumTranslation,
    /// Whether emitted classes are `open`.
    pub open_structs: OpenStructs,
    /// Whether the root module is `open`.
    pub open_module: OpenStructs,
    /// How to translate the top-level struct.
    pub config_translation: ConfigTranslation,
    /// How to render optional type annotations.
    pub optional_format: OptionalFormat,
    /// The policy for fields whose optionality is unknown.
    pub property_default: PropertyDefault,
}

impl Default for PklSchemaOptions {
    /// The benchmark configuration: docs, constraints and defaults on,
    /// deprecations off, two-space indent, aliases for enums, an open root
    /// module rendered as a module.
    fn default() -> (r: Self)
        ensures
            r.module_name matches Option::None,
            r.include_docs == true,
            r.include_constraints == true,
            r.render_type == RenderType::Schema,
            r.disable_references == false,
            r.indent@ == "  "@,
            r.include_defaults == true,
            r.include_deprecated == false,
            r.comment_out_optional == false,
            r.exclude_properties@.len() == 0,
            r.added_imports@.len() == 0,
            r.enum_translation == EnumTranslation::TypeAlias,
            r.open_structs == OpenStructs::Open,
            r.open_module == OpenStructs::Open,
            r.config_translation == ConfigTranslation::Module,
            r.optional_format == OptionalFormat::Optional,
            r.property_default == PropertyDefault::RequireProperties,
    {
        let mut indent = String::new();
        indent.append("  ");
        proof {
            assert(indent@ =~= "  "@);
        }
        PklSchemaOptions {
            module_name: Option::None,
            include_docs: true,
            include_constraints: true,
            render_type: RenderType::Schema,
            disable_references: false,
            indent,
            include_defaults: true,
            include_deprecated: false,
            comment_out_optional: false,
            exclude_properties: Vec::new(),
            added_imports: Vec::new(),
            enum_translation: EnumTranslation::TypeAlias,
            open_structs: OpenStructs::Open,
            open_module: OpenStructs::Open,
            config_translation: ConfigTranslation::Module,
            optional_format: OptionalFormat::Optional,
            property_default: PropertyDefault::RequireProperties,
        }
    }
}

} // verus!
