//! The identifier layer: case conversion for Pkl declarations and
//! properties, and detection and escaping of Pkl's reserved words.

use vstd::prelude::*;
use crate::strutil::{upper_char, low_char, char_upcase, char_downcase, push_char, str_eq};

verus! {

/// The upper-camel conversion: segments split on `_` and `-`, each segment's
/// first character uppercased.  `cap` says whether the next ordinary
/// character starts a segment.
pub open spec fn spec_pascal_rec(s: Seq<char>, cap: bool) -> Seq<char>
    decreases s.len(),
{
    if s.len() == 0 {
        Seq::empty()
    } else {
        let c = s[0];
        if c == '_' || c == '-' {
            spec_pascal_rec(s.skip(1), true)
        } else if cap {
            seq![upper_char(c)] + spec_pascal_rec(s.skip(1), false)
        } else {
            seq![c] + spec_pascal_rec(s.skip(1), false)
        }
    }
}

/// The name in upper camel case, as used for Pkl modules and classes.
pub open spec fn spec_pascal(s: Seq<char>) -> Seq<char> {
    spec_pascal_rec(s, true)
}

/// The lower-camel conversion.  `cap` marks a character right after a
/// separator; `first` is true until a character has been passed through
/// unconverted, and lowercases that one character.
pub open spec fn spec_camel_rec(s: Seq<char>, cap: bool, first: bool) -> Seq<char>
    decreases s.len(),
{
    if s.len() == 0 {
        Seq::empty()
    } else {
        let c = s[0];
        if c == '_' || c == '-' {
            spec_camel_rec(s.skip(1), true, first)
        } else if cap {
            seq![upper_char(c)] + spec_camel_rec(s.skip(1), false, first)
        } else if first {
            seq![low_char(c)] + spec_camel_rec(s.skip(1), false, false)
        } else {
            seq![c] + spec_camel_rec(s.skip(1), false, first)
        }
    }
}

/// The name in lower camel case, as used for Pkl properties.
pub open spec fn spec_camel(s: Seq<char>) -> Seq<char> {
    spec_camel_rec(s, false, true)
}

/// Whether the name is one of Pkl's reserved words.
pub open spec fn spec_is_keyword(s: Seq<char>) -> bool {
    ||| s == "abstract"@
    ||| s == "amends"@
    ||| s == "as"@
    ||| s == "case"@
    ||| s == "class"@
    ||| s == "const"@
    ||| s == "default"@
    ||| s == "delete"@
    ||| s == "else"@
    ||| s == "extends"@
    ||| s == "external"@
    ||| s == "false"@
    ||| s == "fixed"@
    ||| s == "for"@
    ||| s == "function"@
    ||| s == "hidden"@
    ||| s == "if"@
    ||| s == "import"@
    ||| s == "import*"@
    ||| s == "in"@
    ||| s == "is"@
    ||| s == "let"@
    ||| s == "local"@
    ||| s == "module"@
    ||| s == "new"@
    ||| s == "nothing"@
    ||| s == "null"@
    ||| s == "open"@
    ||| s == "out"@
    ||| s == "outer"@
    ||| s == "override"@
    ||| s == "overrides"@
    ||| s == "protected"@
    ||| s == "read"@
    ||| s == "read*"@
    ||| s == "record"@
    ||| s == "super"@
    ||| s == "switch"@
    ||| s == "this"@
    ||| s == "throw"@
    ||| s == "trace"@
    ||| s == "true"@
    ||| s == "typealias"@
    ||| s == "unknown"@
    ||| s == "vararg"@
    ||| s == "when"@
}

/// The name wrapped in backquotes when it is a reserved word, unchanged
/// otherwise.
pub open spec fn spec_escape(s: Seq<char>) -> Seq<char> {
    if spec_is_keyword(s) { "`"@ + s + "`"@ } else { s }
}

    /// Converts a name to upper camel case for classes and modules.
    pub fn to_pascal_case(name: &str) -> (r: String)
        ensures
            r@ == spec_pascal(name@),
    {
        let len = name.unicode_len();
        let mut result = String::new();
        let mut capitalize_next = true;
        let mut i: usize = 0;
        proof {
            assert(name@.skip(0) =~= name@);
            assert(Seq::<char>::empty() + spec_pascal_rec(name@, true) =~= spec_pascal_rec(
                name@,
                true,
            ));
        }
        while i < len
            invariant
                len == name@.len(),
                i <= len,
                spec_pascal(name@) == result@ + spec_pascal_rec(name@.skip(i as int), capitalize_next),
            decreases len - i,
        {
            let ch = name.get_char(i);
            proof {
                assert(name@.skip(i as int)[0] == name@[i as int]);
                assert(name@.skip(i as int).skip(1) =~= name@.skip(i as int + 1));
            }
            if ch == '_' || ch == '-' {
                capitalize_next = true;
            } else if capitalize_next {
                let up = char_upcase(ch);
                push_char(&mut result, up);
                capitalize_next = false;
            } else {
                push_char(&mut result, ch);
            }
            i += 1;
        }
        proof {
            assert(name@.skip(len as int) =~= Seq::<char>::empty());
            assert(result@ + Seq::<char>::empty() =~= result@);
        }
        result
    }

    /// Converts a name to lower camel case for properties.
    pub fn to_camel_case(name: &str) -> (r: String)
        ensures
            r@ == spec_camel(name@),
    {
        let len = name.unicode_len();
        let mut result = String::new();
        let mut capitalize_next = false;
        let mut first_char = true;
        let mut i: usize = 0;
        proof {
            assert(name@.skip(0) =~= name@);
            assert(Seq::<char>::empty() + spec_camel_rec(name@, false, true) =~= spec_camel_rec(
                name@,
                false,
                true,
            ));
        }
        while i < len
            invariant
                len == name@.len(),
                i <= len,
                spec_camel(name@) == result@ + spec_camel_rec(
                    name@.skip(i as int),
                    capitalize_next,
                    first_char,
                ),
            decreases len - i,
        {
            let ch = name.get_char(i);
            proof {
                assert(name@.skip(i as int)[0] == name@[i as int]);
                assert(name@.skip(i as int).skip(1) =~= name@.skip(i as int + 1));
            }
            if ch == '_' || ch == '-' {
                capitalize_next = true;
            } else if capitalize_next {
                let up = char_upcase(ch);
                push_char(&mut result, up);
                capitalize_next = false;
            } else if first_char {
                let lo = char_downcase(ch);
                push_char(&mut result, lo);
                first_char = false;
            } else {
                push_char(&mut result, ch);
            }
            i += 1;
        }
        proof {
            assert(name@.skip(len as int) =~= Seq::<char>::empty());
            assert(result@ + Seq::<char>::empty() =~= result@);
        }
        result
    }

    /// Whether the name is a Pkl keyword and needs escaping.
    pub fn is_pkl_keyword(name: &str) -> (r: bool)
        ensures
            r == spec_is_keyword(name@),
    {
        str_eq(name, "abstract") || str_eq(name, "amends") || str_eq(name, "as") || str_eq(
            name,
            "case",
        ) || str_eq(name, "class") || str_eq(name, "const") || str_eq(name, "default") || str_eq(
            name,
            "delete",
        ) || str_eq(name, "else") || str_eq(name, "extends") || str_eq(name, "external") || str_eq(
            name,
            "false",
        ) || str_eq(name, "fixed") || str_eq(name, "for") || str_eq(name, "function") || str_eq(
            name,
            "hidden",
        ) || str_eq(name, "if") || str_eq(name, "import") || str_eq(name, "import*") || str_eq(
            name,
            "in",
        ) || str_eq(name, "is") || str_eq(name, "let") || str_eq(name, "local") || str_eq(
            name,
            "module",
        ) || str_eq(name, "new") || str_eq(name, "nothing") || str_eq(name, "null") || str_eq(
            name,
            "open",
        ) || str_eq(name, "out") || str_eq(name, "outer") || str_eq(name, "override") || str_eq(
            name,
            "overrides",
        ) || str_eq(name, "protected") || str_eq(name, "read") || str_eq(name, "read*") || str_eq(
            name,
            "record",
        ) || str_eq(name, "super") || str_eq(name, "switch") || str_eq(name, "this") || str_eq(
            name,
            "throw",
        ) || str_eq(name, "trace") || str_eq(name, "true") || str_eq(name, "typealias") || str_eq(
            name,
            "unknown",
        ) || str_eq(name, "vararg") || str_eq(name, "when")
    }

    /// Escapes a name with backquotes when it is a keyword.
    pub fn escape_name(name: &str) -> (r: String)
        ensures
            r@ == spec_escape(name@),
    {
        if is_pkl_keyword(name) {
            let mut r = String::new();
            r.append("`");
            r.append(name);
            r.append("`");
            proof {
                assert(r@ =~= "`"@ + name@ + "`"@);
            }
            r
        } else {
            let mut r = String::new();
            r.append(name);
            proof {
                assert(r@ =~= name@);
            }
            r
        }
    }

} // verus!
