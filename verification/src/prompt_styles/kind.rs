//! Selecting a style by kind.

use vstd::prelude::*;
use vstd::string::*;
use crate::field_map::FieldMap;
use crate::prompt_styles::markdown::{markdown_block, MarkdownPromptStyle};
use crate::prompt_styles::xml::{xml_block, XmlPromptStyle};
use crate::prompt_styles::yaml::{lowercase, yaml_block, YamlPromptStyle};
use crate::prompt_styles::{render_fields, FieldLayout, PromptStyle};
use crate::text::same_text;

verus! {

/// The styles that can be selected. The set is closed: a value of this type
/// always names one of them.
#[derive(Clone, Copy, Debug, PartialEq, Eq, Structural)]
pub enum StyleKind {
    /// Tag-delimited, as [`XmlPromptStyle`].
    Xml,
    /// Heading-delimited, as [`MarkdownPromptStyle`].
    Markdown,
    /// Indented key-value, as [`YamlPromptStyle`].
    Yaml,
}

/// The kind that a selector names. A selector has to be the name of a kind,
/// letter for letter: there is no nearest match and no fallback.
pub open spec fn kind_named(selector: Seq<char>) -> Option<StyleKind> {
    if selector == seq!['X', 'm', 'l'] {
        Some(StyleKind::Xml)
    } else if selector == seq!['M', 'a', 'r', 'k', 'd', 'o', 'w', 'n'] {
        Some(StyleKind::Markdown)
    } else if selector == seq!['Y', 'a', 'm', 'l'] {
        Some(StyleKind::Yaml)
    } else {
        None
    }
}

/// The error for a selector that names no kind.
#[derive(Debug, PartialEq, Eq)]
pub struct UnknownStyle {
    /// The selector as it was given.
    pub selector: String,
}

impl Default for StyleKind {
    /// The tag-delimited style is the one used when none is chosen.
    fn default() -> (kind: StyleKind)
        ensures
            kind == StyleKind::Xml,
    {
        StyleKind::Xml
    }
}

impl StyleKind {
    /// Finds the kind that `selector` names. A selector that names none is an
    /// error, which carries the selector: no kind stands in for another.
    pub fn from_name(selector: &str) -> (found: Result<StyleKind, UnknownStyle>)
        ensures
            match found {
                Ok(kind) => kind_named(selector@) == Some(kind),
                Err(unknown) => kind_named(selector@) is None && unknown.selector@ == selector@,
            },
    {
        proof {
            reveal_strlit("Xml");
            reveal_strlit("Markdown");
            reveal_strlit("Yaml");
            assert("Xml"@ =~= seq!['X', 'm', 'l']);
            assert("Markdown"@ =~= seq!['M', 'a', 'r', 'k', 'd', 'o', 'w', 'n']);
            assert("Yaml"@ =~= seq!['Y', 'a', 'm', 'l']);
        }
        if same_text(selector, "Xml") {
            Ok(StyleKind::Xml)
        } else if same_text(selector, "Markdown") {
            Ok(StyleKind::Markdown)
        } else if same_text(selector, "Yaml") {
            Ok(StyleKind::Yaml)
        } else {
            Err(UnknownStyle { selector: selector.to_owned() })
        }
    }
}

impl FieldLayout for StyleKind {
    open spec fn field_block(&self, name: Seq<char>, value: Seq<char>) -> Seq<char> {
        match *self {
            StyleKind::Xml => xml_block(name, value),
            StyleKind::Markdown => markdown_block(name, value),
            StyleKind::Yaml => yaml_block(lowercase(name), value),
        }
    }

    fn encode_field(&self, name: &str, value: &str) -> (block: String) {
        match *self {
            StyleKind::Xml => XmlPromptStyle.encode_field(name, value),
            StyleKind::Markdown => MarkdownPromptStyle.encode_field(name, value),
            StyleKind::Yaml => YamlPromptStyle.encode_field(name, value),
        }
    }
}

impl PromptStyle for StyleKind {
    fn format(&self, input_map: &FieldMap, order: Option<Vec<&str>>) -> (out: String) {
        render_fields(self, input_map, order)
    }
}

} // verus!
