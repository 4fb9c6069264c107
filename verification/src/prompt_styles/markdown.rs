//! The heading-delimited style.

use vstd::prelude::*;
use vstd::string::*;
use crate::field_map::FieldMap;
use crate::prompt_styles::{render_fields, FieldLayout, PromptStyle};

verus! {

/// The heading-delimited style: a level-one heading with the field's name, a
/// blank line, the value, and a blank line before the next heading.
pub struct MarkdownPromptStyle;

/// A field in the heading-delimited style: `# Name`, a blank line, the value,
/// and two line feeds.
pub open spec fn markdown_block(name: Seq<char>, value: Seq<char>) -> Seq<char> {
    seq!['#', ' '] + name + seq!['\n', '\n'] + value + seq!['\n', '\n']
}

impl FieldLayout for MarkdownPromptStyle {
    open spec fn field_block(&self, name: Seq<char>, value: Seq<char>) -> Seq<char> {
        markdown_block(name, value)
    }

    fn encode_field(&self, name: &str, value: &str) -> (block: String) {
        proof {
            reveal_strlit("# ");
            reveal_strlit("\n\n");
        }
        let mut block = String::new();
        block.append("# ");
        block.append(name);
        block.append("\n\n");
        block.append(value);
        block.append("\n\n");
        assert(block@ =~= markdown_block(name@, value@));
        block
    }
}

impl PromptStyle for MarkdownPromptStyle {
    fn format(&self, input_map: &FieldMap, order: Option<Vec<&str>>) -> (out: String) {
        render_fields(self, input_map, order)
    }
}

} // verus!
