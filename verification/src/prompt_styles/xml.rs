//! The tag-delimited style.

use vstd::prelude::*;
use vstd::string::*;
use crate::field_map::FieldMap;
use crate::prompt_styles::{render_fields, FieldLayout, PromptStyle};

verus! {

/// The tag-delimited style: `<Name>value</Name>`, one field per line.
pub struct XmlPromptStyle;

/// A field in the tag-delimited style: the value between an opening and a
/// closing tag that carry the field's name, then a line feed.
pub open spec fn xml_block(name: Seq<char>, value: Seq<char>) -> Seq<char> {
    seq!['<'] + name + seq!['>'] + value + seq!['<', '/'] + name + seq!['>', '\n']
}

impl FieldLayout for XmlPromptStyle {
    open spec fn field_block(&self, name: Seq<char>, value: Seq<char>) -> Seq<char> {
        xml_block(name, value)
    }

    fn encode_field(&self, name: &str, value: &str) -> (block: String) {
        proof {
            reveal_strlit("<");
            reveal_strlit(">");
            reveal_strlit("</");
            reveal_strlit(">\n");
        }
        let mut block = String::new();
        block.append("<");
        block.append(name);
        block.append(">");
        block.append(value);
        block.append("</");
        block.append(name);
        block.append(">\n");
        assert(block@ =~= xml_block(name@, value@));
        block
    }
}

impl PromptStyle for XmlPromptStyle {
    fn format(&self, input_map: &FieldMap, order: Option<Vec<&str>>) -> (out: String) {
        render_fields(self, input_map, order)
    }
}

} // verus!
