//! The command through which an application hands over the contents of its
//! text boxes and gets one string back, ready for the clipboard.

use vstd::prelude::*;
use vstd::string::*;
use crate::field_map::FieldMap;
use crate::prompt_styles::{default_order, render_fields, rendered, FieldLayout};

verus! {

/// The layout of the command's output: the value on lines of its own between
/// an opening and a closing tag.
pub struct TagLinesStyle;

/// A field as the command writes it: the opening tag, the value and the
/// closing tag, each followed by a line feed.
pub open spec fn tag_lines_block(name: Seq<char>, value: Seq<char>) -> Seq<char> {
    seq!['<'] + name + seq!['>', '\n'] + value + seq!['\n', '<', '/'] + name + seq!['>', '\n']
}

impl FieldLayout for TagLinesStyle {
    open spec fn field_block(&self, name: Seq<char>, value: Seq<char>) -> Seq<char> {
        tag_lines_block(name, value)
    }

    fn encode_field(&self, name: &str, value: &str) -> (block: String) {
        proof {
            reveal_strlit("<");
            reveal_strlit(">\n");
            reveal_strlit("\n</");
        }
        let mut block = String::new();
        block.append("<");
        block.append(name);
        block.append(">\n");
        block.append(value);
        block.append("\n</");
        block.append(name);
        block.append(">\n");
        assert(block@ =~= tag_lines_block(name@, value@));
        block
    }
}

/// Turns the contents of the text boxes into one string: the fields Role,
/// Task, Context and Constraints, in that sequence, each between tags on
/// lines of their own. A text box that is missing or holds only whitespace is
/// left out. The command never fails.
pub fn process_input(input_map: &FieldMap) -> (result: Result<String, String>)
    ensures
        result matches Ok(output) && output@ == rendered(
            &TagLinesStyle,
            input_map@,
            default_order(),
        ),
{
    Ok(render_fields(&TagLinesStyle, input_map, None))
}

} // verus!
