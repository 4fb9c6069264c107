//! The indented key-value style.

use vstd::prelude::*;
use vstd::string::*;
use crate::field_map::FieldMap;
use crate::prompt_styles::{render_fields, FieldLayout, PromptStyle};
use crate::text::{has_newline, lines, split_lines, views};

verus! {

/// The indented key-value style: `key: value` for a value of one line, and a
/// literal block under `key: |` for a value of several. Nothing is quoted or
/// escaped.
pub struct YamlPromptStyle;

/// The lowercase form of a string, as `str::to_lowercase` of the standard
/// library computes it from the Unicode character database.
pub uninterp spec fn lowercase(s: Seq<char>) -> Seq<char>;

/// Calls `str::to_lowercase`. The contract is taken on trust; it claims
/// nothing of the result but that it is the value named [`lowercase`], a
/// function of the characters alone.
#[verifier::external_body]
fn to_lowercase(s: &str) -> (r: String)
    ensures
        r@ == lowercase(s@),
{
    s.to_lowercase()
}

/// Every line behind two spaces and before a line feed, one after another.
pub open spec fn indented(ls: Seq<Seq<char>>) -> Seq<char>
    decreases ls.len(),
{
    if ls.len() == 0 {
        Seq::empty()
    } else {
        indented(ls.drop_last()) + seq![' ', ' '] + ls.last() + seq!['\n']
    }
}

/// A field in the indented key-value style under the key `key`.
pub open spec fn yaml_block(key: Seq<char>, value: Seq<char>) -> Seq<char> {
    if value.contains('\n') {
        key + seq![':', ' ', '|', '\n'] + indented(lines(value))
    } else {
        key + seq![':', ' '] + value + seq!['\n']
    }
}

/// Writes one entry of the indented key-value style. The key is written as
/// it is given.
pub fn yaml_entry(key: &str, value: &str) -> (block: String)
    ensures
        block@ == yaml_block(key@, value@),
{
    proof {
        reveal_strlit(": |\n");
        reveal_strlit(": ");
        reveal_strlit("  ");
        reveal_strlit("\n");
    }
    let mut block = String::new();
    block.append(key);
    if has_newline(value) {
        block.append(": |\n");
        let ls = split_lines(value);
        let ghost head = key@ + seq![':', ' ', '|', '\n'];
        let mut i: usize = 0;
        assert(block@ =~= head);
        assert(views(ls@).take(0) =~= Seq::<Seq<char>>::empty());
        while i < ls.len()
            invariant
                i <= ls.len(),
                block@ == head + indented(views(ls@).take(i as int)),
            decreases ls.len() - i,
        {
            proof {
                reveal_strlit("  ");
                reveal_strlit("\n");
                let next = views(ls@).take(i + 1);
                assert(next.drop_last() =~= views(ls@).take(i as int));
                assert(next.last() == ls@[i as int]@);
            }
            let ghost before = block@;
            block.append("  ");
            block.append(ls[i]);
            block.append("\n");
            assert(block@ =~= before + seq![' ', ' '] + ls@[i as int]@ + seq!['\n']);
            i += 1;
        }
        assert(views(ls@).take(ls.len() as int) =~= views(ls@));
    } else {
        block.append(": ");
        block.append(value);
        block.append("\n");
        assert(block@ =~= key@ + seq![':', ' '] + value@ + seq!['\n']);
    }
    block
}

impl FieldLayout for YamlPromptStyle {
    open spec fn field_block(&self, name: Seq<char>, value: Seq<char>) -> Seq<char> {
        yaml_block(lowercase(name), value)
    }

    fn encode_field(&self, name: &str, value: &str) -> (block: String) {
        let key = to_lowercase(name);
        yaml_entry(key.as_str(), value)
    }
}

impl PromptStyle for YamlPromptStyle {
    fn format(&self, input_map: &FieldMap, order: Option<Vec<&str>>) -> (out: String) {
        render_fields(self, input_map, order)
    }
}

} // verus!
