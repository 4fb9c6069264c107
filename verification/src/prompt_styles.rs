//! Prompt styles: the layouts in which a set of named fields can be written
//! out, and the rendering rule that all of them share.

use vstd::prelude::*;
use vstd::string::*;
use crate::field_map::FieldMap;
use crate::text::{strip_final_newline, trim, trimmed, views, without_final_newline};

pub mod kind;
pub mod laws;
pub mod markdown;
pub mod xml;
pub mod yaml;

pub use kind::{StyleKind, UnknownStyle};
pub use markdown::MarkdownPromptStyle;
pub use xml::XmlPromptStyle;
pub use yaml::YamlPromptStyle;

verus! {

/// How a style writes one field.
pub trait FieldLayout {
    /// The text that a field contributes to the output, given its name and
    /// its trimmed, non-empty value.
    spec fn field_block(&self, name: Seq<char>, value: Seq<char>) -> Seq<char>;

    /// Writes one field out.
    fn encode_field(&self, name: &str, value: &str) -> (block: String)
        ensures
            block@ == self.field_block(name@, value@),
    ;
}

/// A layout for prompt fields.
///
/// A style decides how one field is written, through [`FieldLayout`]; which
/// fields are written, and in what sequence, is the same for every style and
/// fixed by [`rendered`].
pub trait PromptStyle: FieldLayout {
    /// Renders the fields of `input_map` that `order` names, in that
    /// sequence; without an `order`, in the sequence of [`default_order`].
    fn format(&self, input_map: &FieldMap, order: Option<Vec<&str>>) -> (out: String)
        ensures
            out@ == rendered(self, input_map@, order_names(order)),
    ;
}

/// The field names that are rendered, in sequence, when the caller gives no
/// order of their own: Role, Task, Context, Constraints.
pub open spec fn default_order() -> Seq<Seq<char>> {
    seq![
        seq!['R', 'o', 'l', 'e'],
        seq!['T', 'a', 's', 'k'],
        seq!['C', 'o', 'n', 't', 'e', 'x', 't'],
        seq!['C', 'o', 'n', 's', 't', 'r', 'a', 'i', 'n', 't', 's'],
    ]
}

/// The names that an optional order stands for.
pub open spec fn order_names(order: Option<Vec<&str>>) -> Seq<Seq<char>> {
    match order {
        Some(names) => views(names@),
        None => default_order(),
    }
}

/// Whether the field `name` is written out: it has a value, and the value is
/// more than whitespace.
pub open spec fn is_included(fields: Map<Seq<char>, Seq<char>>, name: Seq<char>) -> bool {
    fields.contains_key(name) && trimmed(fields[name]).len() > 0
}

/// What the field `name` contributes to the output: its block, or nothing if
/// the field is left out.
pub open spec fn field_piece<S: FieldLayout + ?Sized>(
    style: &S,
    fields: Map<Seq<char>, Seq<char>>,
    name: Seq<char>,
) -> Seq<char> {
    if is_included(fields, name) {
        style.field_block(name, trimmed(fields[name]))
    } else {
        Seq::empty()
    }
}

/// The pieces of the fields named by `order`, one after another.
pub open spec fn body<S: FieldLayout + ?Sized>(
    style: &S,
    fields: Map<Seq<char>, Seq<char>>,
    order: Seq<Seq<char>>,
) -> Seq<char>
    decreases order.len(),
{
    if order.len() == 0 {
        Seq::empty()
    } else {
        body(style, fields, order.drop_last()) + field_piece(style, fields, order.last())
    }
}

/// The rendered output: the body without one final line feed.
pub open spec fn rendered<S: FieldLayout + ?Sized>(
    style: &S,
    fields: Map<Seq<char>, Seq<char>>,
    order: Seq<Seq<char>>,
) -> Seq<char> {
    without_final_newline(body(style, fields, order))
}

/// The default field order.
pub fn default_field_order() -> (names: Vec<&'static str>)
    ensures
        views(names@) == default_order(),
{
    let mut names: Vec<&'static str> = Vec::new();
    names.push("Role");
    names.push("Task");
    names.push("Context");
    names.push("Constraints");
    proof {
        reveal_strlit("Role");
        reveal_strlit("Task");
        reveal_strlit("Context");
        reveal_strlit("Constraints");
        assert(names@[0]@ =~= default_order()[0]);
        assert(names@[1]@ =~= default_order()[1]);
        assert(names@[2]@ =~= default_order()[2]);
        assert(names@[3]@ =~= default_order()[3]);
        assert(views(names@) =~= default_order());
    }
    names
}

/// Renders with any style: the loop that every `format` runs.
pub fn render_fields<S: FieldLayout>(
    style: &S,
    input_map: &FieldMap,
    order: Option<Vec<&str>>,
) -> (out: String)
    ensures
        out@ == rendered(style, input_map@, order_names(order)),
{
    let names: Vec<&str> = match order {
        Some(names) => names,
        None => default_field_order(),
    };
    let ghost wanted = views(names@);
    let mut out = String::new();
    let mut i: usize = 0;
    assert(wanted.take(0) =~= Seq::<Seq<char>>::empty());
    while i < names.len()
        invariant
            i <= names.len(),
            wanted == views(names@),
            out@ == body(style, input_map@, wanted.take(i as int)),
        decreases names.len() - i,
    {
        let name: &str = names[i];
        proof {
            let next = wanted.take(i + 1);
            assert(next.drop_last() =~= wanted.take(i as int));
            assert(next.last() == name@);
        }
        match input_map.get(name) {
            Some(raw) => {
                let value = trim(raw.as_str());
                if !value.is_empty() {
                    let block = style.encode_field(name, value);
                    out.append(block.as_str());
                }
            },
            None => {},
        }
        i += 1;
    }
    assert(wanted.take(names.len() as int) =~= wanted);
    strip_final_newline(out)
}

} // verus!
