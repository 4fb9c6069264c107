//! What holds of every rendering.

use vstd::prelude::*;
use crate::prompt_styles::kind::StyleKind;
use crate::prompt_styles::markdown::MarkdownPromptStyle;
use crate::prompt_styles::xml::XmlPromptStyle;
use crate::prompt_styles::yaml::{indented, lowercase, YamlPromptStyle};
use crate::prompt_styles::{
    body, default_order, field_piece, is_included, order_names, rendered, FieldLayout,
};
use crate::text::{
    is_blank, is_whitespace, lemma_lines_shape, lemma_trailing_newlines_append,
    lemma_trimmed_bounds, lemma_without_final_newline_counts, lines, trailing_newlines, trimmed,
    views, without_final_newline,
};

verus! {

/// The pieces that the names of `order` contribute, one for each name, empty
/// for a field that is left out.
pub open spec fn pieces<S: FieldLayout + ?Sized>(
    style: &S,
    fields: Map<Seq<char>, Seq<char>>,
    order: Seq<Seq<char>>,
) -> Seq<Seq<char>> {
    Seq::new(order.len(), |i: int| field_piece(style, fields, order[i]))
}

/// The parts one after another.
pub open spec fn joined(parts: Seq<Seq<char>>) -> Seq<char>
    decreases parts.len(),
{
    if parts.len() == 0 {
        Seq::empty()
    } else {
        joined(parts.drop_last()) + parts.last()
    }
}

/// Whether every element of `picks` is a position in a sequence of length `n`.
pub open spec fn picks_within(picks: Seq<int>, n: nat) -> bool {
    forall|i: int| 0 <= i < picks.len() ==> 0 <= #[trigger] picks[i] < n
}

/// The names of `order` at the positions `picks`, in the sequence of `picks`.
pub open spec fn rearranged<A>(order: Seq<A>, picks: Seq<int>) -> Seq<A> {
    Seq::new(picks.len(), |i: int| order[picks[i]])
}

/// Renderings agree where every name of the order contributes the same
/// piece, whatever the styles and the mappings are.
pub proof fn lemma_same_pieces_same_rendering<S: FieldLayout, T: FieldLayout>(
    style: &S,
    fields: Map<Seq<char>, Seq<char>>,
    other_style: &T,
    other_fields: Map<Seq<char>, Seq<char>>,
    order: Seq<Seq<char>>,
)
    requires
        forall|i: int|
            0 <= i < order.len() ==> field_piece(style, fields, #[trigger] order[i])
                == field_piece(other_style, other_fields, order[i]),
    ensures
        body(style, fields, order) == body(other_style, other_fields, order),
        rendered(style, fields, order) == rendered(other_style, other_fields, order),
    decreases order.len(),
{
    if order.len() > 0 {
        let front = order.drop_last();
        assert forall|i: int| 0 <= i < front.len() implies field_piece(
            style,
            fields,
            #[trigger] front[i],
        ) == field_piece(other_style, other_fields, front[i]) by {
            assert(front[i] == order[i]);
        }
        lemma_same_pieces_same_rendering(style, fields, other_style, other_fields, front);
        assert(order.last() == order[order.len() - 1]);
    }
}

/// Where none of the requested fields has a value that is more than
/// whitespace, the output is empty.
pub proof fn law_nothing_to_render<S: FieldLayout>(
    style: &S,
    fields: Map<Seq<char>, Seq<char>>,
    order: Seq<Seq<char>>,
)
    requires
        forall|i: int| 0 <= i < order.len() ==> !is_included(fields, #[trigger] order[i]),
    ensures
        rendered(style, fields, order) == Seq::<char>::empty(),
{
    lemma_nothing_included(style, fields, order);
}

proof fn lemma_nothing_included<S: FieldLayout>(
    style: &S,
    fields: Map<Seq<char>, Seq<char>>,
    order: Seq<Seq<char>>,
)
    requires
        forall|i: int| 0 <= i < order.len() ==> !is_included(fields, #[trigger] order[i]),
    ensures
        body(style, fields, order) == Seq::<char>::empty(),
    decreases order.len(),
{
    if order.len() > 0 {
        let front = order.drop_last();
        assert forall|i: int| 0 <= i < front.len() implies !is_included(
            fields,
            #[trigger] front[i],
        ) by {
            assert(front[i] == order[i]);
        }
        lemma_nothing_included(style, fields, front);
        assert(order.last() == order[order.len() - 1]);
        assert(body(style, fields, order) =~= Seq::<char>::empty());
    }
}

/// A field whose value is only whitespace renders as if the field were not
/// in the mapping at all.
pub proof fn law_blank_is_absent<S: FieldLayout>(
    style: &S,
    fields: Map<Seq<char>, Seq<char>>,
    name: Seq<char>,
    blank: Seq<char>,
    order: Seq<Seq<char>>,
)
    requires
        is_blank(blank),
    ensures
        rendered(style, fields.insert(name, blank), order) == rendered(
            style,
            fields.remove(name),
            order,
        ),
{
    lemma_trimmed_bounds(blank);
    lemma_same_pieces_same_rendering(
        style,
        fields.insert(name, blank),
        style,
        fields.remove(name),
        order,
    );
}

/// The body of the output is the pieces of the requested names, one after
/// another in the requested sequence.
pub proof fn law_body_is_joined_pieces<S: FieldLayout>(
    style: &S,
    fields: Map<Seq<char>, Seq<char>>,
    order: Seq<Seq<char>>,
)
    ensures
        body(style, fields, order) == joined(pieces(style, fields, order)),
        rendered(style, fields, order) == without_final_newline(
            joined(pieces(style, fields, order)),
        ),
    decreases order.len(),
{
    if order.len() > 0 {
        law_body_is_joined_pieces(style, fields, order.drop_last());
        assert(pieces(style, fields, order).drop_last() =~= pieces(
            style,
            fields,
            order.drop_last(),
        ));
    }
}

/// Rearranging the order rearranges the pieces in the same way and changes
/// none of them: the piece of a name depends on the style, the mapping and
/// that name alone, not on where the name stands or what stands beside it.
pub proof fn law_reordering<S: FieldLayout>(
    style: &S,
    fields: Map<Seq<char>, Seq<char>>,
    order: Seq<Seq<char>>,
    picks: Seq<int>,
)
    requires
        picks_within(picks, order.len()),
    ensures
        pieces(style, fields, rearranged(order, picks)) == rearranged(
            pieces(style, fields, order),
            picks,
        ),
        rendered(style, fields, rearranged(order, picks)) == without_final_newline(
            joined(rearranged(pieces(style, fields, order), picks)),
        ),
{
    law_body_is_joined_pieces(style, fields, rearranged(order, picks));
    assert(pieces(style, fields, rearranged(order, picks)) =~= rearranged(
        pieces(style, fields, order),
        picks,
    ));
}

/// Rendering without an order is rendering with Role, Task, Context and
/// Constraints, in that sequence, as the order.
pub proof fn law_default_order<S: FieldLayout>(
    style: &S,
    fields: Map<Seq<char>, Seq<char>>,
    explicit: Vec<&str>,
)
    requires
        views(explicit@) == default_order(),
    ensures
        rendered(style, fields, order_names(None)) == rendered(
            style,
            fields,
            order_names(Some(explicit)),
        ),
{
}

/// A kind renders as the style that it names.
pub proof fn law_kind_renders_as_style(
    kind: StyleKind,
    fields: Map<Seq<char>, Seq<char>>,
    order: Seq<Seq<char>>,
)
    ensures
        rendered(&kind, fields, order) == match kind {
            StyleKind::Xml => rendered(&XmlPromptStyle, fields, order),
            StyleKind::Markdown => rendered(&MarkdownPromptStyle, fields, order),
            StyleKind::Yaml => rendered(&YamlPromptStyle, fields, order),
        },
{
    match kind {
        StyleKind::Xml => {
            lemma_same_pieces_same_rendering(&kind, fields, &XmlPromptStyle, fields, order);
        },
        StyleKind::Markdown => {
            lemma_same_pieces_same_rendering(&kind, fields, &MarkdownPromptStyle, fields, order);
        },
        StyleKind::Yaml => {
            lemma_same_pieces_same_rendering(&kind, fields, &YamlPromptStyle, fields, order);
        },
    }
}

/// How many line feeds a block of the kind ends with.
pub open spec fn block_newlines(kind: StyleKind) -> nat {
    match kind {
        StyleKind::Xml => 1,
        StyleKind::Markdown => 2,
        StyleKind::Yaml => 1,
    }
}

/// The block of a trimmed, non-empty value holds more than line feeds and
/// ends with as many of them as its kind is laid out with.
pub proof fn lemma_block_newlines(kind: StyleKind, name: Seq<char>, value: Seq<char>)
    requires
        value.len() > 0,
        !is_whitespace(value.last()),
    ensures
        kind.field_block(name, value).len() > block_newlines(kind),
        trailing_newlines(kind.field_block(name, value)) == block_newlines(kind),
{
    let block = kind.field_block(name, value);
    assert(value.last() != '\n');
    match kind {
        StyleKind::Xml => {
            let front = seq!['<'] + name + seq!['>'] + value + seq!['<', '/'] + name;
            assert(block =~= front + seq!['>', '\n']);
            assert(block.drop_last() =~= front + seq!['>']);
            assert(block.drop_last().last() == '>');
            assert(trailing_newlines(block.drop_last()) == 0);
        },
        StyleKind::Markdown => {
            let front = seq!['#', ' '] + name + seq!['\n', '\n'] + value;
            assert(block =~= front + seq!['\n', '\n']);
            assert(block.drop_last() =~= front + seq!['\n']);
            assert(block.drop_last().drop_last() =~= front);
            assert(front.last() == value.last());
            assert(trailing_newlines(front) == 0);
            assert(trailing_newlines(block.drop_last()) == 1);
        },
        StyleKind::Yaml => {
            let key = lowercase(name);
            if value.contains('\n') {
                lemma_lines_shape(value);
                let ls = lines(value);
                let head = key + seq![':', ' ', '|', '\n'];
                let front = head + indented(ls.drop_last()) + seq![' ', ' '] + ls.last();
                assert(block =~= front + seq!['\n']);
                assert(block.drop_last() =~= front);
                if ls.last().len() > 0 {
                    assert(front.last() == ls.last().last());
                    assert(ls.last().last() == ls[ls.len() - 1][ls.last().len() - 1]);
                } else {
                    assert(front.last() == ' ');
                }
                assert(trailing_newlines(front) == 0);
            } else {
                let front = key + seq![':', ' '] + value;
                assert(block =~= front + seq!['\n']);
                assert(block.drop_last() =~= front);
                assert(front.last() == value.last());
                assert(trailing_newlines(front) == 0);
            }
        },
    }
}

/// The body is empty, or it holds more than line feeds and ends with as many
/// of them as one block does.
pub proof fn lemma_body_newlines(
    kind: StyleKind,
    fields: Map<Seq<char>, Seq<char>>,
    order: Seq<Seq<char>>,
)
    ensures
        body(&kind, fields, order).len() == 0 || (body(&kind, fields, order).len()
            > block_newlines(kind) && trailing_newlines(body(&kind, fields, order))
            == block_newlines(kind)),
    decreases order.len(),
{
    if order.len() > 0 {
        let name = order.last();
        lemma_body_newlines(kind, fields, order.drop_last());
        if is_included(fields, name) {
            lemma_trimmed_bounds(fields[name]);
            lemma_block_newlines(kind, name, trimmed(fields[name]));
            lemma_trailing_newlines_append(
                body(&kind, fields, order.drop_last()),
                field_piece(&kind, fields, name),
            );
        } else {
            assert(body(&kind, fields, order) =~= body(&kind, fields, order.drop_last()));
        }
    }
}

/// In the tag-delimited and the indented key-value style, an output that is
/// not empty does not end with a line feed.
pub proof fn law_no_final_newline(
    kind: StyleKind,
    fields: Map<Seq<char>, Seq<char>>,
    order: Seq<Seq<char>>,
)
    requires
        kind != StyleKind::Markdown,
    ensures
        rendered(&kind, fields, order).len() > 0 ==> rendered(&kind, fields, order).last()
            != '\n',
{
    lemma_body_newlines(kind, fields, order);
    let whole = body(&kind, fields, order);
    if whole.len() > 0 {
        lemma_without_final_newline_counts(whole, 1);
    }
}

/// In the heading-delimited style, an output that is not empty ends with one
/// line feed, and with one only.
pub proof fn law_markdown_final_newline(
    fields: Map<Seq<char>, Seq<char>>,
    order: Seq<Seq<char>>,
)
    ensures
        rendered(&StyleKind::Markdown, fields, order).len() > 0 ==> trailing_newlines(
            rendered(&StyleKind::Markdown, fields, order),
        ) == 1,
{
    lemma_body_newlines(StyleKind::Markdown, fields, order);
    let whole = body(&StyleKind::Markdown, fields, order);
    if whole.len() > 0 {
        lemma_without_final_newline_counts(whole, 2);
    }
}

/// The same of the three styles themselves: the output of [`XmlPromptStyle`]
/// and of [`YamlPromptStyle`] does not end with a line feed, and that of
/// [`MarkdownPromptStyle`], unless it is empty, ends with exactly one.
pub proof fn law_final_newline_of_styles(
    fields: Map<Seq<char>, Seq<char>>,
    order: Seq<Seq<char>>,
)
    ensures
        rendered(&XmlPromptStyle, fields, order).len() > 0 ==> rendered(
            &XmlPromptStyle,
            fields,
            order,
        ).last() != '\n',
        rendered(&YamlPromptStyle, fields, order).len() > 0 ==> rendered(
            &YamlPromptStyle,
            fields,
            order,
        ).last() != '\n',
        rendered(&MarkdownPromptStyle, fields, order).len() > 0 ==> trailing_newlines(
            rendered(&MarkdownPromptStyle, fields, order),
        ) == 1,
{
    law_kind_renders_as_style(StyleKind::Xml, fields, order);
    law_kind_renders_as_style(StyleKind::Yaml, fields, order);
    law_kind_renders_as_style(StyleKind::Markdown, fields, order);
    law_no_final_newline(StyleKind::Xml, fields, order);
    law_no_final_newline(StyleKind::Yaml, fields, order);
    law_markdown_final_newline(fields, order);
}

/// No output ends with a blank line: whatever the kind, at most one line
/// feed stands at the end.
pub proof fn law_no_trailing_blank_line(
    kind: StyleKind,
    fields: Map<Seq<char>, Seq<char>>,
    order: Seq<Seq<char>>,
)
    ensures
        trailing_newlines(rendered(&kind, fields, order)) <= 1,
{
    lemma_body_newlines(kind, fields, order);
    let whole = body(&kind, fields, order);
    if whole.len() > 0 {
        lemma_without_final_newline_counts(whole, block_newlines(kind));
    }
}

} // verus!
