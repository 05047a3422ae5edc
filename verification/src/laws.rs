//! The laws of the styler, each stated over the spec functions that the
//! executable functions' contracts use, and proved once for all inputs.

use vstd::prelude::*;
use crate::config::{ConfValue, spec_class_for, table_get};
use crate::lines::{
    LineKind, kind_of_level, line_level, marker_at, selector_name, styled_line, wrapped,
};
use crate::styler::{chapter_result, styled_content};
use crate::text::{
    lemma_join_of_split, lemma_split_lines_props, lemma_split_of_join, no_newline, split_lines,
};

verus! {

/// A line that starts with no heading marker is classified as plain, and
/// styling leaves it byte-identical under every configuration.
pub proof fn lemma_plain_line_unchanged(l: Seq<char>, conf: Seq<(String, ConfValue)>)
    requires
        forall|level: int| 1 <= level <= 6 ==> !marker_at(l, level),
    ensures
        kind_of_level(line_level(l)) == LineKind::Plain,
        styled_line(l, conf) == l,
{
}

/// A heading line of level `level` whose selector has the configured class
/// `class` becomes exactly the opening tag carrying the class, the line's
/// text with its marker and the marker's trailing space stripped, and the
/// closing tag.
pub proof fn lemma_heading_with_class(
    l: Seq<char>,
    conf: Seq<(String, ConfValue)>,
    level: int,
    class: Seq<char>,
)
    requires
        1 <= level <= 6,
        line_level(l) == level,
        spec_class_for(conf, selector_name(level)) == Some(class),
    ensures
        styled_line(l, conf) == wrapped(selector_name(level), class, l.skip(level + 1)),
{
}

/// A heading line whose level has no usable class configured (selector
/// absent, or present without a string under `class`) passes through
/// unchanged.
pub proof fn lemma_heading_without_class(
    l: Seq<char>,
    conf: Seq<(String, ConfValue)>,
    level: int,
)
    requires
        1 <= level <= 6,
        line_level(l) == level,
        spec_class_for(conf, selector_name(level)) is None,
    ensures
        styled_line(l, conf) == l,
{
}

/// True iff every class the configuration can yield is newline-free.
pub open spec fn classes_newline_free(t: Seq<(String, ConfValue)>) -> bool {
    forall|sel: Seq<char>| #[trigger] spec_class_for(t, sel) matches Some(c) ==> no_newline(c)
}

/// Styling one newline-free line yields a newline-free line, as long as the
/// configuration's classes hold no newline.
pub proof fn lemma_styled_line_newline_free(l: Seq<char>, conf: Seq<(String, ConfValue)>)
    requires
        no_newline(l),
        classes_newline_free(conf),
    ensures
        no_newline(styled_line(l, conf)),
{
    let level = line_level(l);
    if level != 0 {
        match spec_class_for(conf, selector_name(level)) {
            Some(class) => {
                assert(no_newline(class));
                reveal_strlit("<");
                reveal_strlit(" class=\"");
                reveal_strlit("\">");
                reveal_strlit("</");
                reveal_strlit(">");
                reveal_strlit("h1");
                reveal_strlit("h2");
                reveal_strlit("h3");
                reveal_strlit("h4");
                reveal_strlit("h5");
                reveal_strlit("h6");
                let tag = selector_name(level);
                let rest = l.skip(level + 1);
                assert forall|k: int| 0 <= k < rest.len() implies rest[k] != '\n' by {
                    assert(rest[k] == l[level + 1 + k]);
                }
                assert forall|k: int|
                    0 <= k < styled_line(l, conf).len() implies styled_line(l, conf)[k]
                    != '\n' by {
                    assert(styled_line(l, conf) == wrapped(tag, class, rest));
                }
            },
            None => {},
        }
    }
}

/// Line count and line order are preserved: the styled content splits into
/// exactly the styled images of the input's lines, one per input line and
/// in the same order, provided no configured class holds a newline.
pub proof fn lemma_line_count_and_order(s: Seq<char>, conf: Seq<(String, ConfValue)>)
    requires
        classes_newline_free(conf),
    ensures
        split_lines(styled_content(s, conf)) == split_lines(s).map_values(
            |l: Seq<char>| styled_line(l, conf),
        ),
        split_lines(styled_content(s, conf)).len() == split_lines(s).len(),
{
    let ls = split_lines(s);
    let styled = ls.map_values(|l: Seq<char>| styled_line(l, conf));
    lemma_split_lines_props(s);
    assert forall|i: int| 0 <= i < styled.len() implies no_newline(#[trigger] styled[i]) by {
        lemma_styled_line_newline_free(ls[i], conf);
    }
    lemma_split_of_join(styled);
}

/// A chapter whose content's lines all style to themselves comes out of
/// styling with content identical to its input.
pub proof fn lemma_unstyled_content_identity(s: Seq<char>, conf: Seq<(String, ConfValue)>)
    requires
        forall|i: int|
            0 <= i < split_lines(s).len() ==> styled_line(#[trigger] split_lines(s)[i], conf)
                == split_lines(s)[i],
    ensures
        styled_content(s, conf) == s,
{
    let ls = split_lines(s);
    assert(ls.map_values(|l: Seq<char>| styled_line(l, conf)) =~= ls);
    lemma_join_of_split(s);
}

/// A chapter whose name has no entry in the configuration keeps its content
/// exactly.
pub proof fn lemma_absent_chapter_unchanged(
    name: Seq<char>,
    content: Seq<char>,
    conf: Seq<(String, ConfValue)>,
)
    requires
        table_get(conf, name) is None,
    ensures
        chapter_result(name, content, conf) == content,
{
}

/// A chapter whose configuration entry is not a table keeps its content
/// exactly. `run`'s contract speaks of every item of the book, so such an
/// entry never stops the processing of the remaining chapters.
pub proof fn lemma_non_table_entry_unchanged(
    name: Seq<char>,
    content: Seq<char>,
    conf: Seq<(String, ConfValue)>,
    v: ConfValue,
)
    requires
        table_get(conf, name) == Some(v),
        !(v is Table),
    ensures
        chapter_result(name, content, conf) == content,
{
}

} // verus!
