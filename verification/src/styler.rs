//! The chapter styler: looks a chapter's configuration up by the chapter's
//! name and rewrites the chapter's heading lines accordingly, for every
//! chapter of a book in document order.

use vstd::prelude::*;
use crate::config::{ConfValue, table_get, table_get_exec};
use crate::lines::{style_line, styled_line};
use crate::text::{join_lines, join_lines_exec, split_lines, split_lines_exec, str_eq};

verus! {

/// One item of a book in document order: a chapter with its name and
/// content, or anything that is not a chapter (a separator, a part title).
/// Chapters nested under other chapters stand in the sequence at the place
/// the host visits them.
pub enum BookItem {
    Chapter { name: String, content: String },
    Other,
}

/// A book: its items in document order.
pub struct Book {
    pub items: Vec<BookItem>,
}

/// A chapter's content after styling: its lines, each rewritten on its own,
/// joined back with newlines.
pub open spec fn styled_content(s: Seq<char>, conf: Seq<(String, ConfValue)>) -> Seq<char> {
    join_lines(split_lines(s).map_values(|l: Seq<char>| styled_line(l, conf)))
}

/// What a chapter's content becomes under the whole configuration: styled
/// against its own table when the configuration has a table-valued entry
/// under the chapter's name, unchanged otherwise (no entry, or an entry of
/// the wrong shape).
pub open spec fn chapter_result(
    name: Seq<char>,
    content: Seq<char>,
    conf: Seq<(String, ConfValue)>,
) -> Seq<char> {
    match table_get(conf, name) {
        Some(ConfValue::Table(t)) => styled_content(content, t@),
        _ => content,
    }
}

/// Relates one input item of a book to its output: a chapter keeps its name
/// and gets `chapter_result` as content; a non-chapter stays as it is.
pub open spec fn item_styled(
    before: BookItem,
    after: BookItem,
    conf: Seq<(String, ConfValue)>,
) -> bool {
    match before {
        BookItem::Chapter { name, content } => match after {
            BookItem::Chapter { name: n2, content: c2 } => {
                &&& n2@ == name@
                &&& c2@ == chapter_result(name@, content@, conf)
            },
            BookItem::Other => false,
        },
        BookItem::Other => match after {
            BookItem::Chapter { .. } => false,
            BookItem::Other => true,
        },
    }
}

/// The chapter styler: wraps heading lines in markup carrying configured
/// style classes, chapter by chapter.
pub struct PageStyler {
    default_config: Vec<(String, ConfValue)>,
}

impl PageStyler {
    /// The configuration table used when the host hands none over.
    pub closed spec fn spec_default_config(&self) -> Seq<(String, ConfValue)> {
        self.default_config@
    }

    /// A styler whose fallback configuration is empty.
    pub fn new() -> (r: Self)
        ensures
            r.spec_default_config() == Seq::<(String, ConfValue)>::empty(),
    {
        let r = Self { default_config: Vec::new() };
        proof {
            assert(r.default_config@ =~= Seq::<(String, ConfValue)>::empty());
        }
        r
    }

    /// The styler's name: the key of its section in the host's
    /// configuration.
    pub fn name(&self) -> (r: &str)
        ensures
            r@ == "page-styles"@,
    {
        "page-styles"
    }

    /// Rewrites one chapter's content line by line against that chapter's
    /// own configuration table. This cannot fail: every line is either
    /// wrapped or kept as it is.
    pub fn run_chapter(&self, content: &str, config: &Vec<(String, ConfValue)>) -> (r: String)
        ensures
            r@ == styled_content(content@, config@),
    {
        let lines = split_lines_exec(content);
        let mut styled: Vec<String> = Vec::new();
        let mut i: usize = 0;
        while i < lines.len()
            invariant
                i <= lines@.len(),
                lines@.map_values(|l: String| l@) == split_lines(content@),
                styled@.len() == i,
                forall|j: int| 0 <= j < i ==> styled@[j]@ == styled_line(lines@[j]@, config@),
            decreases lines@.len() - i,
        {
            proof {
                assert(lines@.map_values(|l: String| l@)[i as int] == lines@[i as int]@);
            }
            let s = style_line(lines[i].as_str(), config);
            styled.push(s);
            i = i + 1;
        }
        let r = join_lines_exec(&styled);
        proof {
            assert(styled@.map_values(|l: String| l@) =~= split_lines(content@).map_values(
                |l: Seq<char>| styled_line(l, config@),
            ));
        }
        r
    }

    /// Applies the configuration to every chapter of the book, in order.
    /// A chapter with no entry under its name is left as it is (the normal
    /// case); a chapter whose entry is not a table is a configuration
    /// error, handled by leaving that chapter alone and going on with the
    /// remaining items.
    pub fn run(&self, config: Option<&Vec<(String, ConfValue)>>, book: Book) -> (r: Book)
        ensures
            ({
                let conf = match config {
                    Some(c) => c@,
                    None => self.spec_default_config(),
                };
                &&& r.items@.len() == book.items@.len()
                &&& forall|i: int|
                    0 <= i < book.items@.len() ==> item_styled(
                        book.items@[i],
                        #[trigger] r.items@[i],
                        conf,
                    )
            }),
    {
        let conf: &Vec<(String, ConfValue)> = match config {
            Some(c) => c,
            None => &self.default_config,
        };
        let items = book.items;
        let mut out: Vec<BookItem> = Vec::new();
        let mut i: usize = 0;
        while i < items.len()
            invariant
                i <= items@.len(),
                out@.len() == i,
                conf@ == (match config {
                    Some(c) => c@,
                    None => self.spec_default_config(),
                }),
                forall|j: int| 0 <= j < i ==> item_styled(items@[j], #[trigger] out@[j], conf@),
            decreases items@.len() - i,
        {
            match &items[i] {
                BookItem::Chapter { name, content } => {
                    let new_content = match table_get_exec(conf, name.as_str()) {
                        Some(ConfValue::Table(chapter_config)) => self.run_chapter(
                            content.as_str(),
                            chapter_config,
                        ),
                        Some(_) => {
                            // configuration error: the entry under this chapter's
                            // name should be a table; the chapter stays unstyled
                            content.clone()
                        },
                        None => content.clone(),
                    };
                    out.push(BookItem::Chapter { name: name.clone(), content: new_content });
                },
                BookItem::Other => {
                    out.push(BookItem::Other);
                },
            }
            i = i + 1;
        }
        Book { items: out }
    }

    /// True only for the literal renderer name `html`.
    pub fn supports_renderer(&self, renderer: &str) -> (r: bool)
        ensures
            r == (renderer@ == "html"@),
    {
        str_eq(renderer, "html")
    }
}

} // verus!
