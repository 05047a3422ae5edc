//! Classification of single lines by their markdown heading marker, and the
//! markup wrapping applied to a heading line with a configured class.

use vstd::prelude::*;
use crate::config::{ConfValue, get_class_for, spec_class_for};

verus! {

/// The classification of one line: a heading of level 1 through 6, or plain
/// text.
#[derive(Clone, Copy, Debug, PartialEq, Eq, Structural)]
pub enum LineKind {
    H1,
    H2,
    H3,
    H4,
    H5,
    H6,
    Plain,
}

/// True iff `s` begins with the heading marker of level `level`: `level`
/// hash characters followed by one space.
pub open spec fn marker_at(s: Seq<char>, level: int) -> bool {
    &&& level < s.len()
    &&& s[level] == ' '
    &&& forall|i: int| 0 <= i < level ==> s[i] == '#'
}

/// The heading level of a line, testing markers in order from level 1 up to
/// level 6, first match winning; 0 stands for a plain line.
pub open spec fn line_level(s: Seq<char>) -> int {
    if marker_at(s, 1) {
        1
    } else if marker_at(s, 2) {
        2
    } else if marker_at(s, 3) {
        3
    } else if marker_at(s, 4) {
        4
    } else if marker_at(s, 5) {
        5
    } else if marker_at(s, 6) {
        6
    } else {
        0
    }
}

/// The `LineKind` that goes with a heading level.
pub open spec fn kind_of_level(level: int) -> LineKind {
    if level == 1 {
        LineKind::H1
    } else if level == 2 {
        LineKind::H2
    } else if level == 3 {
        LineKind::H3
    } else if level == 4 {
        LineKind::H4
    } else if level == 5 {
        LineKind::H5
    } else if level == 6 {
        LineKind::H6
    } else {
        LineKind::Plain
    }
}

/// The selector key that names a heading level in the configuration.
pub open spec fn selector_name(level: int) -> Seq<char> {
    if level == 1 {
        "h1"@
    } else if level == 2 {
        "h2"@
    } else if level == 3 {
        "h3"@
    } else if level == 4 {
        "h4"@
    } else if level == 5 {
        "h5"@
    } else if level == 6 {
        "h6"@
    } else {
        Seq::empty()
    }
}

/// True iff `line` starts with `level` hash characters followed by a space.
fn has_marker(line: &str, level: usize) -> (r: bool)
    requires
        1 <= level <= 6,
    ensures
        r == marker_at(line@, level as int),
{
    let len = line.unicode_len();
    if len <= level {
        return false;
    }
    let mut i: usize = 0;
    while i < level
        invariant
            i <= level,
            level < len,
            len == line@.len(),
            forall|j: int| 0 <= j < i ==> line@[j] == '#',
        decreases level - i,
    {
        if line.get_char(i) != '#' {
            return false;
        }
        i = i + 1;
    }
    line.get_char(level) == ' '
}

/// Classifies one line (no trailing newline) by its heading marker, checking
/// level 1 first and level 6 last; a line with no marker is plain.
pub fn classify(line: &str) -> (r: LineKind)
    ensures
        r == kind_of_level(line_level(line@)),
{
    if has_marker(line, 1) {
        LineKind::H1
    } else if has_marker(line, 2) {
        LineKind::H2
    } else if has_marker(line, 3) {
        LineKind::H3
    } else if has_marker(line, 4) {
        LineKind::H4
    } else if has_marker(line, 5) {
        LineKind::H5
    } else if has_marker(line, 6) {
        LineKind::H6
    } else {
        LineKind::Plain
    }
}

/// The markup element built around a stripped heading line: an opening tag
/// carrying the class, the line's text after its marker, and a closing tag.
pub open spec fn wrapped(tag: Seq<char>, class: Seq<char>, rest: Seq<char>) -> Seq<char> {
    "<"@ + tag + " class=\""@ + class + "\">"@ + rest + "</"@ + tag + ">"@
}

/// Wraps a line in a markup tag with a class, dropping the line's leading
/// marker. The line must actually start with the given prefix; the callers
/// establish that through classification.
pub fn wrap_with_html(line: &str, tag_name: &str, class: &str, strip_prefix: &str) -> (r: String)
    requires
        strip_prefix@.len() <= line@.len(),
        line@.take(strip_prefix@.len() as int) == strip_prefix@,
    ensures
        r@ == wrapped(tag_name@, class@, line@.skip(strip_prefix@.len() as int)),
{
    let plen = strip_prefix.unicode_len();
    let llen = line.unicode_len();
    let rest = line.substring_char(plen, llen);
    let mut out = String::from_str("<");
    out.append(tag_name);
    out.append(" class=\"");
    out.append(class);
    out.append("\">");
    out.append(rest);
    out.append("</");
    out.append(tag_name);
    out.append(">");
    proof {
        assert(rest@ =~= line@.skip(strip_prefix@.len() as int));
        assert(out@ =~= wrapped(tag_name@, class@, line@.skip(strip_prefix@.len() as int)));
    }
    out
}

/// What one line becomes: a heading whose level has a configured class is
/// wrapped; every other line stays as it is.
pub open spec fn styled_line(l: Seq<char>, conf: Seq<(String, ConfValue)>) -> Seq<char> {
    let level = line_level(l);
    if level == 0 {
        l
    } else {
        match spec_class_for(conf, selector_name(level)) {
            Some(class) => wrapped(selector_name(level), class, l.skip(level + 1)),
            None => l,
        }
    }
}

/// Styles a heading line of the given level: wrapped when a class is
/// configured for its selector, unchanged otherwise.
fn style_heading(
    line: &str,
    config: &Vec<(String, ConfValue)>,
    tag: &str,
    prefix: &str,
    level: usize,
) -> (r: String)
    requires
        1 <= level <= 6,
        line_level(line@) == level as int,
        tag@ == selector_name(level as int),
        prefix@.len() == level + 1,
        line@.take(level as int + 1) == prefix@,
    ensures
        r@ == styled_line(line@, config@),
{
    match get_class_for(config, tag) {
        Some(class) => wrap_with_html(line, tag, class.as_str(), prefix),
        None => String::from_str(line),
    }
}

/// Rewrites one line: a heading with a configured class for its level is
/// wrapped in the matching tag; anything else is returned unchanged.
pub fn style_line(line: &str, config: &Vec<(String, ConfValue)>) -> (r: String)
    ensures
        r@ == styled_line(line@, config@),
{
    match classify(line) {
        LineKind::H1 => {
            proof {
                reveal_strlit("# ");
                assert(line@.take(2) =~= "# "@);
            }
            style_heading(line, config, "h1", "# ", 1)
        },
        LineKind::H2 => {
            proof {
                reveal_strlit("## ");
                assert(line@.take(3) =~= "## "@);
            }
            style_heading(line, config, "h2", "## ", 2)
        },
        LineKind::H3 => {
            proof {
                reveal_strlit("### ");
                assert(line@.take(4) =~= "### "@);
            }
            style_heading(line, config, "h3", "### ", 3)
        },
        LineKind::H4 => {
            proof {
                reveal_strlit("#### ");
                assert(line@.take(5) =~= "#### "@);
            }
            style_heading(line, config, "h4", "#### ", 4)
        },
        LineKind::H5 => {
            proof {
                reveal_strlit("##### ");
                assert(line@.take(6) =~= "##### "@);
            }
            style_heading(line, config, "h5", "##### ", 5)
        },
        LineKind::H6 => {
            proof {
                reveal_strlit("###### ");
                assert(line@.take(7) =~= "###### "@);
            }
            style_heading(line, config, "h6", "###### ", 6)
        },
        LineKind::Plain => String::from_str(line),
    }
}

} // verus!
