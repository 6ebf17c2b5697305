//! The line classifier: what directive one trimmed gemtext line holds.
use vstd::prelude::*;
use crate::text::{copy_range, find_char, first_index, has_prefix, is_text, starts_with, to_chars};

verus! {

/// What a line means, over plain character sequences.
pub enum LineKind {
    FenceToggle,
    ListItem(Seq<char>),
    Quote(Seq<char>),
    Header(u8, Seq<char>),
    Link(Seq<char>, Seq<char>),
    Blank,
    PlainText(Seq<char>),
}

/// A classified line.
pub enum Directive {
    /// A line that starts with the fence token; its remainder is ignored.
    FenceToggle,
    /// `* text`
    ListItem(Vec<char>),
    /// `> text`
    Quote(Vec<char>),
    /// `#`, `##` or `###` followed by the heading text; the level is 1 to 3.
    Header(u8, Vec<char>),
    /// `=> target description`; the description may be empty.
    Link(Vec<char>, Vec<char>),
    /// An empty line.
    Blank,
    /// Any other line, kept whole.
    PlainText(Vec<char>),
}

impl View for Directive {
    type V = LineKind;

    open spec fn view(&self) -> LineKind {
        match self {
            Directive::FenceToggle => LineKind::FenceToggle,
            Directive::ListItem(c) => LineKind::ListItem(c@),
            Directive::Quote(c) => LineKind::Quote(c@),
            Directive::Header(n, c) => LineKind::Header(*n, c@),
            Directive::Link(t, d) => LineKind::Link(t@, d@),
            Directive::Blank => LineKind::Blank,
            Directive::PlainText(l) => LineKind::PlainText(l@),
        }
    }
}

/// The token that opens and closes a preformatted block.
pub open spec fn fence() -> Seq<char> {
    "```"@
}

/// `s` cut at its first space: the part before it and the part after it.
pub open spec fn split_space(s: Seq<char>) -> Option<(Seq<char>, Seq<char>)> {
    match first_index(s, ' ') {
        Some(i) => Some((s.take(i), s.skip(i + 1))),
        None => None,
    }
}

/// The directive token of a line and the content after it; a line without
/// a space has an empty token and is all content.
pub open spec fn prefix_and_content(line: Seq<char>) -> (Seq<char>, Seq<char>) {
    match split_space(line) {
        Some(pc) => pc,
        None => (Seq::<char>::empty(), line),
    }
}

/// The target and description of a link's content.
pub open spec fn target_and_description(content: Seq<char>) -> (Seq<char>, Seq<char>) {
    match split_space(content) {
        Some(td) => td,
        None => (content, Seq::<char>::empty()),
    }
}

/// The directive of a trimmed line, by the precedence of the markup: fence,
/// list item, quote, header, link, blank, plain text.
pub open spec fn classify_line(line: Seq<char>) -> LineKind {
    let (p, c) = prefix_and_content(line);
    if has_prefix(line, fence()) {
        LineKind::FenceToggle
    } else if p == "*"@ {
        LineKind::ListItem(c)
    } else if p == ">"@ {
        LineKind::Quote(c)
    } else if p == "#"@ {
        LineKind::Header(1, c)
    } else if p == "##"@ {
        LineKind::Header(2, c)
    } else if p == "###"@ {
        LineKind::Header(3, c)
    } else if p == "=>"@ {
        let (t, d) = target_and_description(c);
        LineKind::Link(t, d)
    } else if line.len() == 0 {
        LineKind::Blank
    } else {
        LineKind::PlainText(line)
    }
}

/// `s` cut at its first space, if it holds one.
fn split_at_space(s: &[char]) -> (r: Option<(Vec<char>, Vec<char>)>)
    ensures
        match r {
            Some((a, b)) => split_space(s@) == Some((a@, b@)),
            None => split_space(s@) is None,
        },
{
    let n = s.len();
    match find_char(s, ' ') {
        Some(i) => {
            let a = copy_range(s, 0, i);
            let b = copy_range(s, i + 1, n);
            assert(a@ =~= s@.take(i as int));
            assert(b@ =~= s@.skip(i as int + 1));
            Some((a, b))
        },
        None => None,
    }
}

/// Whether a trimmed line toggles a preformatted block.
pub fn is_fence(line: &[char]) -> (r: bool)
    ensures
        r == has_prefix(line@, fence()),
{
    let f = to_chars("```");
    starts_with(line, f.as_slice())
}

/// Classifies one trimmed line.
pub fn classify(line: &[char]) -> (d: Directive)
    ensures
        d@ == classify_line(line@),
{
    if is_fence(line) {
        return Directive::FenceToggle;
    }
    let (p, c) = match split_at_space(line) {
        Some(pc) => pc,
        None => (Vec::new(), copy_range(line, 0, line.len())),
    };
    assert(line@.subrange(0, line@.len() as int) =~= line@);
    assert((p@, c@) == prefix_and_content(line@));
    if is_text(p.as_slice(), "*") {
        Directive::ListItem(c)
    } else if is_text(p.as_slice(), ">") {
        Directive::Quote(c)
    } else if is_text(p.as_slice(), "#") {
        Directive::Header(1, c)
    } else if is_text(p.as_slice(), "##") {
        Directive::Header(2, c)
    } else if is_text(p.as_slice(), "###") {
        Directive::Header(3, c)
    } else if is_text(p.as_slice(), "=>") {
        let (t, d) = match split_at_space(c.as_slice()) {
            Some(td) => td,
            None => (c, Vec::new()),
        };
        Directive::Link(t, d)
    } else if line.len() == 0 {
        Directive::Blank
    } else {
        Directive::PlainText(copy_range(line, 0, line.len()))
    }
}

} // verus!
