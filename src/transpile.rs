//! The HTML transpiler: a line-by-line state machine from gemtext to HTML
//! fragments. Lists are `<ul>` runs, quotes accumulate in one
//! `<blockquote>` with a `<br/>` after each line, and fenced blocks become
//! `<pre>`. A block closes where its run of lines ends, so blocks never nest;
//! any block still open at the end of the document is closed there.
use vstd::prelude::*;
use crate::directive::{classify, classify_line, fence, is_fence, Directive, LineKind};
use crate::text::{
    copy_range, ends_with_ci, ends_with_ignore_case, from_chars, has_prefix, join_lines,
    join_with_newlines, lines_of, push_all, push_str, split_lines, starts_with, string_views,
    to_chars, trim, trim_chars, views,
};

verus! {

/// Which multi-line blocks are open.
#[derive(Clone, Copy, Debug, PartialEq, Eq, Structural)]
pub struct RenderState {
    pub in_list: bool,
    pub in_quote: bool,
    pub in_pre: bool,
}

impl RenderState {
    /// The state at the start of a document: nothing open.
    pub open spec fn start() -> RenderState {
        RenderState { in_list: false, in_quote: false, in_pre: false }
    }

    /// A state with nothing open.
    pub fn new() -> (r: RenderState)
        ensures
            r == RenderState::start(),
    {
        RenderState { in_list: false, in_quote: false, in_pre: false }
    }
}

/// Is `target` an image, by its extension with ASCII case ignored.
pub open spec fn is_image(target: Seq<char>) -> bool {
    ends_with_ignore_case(target, ".jpg"@) || ends_with_ignore_case(target, ".gif"@)
        || ends_with_ignore_case(target, ".png"@) || ends_with_ignore_case(target, ".svg"@)
        || ends_with_ignore_case(target, ".webp"@)
}

/// Is `target` an absolute path to a gemtext page.
pub open spec fn is_local_page(target: Seq<char>) -> bool {
    has_prefix(target, "/"@) && ends_with_ignore_case(target, ".gmi"@)
}

/// The href of a link: a local gemtext page gets the HTML extension.
pub open spec fn link_href(target: Seq<char>) -> Seq<char> {
    if is_local_page(target) {
        target.take(target.len() - 4) + ".html"@
    } else {
        target
    }
}

/// The fragment of a link line.
pub open spec fn link_fragment(target: Seq<char>, desc: Seq<char>) -> Seq<char> {
    if is_image(target) {
        "<div><img src=\""@ + target + "\">"@ + desc + "</img></div>"@
    } else {
        "<div><a href=\""@ + link_href(target) + "\">"@ + desc + "</a></div>"@
    }
}

/// Opening tag of a heading of level `n`.
pub open spec fn heading_open(n: u8) -> Seq<char> {
    if n == 1 {
        "<h1>"@
    } else if n == 2 {
        "<h2>"@
    } else {
        "<h3>"@
    }
}

/// Closing tag of a heading of level `n`.
pub open spec fn heading_close(n: u8) -> Seq<char> {
    if n == 1 {
        "</h1>"@
    } else if n == 2 {
        "</h2>"@
    } else {
        "</h3>"@
    }
}

/// Closes an open list.
pub open spec fn close_list(st: RenderState) -> (RenderState, Seq<Seq<char>>) {
    if st.in_list {
        (RenderState { in_list: false, ..st }, seq!["</ul>"@])
    } else {
        (st, Seq::empty())
    }
}

/// Closes an open quote.
pub open spec fn close_quote(st: RenderState) -> (RenderState, Seq<Seq<char>>) {
    if st.in_quote {
        (RenderState { in_quote: false, ..st }, seq!["</blockquote>"@])
    } else {
        (st, Seq::empty())
    }
}

/// The fragments of a directive that is neither a list item nor a quote,
/// once lists and quotes are closed.
pub open spec fn render_block(st: RenderState, d: LineKind) -> (RenderState, Seq<Seq<char>>) {
    match d {
        LineKind::FenceToggle => (RenderState { in_pre: true, ..st }, seq!["<pre>"@]),
        LineKind::Header(n, c) => (st, seq![heading_open(n) + c + heading_close(n)]),
        LineKind::Link(t, desc) => (st, seq![link_fragment(t, desc)]),
        LineKind::Blank => (st, seq!["<br/>"@]),
        LineKind::PlainText(l) => (st, seq!["<p>"@ + l + "</p>"@]),
        _ => (st, Seq::empty()),
    }
}

/// One trimmed line: the next state and the fragments it emits.
pub open spec fn render_line(st: RenderState, line: Seq<char>) -> (RenderState, Seq<Seq<char>>) {
    if st.in_pre {
        if has_prefix(line, fence()) {
            (RenderState { in_pre: false, ..st }, seq!["</pre>"@])
        } else {
            (st, seq![line])
        }
    } else {
        match classify_line(line) {
            LineKind::ListItem(c) => {
                let (s1, f1) = close_quote(st);
                let open = if s1.in_list { Seq::empty() } else { seq!["<ul>"@] };
                (RenderState { in_list: true, ..s1 }, f1 + open.push("<li>"@ + c + "</li>"@))
            },
            LineKind::Quote(c) => {
                let (s1, f1) = close_list(st);
                let open = if s1.in_quote { Seq::empty() } else { seq!["<blockquote>"@] };
                (RenderState { in_quote: true, ..s1 }, f1 + open.push(c + "<br/>"@))
            },
            d => {
                let (s1, f1) = close_list(st);
                let (s2, f2) = close_quote(s1);
                let (s3, f3) = render_block(s2, d);
                (s3, f1 + f2 + f3)
            },
        }
    }
}

/// Lines rendered in order from `st`, each trimmed first.
pub open spec fn render_lines(st: RenderState, ls: Seq<Seq<char>>) -> (RenderState, Seq<Seq<char>>)
    decreases ls.len(),
{
    if ls.len() == 0 {
        (st, Seq::empty())
    } else {
        let (s1, f1) = render_lines(st, ls.drop_last());
        let (s2, f2) = render_line(s1, trim(ls.last()));
        (s2, f1 + f2)
    }
}

/// The closing tags of whatever is still open, innermost first.
pub open spec fn close_all(st: RenderState) -> Seq<Seq<char>> {
    (if st.in_pre { seq!["</pre>"@] } else { Seq::empty() })
        + (if st.in_list { seq!["</ul>"@] } else { Seq::empty() })
        + (if st.in_quote { seq!["</blockquote>"@] } else { Seq::empty() })
}

/// The HTML fragments of a gemtext document.
pub open spec fn html_fragments(doc: Seq<char>) -> Seq<Seq<char>> {
    let (st, f) = render_lines(RenderState::start(), lines_of(doc));
    f + close_all(st)
}

/// The HTML body of a gemtext document: its fragments, one per line.
pub open spec fn html_body(doc: Seq<char>) -> Seq<char> {
    join_lines(html_fragments(doc))
}

/// Transpiling depends on the document alone: the same document gives the
/// same fragments, and the same body, every time.
pub proof fn lemma_transpile_deterministic(a: Seq<char>, b: Seq<char>)
    requires
        a == b,
    ensures
        html_fragments(a) == html_fragments(b),
        html_body(a) == html_body(b),
{
}

/// `open`, then `body`, then `close`.
fn enclose(open: &str, body: &[char], close: &str) -> (r: Vec<char>)
    ensures
        r@ == open@ + body@ + close@,
{
    let mut r = to_chars(open);
    push_all(&mut r, body);
    push_str(&mut r, close);
    r
}

/// The href of a link.
pub fn href_of(target: &[char]) -> (r: Vec<char>)
    ensures
        r@ == link_href(target@),
{
    let slash = to_chars("/");
    if starts_with(target, slash.as_slice()) && ends_with_ci(target, ".gmi") {
        proof {
            reveal_strlit(".gmi");
        }
        let mut r = copy_range(target, 0, target.len() - 4);
        push_str(&mut r, ".html");
        r
    } else {
        copy_range(target, 0, target.len())
    }
}

/// The fragment of a link line.
fn link_html(target: &[char], desc: &[char]) -> (r: Vec<char>)
    ensures
        r@ == link_fragment(target@, desc@),
{
    let image = ends_with_ci(target, ".jpg") || ends_with_ci(target, ".gif") || ends_with_ci(
        target,
        ".png",
    ) || ends_with_ci(target, ".svg") || ends_with_ci(target, ".webp");
    let mut r: Vec<char>;
    if image {
        r = to_chars("<div><img src=\"");
        push_all(&mut r, target);
        push_str(&mut r, "\">");
        push_all(&mut r, desc);
        push_str(&mut r, "</img></div>");
    } else {
        let h = href_of(target);
        r = to_chars("<div><a href=\"");
        push_all(&mut r, h.as_slice());
        push_str(&mut r, "\">");
        push_all(&mut r, desc);
        push_str(&mut r, "</a></div>");
    }
    r
}

/// The fragment of a heading.
fn heading_html(n: u8, c: &[char]) -> (r: Vec<char>)
    ensures
        r@ == heading_open(n) + c@ + heading_close(n),
{
    if n == 1 {
        enclose("<h1>", c, "</h1>")
    } else if n == 2 {
        enclose("<h2>", c, "</h2>")
    } else {
        enclose("<h3>", c, "</h3>")
    }
}

/// Renders one trimmed line from `st`: the next state and the fragments the
/// line emits.
pub fn step(st: RenderState, line: &[char]) -> (r: (RenderState, Vec<Vec<char>>))
    ensures
        r.0 == render_line(st, line@).0,
        views(r.1@) == render_line(st, line@).1,
{
    let mut out: Vec<Vec<char>> = Vec::new();
    let ghost spec_r = render_line(st, line@);
    if st.in_pre {
        if is_fence(line) {
            out.push(to_chars("</pre>"));
            assert(views(out@) =~= spec_r.1);
            return (RenderState { in_pre: false, ..st }, out);
        } else {
            out.push(copy_range(line, 0, line.len()));
            assert(line@.subrange(0, line@.len() as int) =~= line@);
            assert(views(out@) =~= spec_r.1);
            return (st, out);
        }
    }
    let d = classify(line);
    let mut s = st;
    match d {
        Directive::ListItem(c) => {
            if s.in_quote {
                out.push(to_chars("</blockquote>"));
                s.in_quote = false;
            }
            if !s.in_list {
                out.push(to_chars("<ul>"));
            }
            out.push(enclose("<li>", c.as_slice(), "</li>"));
            s.in_list = true;
            assert(views(out@) =~= spec_r.1);
            return (s, out);
        },
        _ => {},
    }
    if s.in_list {
        out.push(to_chars("</ul>"));
        s.in_list = false;
    }
    match d {
        Directive::Quote(c) => {
            if !s.in_quote {
                out.push(to_chars("<blockquote>"));
            }
            let mut q = copy_range(c.as_slice(), 0, c.len());
            assert(q@ =~= c@);
            push_str(&mut q, "<br/>");
            out.push(q);
            s.in_quote = true;
            assert(views(out@) =~= spec_r.1);
            return (s, out);
        },
        _ => {},
    }
    if s.in_quote {
        out.push(to_chars("</blockquote>"));
        s.in_quote = false;
    }
    match d {
        Directive::FenceToggle => {
            out.push(to_chars("<pre>"));
            s.in_pre = true;
        },
        Directive::Header(n, c) => {
            out.push(heading_html(n, c.as_slice()));
        },
        Directive::Link(t, desc) => {
            out.push(link_html(t.as_slice(), desc.as_slice()));
        },
        Directive::Blank => {
            out.push(to_chars("<br/>"));
        },
        Directive::PlainText(l) => {
            out.push(enclose("<p>", l.as_slice(), "</p>"));
        },
        _ => {},
    }
    assert(views(out@) =~= spec_r.1);
    (s, out)
}

/// The closing tags of whatever `st` holds open, innermost first.
pub fn finish(st: RenderState) -> (r: Vec<Vec<char>>)
    ensures
        views(r@) == close_all(st),
{
    let mut out: Vec<Vec<char>> = Vec::new();
    if st.in_pre {
        out.push(to_chars("</pre>"));
    }
    if st.in_list {
        out.push(to_chars("</ul>"));
    }
    if st.in_quote {
        out.push(to_chars("</blockquote>"));
    }
    assert(views(out@) =~= close_all(st));
    out
}

/// The HTML fragments of a gemtext document held as characters.
pub fn transpile_chars(doc: &[char]) -> (r: Vec<Vec<char>>)
    ensures
        views(r@) == html_fragments(doc@),
{
    let lines = split_lines(doc);
    let mut st = RenderState::new();
    let mut out: Vec<Vec<char>> = Vec::new();
    let mut k: usize = 0;
    while k < lines.len()
        invariant
            views(lines@) == lines_of(doc@),
            k <= lines@.len(),
            (st, views(out@)) == render_lines(RenderState::start(), views(lines@).take(k as int)),
        decreases lines@.len() - k,
    {
        let t = trim_chars(lines[k].as_slice());
        let (next, mut f) = step(st, t.as_slice());
        let ghost before = views(out@);
        let ghost added = views(f@);
        out.append(&mut f);
        assert(views(out@) =~= before + added);
        st = next;
        k += 1;
        assert(views(lines@).take(k as int).drop_last() =~= views(lines@).take(k as int - 1));
    }
    assert(views(lines@).take(lines@.len() as int) =~= views(lines@));
    let ghost before = views(out@);
    let mut tail = finish(st);
    let ghost added = views(tail@);
    out.append(&mut tail);
    assert(views(out@) =~= before + added);
    out
}

/// The HTML fragments of a gemtext document, one per emitted line.
pub fn transpile(doc: &str) -> (r: Vec<String>)
    ensures
        string_views(r@) == html_fragments(doc@),
{
    let chars = to_chars(doc);
    let frags = transpile_chars(chars.as_slice());
    let mut r: Vec<String> = Vec::new();
    let mut k: usize = 0;
    while k < frags.len()
        invariant
            views(frags@) == html_fragments(doc@),
            k <= frags@.len(),
            string_views(r@) == views(frags@).take(k as int),
        decreases frags@.len() - k,
    {
        let s = from_chars(frags[k].as_slice());
        let ghost before = string_views(r@);
        r.push(s);
        assert(string_views(r@) =~= before.push(s@));
        k += 1;
        assert(string_views(r@) =~= views(frags@).take(k as int));
    }
    assert(views(frags@).take(frags@.len() as int) =~= views(frags@));
    r
}

/// The HTML body of a gemtext document: its fragments joined by newlines.
pub fn to_html(doc: &str) -> (r: String)
    ensures
        r@ == html_body(doc@),
{
    let chars = to_chars(doc);
    let frags = transpile_chars(chars.as_slice());
    let body = join_with_newlines(&frags);
    from_chars(body.as_slice())
}

} // verus!
