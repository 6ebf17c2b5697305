//! Every block the transpiler opens it also closes. Over the fragments it
//! emits for a document, leaving out the lines of preformatted blocks, which
//! are copied as they are, each of `<ul>`, `<blockquote>` and `<pre>` occurs
//! as often as its closing tag, and the two alternate, opening tag first.
use vstd::prelude::*;
use crate::directive::{classify_line, fence, LineKind};
use crate::text::{has_prefix, lines_of, trim};
use crate::transpile::{
    close_all, close_list, close_quote, heading_close, heading_open, is_image, link_fragment,
    link_href, render_block, render_line, render_lines, RenderState,
};

verus! {

/// How many of `frags` equal `f`.
pub open spec fn count(frags: Seq<Seq<char>>, f: Seq<char>) -> nat
    decreases frags.len(),
{
    if frags.len() == 0 {
        0
    } else {
        count(frags.drop_last(), f) + if frags.last() == f {
            1nat
        } else {
            0nat
        }
    }
}

/// The fragments of `frags` that are `o` or `c`, in order.
pub open spec fn tags_of(frags: Seq<Seq<char>>, o: Seq<char>, c: Seq<char>) -> Seq<Seq<char>>
    decreases frags.len(),
{
    if frags.len() == 0 {
        Seq::empty()
    } else {
        tags_of(frags.drop_last(), o, c) + if frags.last() == o || frags.last() == c {
            seq![frags.last()]
        } else {
            Seq::empty()
        }
    }
}

/// `o`, `c`, `o`, `c`, ... and, exactly when `open`, ending in an `o`.
pub open spec fn alternating(s: Seq<Seq<char>>, o: Seq<char>, c: Seq<char>, open: bool) -> bool {
    &&& forall|i: int| 0 <= i < s.len() ==> #[trigger] s[i] == if i % 2 == 0 {
        o
    } else {
        c
    }
    &&& (s.len() % 2 == 1) == open
}

/// The tag a line emits for a block that goes from open `before` to open
/// `after`.
pub open spec fn toggle(before: bool, after: bool, o: Seq<char>, c: Seq<char>) -> Seq<Seq<char>> {
    if before == after {
        Seq::empty()
    } else if after {
        seq![o]
    } else {
        seq![c]
    }
}

/// One if `b` holds, else zero.
pub open spec fn flag(b: bool) -> nat {
    if b {
        1
    } else {
        0
    }
}

/// One of the tags that open or close a list, a quote or a preformatted block.
pub open spec fn is_block_tag(s: Seq<char>) -> bool {
    s == "<ul>"@ || s == "</ul>"@ || s == "<blockquote>"@ || s == "</blockquote>"@ || s
        == "<pre>"@ || s == "</pre>"@
}

/// The fragments of one trimmed line, but for a line inside a preformatted
/// block, which is copied as it is.
pub open spec fn structural_line(st: RenderState, line: Seq<char>) -> Seq<Seq<char>> {
    if st.in_pre && !has_prefix(line, fence()) {
        Seq::empty()
    } else {
        render_line(st, line).1
    }
}

/// `structural_line` over lines rendered in order from `st`.
pub open spec fn structural_lines(st: RenderState, ls: Seq<Seq<char>>) -> Seq<Seq<char>>
    decreases ls.len(),
{
    if ls.len() == 0 {
        Seq::empty()
    } else {
        structural_lines(st, ls.drop_last()) + structural_line(
            render_lines(st, ls.drop_last()).0,
            trim(ls.last()),
        )
    }
}

/// The fragments of a document but for the lines of its preformatted blocks.
pub open spec fn structural_fragments(doc: Seq<char>) -> Seq<Seq<char>> {
    structural_lines(RenderState::start(), lines_of(doc)) + close_all(
        render_lines(RenderState::start(), lines_of(doc)).0,
    )
}

/// A block's tags in `f`, from open `before` to open `after`, are balanced
/// and are the one toggle between the two.
pub open spec fn pair_step(
    f: Seq<Seq<char>>,
    before: bool,
    after: bool,
    o: Seq<char>,
    c: Seq<char>,
) -> bool {
    &&& count(f, o) + flag(before) == count(f, c) + flag(after)
    &&& tags_of(f, o, c) == toggle(before, after, o, c)
}

/// The fragments `f`, emitted from `st0` to `st`, toggle each block accordingly.
pub open spec fn steps_all(f: Seq<Seq<char>>, st0: RenderState, st: RenderState) -> bool {
    &&& pair_step(f, st0.in_list, st.in_list, "<ul>"@, "</ul>"@)
    &&& pair_step(f, st0.in_quote, st.in_quote, "<blockquote>"@, "</blockquote>"@)
    &&& pair_step(f, st0.in_pre, st.in_pre, "<pre>"@, "</pre>"@)
}

/// Every block's tags in `f` are balanced up to the blocks open in `st`, and
/// alternate.
pub open spec fn balanced(f: Seq<Seq<char>>, st: RenderState) -> bool {
    &&& count(f, "<ul>"@) == count(f, "</ul>"@) + flag(st.in_list)
    &&& count(f, "<blockquote>"@) == count(f, "</blockquote>"@) + flag(st.in_quote)
    &&& count(f, "<pre>"@) == count(f, "</pre>"@) + flag(st.in_pre)
    &&& alternating(tags_of(f, "<ul>"@, "</ul>"@), "<ul>"@, "</ul>"@, st.in_list)
    &&& alternating(
        tags_of(f, "<blockquote>"@, "</blockquote>"@),
        "<blockquote>"@,
        "</blockquote>"@,
        st.in_quote,
    )
    &&& alternating(tags_of(f, "<pre>"@, "</pre>"@), "<pre>"@, "</pre>"@, st.in_pre)
}

pub broadcast proof fn lemma_count_concat(a: Seq<Seq<char>>, b: Seq<Seq<char>>, f: Seq<char>)
    ensures
        #[trigger] count(a + b, f) == count(a, f) + count(b, f),
    decreases b.len(),
{
    if b.len() == 0 {
        assert(a + b =~= a);
    } else {
        lemma_count_concat(a, b.drop_last(), f);
        assert((a + b).drop_last() =~= a + b.drop_last());
    }
}

pub broadcast proof fn lemma_count_one(x: Seq<char>, f: Seq<char>)
    ensures
        #[trigger] count(seq![x], f) == if x == f {
            1nat
        } else {
            0nat
        },
{
    assert(seq![x].drop_last() =~= Seq::<Seq<char>>::empty());
    assert(seq![x].last() == x);
    assert(count(Seq::<Seq<char>>::empty(), f) == 0);
}

proof fn lemma_count_empty(f: Seq<char>)
    ensures
        count(Seq::<Seq<char>>::empty(), f) == 0,
        forall|c: Seq<char>| tags_of(Seq::<Seq<char>>::empty(), f, c) == Seq::<Seq<char>>::empty(),
{
}

pub broadcast proof fn lemma_tags_concat(
    a: Seq<Seq<char>>,
    b: Seq<Seq<char>>,
    o: Seq<char>,
    c: Seq<char>,
)
    ensures
        #[trigger] tags_of(a + b, o, c) == tags_of(a, o, c) + tags_of(b, o, c),
    decreases b.len(),
{
    if b.len() == 0 {
        assert(a + b =~= a);
        assert(tags_of(a, o, c) + tags_of(b, o, c) =~= tags_of(a, o, c));
    } else {
        lemma_tags_concat(a, b.drop_last(), o, c);
        assert((a + b).drop_last() =~= a + b.drop_last());
        assert((a + b).last() == b.last());
    }
}

pub broadcast proof fn lemma_tags_one(x: Seq<char>, o: Seq<char>, c: Seq<char>)
    ensures
        #[trigger] tags_of(seq![x], o, c) == if x == o || x == c {
            seq![x]
        } else {
            Seq::<Seq<char>>::empty()
        },
{
    assert(seq![x].drop_last() =~= Seq::<Seq<char>>::empty());
    assert(seq![x].last() == x);
    assert(tags_of(Seq::<Seq<char>>::empty(), o, c) =~= Seq::<Seq<char>>::empty());
    assert(Seq::<Seq<char>>::empty() + seq![x] =~= seq![x]);
    assert(Seq::<Seq<char>>::empty() + Seq::<Seq<char>>::empty() =~= Seq::<Seq<char>>::empty());
}

/// Appending the toggle of a block keeps its tags alternating.
proof fn lemma_alternating_toggle(
    s: Seq<Seq<char>>,
    o: Seq<char>,
    c: Seq<char>,
    before: bool,
    after: bool,
)
    requires
        alternating(s, o, c, before),
    ensures
        alternating(s + toggle(before, after, o, c), o, c, after),
{
    let t = s + toggle(before, after, o, c);
    if before == after {
        assert(t =~= s);
    } else {
        assert forall|i: int| 0 <= i < t.len() implies #[trigger] t[i] == if i % 2 == 0 {
            o
        } else {
            c
        } by {
            if i < s.len() {
                assert(t[i] == s[i]);
            }
        }
    }
}

proof fn reveal_tags()
    ensures
        "<ul>"@ =~= seq!['<', 'u', 'l', '>'],
        "</ul>"@ =~= seq!['<', '/', 'u', 'l', '>'],
        "<pre>"@ =~= seq!['<', 'p', 'r', 'e', '>'],
        "</pre>"@ =~= seq!['<', '/', 'p', 'r', 'e', '>'],
        "<blockquote>"@ =~= seq!['<', 'b', 'l', 'o', 'c', 'k', 'q', 'u', 'o', 't', 'e', '>'],
        "</blockquote>"@ =~= seq![
            '<',
            '/',
            'b',
            'l',
            'o',
            'c',
            'k',
            'q',
            'u',
            'o',
            't',
            'e',
            '>',
        ],
{
    reveal_strlit("<ul>");
    reveal_strlit("</ul>");
    reveal_strlit("<pre>");
    reveal_strlit("</pre>");
    reveal_strlit("<blockquote>");
    reveal_strlit("</blockquote>");
}

/// Every block tag starts with `<` and then `ul`, `/`, `pr` or `bl`, and its
/// last two characters are `l>` or `e>`.
proof fn lemma_tag_shape(s: Seq<char>)
    requires
        is_block_tag(s),
    ensures
        s.len() >= 4,
        s[0] == '<',
        (s[1] == 'u' && s[2] == 'l') || s[1] == '/' || (s[1] == 'p' && s[2] == 'r') || (s[1]
            == 'b' && s[2] == 'l'),
        s[s.len() - 2] == 'l' || s[s.len() - 2] == 'e',
{
    reveal_tags();
}

/// A fragment that starts with `p` is no block tag where `p` starts unlike
/// every tag.
proof fn lemma_prefixed_not_tag(p: Seq<char>, rest: Seq<char>)
    requires
        p.len() >= 3,
        p[0] == '<',
        p[1] != '/',
        !(p[1] == 'u' && p[2] == 'l'),
        !(p[1] == 'p' && p[2] == 'r'),
        !(p[1] == 'b' && p[2] == 'l'),
    ensures
        !is_block_tag(p + rest),
{
    let x = p + rest;
    assert(x[0] == p[0] && x[1] == p[1] && x[2] == p[2]);
    if is_block_tag(x) {
        lemma_tag_shape(x);
    }
}

/// `open + body + close` is no block tag where `open` starts unlike every tag.
proof fn lemma_enclosed_not_tag(open: Seq<char>, body: Seq<char>, close: Seq<char>)
    requires
        open.len() >= 3,
        open[0] == '<',
        open[1] != '/',
        !(open[1] == 'u' && open[2] == 'l'),
        !(open[1] == 'p' && open[2] == 'r'),
        !(open[1] == 'b' && open[2] == 'l'),
    ensures
        !is_block_tag(open + body + close),
{
    assert(open + body + close =~= open + (body + close));
    lemma_prefixed_not_tag(open, body + close);
}

/// No fragment that `render_block` emits for a header, link, blank or
/// plain text line is a block tag.
proof fn lemma_block_fragment_not_tag(st: RenderState, d: LineKind)
    requires
        !(d is FenceToggle),
    ensures
        forall|k: int|
            0 <= k < render_block(st, d).1.len() ==> !is_block_tag(
                #[trigger] render_block(st, d).1[k],
            ),
{
    match d {
        LineKind::Header(n, c) => {
            reveal_strlit("<h1>");
            reveal_strlit("<h2>");
            reveal_strlit("<h3>");
            lemma_enclosed_not_tag(heading_open(n), c, heading_close(n));
        },
        LineKind::Link(t, desc) => {
            reveal_strlit("<div><img src=\"");
            reveal_strlit("<div><a href=\"");
            let x = link_fragment(t, desc);
            if is_image(t) {
                assert(x =~= "<div><img src=\""@ + (t + "\">"@ + desc + "</img></div>"@));
                lemma_prefixed_not_tag("<div><img src=\""@, t + "\">"@ + desc + "</img></div>"@);
            } else {
                assert(x =~= "<div><a href=\""@ + (link_href(t) + "\">"@ + desc
                    + "</a></div>"@));
                lemma_prefixed_not_tag(
                    "<div><a href=\""@,
                    link_href(t) + "\">"@ + desc + "</a></div>"@,
                );
            }
        },
        LineKind::Blank => {
            reveal_strlit("<br/>");
            reveal_tags();
        },
        LineKind::PlainText(l) => {
            reveal_strlit("<p>");
            lemma_enclosed_not_tag("<p>"@, l, "</p>"@);
        },
        _ => {},
    }
}

/// Rendering one line toggles each block by the tag it emits, and emits no
/// other block tag.
proof fn lemma_render_line_steps(st: RenderState, line: Seq<char>)
    ensures
        steps_all(structural_line(st, line), st, render_line(st, line).0),
{
    broadcast use {lemma_count_concat, lemma_count_one, lemma_tags_concat, lemma_tags_one};

    reveal_tags();
    lemma_count_empty("<ul>"@);
    lemma_count_empty("</ul>"@);
    lemma_count_empty("<blockquote>"@);
    lemma_count_empty("</blockquote>"@);
    lemma_count_empty("<pre>"@);
    lemma_count_empty("</pre>"@);
    let (s2, f) = render_line(st, line);
    if st.in_pre {
    } else {
        match classify_line(line) {
            LineKind::ListItem(c) => {
                reveal_strlit("<li>");
                lemma_enclosed_not_tag("<li>"@, c, "</li>"@);
                let (s1, f1) = close_quote(st);
                let open = if s1.in_list {
                    Seq::<Seq<char>>::empty()
                } else {
                    seq!["<ul>"@]
                };
                assert(f == f1 + (open + seq!["<li>"@ + c + "</li>"@]));
            },
            LineKind::Quote(c) => {
                reveal_strlit("<br/>");
                let q = c + "<br/>"@;
                assert(q[q.len() - 2] == '/');
                if is_block_tag(q) {
                    lemma_tag_shape(q);
                }
                let (s1, f1) = close_list(st);
                let open = if s1.in_quote {
                    Seq::<Seq<char>>::empty()
                } else {
                    seq!["<blockquote>"@]
                };
                assert(f == f1 + (open + seq![q]));
            },
            d => {
                let (s1, f1) = close_list(st);
                let (s2b, f2) = close_quote(s1);
                let (s3, f3) = render_block(s2b, d);
                assert(f == f1 + f2 + f3);
                if !(d is FenceToggle) {
                    lemma_block_fragment_not_tag(s2b, d);
                    assert(f3.len() <= 1);
                    if f3.len() == 1 {
                        assert(f3 =~= seq![f3[0]]);
                    } else {
                        assert(f3 =~= Seq::<Seq<char>>::empty());
                    }
                }
            },
        }
    }
}

/// Balance and alternation carry over a toggle of every block.
proof fn lemma_balanced_steps(
    f: Seq<Seq<char>>,
    g: Seq<Seq<char>>,
    st: RenderState,
    st2: RenderState,
)
    requires
        balanced(f, st),
        steps_all(g, st, st2),
    ensures
        balanced(f + g, st2),
{
    broadcast use {lemma_count_concat, lemma_tags_concat};

    lemma_alternating_toggle(
        tags_of(f, "<ul>"@, "</ul>"@),
        "<ul>"@,
        "</ul>"@,
        st.in_list,
        st2.in_list,
    );
    lemma_alternating_toggle(
        tags_of(f, "<blockquote>"@, "</blockquote>"@),
        "<blockquote>"@,
        "</blockquote>"@,
        st.in_quote,
        st2.in_quote,
    );
    lemma_alternating_toggle(
        tags_of(f, "<pre>"@, "</pre>"@),
        "<pre>"@,
        "</pre>"@,
        st.in_pre,
        st2.in_pre,
    );
}

/// Rendering lines from the start keeps every block balanced.
proof fn lemma_render_lines_balanced(ls: Seq<Seq<char>>)
    ensures
        balanced(
            structural_lines(RenderState::start(), ls),
            render_lines(RenderState::start(), ls).0,
        ),
    decreases ls.len(),
{
    if ls.len() == 0 {
        lemma_count_empty("<ul>"@);
        lemma_count_empty("</ul>"@);
        lemma_count_empty("<blockquote>"@);
        lemma_count_empty("</blockquote>"@);
        lemma_count_empty("<pre>"@);
        lemma_count_empty("</pre>"@);
    } else {
        lemma_render_lines_balanced(ls.drop_last());
        let s1 = render_lines(RenderState::start(), ls.drop_last()).0;
        lemma_render_line_steps(s1, trim(ls.last()));
        lemma_balanced_steps(
            structural_lines(RenderState::start(), ls.drop_last()),
            structural_line(s1, trim(ls.last())),
            s1,
            render_line(s1, trim(ls.last())).0,
        );
    }
}

/// Closing what is still open toggles every open block shut.
proof fn lemma_close_all_steps(st: RenderState)
    ensures
        steps_all(close_all(st), st, RenderState::start()),
{
    broadcast use {lemma_count_concat, lemma_count_one, lemma_tags_concat, lemma_tags_one};

    reveal_tags();
    lemma_count_empty("<ul>"@);
    lemma_count_empty("</ul>"@);
    lemma_count_empty("<blockquote>"@);
    lemma_count_empty("</blockquote>"@);
    lemma_count_empty("<pre>"@);
    lemma_count_empty("</pre>"@);
    let a = if st.in_pre { seq!["</pre>"@] } else { Seq::<Seq<char>>::empty() };
    let b = if st.in_list { seq!["</ul>"@] } else { Seq::<Seq<char>>::empty() };
    let c = if st.in_quote { seq!["</blockquote>"@] } else { Seq::<Seq<char>>::empty() };
    assert(close_all(st) == a + b + c);
}

/// Every `<ul>`, `<blockquote>` and `<pre>` the transpiler emits for a
/// document, blocks left open at its end included, is closed: leaving out
/// the lines copied inside preformatted blocks, each opening tag occurs as
/// often as its closing tag, and the two alternate, opening tag first.
pub proof fn lemma_tags_balanced(doc: Seq<char>)
    ensures
        count(structural_fragments(doc), "<ul>"@) == count(structural_fragments(doc), "</ul>"@),
        count(structural_fragments(doc), "<blockquote>"@) == count(
            structural_fragments(doc),
            "</blockquote>"@,
        ),
        count(structural_fragments(doc), "<pre>"@) == count(structural_fragments(doc), "</pre>"@),
        alternating(
            tags_of(structural_fragments(doc), "<ul>"@, "</ul>"@),
            "<ul>"@,
            "</ul>"@,
            false,
        ),
        alternating(
            tags_of(structural_fragments(doc), "<blockquote>"@, "</blockquote>"@),
            "<blockquote>"@,
            "</blockquote>"@,
            false,
        ),
        alternating(
            tags_of(structural_fragments(doc), "<pre>"@, "</pre>"@),
            "<pre>"@,
            "</pre>"@,
            false,
        ),
{
    lemma_render_lines_balanced(lines_of(doc));
    let st = render_lines(RenderState::start(), lines_of(doc)).0;
    lemma_close_all_steps(st);
    lemma_balanced_steps(
        structural_lines(RenderState::start(), lines_of(doc)),
        close_all(st),
        st,
        RenderState::start(),
    );
}

} // verus!
