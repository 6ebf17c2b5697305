use cosmodrome::directive::{classify, Directive};
use cosmodrome::transpile::{finish, step, to_html, transpile, RenderState};

fn chars(s: &str) -> Vec<char> {
    s.chars().collect()
}

fn frags(doc: &str) -> Vec<String> {
    transpile(doc)
}

#[test]
fn classify_list_item() {
    match classify(&chars("* first item")) {
        Directive::ListItem(c) => assert_eq!(c, chars("first item")),
        _ => panic!("not a list item"),
    }
}

#[test]
fn classify_headers_by_level() {
    for (line, level) in [("# a", 1u8), ("## a", 2u8), ("### a", 3u8)] {
        match classify(&chars(line)) {
            Directive::Header(n, c) => {
                assert_eq!(n, level);
                assert_eq!(c, chars("a"));
            }
            _ => panic!("not a header: {}", line),
        }
    }
}

#[test]
fn classify_four_hashes_is_plain_text() {
    match classify(&chars("#### deep")) {
        Directive::PlainText(l) => assert_eq!(l, chars("#### deep")),
        _ => panic!("four hashes must be plain text"),
    }
}

#[test]
fn classify_link_with_and_without_description() {
    match classify(&chars("=> /a.gmi About us")) {
        Directive::Link(t, d) => {
            assert_eq!(t, chars("/a.gmi"));
            assert_eq!(d, chars("About us"));
        }
        _ => panic!("not a link"),
    }
    match classify(&chars("=> gemini://x")) {
        Directive::Link(t, d) => {
            assert_eq!(t, chars("gemini://x"));
            assert!(d.is_empty());
        }
        _ => panic!("not a link"),
    }
}

#[test]
fn classify_fence_blank_and_bare_token() {
    assert!(matches!(classify(&chars("```rust")), Directive::FenceToggle));
    assert!(matches!(classify(&chars("")), Directive::Blank));
    match classify(&chars("*")) {
        Directive::PlainText(l) => assert_eq!(l, chars("*")),
        _ => panic!("a lone star is plain text"),
    }
}

#[test]
fn empty_document_has_no_fragments() {
    assert!(frags("").is_empty());
    assert_eq!(to_html(""), "");
}

#[test]
fn list_grouping_closes_before_header() {
    assert_eq!(
        frags("* a\n* b\n# Header"),
        vec!["<ul>", "<li>a</li>", "<li>b</li>", "</ul>", "<h1>Header</h1>"]
    );
}

#[test]
fn transpiling_twice_gives_the_same_fragments() {
    let doc = "# T\n* a\n> q\n```\nx\n```\n=> /p.gmi P\ntext\n";
    assert_eq!(transpile(doc), transpile(doc));
    assert_eq!(to_html(doc), to_html(doc));
}

#[test]
fn local_page_link_is_rewritten() {
    assert_eq!(
        frags("=> /about.gmi About"),
        vec!["<div><a href=\"/about.html\">About</a></div>"]
    );
}

#[test]
fn mixed_case_image_keeps_description_case() {
    assert_eq!(
        frags("=> http://x/pic.PNG My Picture"),
        vec!["<div><img src=\"http://x/pic.PNG\">My Picture</img></div>"]
    );
}

#[test]
fn other_links_are_kept() {
    assert_eq!(
        frags("=> https://example.org/page.gmi Far"),
        vec!["<div><a href=\"https://example.org/page.gmi\">Far</a></div>"]
    );
    assert_eq!(frags("=> /doc.txt"), vec!["<div><a href=\"/doc.txt\"></a></div>"]);
}

#[test]
fn quotes_accumulate_in_one_blockquote() {
    assert_eq!(
        frags("> one\n> two\nafter"),
        vec!["<blockquote>", "one<br/>", "two<br/>", "</blockquote>", "<p>after</p>"]
    );
}

#[test]
fn list_after_quote_closes_the_quote() {
    assert_eq!(
        frags("> q\n* a\n# h"),
        vec!["<blockquote>", "q<br/>", "</blockquote>", "<ul>", "<li>a</li>", "</ul>", "<h1>h</h1>"]
    );
    assert_eq!(
        frags("> a\n> b\n* c"),
        vec!["<blockquote>", "a<br/>", "b<br/>", "</blockquote>", "<ul>", "<li>c</li>", "</ul>"]
    );
}

#[test]
fn preformatted_lines_are_not_interpreted() {
    assert_eq!(
        frags("```\n# not a header\n* nor an item\n```"),
        vec!["<pre>", "# not a header", "* nor an item", "</pre>"]
    );
}

#[test]
fn fence_closes_an_open_list() {
    assert_eq!(
        frags("* a\n```\nx\n```"),
        vec!["<ul>", "<li>a</li>", "</ul>", "<pre>", "x", "</pre>"]
    );
}

#[test]
fn unterminated_blocks_are_closed_at_end() {
    assert_eq!(frags("* a"), vec!["<ul>", "<li>a</li>", "</ul>"]);
    assert_eq!(frags("> q"), vec!["<blockquote>", "q<br/>", "</blockquote>"]);
    assert_eq!(frags("```\ncode"), vec!["<pre>", "code", "</pre>"]);
    assert_eq!(
        frags("> q\n* a"),
        vec!["<blockquote>", "q<br/>", "</blockquote>", "<ul>", "<li>a</li>", "</ul>"]
    );
}

#[test]
fn blank_and_plain_lines() {
    assert_eq!(frags("hello\n\nworld"), vec!["<p>hello</p>", "<br/>", "<p>world</p>"]);
}

#[test]
fn lines_are_trimmed_and_crlf_accepted() {
    assert_eq!(frags("  ## Sub  \r\n\tplain\r\n"), vec!["<h2>Sub</h2>", "<p>plain</p>"]);
}

#[test]
fn trailing_newline_adds_no_line() {
    assert_eq!(frags("a\n"), vec!["<p>a</p>"]);
    assert_eq!(frags("a\n\n"), vec!["<p>a</p>", "<br/>"]);
}

#[test]
fn body_joins_fragments_with_newlines() {
    assert_eq!(to_html("# T\n* a"), "<h1>T</h1>\n<ul>\n<li>a</li>\n</ul>");
}

#[test]
fn step_and_finish_drive_the_state() {
    let st = RenderState::new();
    let (st, out) = step(st, &chars("* a"));
    assert!(st.in_list);
    assert_eq!(out, vec![chars("<ul>"), chars("<li>a</li>")]);
    let (st, out) = step(st, &chars("```"));
    assert!(st.in_pre && !st.in_list);
    assert_eq!(out, vec![chars("</ul>"), chars("<pre>")]);
    assert_eq!(finish(st), vec![chars("</pre>")]);
}

#[test]
fn open_and_close_tags_are_balanced() {
    let doc = "> q\n* a\n* b\n```\nraw\n> x\n```\n* c\n```\nleft open";
    let f = frags(doc);
    for (open, close) in [("<ul>", "</ul>"), ("<blockquote>", "</blockquote>"), ("<pre>", "</pre>")] {
        let o = f.iter().filter(|s| s.as_str() == open).count();
        let c = f.iter().filter(|s| s.as_str() == close).count();
        assert_eq!(o, c, "{}", open);
    }
}

#[test]
fn unicode_text_passes_through() {
    assert_eq!(frags("# Поехали!"), vec!["<h1>Поехали!</h1>"]);
}
