use cosmodrome::error::ErrorKind;
use cosmodrome::template::{html_page, splice, wrap_capsule, WrapperTemplate, CONTENT_MARKER};

#[test]
fn splice_puts_content_at_marker() {
    assert_eq!(splice("HEADER<!-- CONTENT -->FOOTER", "BODY").unwrap(), "HEADERBODYFOOTER");
}

#[test]
fn splice_without_marker_is_malformed() {
    let e = splice("HEADER FOOTER", "BODY").unwrap_err();
    assert_eq!(e.kind, ErrorKind::MalformedTemplate);
    assert!(WrapperTemplate::parse("").is_err());
    assert!(WrapperTemplate::parse("<!-- CONTENT --").is_err());
}

#[test]
fn splice_uses_first_marker() {
    assert_eq!(splice("a<!-- CONTENT -->b<!-- CONTENT -->c", "X").unwrap(), "aXb<!-- CONTENT -->c");
}

#[test]
fn parse_splits_header_and_footer() {
    let w = WrapperTemplate::parse("<html>\n<!-- CONTENT -->\n</html>").unwrap();
    assert_eq!(w.header, "<html>\n");
    assert_eq!(w.footer, "\n</html>");
    let w = WrapperTemplate::parse(CONTENT_MARKER).unwrap();
    assert_eq!(w.header, "");
    assert_eq!(w.footer, "");
}

#[test]
fn capsule_keeps_source_verbatim() {
    let w = WrapperTemplate::parse("# Capsule\n<!-- CONTENT -->\n-- end").unwrap();
    let src = "## About\r\n* item \n```\n  raw  \n```\n";
    let page = wrap_capsule(&w, src);
    assert_eq!(page, format!("# Capsule\n{}\n-- end", src));
}

#[test]
fn html_page_wraps_transpiled_body() {
    let w = WrapperTemplate::parse("<body><!-- CONTENT --></body>").unwrap();
    assert_eq!(html_page(&w, "# Hi\ntext"), "<body><h1>Hi</h1>\n<p>text</p></body>");
}
