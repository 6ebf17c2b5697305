use cosmodrome::route::{html_name, route, Route};

#[test]
fn hidden_entries_are_ignored() {
    assert_eq!(route("_wrapper.gmi", false), Route::Ignore);
    assert_eq!(route("_wrapper.html", false), Route::Ignore);
}

#[test]
fn every_directory_is_visited() {
    assert_eq!(route("_drafts", true), Route::Descend);
    assert_eq!(route("posts", true), Route::Descend);
}

#[test]
fn entries_are_routed_by_kind_and_extension() {
    assert_eq!(route("posts", true), Route::Descend);
    assert_eq!(route("index.gmi", false), Route::Transpile);
    assert_eq!(route("site.css", false), Route::VerbatimCopy);
    assert_eq!(route("notes.GMI", false), Route::VerbatimCopy);
    assert_eq!(route(".gmi", false), Route::VerbatimCopy);
    assert_eq!(route("gmi", false), Route::VerbatimCopy);
}

#[test]
fn html_names_replace_the_extension() {
    assert_eq!(html_name("index.gmi").unwrap(), "index.html");
    assert_eq!(html_name("a.b.gmi").unwrap(), "a.b.html");
    assert!(html_name("index.html").is_none());
    assert!(html_name(".gmi").is_none());
}
