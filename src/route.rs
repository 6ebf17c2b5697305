//! The directory layout of a site and the decision, per directory entry, of
//! what the build does with it.
use vstd::prelude::*;
use crate::text::{copy_range, from_chars, is_text, push_str, to_chars};

verus! {

/// Directory of the gemtext sources and wrapper templates.
pub const SRC_DIR: &'static str = "src";
/// Directory of the published trees.
pub const SRV_DIR: &'static str = "srv";
/// Published web site.
pub const SRV_WWW_DIR: &'static str = "srv/www";
/// Published gemini capsule.
pub const SRV_GEM_DIR: &'static str = "srv/gemini";
/// Static files laid over the web site.
pub const EXTRA_WWW_DIR: &'static str = "www";
/// Static files laid over the capsule.
pub const EXTRA_GEM_DIR: &'static str = "gemini";
/// Wrapper template of HTML pages.
pub const HTML_WRAPPER_PATH: &'static str = "src/_wrapper.html";
/// Wrapper template of capsule pages.
pub const GMI_WRAPPER_PATH: &'static str = "src/_wrapper.gmi";

/// What the build does with a directory entry.
#[derive(Clone, Copy, Debug, PartialEq, Eq, Structural)]
pub enum Route {
    /// Hidden file: nothing is written for it.
    Ignore,
    /// Directory: its entries are visited in turn.
    Descend,
    /// Gemtext page: transpiled to an HTML page and wrapped as a capsule page.
    Transpile,
    /// Any other file: copied byte for byte into both trees.
    VerbatimCopy,
}

/// A name that starts with the hidden prefix `_`.
pub open spec fn is_hidden(name: Seq<char>) -> bool {
    name.len() > 0 && name[0] == '_'
}

/// A file name with the gemtext extension: `.gmi` after a non-empty stem.
pub open spec fn is_markup_name(name: Seq<char>) -> bool {
    name.len() > 4 && name.skip(name.len() - 4) == ".gmi"@
}

/// The route of an entry with the given name: every directory is visited,
/// hidden files are skipped.
pub open spec fn route_of(name: Seq<char>, is_dir: bool) -> Route {
    if is_dir {
        Route::Descend
    } else if is_hidden(name) {
        Route::Ignore
    } else if is_markup_name(name) {
        Route::Transpile
    } else {
        Route::VerbatimCopy
    }
}

/// Whether a file name has the gemtext extension after a non-empty stem.
fn has_markup_ext(n: &[char]) -> (r: bool)
    ensures
        r == is_markup_name(n@),
{
    let len = n.len();
    if len <= 4 {
        return false;
    }
    let ext = copy_range(n, len - 4, len);
    assert(ext@ =~= n@.skip(len - 4));
    is_text(ext.as_slice(), ".gmi")
}

/// The route of a directory entry, from its name and whether it is a
/// directory.
pub fn route(name: &str, is_dir: bool) -> (r: Route)
    ensures
        r == route_of(name@, is_dir),
        !is_dir && is_hidden(name@) ==> r == Route::Ignore,
{
    let n = to_chars(name);
    if is_dir {
        Route::Descend
    } else if n.len() > 0 && n[0] == '_' {
        Route::Ignore
    } else if has_markup_ext(n.as_slice()) {
        Route::Transpile
    } else {
        Route::VerbatimCopy
    }
}

/// The name of the HTML page of a gemtext file: the extension `gmi` becomes
/// `html`; none for a name that is not a gemtext file name.
pub fn html_name(name: &str) -> (r: Option<String>)
    ensures
        r is Some <==> is_markup_name(name@),
        r matches Some(h) ==> h@ == name@.take(name@.len() - 3) + "html"@,
{
    let n = to_chars(name);
    if has_markup_ext(n.as_slice()) {
        let mut h = copy_range(n.as_slice(), 0, n.len() - 3);
        push_str(&mut h, "html");
        Some(from_chars(h.as_slice()))
    } else {
        None
    }
}

} // verus!
