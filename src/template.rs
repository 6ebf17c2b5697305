//! Wrapper templates: a header and a footer split at the content marker,
//! spliced around generated or verbatim content.
use vstd::prelude::*;
use crate::error::{AppError, ErrorKind};
use crate::text::{copy_range, from_chars, push_all, to_chars};
use crate::transpile::{html_body, to_html};

verus! {

/// The placeholder that separates a template's header from its footer.
pub const CONTENT_MARKER: &'static str = "<!-- CONTENT -->";

/// The placeholder's characters.
pub open spec fn marker() -> Seq<char> {
    CONTENT_MARKER@
}

/// `m` occurs in `s` starting at `i`.
pub open spec fn occurs_at(s: Seq<char>, m: Seq<char>, i: int) -> bool {
    0 <= i && i + m.len() <= s.len() && s.subrange(i, i + m.len()) == m
}

/// The first start at or after `i` where `m` occurs in `s`.
pub open spec fn find_from(s: Seq<char>, m: Seq<char>, i: int) -> Option<int>
    decreases s.len() + 1 - i,
{
    if i < 0 || i + m.len() > s.len() {
        None
    } else if occurs_at(s, m, i) {
        Some(i)
    } else {
        find_from(s, m, i + 1)
    }
}

/// Header and footer of a template: the text before and after the first
/// marker; none where the marker does not occur.
pub open spec fn template_parts(t: Seq<char>) -> Option<(Seq<char>, Seq<char>)> {
    match find_from(t, marker(), 0) {
        Some(i) => Some((t.take(i), t.skip(i + marker().len()))),
        None => None,
    }
}

/// A template with `content` in place of its marker.
pub open spec fn spliced(t: Seq<char>, content: Seq<char>) -> Option<Seq<char>> {
    match template_parts(t) {
        Some((h, f)) => Some(h + content + f),
        None => None,
    }
}

/// `find_from` finds the first occurrence at or after `i`, and nothing only
/// where there is none.
pub proof fn lemma_find_from(s: Seq<char>, m: Seq<char>, i: int)
    requires
        0 <= i,
    ensures
        match find_from(s, m, i) {
            Some(j) => i <= j && occurs_at(s, m, j) && forall|k: int|
                i <= k < j ==> !occurs_at(s, m, k),
            None => forall|k: int| i <= k ==> !occurs_at(s, m, k),
        },
    decreases s.len() + 1 - i,
{
    if i + m.len() <= s.len() && !occurs_at(s, m, i) {
        lemma_find_from(s, m, i + 1);
    }
}

/// A template is malformed exactly when the marker occurs nowhere in it.
pub proof fn lemma_malformed_iff_no_marker(t: Seq<char>)
    ensures
        template_parts(t) is None <==> forall|k: int| !occurs_at(t, marker(), k),
{
    lemma_find_from(t, marker(), 0);
}

/// Splicing keeps the text around the marker and puts the content, unchanged,
/// between header and footer; header, marker and footer make up the template.
pub proof fn lemma_splice_round_trip(t: Seq<char>, content: Seq<char>)
    requires
        template_parts(t) is Some,
    ensures
        ({
            let (h, f) = template_parts(t)->0;
            &&& h + marker() + f == t
            &&& spliced(t, content) == Some(h + content + f)
            &&& (h + content + f).subrange(h.len() as int, (h.len() + content.len()) as int) == content
        }),
{
    lemma_find_from(t, marker(), 0);
    let (h, f) = template_parts(t)->0;
    assert(h + marker() + f =~= t);
    assert((h + content + f).subrange(h.len() as int, (h.len() + content.len()) as int) =~= content);
}

/// Whether `m` occurs in `s` starting at `i`.
fn occurs_at_exec(s: &[char], m: &[char], i: usize) -> (r: bool)
    requires
        i <= s@.len(),
    ensures
        r == occurs_at(s@, m@, i as int),
{
    let n = s.len();
    if m.len() > n - i {
        return false;
    }
    let mut k: usize = 0;
    while k < m.len()
        invariant
            n == s@.len(),
            i + m@.len() <= n,
            k <= m@.len(),
            forall|j: int| 0 <= j < k ==> s@[i + j] == m@[j],
        decreases m@.len() - k,
    {
        if s[i + k] != m[k] {
            assert(s@.subrange(i as int, i + m@.len())[k as int] != m@[k as int]);
            return false;
        }
        k += 1;
    }
    assert(s@.subrange(i as int, i + m@.len()) =~= m@);
    true
}

/// A template split at its first content marker.
pub struct WrapperTemplate {
    pub header: String,
    pub footer: String,
}

impl WrapperTemplate {
    /// Splits a template's text at its first marker; a text without the
    /// marker is a malformed template.
    pub fn parse(text: &str) -> (r: Result<WrapperTemplate, AppError>)
        ensures
            match r {
                Ok(w) => template_parts(text@) == Some((w.header@, w.footer@)),
                Err(e) => template_parts(text@) is None && e.kind == ErrorKind::MalformedTemplate,
            },
    {
        let t = to_chars(text);
        let m = to_chars(CONTENT_MARKER);
        let n = t.len();
        let mut i: usize = 0;
        while i < n && !occurs_at_exec(t.as_slice(), m.as_slice(), i)
            invariant
                i <= n == t@.len(),
                t@ == text@,
                m@ == marker(),
                find_from(t@, m@, 0) == find_from(t@, m@, i as int),
            decreases n - i,
        {
            i += 1;
        }
        if i < n {
            let header = from_chars(copy_range(t.as_slice(), 0, i).as_slice());
            let footer = from_chars(
                copy_range(t.as_slice(), i + m.len(), n).as_slice(),
            );
            assert(header@ =~= t@.take(i as int));
            assert(footer@ =~= t@.skip(i + m@.len()));
            Ok(WrapperTemplate { header, footer })
        } else {
            proof {
                reveal_strlit("<!-- CONTENT -->");
            }
            Err(AppError::with_kind(ErrorKind::MalformedTemplate, "wrapper template has no content marker"))
        }
    }

    /// The template with `content` between header and footer.
    pub fn wrap(&self, content: &str) -> (r: String)
        ensures
            r@ == self.header@ + content@ + self.footer@,
    {
        let mut r = to_chars(self.header.as_str());
        push_all(&mut r, to_chars(content).as_slice());
        push_all(&mut r, to_chars(self.footer.as_str()).as_slice());
        from_chars(r.as_slice())
    }
}

/// A template with `content` in place of its first marker, or a malformed
/// template error where it holds none.
pub fn splice(template: &str, content: &str) -> (r: Result<String, AppError>)
    ensures
        match r {
            Ok(s) => spliced(template@, content@) == Some(s@),
            Err(e) => spliced(template@, content@) is None && e.kind
                == ErrorKind::MalformedTemplate,
        },
{
    match WrapperTemplate::parse(template) {
        Ok(w) => Ok(w.wrap(content)),
        Err(e) => Err(e),
    }
}

/// A capsule page: the gemtext source, unchanged, between the template's
/// header and footer.
pub fn wrap_capsule(template: &WrapperTemplate, source: &str) -> (r: String)
    ensures
        r@ == template.header@ + source@ + template.footer@,
{
    template.wrap(source)
}

/// An HTML page: the HTML body of the gemtext source between the template's
/// header and footer.
pub fn html_page(template: &WrapperTemplate, source: &str) -> (r: String)
    ensures
        r@ == template.header@ + html_body(source@) + template.footer@,
{
    let body = to_html(source);
    template.wrap(body.as_str())
}

} // verus!
