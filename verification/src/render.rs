//! Rendering of article bodies. The Markdown is turned into HTML by the
//! `markdown` crate, in its GitHub flavour; what it produces is named here.

use vstd::prelude::*;

verus! {

/// The HTML that the `markdown` crate makes of `text` read as GitHub
/// flavoured Markdown; `raw_html` says whether HTML inside the text is let
/// through as it stands. `None` where the crate reports an error.
pub uninterp spec fn html_of(text: Seq<char>, raw_html: bool) -> Option<Seq<char>>;

/// Calls `markdown::to_html_with_options` on `text`, with the options of
/// `Options::gfm()` and `allow_dangerous_html` set to `raw_html`. The
/// contract claims that the result is a function of the text and of that
/// option, named `html_of`, and that the call does not fail: with these
/// options no construct that can be malformed is switched on.
#[verifier::external_body]
pub(crate) fn render(text: &str, raw_html: bool) -> (html: Option<String>)
    ensures
        html is Some,
        crate::text::opt_text(html) == html_of(text@, raw_html),
{
    let mut options = markdown::Options::gfm();
    options.compile.allow_dangerous_html = raw_html;
    markdown::to_html_with_options(text, &options).ok()
}

} // verus!
