//! Calls into outside crates, each with the contract that the crate's source
//! or documentation gives it.

use vstd::prelude::*;
use maud::Render;
use lightningcss::stylesheet::{MinifyOptions, ParserOptions, PrinterOptions, StyleSheet};
use crate::text::{html_escape, opt_view};

verus! {

/// Appends `text` to `buf` through maud's `Render` impl for `str`, which escapes
/// `&`, `<`, `>` and `"` as entities and copies every other character (maud's
/// `Escaper` documentation and `escape_to_string`).
#[verifier::external_body]
pub(crate) fn push_escaped(buf: &mut String, text: &str)
    ensures
        final(buf)@ == old(buf)@ + html_escape(text@),
{
    text.render_to(buf)
}

/// The text chrono writes for the UTC instant `secs` seconds and `nanos`
/// nanoseconds after the Unix epoch in the format `%y-%m-%d %H:%M`, or none
/// when chrono has no such instant.
pub uninterp spec fn utc_minute_text(secs: i64, nanos: u32) -> Option<Seq<char>>;

/// `chrono::DateTime::<Utc>::from_timestamp(secs, nanos)`, formatted with
/// `DateTime::format("%y-%m-%d %H:%M")`: claimed to give the named text, which
/// depends on the two numbers alone (no time zone or locale enters it).
#[verifier::external_body]
pub(crate) fn format_utc_minute(secs: i64, nanos: u32) -> (r: Option<String>)
    ensures
        opt_view(r) == utc_minute_text(secs, nanos),
{
    match chrono::DateTime::from_timestamp(secs, nanos) {
        Some(instant) => Some(instant.format("%y-%m-%d %H:%M").to_string()),
        None => None,
    }
}

/// The `application/x-www-form-urlencoded` text that `url::form_urlencoded`
/// serializes the given name and value pairs to, in their order.
pub uninterp spec fn form_urlencoded_text(pairs: Seq<(Seq<char>, Seq<char>)>) -> Seq<char>;

/// `url::form_urlencoded::Serializer::new(String::new())`, fed the pairs with
/// `extend_pairs` and closed with `finish`: claimed to give the named text of
/// the pairs.
#[verifier::external_body]
pub(crate) fn urlencode_pairs(pairs: &Vec<(String, String)>) -> (r: String)
    ensures
        r@ == form_urlencoded_text(pairs.deep_view()),
{
    url::form_urlencoded::Serializer::new(String::new()).extend_pairs(pairs.iter()).finish()
}

/// The name and value pairs that `serde_urlencoded` reads from a form body as
/// a sequence of `(u32, String)` pairs, in the body's order, or none when the
/// body does not parse so (for instance when a name is not a `u32`).
pub uninterp spec fn form_pairs(body: Seq<char>) -> Option<Seq<(u32, Seq<char>)>>;

/// `serde_urlencoded::from_str::<Vec<(u32, String)>>(body)`, its error
/// dropped: claimed to give the named pairs.
#[verifier::external_body]
pub(crate) fn parse_form_pairs(body: &str) -> (r: Option<Vec<(u32, String)>>)
    ensures
        match r {
            Some(v) => form_pairs(body@) == Some(v.deep_view()),
            None => form_pairs(body@) is None,
        },
{
    serde_urlencoded::from_str::<Vec<(u32, String)>>(body).ok()
}

/// The style sheet that lightningcss prints, minified, after parsing `css`
/// and minifying it with default options; none when parsing, minifying or
/// printing fails.
pub uninterp spec fn minified_css(css: Seq<char>) -> Option<Seq<char>>;

/// lightningcss's `StyleSheet::parse` with default parser options, then
/// `StyleSheet::minify` with default options, then `StyleSheet::to_css` with
/// `minify: true`, keeping the printed code: claimed to give the named text.
#[verifier::external_body]
pub(crate) fn minify_css(css: &str) -> (r: Option<String>)
    ensures
        opt_view(r) == minified_css(css@),
{
    match StyleSheet::parse(css, ParserOptions::default()) {
        Ok(mut sheet) => match sheet.minify(MinifyOptions::default()) {
            Ok(()) => sheet.to_css(PrinterOptions { minify: true, ..Default::default() }).ok().map(
                |out| out.code,
            ),
            Err(_) => None,
        },
        Err(_) => None,
    }
}

} // verus!
