//! Which texts are accepted as the long URL of a mapping.

use vstd::prelude::*;

verus! {

/// What the parser found in a text that it accepted.
#[derive(Clone, Debug)]
pub struct ParsedUrl {
    /// The scheme, lower-cased, without the colon.
    pub scheme: String,
    /// The host, if the URL names one.
    pub host: Option<String>,
}

/// The scheme and host that `url::Url::parse` finds in a text; `None` where
/// it rejects the text.
pub uninterp spec fn parsed_url(text: Seq<char>) -> Option<(Seq<char>, Option<Seq<char>>)>;

/// Characters that the parser strips from both ends of its input.
pub open spec fn is_c0_or_space(c: char) -> bool {
    c <= ' '
}

/// Characters that the parser skips wherever they stand.
pub open spec fn is_tab_or_newline(c: char) -> bool {
    c == '\t' || c == '\n' || c == '\r'
}

/// The characters with which a scheme may begin.
pub open spec fn is_ascii_letter(c: char) -> bool {
    ('a' <= c && c <= 'z') || ('A' <= c && c <= 'Z')
}

/// Characters that may follow the first letter of a scheme.
pub open spec fn is_scheme_char(c: char) -> bool {
    is_ascii_letter(c) || ('0' <= c && c <= '9') || c == '+' || c == '-' || c == '.'
}

/// The text opens with a scheme: after leading controls and spaces comes an
/// ASCII letter, then scheme characters (tabs and newlines among them are
/// skipped), then a colon.
pub open spec fn has_scheme(text: Seq<char>) -> bool {
    exists|start: int, colon: int|
        #![trigger text[start], text[colon]]
        {
            &&& 0 <= start < colon < text.len()
            &&& forall|j: int| 0 <= j < start ==> is_c0_or_space(#[trigger] text[j])
            &&& is_ascii_letter(text[start])
            &&& forall|j: int|
                start < j < colon ==> is_scheme_char(#[trigger] text[j]) || is_tab_or_newline(
                    text[j],
                )
            &&& text[colon] == ':'
        }
}

/// The view of a parse result, in the shape of `parsed_url`.
pub open spec fn parse_view(parsed: Option<ParsedUrl>) -> Option<(Seq<char>, Option<Seq<char>>)> {
    match parsed {
        Some(p) => Some(
            (
                p.scheme@,
                match p.host {
                    Some(h) => Some(h@),
                    None => None,
                },
            ),
        ),
        None => None,
    }
}

/// A well-formed absolute URL: the parser accepts the text and finds a
/// scheme and a host in it.
pub open spec fn is_absolute_url(text: Seq<char>) -> bool {
    match parsed_url(text) {
        Some((scheme, host)) => scheme.len() > 0 && host is Some,
        None => false,
    }
}

/// Runs `url::Url::parse` on the text and copies out the scheme and the host
/// of the URL it returns. The parser is a function of the text alone, so its
/// answer has a name, `parsed_url`. Without a base URL the parser gives up on
/// any text that does not open with a scheme.
#[verifier::external_body]
fn parse_url(text: &str) -> (parsed: Option<ParsedUrl>)
    ensures
        parse_view(parsed) == parsed_url(text@),
        parsed is Some ==> has_scheme(text@),
{
    match url::Url::parse(text) {
        Ok(u) => Some(
            ParsedUrl { scheme: u.scheme().to_owned(), host: u.host_str().map(str::to_owned) },
        ),
        Err(_) => None,
    }
}

impl ParsedUrl {
    /// Whether the parsed URL has both a scheme and a host.
    pub fn is_absolute(&self) -> (ok: bool)
        ensures
            ok == (self.scheme@.len() > 0 && self.host is Some),
    {
        !self.scheme.as_str().is_empty() && self.host.is_some()
    }
}

/// Decides whether a text may be shortened.
pub fn is_valid_url(text: &str) -> (ok: bool)
    ensures
        ok == is_absolute_url(text@),
        !has_scheme(text@) ==> !ok,
{
    match parse_url(text) {
        Some(parsed) => parsed.is_absolute(),
        None => false,
    }
}

} // verus!
