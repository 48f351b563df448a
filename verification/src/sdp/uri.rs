use crate::sdp::parse::{Format, Parse};
use crate::sdp::util::{crlf, parse_nonempty_line, parsed_nonempty_line, push_crlf};
use http::Uri as HttpUri;
use vstd::prelude::*;
use vstd::string::*;

verus! {

/// The resource identifier of the `http` crate, carried through as it is.
#[verifier::external_type_specification]
#[verifier::external_body]
pub struct ExHttpUri(HttpUri);

/// What `http::Uri`'s `from_str` makes of a text: the identifier, or `None`
/// where the text is none.
pub uninterp spec fn uri_of(text: Seq<char>) -> Option<HttpUri>;

/// The text that `http::Uri`'s `Display` writes for an identifier.
pub uninterp spec fn uri_text(uri: HttpUri) -> Seq<char>;

/// `<http::Uri as Clone>::clone`: the copy is the same identifier.
pub assume_specification[ <HttpUri as Clone>::clone ](uri: &HttpUri) -> (copy: HttpUri)
    ensures
        copy == *uri,
;

/// `<http::Uri as FromStr>::from_str`: reads a text as a resource
/// identifier. Nothing is claimed of which texts are identifiers, only that
/// the same text always gives the same result.
#[verifier::external_body]
pub(crate) fn uri_from_str(text: &str) -> (uri: Option<HttpUri>)
    ensures
        uri == uri_of(text@),
{
    text.parse::<HttpUri>().ok()
}

/// `<http::Uri as Display>::fmt`, through `to_string`: writes an identifier
/// as text. Nothing is claimed of the text, only that the same identifier
/// always gives the same text.
#[verifier::external_body]
pub(crate) fn uri_to_string(uri: &HttpUri) -> (text: String)
    ensures
        text@ == uri_text(*uri),
{
    uri.to_string()
}

/// Where more about the session is found: the line `u=`.
#[derive(Clone, Debug, PartialEq)]
pub struct Uri(pub HttpUri);

impl DeepView for Uri {
    type V = HttpUri;

    /// The identifier.
    open spec fn deep_view(&self) -> HttpUri {
        self.0
    }
}

impl Format for Uri {
    /// `u=`, the text of the identifier, and the end of the line.
    open spec fn formatted(value: HttpUri) -> Seq<char> {
        "u="@ + uri_text(value) + crlf()
    }

    fn to_string(&self) -> (text: String) {
        let mut text = String::from_str("u=");
        let uri = uri_to_string(&self.0);
        text.append(uri.as_str());
        push_crlf(&mut text);
        text
    }
}

/// What a line with an identifier comes to, once its text was read as an
/// identifier: the identifier with the place after the line, where the text
/// is one.
pub open spec fn parsed_uri_line(line: Option<(Seq<char>, int)>) -> Option<(HttpUri, int)> {
    match line {
        None => None,
        Some((value, after)) => match uri_of(value) {
            None => None,
            Some(uri) => Some((uri, after)),
        },
    }
}

impl Uri {
    /// The line for an identifier that was read, if one was read.
    pub fn from_parsed(uri: Option<HttpUri>, after: usize) -> (read: Option<(Uri, usize)>)
        ensures
            read == match uri {
                Some(uri) => Some((Uri(uri), after)),
                None => None,
            },
    {
        match uri {
            Some(uri) => Some((Uri(uri), after)),
            None => None,
        }
    }
}

impl Parse for Uri {
    /// `u=`, then text up to the end of the line that is a resource
    /// identifier, then a line ending.
    open spec fn parsed(text: Seq<char>, from: int) -> Option<(HttpUri, int)> {
        parsed_uri_line(parsed_nonempty_line(text, from, "u="@))
    }

    fn parse_at(input: &str, len: usize, from: usize) -> (read: Option<(Uri, usize)>) {
        match parse_nonempty_line(input, len, from, "u=") {
            Some((value, after)) => Uri::from_parsed(uri_from_str(value.as_str()), after),
            None => None,
        }
    }
}

} // verus!
