use crate::sdp::parse::{Format, Parse};
use crate::sdp::uri::{uri_from_str, uri_of, uri_text, uri_to_string};
use crate::sdp::util::{
    crlf, line_ending, literal, piece, push_crlf, take_line_ending, take_literal, take_token, token,
    Stop,
};
use http::Uri;
use vstd::prelude::*;
use vstd::string::*;

verus! {

/// How the key of a session is had: the line `k=`.
#[derive(Clone, Debug, PartialEq)]
pub enum EncryptionKey {
    /// The key as it is.
    Clear(String),
    /// The key in base64.
    Base64(String),
    /// Where the key is found.
    Uri(Uri),
    /// The user is to be asked for the key.
    Prompt,
}

/// What a key line holds.
pub enum EncryptionKeyView {
    Clear(Seq<char>),
    Base64(Seq<char>),
    Uri(Uri),
    Prompt,
}

impl DeepView for EncryptionKey {
    type V = EncryptionKeyView;

    open spec fn deep_view(&self) -> EncryptionKeyView {
        match self {
            EncryptionKey::Clear(key) => EncryptionKeyView::Clear(key@),
            EncryptionKey::Base64(key) => EncryptionKeyView::Base64(key@),
            EncryptionKey::Uri(uri) => EncryptionKeyView::Uri(*uri),
            EncryptionKey::Prompt => EncryptionKeyView::Prompt,
        }
    }
}

impl Format for EncryptionKey {
    /// `k=`, the method, a colon and the key where the method has one, and
    /// the end of the line.
    open spec fn formatted(value: EncryptionKeyView) -> Seq<char> {
        match value {
            EncryptionKeyView::Clear(key) => "k=clear:"@ + key + crlf(),
            EncryptionKeyView::Base64(key) => "k=base64:"@ + key + crlf(),
            EncryptionKeyView::Uri(uri) => "k=uri:"@ + uri_text(uri) + crlf(),
            EncryptionKeyView::Prompt => "k=prompt"@ + crlf(),
        }
    }

    fn to_string(&self) -> (text: String) {
        let mut text = match self {
            EncryptionKey::Clear(key) => {
                let mut text = String::from_str("k=clear:");
                text.append(key.as_str());
                text
            },
            EncryptionKey::Base64(key) => {
                let mut text = String::from_str("k=base64:");
                text.append(key.as_str());
                text
            },
            EncryptionKey::Uri(uri) => {
                let mut text = String::from_str("k=uri:");
                let uri = uri_to_string(uri);
                text.append(uri.as_str());
                text
            },
            EncryptionKey::Prompt => String::from_str("k=prompt"),
        };
        push_crlf(&mut text);
        text
    }
}

/// What reading a method with a key comes to: the letters `method`, then the
/// key, text up to the end of the line, at least one character.
pub open spec fn parsed_keyed(text: Seq<char>, from: int, method: Seq<char>) -> Option<
    (Seq<char>, int),
> {
    match literal(text, from, method) {
        None => None,
        Some(start) => match token(text, start, Stop::Line) {
            None => None,
            Some(end) => Some((text.subrange(start, end), end)),
        },
    }
}

/// Reads a method with a key.
pub fn parse_keyed(input: &str, len: usize, from: usize, method: &str) -> (read: Option<
    (String, usize),
>)
    requires
        len == input@.len(),
        from <= len,
    ensures
        match parsed_keyed(input@, from as int, method@) {
            Some((key, end)) => read matches Some((made, e)) && made@ == key && e == end && from
                < e <= len,
            None => read is None,
        },
{
    let start = match take_literal(input, len, from, method) {
        Some(start) => start,
        None => {
            return None;
        },
    };
    match take_token(input, len, start, Stop::Line) {
        Some(end) => Some((piece(input, start, end), end)),
        None => None,
    }
}

/// What reading the method of a key line comes to: the first of `clear:`
/// with a key, `base64:` with a key, `uri:` with a key that is a resource
/// identifier, and `prompt`, that stands at `from`.
pub open spec fn parsed_method(text: Seq<char>, from: int) -> Option<(EncryptionKeyView, int)> {
    if let Some((key, end)) = parsed_keyed(text, from, "clear:"@) {
        Some((EncryptionKeyView::Clear(key), end))
    } else if let Some((key, end)) = parsed_keyed(text, from, "base64:"@) {
        Some((EncryptionKeyView::Base64(key), end))
    } else if parsed_keyed(text, from, "uri:"@) is Some && uri_of(
        parsed_keyed(text, from, "uri:"@)->Some_0.0,
    ) is Some {
        Some(
            (
                EncryptionKeyView::Uri(uri_of(parsed_keyed(text, from, "uri:"@)->Some_0.0)->Some_0),
                parsed_keyed(text, from, "uri:"@)->Some_0.1,
            ),
        )
    } else if let Some(end) = literal(text, from, "prompt"@) {
        Some((EncryptionKeyView::Prompt, end))
    } else {
        None
    }
}

impl Parse for EncryptionKey {
    /// `k=`, then the method with its key, then a line ending.
    open spec fn parsed(text: Seq<char>, from: int) -> Option<(EncryptionKeyView, int)> {
        match literal(text, from, "k="@) {
            None => None,
            Some(start) => match parsed_method(text, start) {
                None => None,
                Some((key, end)) => match line_ending(text, end) {
                    None => None,
                    Some(after) => Some((key, after)),
                },
            },
        }
    }

    fn parse_at(input: &str, len: usize, from: usize) -> (read: Option<(EncryptionKey, usize)>) {
        let start = match take_literal(input, len, from, "k=") {
            Some(start) => start,
            None => {
                return None;
            },
        };
        let (key, end) = match parse_method(input, len, start) {
            Some(pair) => pair,
            None => {
                return None;
            },
        };
        match take_line_ending(input, len, end) {
            Some(after) => Some((key, after)),
            None => None,
        }
    }
}

/// Reads the method of a key line, with its key.
pub fn parse_method(input: &str, len: usize, from: usize) -> (read: Option<(EncryptionKey, usize)>)
    requires
        len == input@.len(),
        from <= len,
    ensures
        match parsed_method(input@, from as int) {
            Some((key, end)) => read matches Some((made, e)) && made.deep_view() == key && e
                == end && from <= e <= len,
            None => read is None,
        },
{
    if let Some((key, end)) = parse_keyed(input, len, from, "clear:") {
        return Some((EncryptionKey::Clear(key), end));
    }
    if let Some((key, end)) = parse_keyed(input, len, from, "base64:") {
        return Some((EncryptionKey::Base64(key), end));
    }
    if let Some((key, end)) = parse_keyed(input, len, from, "uri:") {
        if let Some(read) = EncryptionKey::from_uri(uri_from_str(key.as_str()), end) {
            return Some(read);
        }
    }
    match take_literal(input, len, from, "prompt") {
        Some(end) => Some((EncryptionKey::Prompt, end)),
        None => None,
    }
}

impl EncryptionKey {
    /// The key line for a resource identifier that was read up to `end`, if
    /// one was read.
    pub fn from_uri(uri: Option<Uri>, end: usize) -> (read: Option<(EncryptionKey, usize)>)
        ensures
            read == match uri {
                Some(uri) => Some((EncryptionKey::Uri(uri), end)),
                None => None,
            },
    {
        match uri {
            Some(uri) => Some((EncryptionKey::Uri(uri), end)),
            None => None,
        }
    }
}

} // verus!
