use crate::sdp::origin::{parse_next_field, parsed_next_field};
use crate::sdp::parse::{parsed_separated, separated_nonempty_list, Format, Parse};
use crate::sdp::util::{
    crlf, line_ending, literal, parse_field, parsed_field, push_crlf, take_line_ending,
    take_literal,
};
use vstd::prelude::*;
use vstd::string::*;

verus! {

/// What a media stream is, and how it is carried: the line `m=`.
#[derive(Clone, Debug, PartialEq)]
pub struct MediaInformation {
    pub media_type: String,
    pub port: String,
    pub proto: String,
    /// The formats of the media: at least one.
    pub formats: Vec<String>,
}

/// What a media line holds.
pub struct MediaInformationView {
    pub media_type: Seq<char>,
    pub port: Seq<char>,
    pub proto: Seq<char>,
    pub formats: Seq<Seq<char>>,
}

impl DeepView for MediaInformation {
    type V = MediaInformationView;

    open spec fn deep_view(&self) -> MediaInformationView {
        MediaInformationView {
            media_type: self.media_type@,
            port: self.port@,
            proto: self.proto@,
            formats: self.formats.deep_view(),
        }
    }
}

/// Fields, each with a space before it.
pub open spec fn spaced(fields: Seq<Seq<char>>) -> Seq<char>
    decreases fields.len(),
{
    if fields.len() == 0 {
        Seq::empty()
    } else {
        spaced(fields.drop_last()) + " "@ + fields.last()
    }
}

impl Format for MediaInformation {
    /// `m=`, the three fields and the formats with a space between them,
    /// and the end of the line.
    open spec fn formatted(value: MediaInformationView) -> Seq<char> {
        "m="@ + value.media_type + " "@ + value.port + " "@ + value.proto + spaced(value.formats)
            + crlf()
    }

    fn to_string(&self) -> (text: String) {
        let mut text = String::from_str("m=");
        text.append(self.media_type.as_str());
        text.append(" ");
        text.append(self.port.as_str());
        text.append(" ");
        text.append(self.proto.as_str());
        let ghost head = text@;
        let ghost formats = self.formats.deep_view();
        let mut i: usize = 0;
        assert(formats.take(0) =~= Seq::<Seq<char>>::empty());
        assert(text@ =~= head + spaced(formats.take(0)));
        while i < self.formats.len()
            invariant
                i <= self.formats.len(),
                formats == self.formats.deep_view(),
                text@ == head + spaced(formats.take(i as int)),
            decreases self.formats.len() - i,
        {
            text.append(" ");
            text.append(self.formats[i].as_str());
            proof {
                assert(formats.take(i + 1).drop_last() =~= formats.take(i as int));
                assert(formats.take(i + 1).last() == self.formats@[i as int]@);
                assert(text@ =~= head + spaced(formats.take(i + 1)));
            }
            i += 1;
        }
        assert(formats.take(i as int) =~= formats);
        push_crlf(&mut text);
        text
    }
}

impl Parse for MediaInformation {
    /// `m=`, then three fields with one space between them, then a space and
    /// the formats, fields with one space between them, at least one; then a
    /// line ending.
    open spec fn parsed(text: Seq<char>, from: int) -> Option<(MediaInformationView, int)> {
        match literal(text, from, "m="@) {
            None => None,
            Some(at0) => match parsed_field(text, at0) {
                None => None,
                Some((media_type, at1)) => match parsed_next_field(text, at1) {
                    None => None,
                    Some((port, at2)) => match parsed_next_field(text, at2) {
                        None => None,
                        Some((proto, at3)) => match literal(text, at3, " "@) {
                            None => None,
                            Some(at4) => match parsed_separated::<String>(text, at4, " "@) {
                                None => None,
                                Some((formats, at5)) => match line_ending(text, at5) {
                                    None => None,
                                    Some(after) => Some(
                                        (
                                            MediaInformationView {
                                                media_type,
                                                port,
                                                proto,
                                                formats,
                                            },
                                            after,
                                        ),
                                    ),
                                },
                            },
                        },
                    },
                },
            },
        }
    }

    fn parse_at(input: &str, len: usize, from: usize) -> (read: Option<(MediaInformation, usize)>) {
        let at0 = match take_literal(input, len, from, "m=") {
            Some(p) => p,
            None => {
                return None;
            },
        };
        let (media_type, at1) = match parse_field(input, len, at0) {
            Some(pair) => pair,
            None => {
                return None;
            },
        };
        let (port, at2) = match parse_next_field(input, len, at1) {
            Some(pair) => pair,
            None => {
                return None;
            },
        };
        let (proto, at3) = match parse_next_field(input, len, at2) {
            Some(pair) => pair,
            None => {
                return None;
            },
        };
        let at4 = match take_literal(input, len, at3, " ") {
            Some(p) => p,
            None => {
                return None;
            },
        };
        let (formats, at5) = match separated_nonempty_list::<String>(input, len, at4, " ") {
            Some(pair) => pair,
            None => {
                return None;
            },
        };
        match take_line_ending(input, len, at5) {
            Some(after) => Some((MediaInformation { media_type, port, proto, formats }, after)),
            None => None,
        }
    }
}

impl MediaInformationView {
    /// Whether the value is one that a line can hold: it has at least one format.
    pub open spec fn wf(self) -> bool {
        self.formats.len() > 0
    }
}

/// What is read is a value that a line can hold.
pub proof fn lemma_parsed_media_information_wf(text: Seq<char>, from: int)
    ensures
        MediaInformation::parsed(text, from) matches Some((value, _)) ==> value.wf(),
{
}

} // verus!
