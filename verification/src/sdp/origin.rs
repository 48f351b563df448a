use crate::sdp::decimal::{decimal, push_decimal};
use crate::sdp::parse::{Format, Parse};
use crate::sdp::util::{
    crlf, line_ending, literal, parse_field, parsed_field, parsed_number_field, push_crlf,
    take_line_ending, take_literal, try_parse_field,
};
use vstd::prelude::*;
use vstd::string::*;

verus! {

/// Who made the session, and which session it is: the line `o=`.
#[derive(Clone, Debug, PartialEq)]
pub struct Origin {
    pub username: String,
    pub session_id: u64,
    pub session_version: u64,
    pub network_type: String,
    pub address_type: String,
    pub unicast_address: String,
}

/// What an origin line holds.
pub struct OriginView {
    pub username: Seq<char>,
    pub session_id: u64,
    pub session_version: u64,
    pub network_type: Seq<char>,
    pub address_type: Seq<char>,
    pub unicast_address: Seq<char>,
}

impl DeepView for Origin {
    type V = OriginView;

    open spec fn deep_view(&self) -> OriginView {
        OriginView {
            username: self.username@,
            session_id: self.session_id,
            session_version: self.session_version,
            network_type: self.network_type@,
            address_type: self.address_type@,
            unicast_address: self.unicast_address@,
        }
    }
}

impl Format for Origin {
    /// `o=`, the six fields with a space between them, the two numbers in
    /// decimal notation, and the end of the line.
    open spec fn formatted(value: OriginView) -> Seq<char> {
        "o="@ + value.username + " "@ + decimal(value.session_id as nat) + " "@ + decimal(
            value.session_version as nat,
        ) + " "@ + value.network_type + " "@ + value.address_type + " "@ + value.unicast_address
            + crlf()
    }

    fn to_string(&self) -> (text: String) {
        let mut text = String::from_str("o=");
        text.append(self.username.as_str());
        text.append(" ");
        push_decimal(&mut text, self.session_id);
        text.append(" ");
        push_decimal(&mut text, self.session_version);
        text.append(" ");
        text.append(self.network_type.as_str());
        text.append(" ");
        text.append(self.address_type.as_str());
        text.append(" ");
        text.append(self.unicast_address.as_str());
        push_crlf(&mut text);
        text
    }
}

/// What reading one space and a field after it comes to.
pub open spec fn parsed_next_field(text: Seq<char>, from: int) -> Option<(Seq<char>, int)> {
    match literal(text, from, " "@) {
        None => None,
        Some(start) => parsed_field(text, start),
    }
}

/// What reading one space and a number after it comes to.
pub open spec fn parsed_next_number(text: Seq<char>, from: int) -> Option<(u64, int)> {
    match literal(text, from, " "@) {
        None => None,
        Some(start) => parsed_number_field(text, start),
    }
}

/// Reads one space and a field after it.
pub fn parse_next_field(input: &str, len: usize, from: usize) -> (read: Option<(String, usize)>)
    requires
        len == input@.len(),
        from <= len,
    ensures
        match parsed_next_field(input@, from as int) {
            Some((field, end)) => read matches Some((made, e)) && made@ == field && e == end
                && from < e <= len,
            None => read is None,
        },
{
    match take_literal(input, len, from, " ") {
        Some(start) => parse_field(input, len, start),
        None => None,
    }
}

/// Reads one space and a number after it.
pub fn parse_next_number(input: &str, len: usize, from: usize) -> (read: Option<(u64, usize)>)
    requires
        len == input@.len(),
        from <= len,
    ensures
        match parsed_next_number(input@, from as int) {
            Some((number, end)) => read == Some((number, end as usize)) && from < end <= len,
            None => read is None,
        },
{
    match take_literal(input, len, from, " ") {
        Some(start) => try_parse_field(input, len, start),
        None => None,
    }
}

impl Parse for Origin {
    /// `o=`, then six fields with one space between them, of which the
    /// second and the third are numbers, then a line ending.
    open spec fn parsed(text: Seq<char>, from: int) -> Option<(OriginView, int)> {
        match literal(text, from, "o="@) {
            None => None,
            Some(at0) => match parsed_field(text, at0) {
                None => None,
                Some((username, at1)) => match parsed_next_number(text, at1) {
                    None => None,
                    Some((session_id, at2)) => match parsed_next_number(text, at2) {
                        None => None,
                        Some((session_version, at3)) => match parsed_next_field(text, at3) {
                            None => None,
                            Some((network_type, at4)) => match parsed_next_field(text, at4) {
                                None => None,
                                Some((address_type, at5)) => match parsed_next_field(text, at5) {
                                    None => None,
                                    Some((unicast_address, at6)) => match line_ending(text, at6) {
                                        None => None,
                                        Some(after) => Some(
                                            (
                                                OriginView {
                                                    username,
                                                    session_id,
                                                    session_version,
                                                    network_type,
                                                    address_type,
                                                    unicast_address,
                                                },
                                                after,
                                            ),
                                        ),
                                    },
                                },
                            },
                        },
                    },
                },
            },
        }
    }

    fn parse_at(input: &str, len: usize, from: usize) -> (read: Option<(Origin, usize)>) {
        let at0 = match take_literal(input, len, from, "o=") {
            Some(p) => p,
            None => {
                return None;
            },
        };
        let (username, at1) = match parse_field(input, len, at0) {
            Some(pair) => pair,
            None => {
                return None;
            },
        };
        let (session_id, at2) = match parse_next_number(input, len, at1) {
            Some(pair) => pair,
            None => {
                return None;
            },
        };
        let (session_version, at3) = match parse_next_number(input, len, at2) {
            Some(pair) => pair,
            None => {
                return None;
            },
        };
        let (network_type, at4) = match parse_next_field(input, len, at3) {
            Some(pair) => pair,
            None => {
                return None;
            },
        };
        let (address_type, at5) = match parse_next_field(input, len, at4) {
            Some(pair) => pair,
            None => {
                return None;
            },
        };
        let (unicast_address, at6) = match parse_next_field(input, len, at5) {
            Some(pair) => pair,
            None => {
                return None;
            },
        };
        match take_line_ending(input, len, at6) {
            Some(after) => Some(
                (
                    Origin {
                        username,
                        session_id,
                        session_version,
                        network_type,
                        address_type,
                        unicast_address,
                    },
                    after,
                ),
            ),
            None => None,
        }
    }
}

} // verus!
