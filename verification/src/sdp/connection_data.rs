use crate::sdp::parse::{Format, Parse};
use crate::sdp::util::{
    crlf, line_ending, literal, parse_field, parsed_field, push_crlf, take_line_ending,
    take_literal,
};
use vstd::prelude::*;
use vstd::string::*;

verus! {

/// Where the media of a session are sent: the line `c=`.
#[derive(Clone, Debug, PartialEq)]
pub struct ConnectionData {
    pub network_type: String,
    pub address_type: String,
    pub connection_address: String,
}

/// What a connection line holds.
pub struct ConnectionDataView {
    pub network_type: Seq<char>,
    pub address_type: Seq<char>,
    pub connection_address: Seq<char>,
}

impl DeepView for ConnectionData {
    type V = ConnectionDataView;

    open spec fn deep_view(&self) -> ConnectionDataView {
        ConnectionDataView {
            network_type: self.network_type@,
            address_type: self.address_type@,
            connection_address: self.connection_address@,
        }
    }
}

impl Format for ConnectionData {
    /// `c=`, the three fields with a space between them, and the end of
    /// the line.
    open spec fn formatted(value: ConnectionDataView) -> Seq<char> {
        "c="@ + value.network_type + " "@ + value.address_type + " "@ + value.connection_address
            + crlf()
    }

    fn to_string(&self) -> (text: String) {
        let mut text = String::from_str("c=");
        text.append(self.network_type.as_str());
        text.append(" ");
        text.append(self.address_type.as_str());
        text.append(" ");
        text.append(self.connection_address.as_str());
        push_crlf(&mut text);
        text
    }
}

impl Parse for ConnectionData {
    /// `c=`, then three fields with one space between them, then a line
    /// ending.
    open spec fn parsed(text: Seq<char>, from: int) -> Option<(ConnectionDataView, int)> {
        match literal(text, from, "c="@) {
            None => None,
            Some(at0) => match parsed_field(text, at0) {
                None => None,
                Some((network_type, at1)) => match literal(text, at1, " "@) {
                    None => None,
                    Some(at2) => match parsed_field(text, at2) {
                        None => None,
                        Some((address_type, at3)) => match literal(text, at3, " "@) {
                            None => None,
                            Some(at4) => match parsed_field(text, at4) {
                                None => None,
                                Some((connection_address, at5)) => match line_ending(text, at5) {
                                    None => None,
                                    Some(after) => Some(
                                        (
                                            ConnectionDataView {
                                                network_type,
                                                address_type,
                                                connection_address,
                                            },
                                            after,
                                        ),
                                    ),
                                },
                            },
                        },
                    },
                },
            },
        }
    }

    fn parse_at(input: &str, len: usize, from: usize) -> (read: Option<(ConnectionData, usize)>) {
        let at0 = match take_literal(input, len, from, "c=") {
            Some(p) => p,
            None => {
                return None;
            },
        };
        let (network_type, at1) = match parse_field(input, len, at0) {
            Some(pair) => pair,
            None => {
                return None;
            },
        };
        let at2 = match take_literal(input, len, at1, " ") {
            Some(p) => p,
            None => {
                return None;
            },
        };
        let (address_type, at3) = match parse_field(input, len, at2) {
            Some(pair) => pair,
            None => {
                return None;
            },
        };
        let at4 = match take_literal(input, len, at3, " ") {
            Some(p) => p,
            None => {
                return None;
            },
        };
        let (connection_address, at5) = match parse_field(input, len, at4) {
            Some(pair) => pair,
            None => {
                return None;
            },
        };
        match take_line_ending(input, len, at5) {
            Some(after) => Some(
                (ConnectionData { network_type, address_type, connection_address }, after),
            ),
            None => None,
        }
    }
}

} // verus!
