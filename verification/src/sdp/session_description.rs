use crate::sdp::attribute::{Attribute, AttributeView};
use crate::sdp::bandwidth::{Bandwidth, BandwidthView};
use crate::sdp::connection_data::{ConnectionData, ConnectionDataView};
use crate::sdp::email_address::EmailAddress;
use crate::sdp::encryption_key::{EncryptionKey, EncryptionKeyView};
use crate::sdp::information::Information;
use crate::sdp::media_description::{MediaDescription, MediaDescriptionView};
use crate::sdp::origin::{Origin, OriginView};
use crate::sdp::parse::{
    formatted_all, formatted_option, many0, many1, opt, parsed_many, parsed_opt, push_all, push_one,
    push_option, Format, Parse, ParseSdpError,
};
use crate::sdp::phone_number::PhoneNumber;
use crate::sdp::session_name::SessionName;
use crate::sdp::time_description::{TimeDescription, TimeDescriptionView};
use crate::sdp::time_zones::{TimeZoneView, TimeZones};
use crate::sdp::uri::Uri;
use crate::sdp::version::Version;
use http::Uri as HttpUri;
use vstd::prelude::*;
use vstd::string::*;

verus! {

/// A session description: the lines of a session, then its media streams.
#[derive(Clone, Debug, PartialEq)]
pub struct SessionDescription {
    pub version: Version,
    pub origin: Origin,
    pub session_name: SessionName,
    pub session_information: Option<Information>,
    pub uri: Option<Uri>,
    pub email_address: Option<EmailAddress>,
    pub phone_number: Option<PhoneNumber>,
    pub connection_data: Option<ConnectionData>,
    pub bandwidth: Option<Bandwidth>,
    /// When the session is active: at least one time description.
    pub time_descriptions: Vec<TimeDescription>,
    pub time_zones: Option<TimeZones>,
    pub encryption_key: Option<EncryptionKey>,
    pub attributes: Vec<Attribute>,
    pub media_descriptions: Vec<MediaDescription>,
}

/// What a session description holds.
pub struct SessionDescriptionView {
    pub origin: OriginView,
    pub session_name: Seq<char>,
    pub session_information: Option<Seq<char>>,
    pub uri: Option<HttpUri>,
    pub email_address: Option<Seq<char>>,
    pub phone_number: Option<Seq<char>>,
    pub connection_data: Option<ConnectionDataView>,
    pub bandwidth: Option<BandwidthView>,
    pub time_descriptions: Seq<TimeDescriptionView>,
    pub time_zones: Option<Seq<TimeZoneView>>,
    pub encryption_key: Option<EncryptionKeyView>,
    pub attributes: Seq<AttributeView>,
    pub media_descriptions: Seq<MediaDescriptionView>,
}

impl DeepView for SessionDescription {
    type V = SessionDescriptionView;

    open spec fn deep_view(&self) -> SessionDescriptionView {
        SessionDescriptionView {
            origin: self.origin.deep_view(),
            session_name: self.session_name.deep_view(),
            session_information: self.session_information.deep_view(),
            uri: self.uri.deep_view(),
            email_address: self.email_address.deep_view(),
            phone_number: self.phone_number.deep_view(),
            connection_data: self.connection_data.deep_view(),
            bandwidth: self.bandwidth.deep_view(),
            time_descriptions: self.time_descriptions.deep_view(),
            time_zones: self.time_zones.deep_view(),
            encryption_key: self.encryption_key.deep_view(),
            attributes: self.attributes.deep_view(),
            media_descriptions: self.media_descriptions.deep_view(),
        }
    }
}

impl Format for SessionDescription {
    /// The version line, then the lines that there are, in the order of the
    /// fields.
    open spec fn formatted(value: SessionDescriptionView) -> Seq<char> {
        Version::formatted(()) + Origin::formatted(value.origin) + SessionName::formatted(
            value.session_name,
        ) + formatted_option::<Information>(value.session_information) + formatted_option::<Uri>(
            value.uri,
        ) + formatted_option::<EmailAddress>(value.email_address) + formatted_option::<
            PhoneNumber,
        >(value.phone_number) + formatted_option::<ConnectionData>(value.connection_data)
            + formatted_option::<Bandwidth>(value.bandwidth) + formatted_all::<TimeDescription>(
            value.time_descriptions,
        ) + formatted_option::<TimeZones>(value.time_zones) + formatted_option::<EncryptionKey>(
            value.encryption_key,
        ) + formatted_all::<Attribute>(value.attributes) + formatted_all::<MediaDescription>(
            value.media_descriptions,
        )
    }

    fn to_string(&self) -> (text: String) {
        let mut text = self.version.to_string();
        push_one(&mut text, &self.origin);
        push_one(&mut text, &self.session_name);
        push_option(&mut text, &self.session_information);
        push_option(&mut text, &self.uri);
        push_option(&mut text, &self.email_address);
        push_option(&mut text, &self.phone_number);
        push_option(&mut text, &self.connection_data);
        push_option(&mut text, &self.bandwidth);
        push_all(&mut text, &self.time_descriptions);
        push_option(&mut text, &self.time_zones);
        push_option(&mut text, &self.encryption_key);
        push_all(&mut text, &self.attributes);
        push_all(&mut text, &self.media_descriptions);
        text
    }
}

/// What reading the lines of a session after its name comes to, up to the
/// time descriptions: each line where it stands, in this order.
pub open spec fn parsed_session_head(text: Seq<char>, from: int) -> Option<
    (SessionDescriptionView, int),
> {
    match Version::parsed(text, from) {
        None => None,
        Some((version, at0)) => match Origin::parsed(text, at0) {
            None => None,
            Some((origin, at1)) => match SessionName::parsed(text, at1) {
                None => None,
                Some((session_name, at2)) => {
                    let (session_information, at3) = parsed_opt::<Information>(text, at2);
                    let (uri, at4) = parsed_opt::<Uri>(text, at3);
                    let (email_address, at5) = parsed_opt::<EmailAddress>(text, at4);
                    let (phone_number, at6) = parsed_opt::<PhoneNumber>(text, at5);
                    let (connection_data, at7) = parsed_opt::<ConnectionData>(text, at6);
                    let (bandwidth, at8) = parsed_opt::<Bandwidth>(text, at7);
                    let (time_descriptions, at9) = parsed_many::<TimeDescription>(text, at8);
                    if time_descriptions.len() == 0 {
                        None
                    } else {
                        let (time_zones, at10) = parsed_opt::<TimeZones>(text, at9);
                        let (encryption_key, at11) = parsed_opt::<EncryptionKey>(text, at10);
                        let (attributes, at12) = parsed_many::<Attribute>(text, at11);
                        let (media_descriptions, at13) = parsed_many::<MediaDescription>(
                            text,
                            at12,
                        );
                        Some(
                            (
                                SessionDescriptionView {
                                    origin,
                                    session_name,
                                    session_information,
                                    uri,
                                    email_address,
                                    phone_number,
                                    connection_data,
                                    bandwidth,
                                    time_descriptions,
                                    time_zones,
                                    encryption_key,
                                    attributes,
                                    media_descriptions,
                                },
                                at13,
                            ),
                        )
                    }
                },
            },
        },
    }
}

impl Parse for SessionDescription {
    /// The version line, the origin line and the name line; then, each
    /// where it stands and in this order: an information line, a line with
    /// a resource identifier, an email line, a phone line, a connection
    /// line, a bandwidth line; then time descriptions, at least one; then a
    /// time zone line, a key line, attribute lines, and media descriptions.
    open spec fn parsed(text: Seq<char>, from: int) -> Option<(SessionDescriptionView, int)> {
        parsed_session_head(text, from)
    }

    fn parse_at(input: &str, len: usize, from: usize) -> (read: Option<
        (SessionDescription, usize),
    >) {
        let (version, at0) = match Version::parse_at(input, len, from) {
            Some(pair) => pair,
            None => {
                return None;
            },
        };
        let (origin, at1) = match Origin::parse_at(input, len, at0) {
            Some(pair) => pair,
            None => {
                return None;
            },
        };
        let (session_name, at2) = match SessionName::parse_at(input, len, at1) {
            Some(pair) => pair,
            None => {
                return None;
            },
        };
        let (session_information, at3) = opt::<Information>(input, len, at2);
        let (uri, at4) = opt::<Uri>(input, len, at3);
        let (email_address, at5) = opt::<EmailAddress>(input, len, at4);
        let (phone_number, at6) = opt::<PhoneNumber>(input, len, at5);
        let (connection_data, at7) = opt::<ConnectionData>(input, len, at6);
        let (bandwidth, at8) = opt::<Bandwidth>(input, len, at7);
        let (time_descriptions, at9) = match many1::<TimeDescription>(input, len, at8) {
            Some(pair) => pair,
            None => {
                return None;
            },
        };
        let (time_zones, at10) = opt::<TimeZones>(input, len, at9);
        let (encryption_key, at11) = opt::<EncryptionKey>(input, len, at10);
        let (attributes, at12) = many0::<Attribute>(input, len, at11);
        let (media_descriptions, at13) = many0::<MediaDescription>(input, len, at12);
        Some(
            (
                SessionDescription {
                    version,
                    origin,
                    session_name,
                    session_information,
                    uri,
                    email_address,
                    phone_number,
                    connection_data,
                    bandwidth,
                    time_descriptions,
                    time_zones,
                    encryption_key,
                    attributes,
                    media_descriptions,
                },
                at13,
            ),
        )
    }
}

impl SessionDescription {
    /// Reads a session description from a text that holds one and nothing
    /// after it.
    pub fn from_str(s: &str) -> (read: Result<SessionDescription, ParseSdpError>)
        ensures
            match SessionDescription::parsed(s@, 0) {
                Some((value, end)) if end == s@.len() => read matches Ok(made) && made.deep_view()
                    == value,
                _ => read == Err::<SessionDescription, ParseSdpError>(ParseSdpError),
            },
    {
        let len = s.unicode_len();
        match SessionDescription::parse_at(s, len, 0) {
            Some((made, end)) => {
                if end == len {
                    Ok(made)
                } else {
                    Err(ParseSdpError)
                }
            },
            None => Err(ParseSdpError),
        }
    }
}

impl core::str::FromStr for SessionDescription {
    type Err = ParseSdpError;

    /// Reads a session description from a text that holds one and nothing
    /// after it, as the function of the same name on the type does.
    fn from_str(s: &str) -> (read: Result<SessionDescription, ParseSdpError>)
        ensures
            match SessionDescription::parsed(s@, 0) {
                Some((value, end)) if end == s@.len() => read matches Ok(made) && made.deep_view()
                    == value,
                _ => read == Err::<SessionDescription, ParseSdpError>(ParseSdpError),
            },
    {
        SessionDescription::from_str(s)
    }
}

impl SessionDescriptionView {
    /// Whether the value is one that a line can hold: it has at least one time description.
    pub open spec fn wf(self) -> bool {
        self.time_descriptions.len() > 0
    }
}

/// What is read is a value that a line can hold.
pub proof fn lemma_parsed_session_description_wf(text: Seq<char>, from: int)
    ensures
        SessionDescription::parsed(text, from) matches Some((value, _)) ==> value.wf(),
{
}

} // verus!
