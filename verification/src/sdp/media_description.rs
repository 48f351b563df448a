use crate::sdp::attribute::{Attribute, AttributeView};
use crate::sdp::bandwidth::{Bandwidth, BandwidthView};
use crate::sdp::connection_data::{ConnectionData, ConnectionDataView};
use crate::sdp::encryption_key::{EncryptionKey, EncryptionKeyView};
use crate::sdp::information::Information;
use crate::sdp::media_information::{MediaInformation, MediaInformationView};
use crate::sdp::parse::{
    formatted_all, formatted_option, many0, opt, parsed_many, parsed_opt, push_all, push_option,
    Format, Parse,
};
use vstd::prelude::*;
use vstd::string::*;

verus! {

/// One media stream of a session: a media line and the lines that belong
/// to it.
#[derive(Clone, Debug, PartialEq)]
pub struct MediaDescription {
    pub media_information: MediaInformation,
    pub media_title: Option<Information>,
    pub connection_data: Option<ConnectionData>,
    pub bandwidths: Vec<Bandwidth>,
    pub encryption_key: Option<EncryptionKey>,
    pub attributes: Vec<Attribute>,
}

/// What a media description holds.
pub struct MediaDescriptionView {
    pub media_information: MediaInformationView,
    pub media_title: Option<Seq<char>>,
    pub connection_data: Option<ConnectionDataView>,
    pub bandwidths: Seq<BandwidthView>,
    pub encryption_key: Option<EncryptionKeyView>,
    pub attributes: Seq<AttributeView>,
}

impl DeepView for MediaDescription {
    type V = MediaDescriptionView;

    open spec fn deep_view(&self) -> MediaDescriptionView {
        MediaDescriptionView {
            media_information: self.media_information.deep_view(),
            media_title: self.media_title.deep_view(),
            connection_data: self.connection_data.deep_view(),
            bandwidths: self.bandwidths.deep_view(),
            encryption_key: self.encryption_key.deep_view(),
            attributes: self.attributes.deep_view(),
        }
    }
}

impl Format for MediaDescription {
    /// The lines that there are, in the order of the fields.
    open spec fn formatted(value: MediaDescriptionView) -> Seq<char> {
        MediaInformation::formatted(value.media_information) + formatted_option::<Information>(
            value.media_title,
        ) + formatted_option::<ConnectionData>(value.connection_data) + formatted_all::<
            Bandwidth,
        >(value.bandwidths) + formatted_option::<EncryptionKey>(value.encryption_key)
            + formatted_all::<Attribute>(value.attributes)
    }

    fn to_string(&self) -> (text: String) {
        let mut text = self.media_information.to_string();
        push_option(&mut text, &self.media_title);
        push_option(&mut text, &self.connection_data);
        push_all(&mut text, &self.bandwidths);
        push_option(&mut text, &self.encryption_key);
        push_all(&mut text, &self.attributes);
        text
    }
}

impl Parse for MediaDescription {
    /// A media line; then, each where it stands and in this order: a title,
    /// a connection line, bandwidth lines, a key line, attribute lines.
    open spec fn parsed(text: Seq<char>, from: int) -> Option<(MediaDescriptionView, int)> {
        match MediaInformation::parsed(text, from) {
            None => None,
            Some((media_information, at0)) => {
                let (media_title, at1) = parsed_opt::<Information>(text, at0);
                let (connection_data, at2) = parsed_opt::<ConnectionData>(text, at1);
                let (bandwidths, at3) = parsed_many::<Bandwidth>(text, at2);
                let (encryption_key, at4) = parsed_opt::<EncryptionKey>(text, at3);
                let (attributes, at5) = parsed_many::<Attribute>(text, at4);
                Some(
                    (
                        MediaDescriptionView {
                            media_information,
                            media_title,
                            connection_data,
                            bandwidths,
                            encryption_key,
                            attributes,
                        },
                        at5,
                    ),
                )
            },
        }
    }

    fn parse_at(input: &str, len: usize, from: usize) -> (read: Option<(MediaDescription, usize)>) {
        let (media_information, at0) = match MediaInformation::parse_at(input, len, from) {
            Some(pair) => pair,
            None => {
                return None;
            },
        };
        let (media_title, at1) = opt::<Information>(input, len, at0);
        let (connection_data, at2) = opt::<ConnectionData>(input, len, at1);
        let (bandwidths, at3) = many0::<Bandwidth>(input, len, at2);
        let (encryption_key, at4) = opt::<EncryptionKey>(input, len, at3);
        let (attributes, at5) = many0::<Attribute>(input, len, at4);
        Some(
            (
                MediaDescription {
                    media_information,
                    media_title,
                    connection_data,
                    bandwidths,
                    encryption_key,
                    attributes,
                },
                at5,
            ),
        )
    }
}

} // verus!
