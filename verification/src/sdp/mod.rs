//! Session descriptions: the lines of a description as values, read from
//! text and written back as text.

pub mod attribute;
pub mod bandwidth;
pub mod connection_data;
pub mod decimal;
pub mod email_address;
pub mod encryption_key;
pub mod information;
pub mod laws;
pub mod media_description;
pub mod media_information;
pub mod ntp;
pub mod ntp_time;
pub mod origin;
pub mod parse;
pub mod phone_number;
pub mod repeat_times;
pub mod session_description;
pub mod session_name;
pub mod time_description;
pub mod time_zones;
pub mod timing;
pub mod uri;
pub mod util;
pub mod version;

pub use self::attribute::Attribute;
pub use self::bandwidth::Bandwidth;
pub use self::connection_data::ConnectionData;
pub use self::email_address::EmailAddress;
pub use self::encryption_key::EncryptionKey;
pub use self::information::Information;
pub use self::media_description::MediaDescription;
pub use self::media_information::MediaInformation;
pub use self::ntp::{Duration, Instant};
pub use self::ntp_time::NtpTime;
pub use self::origin::Origin;
pub use self::parse::{Format, Parse, ParseSdpError};
pub use self::phone_number::PhoneNumber;
pub use self::repeat_times::RepeatTimes;
pub use self::session_description::SessionDescription;
pub use self::session_name::SessionName;
pub use self::time_description::TimeDescription;
pub use self::time_zones::{TimeZone, TimeZones};
pub use self::timing::Timing;
pub use self::uri::Uri;
pub use self::version::Version;
