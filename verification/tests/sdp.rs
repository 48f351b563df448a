use bifrost::sdp::{
    Attribute, Bandwidth, ConnectionData, Duration, EmailAddress, EncryptionKey, Format,
    Information, Instant, MediaDescription, MediaInformation, NtpTime, Origin, Parse,
    ParseSdpError, PhoneNumber, RepeatTimes, SessionDescription, SessionName, TimeDescription,
    TimeZone, TimeZones, Timing, Uri, Version,
};
use std::fmt::Debug;

fn assert_parse_display<T: Debug + Format + Parse + PartialEq>(
    input: &str,
    expected_rest: &str,
    expected_parsed: &T,
    expected_display: &str,
) {
    let (rest, parsed) = T::parse(input).unwrap();
    assert_eq!(rest, expected_rest);
    assert_eq!(&parsed, expected_parsed);
    assert_eq!(parsed.to_string(), expected_display);
}

fn assert_err<T: Parse>(input: &str) {
    assert!(T::parse(input).is_err());
}

#[test]
fn property_attrs() {
    assert_parse_display(
        "a=foo\r\nmore",
        "more",
        &Attribute {
            name: "foo".to_owned(),
            value: None,
        },
        "a=foo\r\n",
    );

    assert_parse_display(
        "a= f o o \r\nmore",
        "more",
        &Attribute {
            name: " f o o ".to_owned(),
            value: None,
        },
        "a= f o o \r\n",
    );
}

#[test]
fn value_attrs() {
    assert_parse_display(
        "a=foo:bar\r\nmore",
        "more",
        &Attribute {
            name: "foo".to_owned(),
            value: Some("bar".to_owned()),
        },
        "a=foo:bar\r\n",
    );

    assert_parse_display(
        "a=foo:b:ar \r\nmore",
        "more",
        &Attribute {
            name: "foo".to_owned(),
            value: Some("b:ar ".to_owned()),
        },
        "a=foo:b:ar \r\n",
    );

    assert_parse_display(
        "a=foo:::\r\nmore",
        "more",
        &Attribute {
            name: "foo".to_owned(),
            value: Some("::".to_owned()),
        },
        "a=foo:::\r\n",
    );

    assert_parse_display(
        "a=foo:\r\nmore",
        "more",
        &Attribute {
            name: "foo".to_owned(),
            value: Some("".to_owned()),
        },
        "a=foo:\r\n",
    );
}

#[test]
fn attribute_invalid() {
    assert_err::<Attribute>("a=\r\n");
    assert_err::<Attribute>("a=:\r\n");
    assert_err::<Attribute>("a=:x\r\n");
}

#[test]
fn bandwidth_valid() {
    assert_parse_display(
        "b=CT:256\r\nmore\r\n",
        "more\r\n",
        &Bandwidth {
            experimental: false,
            bwtype: "CT".to_owned(),
            bandwidth: 256,
        },
        "b=CT:256\r\n",
    );
}

#[test]
fn experimental() {
    assert_parse_display(
        "b=X-AB:512\r\n",
        "",
        &Bandwidth {
            experimental: true,
            bwtype: "AB".to_owned(),
            bandwidth: 512,
        },
        "b=X-AB:512\r\n",
    );
}

#[test]
fn bandwidth_invalid() {
    assert_err::<Bandwidth>("b=A-AB:512\r\n");
    assert_err::<Bandwidth>("b=AB:foo\r\n");
}

#[test]
fn connection_data_test_valid() {
    assert_parse_display(
        "c=IN IP4 224.2.1.1/127/3\r\n rest\n",
        " rest\n",
        &ConnectionData {
            network_type: "IN".to_owned(),
            address_type: "IP4".to_owned(),
            connection_address: "224.2.1.1/127/3".to_owned(),
        },
        "c=IN IP4 224.2.1.1/127/3\r\n",
    );
}

#[test]
fn connection_data_test_invalid() {
    assert_err::<ConnectionData>("c=IN IP4\r\n");
    assert_err::<ConnectionData>("c=IN IP4 224.2.1.1/127/3 foo\r\n");
}

#[test]
fn email_address_valid() {
    let email_addr = "j.doe@example.com (Jane Doe)";
    assert_parse_display(
        &format!("e={}\n\nresto\r\n", email_addr),
        "\nresto\r\n",
        &EmailAddress(email_addr.to_owned()),
        &format!("e={}\r\n", email_addr),
    );
}

#[test]
fn email_address_invalid() {
    assert_err::<EmailAddress>("e=\r\n");
    assert_err::<EmailAddress>("x=foo@bar.com\r\n");
}

#[test]
fn clear() {
    assert_parse_display(
        "k=clear:foo\r\nmore",
        "more",
        &EncryptionKey::Clear("foo".to_owned()),
        "k=clear:foo\r\n",
    );
    assert_err::<EncryptionKey>("k=clear\r\nmore");
    assert_err::<EncryptionKey>("k=clear:\r\nmore");
}

#[test]
fn base64() {
    assert_parse_display(
        "k=base64:foo\r\n\rmore",
        "\rmore",
        &EncryptionKey::Base64("foo".to_owned()),
        "k=base64:foo\r\n",
    );
    assert_err::<EncryptionKey>("k=base64\r\nmore");
    assert_err::<EncryptionKey>("k=base64:\r\nmore");
}

#[test]
fn uri() {
    let uri_str = "https://example.org/key";
    let uri = uri_str.parse().unwrap();

    assert_parse_display(
        &format!("k=uri:{}\r\n\nmore\r", uri_str),
        "\nmore\r",
        &EncryptionKey::Uri(uri),
        &format!("k=uri:{}\r\n", uri_str),
    );
    assert_err::<EncryptionKey>("k=uri\r\nmore");
    assert_err::<EncryptionKey>("k=uri:\r\nmore");
    assert_err::<EncryptionKey>("k=uri:!@#$\r\nmore");
}

#[test]
fn prompt() {
    assert_parse_display(
        "k=prompt\r\nmore",
        "more",
        &EncryptionKey::Prompt,
        "k=prompt\r\n",
    );
    assert_err::<EncryptionKey>("k=prompt:foo\r\nmore");
    assert_err::<EncryptionKey>("k=prompt:\r\nmore");
}

#[test]
fn encryption_key_invalid() {
    assert_err::<EncryptionKey>("k=foo\r\nmore");
    assert_err::<EncryptionKey>("k=foo:\r\nmore");
    assert_err::<EncryptionKey>("k=foo:bar\r\nmore");
}

#[test]
fn information_test_valid() {
    assert_parse_display(
        "i=test info\nrest\n",
        "rest\n",
        &Information("test info".to_owned()),
        "i=test info\r\n",
    );
}

#[test]
fn valid_1() {
    assert_parse_display(
        "m=audio 49170 RTP/AVP 0\r\n",
        "",
        &MediaDescription {
            media_information: MediaInformation {
                media_type: "audio".to_owned(),
                port: "49170".to_owned(),
                proto: "RTP/AVP".to_owned(),
                formats: vec!["0".to_owned()],
            },
            media_title: None,
            connection_data: None,
            bandwidths: vec![],
            encryption_key: None,
            attributes: vec![],
        },
        "m=audio 49170 RTP/AVP 0\r\n",
    );
}

#[test]
fn valid_2() {
    assert_parse_display(
        "m=video 51372 RTP/AVP 99\r\n\
         a=rtpmap:99 h263-1998/90000\r\n\
         more\n",
        "more\n",
        &MediaDescription {
            media_information: MediaInformation {
                media_type: "video".to_owned(),
                port: "51372".to_owned(),
                proto: "RTP/AVP".to_owned(),
                formats: vec!["99".to_owned()],
            },
            media_title: None,
            connection_data: None,
            bandwidths: vec![],
            encryption_key: None,
            attributes: vec![Attribute {
                name: "rtpmap".to_owned(),
                value: Some("99 h263-1998/90000".to_owned()),
            }],
        },
        "m=video 51372 RTP/AVP 99\r\n\
         a=rtpmap:99 h263-1998/90000\r\n",
    );
}

#[test]
fn valid_3() {
    assert_parse_display(
        "m=video 51372 RTP/AVP 99\r\n\
         i=good stuff\r\n\
         c=IN IP4 224.2.1.1/127/3\r\n\
         b=AB:123\r\n\
         b=X-CD:456\r\n\
         k=base64:abc123\r\n\
         a=rtpmap:99 h263-1998/90000\r\n\
         a=foo\r\n\
         rest\n",
        "rest\n",
        &MediaDescription {
            media_information: MediaInformation {
                media_type: "video".to_owned(),
                port: "51372".to_owned(),
                proto: "RTP/AVP".to_owned(),
                formats: vec!["99".to_owned()],
            },
            media_title: Some(Information("good stuff".to_owned())),
            connection_data: Some(ConnectionData {
                network_type: "IN".to_owned(),
                address_type: "IP4".to_owned(),
                connection_address: "224.2.1.1/127/3".to_owned(),
            }),
            bandwidths: vec![
                Bandwidth {
                    experimental: false,
                    bwtype: "AB".to_owned(),
                    bandwidth: 123,
                },
                Bandwidth {
                    experimental: true,
                    bwtype: "CD".to_owned(),
                    bandwidth: 456,
                },
            ],
            encryption_key: Some(EncryptionKey::Base64("abc123".to_owned())),
            attributes: vec![
                Attribute {
                    name: "rtpmap".to_owned(),
                    value: Some("99 h263-1998/90000".to_owned()),
                },
                Attribute {
                    name: "foo".to_owned(),
                    value: None,
                },
            ],
        },
        "m=video 51372 RTP/AVP 99\r\n\
         i=good stuff\r\n\
         c=IN IP4 224.2.1.1/127/3\r\n\
         b=AB:123\r\n\
         b=X-CD:456\r\n\
         k=base64:abc123\r\n\
         a=rtpmap:99 h263-1998/90000\r\n\
         a=foo\r\n",
    );
}

#[test]
fn valid_4() {
    assert_parse_display(
        "m=video 51372 RTP/AVP 99\r\n\
         c=IN IP4 224.2.1.1/127/3\r\n\
         i=good stuff\r\n\
         b=AB:123\r\n\
         b=X-CD:456\r\n\
         k=base64:abc123\r\n\
         a=rtpmap:99 h263-1998/90000\r\n\
         a=foo\r\n\
         rest\n",
        "i=good stuff\r\n\
         b=AB:123\r\n\
         b=X-CD:456\r\n\
         k=base64:abc123\r\n\
         a=rtpmap:99 h263-1998/90000\r\n\
         a=foo\r\n\
         rest\n",
        &MediaDescription {
            media_information: MediaInformation {
                media_type: "video".to_owned(),
                port: "51372".to_owned(),
                proto: "RTP/AVP".to_owned(),
                formats: vec!["99".to_owned()],
            },
            media_title: None,
            connection_data: Some(ConnectionData {
                network_type: "IN".to_owned(),
                address_type: "IP4".to_owned(),
                connection_address: "224.2.1.1/127/3".to_owned(),
            }),
            bandwidths: vec![],
            encryption_key: None,
            attributes: vec![],
        },
        "m=video 51372 RTP/AVP 99\r\n\
         c=IN IP4 224.2.1.1/127/3\r\n",
    );
}

#[test]
fn media_description_invalid() {
    assert_err::<MediaDescription>("");
    assert_err::<MediaDescription>("\r\n");
    assert_err::<MediaDescription>("a=foo\r\n");
    assert_err::<MediaDescription>(
        "i=good stuff\r\n\
         c=IN IP4 224.2.1.1/127/3\r\n\
         b=AB:123\r\n\
         b=X-CD:456\r\n\
         k=base64:abc123\r\n\
         a=rtpmap:99 h263-1998/90000\r\n\
         a=foo\r\n\
         rest\n",
    );
}

#[test]
fn media_information_test_valid() {
    assert_parse_display(
        "m=audio 49170 RTP/AVP 0\r\nmore\n",
        "more\n",
        &MediaInformation {
            media_type: "audio".to_owned(),
            port: "49170".to_owned(),
            proto: "RTP/AVP".to_owned(),
            formats: vec!["0".to_owned()],
        },
        "m=audio 49170 RTP/AVP 0\r\n",
    );

    assert_parse_display(
        "m=video 49170/2 RTP/AVP 31\r\nmore\n",
        "more\n",
        &MediaInformation {
            media_type: "video".to_owned(),
            port: "49170/2".to_owned(),
            proto: "RTP/AVP".to_owned(),
            formats: vec!["31".to_owned()],
        },
        "m=video 49170/2 RTP/AVP 31\r\n",
    );

    assert_parse_display(
        "m=foo 12345 bar x y z\r\nmore\r\n",
        "more\r\n",
        &MediaInformation {
            media_type: "foo".to_owned(),
            port: "12345".to_owned(),
            proto: "bar".to_owned(),
            formats: vec!["x".to_owned(), "y".to_owned(), "z".to_owned()],
        },
        "m=foo 12345 bar x y z\r\n",
    );
}

#[test]
fn media_information_test_invalid() {
    assert_err::<MediaInformation>("n=audio 49170 RTP/AVP 0\r\nmore\n");
    assert_err::<MediaInformation>("m=audio 49170 RTP/AVP\r\nmore\n");
}

#[test]
fn test_valid_instants() {
    assert_eq!(Instant::from_days(42).as_secs(), 42 * 86400);
    assert_eq!(Instant::from_hours(41).as_secs(), 41 * 3600);
    assert_eq!(Instant::from_mins(40).as_secs(), 40 * 60);
    assert_eq!(Instant::from_secs(39).as_secs(), 39);

    assert_eq!(Instant::parse("42dx"), Ok(("x", Instant::from_days(42))));
    assert_eq!(Instant::parse("41h "), Ok((" ", Instant::from_hours(41))));
    assert_eq!(
        Instant::parse("40m 41h"),
        Ok((" 41h", Instant::from_mins(40)))
    );
    assert_eq!(
        Instant::parse("39s\r\n"),
        Ok(("\r\n", Instant::from_secs(39)))
    );
    assert_eq!(
        Instant::parse("38 37\r\n"),
        Ok((" 37\r\n", Instant::from_secs(38)))
    );
    assert_eq!(Instant::parse("37x"), Ok(("x", Instant::from_secs(37))));
}

#[test]
fn test_invalid_instants() {
    assert_err::<Instant>("s");
    assert_err::<Instant>(" 42");
    assert_err::<Instant>("");
    assert_err::<Instant>(" ");
}

#[test]
fn test_valid_durations() {
    assert_eq!(Duration::from_days(42).as_secs(), 42 * 86400);
    assert_eq!(Duration::from_hours(-41).as_secs(), -41 * 3600);
    assert_eq!(Duration::from_mins(40).as_secs(), 40 * 60);
    assert_eq!(Duration::from_secs(-39).as_secs(), -39);

    assert_eq!(Duration::parse("+42dx"), Ok(("x", Duration::from_days(42))));
    assert_eq!(
        Duration::parse("-41h "),
        Ok((" ", Duration::from_hours(-41)))
    );
    assert_eq!(
        Duration::parse("40m 41h"),
        Ok((" 41h", Duration::from_mins(40)))
    );
    assert_eq!(
        Duration::parse("-39s\r\n"),
        Ok(("\r\n", Duration::from_secs(-39)))
    );
    assert_eq!(
        Duration::parse("+38 37\r\n"),
        Ok((" 37\r\n", Duration::from_secs(38)))
    );
    assert_eq!(Duration::parse("-37x"), Ok(("x", Duration::from_secs(-37))));
}

#[test]
fn test_invalid_durations() {
    assert_err::<Duration>("*42");
    assert_err::<Duration>(" 42");
    assert_err::<Duration>("s");
    assert_err::<Duration>("");
    assert_err::<Duration>(" ");
}

#[test]
fn test_units() {
    assert_eq!(NtpTime::from_days(42).to_secs(), 42 * 86400);
    assert_eq!(NtpTime::from_hours(41).to_secs(), 41 * 3600);
    assert_eq!(NtpTime::from_mins(40).to_secs(), 40 * 60);
    assert_eq!(NtpTime::from_secs(39).to_secs(), 39);
}

#[test]
fn ntp_time_test_valid() {
    assert_eq!(NtpTime::parse("42dx"), Ok(("x", NtpTime::from_days(42))));
    assert_eq!(NtpTime::parse("41h "), Ok((" ", NtpTime::from_hours(41))));
    assert_eq!(
        NtpTime::parse("40m 41h"),
        Ok((" 41h", NtpTime::from_mins(40)))
    );
    assert_eq!(
        NtpTime::parse("39s\r\n"),
        Ok(("\r\n", NtpTime::from_secs(39)))
    );
    assert_eq!(
        NtpTime::parse("38 37\r\n"),
        Ok((" 37\r\n", NtpTime::from_secs(38)))
    );
    assert_eq!(NtpTime::parse("37x"), Ok(("x", NtpTime::from_secs(37))));
}

#[test]
fn ntp_time_test_invalid() {
    assert!(NtpTime::parse("s").is_err());
    assert!(NtpTime::parse(" 42").is_err());
    assert!(NtpTime::parse("").is_err());
    assert!(NtpTime::parse(" ").is_err());
}

#[test]
fn origin_test_valid() {
    assert_parse_display(
        "o=- 4858251974351650128 2 IN IP4 127.0.0.1\r\nrest",
        "rest",
        &Origin {
            username: "-".to_owned(),
            session_id: 4_858_251_974_351_650_128,
            session_version: 2,
            network_type: "IN".to_owned(),
            address_type: "IP4".to_owned(),
            unicast_address: "127.0.0.1".to_owned(),
        },
        "o=- 4858251974351650128 2 IN IP4 127.0.0.1\r\n",
    );

    assert_parse_display(
        "o=jdoe 2890844526 2890842807 IN IP4 10.47.16.5\nmore\r\nmore",
        "more\r\nmore",
        &Origin {
            username: "jdoe".to_owned(),
            session_id: 2_890_844_526,
            session_version: 2_890_842_807,
            network_type: "IN".to_owned(),
            address_type: "IP4".to_owned(),
            unicast_address: "10.47.16.5".to_owned(),
        },
        "o=jdoe 2890844526 2890842807 IN IP4 10.47.16.5\r\n",
    );
}

#[test]
fn phone_number_valid() {
    let phone_number = "+1 617 555-6011";
    assert_parse_display(
        &format!("p={}\n\nresto\r\n", phone_number),
        "\nresto\r\n",
        &PhoneNumber(phone_number.to_owned()),
        &format!("p={}\r\n", phone_number),
    );
}

#[test]
fn phone_number_invalid() {
    assert_err::<PhoneNumber>("p=\r\n");
    assert_err::<PhoneNumber>("x=+1 617 555-6011\r\n");
}

#[test]
fn repeat_times_valid() {
    assert_parse_display(
        "r=1 2 -3\r\nmore",
        "more",
        &RepeatTimes {
            interval: Duration::from_secs(1),
            duration: Duration::from_secs(2),
            offsets: vec![Duration::from_secs(-3)],
        },
        "r=1 2 -3\r\n",
    );

    assert_parse_display(
        "r=1 2 +3 -4\r\nmore",
        "more",
        &RepeatTimes {
            interval: Duration::from_secs(1),
            duration: Duration::from_secs(2),
            offsets: vec![Duration::from_secs(3), Duration::from_secs(-4)],
        },
        "r=1 2 3 -4\r\n",
    );

    assert_parse_display(
        "r=1 2 3 4 5\r\nmore",
        "more",
        &RepeatTimes {
            interval: Duration::from_secs(1),
            duration: Duration::from_secs(2),
            offsets: vec![
                Duration::from_secs(3),
                Duration::from_secs(4),
                Duration::from_secs(5),
            ],
        },
        "r=1 2 3 4 5\r\n",
    );
}

#[test]
fn valid_units() {
    assert_parse_display(
        "r=1d -2h 3m\r\nmore",
        "more",
        &RepeatTimes {
            interval: Duration::from_days(1),
            duration: Duration::from_hours(-2),
            offsets: vec![Duration::from_mins(3)],
        },
        "r=86400 -7200 180\r\n",
    );

    assert_parse_display(
        "r=+1h +2m 3s -4d\r\nmore",
        "more",
        &RepeatTimes {
            interval: Duration::from_hours(1),
            duration: Duration::from_mins(2),
            offsets: vec![Duration::from_secs(3), Duration::from_days(-4)],
        },
        "r=3600 120 3 -345600\r\n",
    );

    assert_parse_display(
        "r=1m 2 +3h -4s 5d\r\nmore",
        "more",
        &RepeatTimes {
            interval: Duration::from_mins(1),
            duration: Duration::from_secs(2),
            offsets: vec![
                Duration::from_hours(3),
                Duration::from_secs(-4),
                Duration::from_days(5),
            ],
        },
        "r=60 2 10800 -4 432000\r\n",
    );

    assert_parse_display(
        "r=-7d 1h 0 +25h\r\nrest",
        "rest",
        &RepeatTimes {
            interval: Duration::from_days(-7),
            duration: Duration::from_hours(1),
            offsets: vec![Duration::from_secs(0), Duration::from_hours(25)],
        },
        "r=-604800 3600 0 90000\r\n",
    )
}

#[test]
fn repeat_times_invalid() {
    assert_err::<RepeatTimes>("r=1 2\r\nmore");
    assert_err::<RepeatTimes>("r=1 2  3\r\nmore");
    assert_err::<RepeatTimes>("r=1 2 3 \r\nmore");
    assert_err::<RepeatTimes>("r= 1 2 3\r\nmore");
}

#[test]
fn invalid_units() {
    assert_err::<RepeatTimes>("r=1x 2 3\r\nmore");
    assert_err::<RepeatTimes>("r=1d 2h 3x\r\nmore");
    assert_err::<RepeatTimes>("r=s 2 3\r\nmore");
}

const EXAMPLE_SDP_INPUT: &str = r#"v=0
o=jdoe 2890844526 2890842807 IN IP4 10.47.16.5
s=SDP Seminar
i=A Seminar on the session description protocol
u=http://www.example.com/seminars/sdp.pdf
e=j.doe@example.com (Jane Doe)
c=IN IP4 224.2.36.42/127
b=X-YZ:128
t=3034423618 3042462418
t=3034423619 3042462419
r=604800 3600 0 90000
z=2882844526 -1h 2898848070 0
a=recvonly
m=audio 49170 RTP/AVP 0
m=video 51372 RTP/AVP 99
a=rtpmap:99 h263-1998/90000
"#;

const EXAMPLE_SDP_OUTPUT: &str = "v=0\r\n\
                                  o=jdoe 2890844526 2890842807 IN IP4 10.47.16.5\r\n\
                                  s=SDP Seminar\r\n\
                                  i=A Seminar on the session description protocol\r\n\
                                  u=http://www.example.com/seminars/sdp.pdf\r\n\
                                  e=j.doe@example.com (Jane Doe)\r\n\
                                  c=IN IP4 224.2.36.42/127\r\n\
                                  b=X-YZ:128\r\n\
                                  t=3034423618 3042462418\r\n\
                                  t=3034423619 3042462419\r\n\
                                  r=604800 3600 0 90000\r\n\
                                  z=2882844526 -3600 2898848070 0\r\n\
                                  a=recvonly\r\n\
                                  m=audio 49170 RTP/AVP 0\r\n\
                                  m=video 51372 RTP/AVP 99\r\n\
                                  a=rtpmap:99 h263-1998/90000\r\n";

fn example_sdp() -> SessionDescription {
    SessionDescription {
        version: Version,
        origin: Origin {
            username: "jdoe".to_owned(),
            session_id: 2_890_844_526,
            session_version: 2_890_842_807,
            network_type: "IN".to_owned(),
            address_type: "IP4".to_owned(),
            unicast_address: "10.47.16.5".to_owned(),
        },
        session_name: SessionName("SDP Seminar".to_owned()),
        session_information: Some(Information(
            "A Seminar on the session description protocol".to_owned(),
        )),
        uri: Some(Uri("http://www.example.com/seminars/sdp.pdf"
            .parse()
            .unwrap())),
        email_address: Some(EmailAddress("j.doe@example.com (Jane Doe)".to_owned())),
        phone_number: None,
        connection_data: Some(ConnectionData {
            network_type: "IN".to_owned(),
            address_type: "IP4".to_owned(),
            connection_address: "224.2.36.42/127".to_owned(),
        }),
        bandwidth: Some(Bandwidth {
            experimental: true,
            bwtype: "YZ".to_owned(),
            bandwidth: 128,
        }),
        time_descriptions: vec![
            TimeDescription {
                timing: Timing {
                    start_time: Instant::from_secs(3_034_423_618),
                    stop_time: Instant::from_secs(3_042_462_418),
                },
                repeat_times: vec![],
            },
            TimeDescription {
                timing: Timing {
                    start_time: Instant::from_secs(3_034_423_619),
                    stop_time: Instant::from_secs(3_042_462_419),
                },
                repeat_times: vec![RepeatTimes {
                    interval: Duration::from_secs(604_800),
                    duration: Duration::from_secs(3600),
                    offsets: vec![Duration::from_secs(0), Duration::from_secs(90000)],
                }],
            },
        ],
        time_zones: Some(TimeZones(vec![
            TimeZone {
                adjustment_time: Instant::from_secs(2_882_844_526),
                offset: Duration::from_hours(-1),
            },
            TimeZone {
                adjustment_time: Instant::from_secs(2_898_848_070),
                offset: Duration::from_secs(0),
            },
        ])),
        encryption_key: None,
        attributes: vec![Attribute {
            name: "recvonly".to_owned(),
            value: None,
        }],
        media_descriptions: vec![
            MediaDescription {
                media_information: MediaInformation {
                    media_type: "audio".to_owned(),
                    port: "49170".to_owned(),
                    proto: "RTP/AVP".to_owned(),
                    formats: vec!["0".to_owned()],
                },
                media_title: None,
                connection_data: None,
                bandwidths: vec![],
                encryption_key: None,
                attributes: vec![],
            },
            MediaDescription {
                media_information: MediaInformation {
                    media_type: "video".to_owned(),
                    port: "51372".to_owned(),
                    proto: "RTP/AVP".to_owned(),
                    formats: vec!["99".to_owned()],
                },
                media_title: None,
                connection_data: None,
                bandwidths: vec![],
                encryption_key: None,
                attributes: vec![Attribute {
                    name: "rtpmap".to_owned(),
                    value: Some("99 h263-1998/90000".to_owned()),
                }],
            },
        ],
    }
}

#[test]
fn session_description_valid() {
    assert_parse_display(
        &format!("{}more", EXAMPLE_SDP_INPUT),
        "more",
        &example_sdp(),
        &EXAMPLE_SDP_OUTPUT,
    );
}

#[test]
fn from_str() {
    assert_eq!(
        EXAMPLE_SDP_INPUT.parse::<SessionDescription>(),
        Ok(example_sdp().clone())
    );

    let invalid_str_1 = "foo";
    assert_eq!(
        invalid_str_1.parse::<SessionDescription>(),
        Err(ParseSdpError)
    );

    let invalid_str_2 = format!("{}more", EXAMPLE_SDP_INPUT);
    assert_eq!(
        invalid_str_2.parse::<SessionDescription>(),
        Err(ParseSdpError)
    );
}

#[test]
fn session_name_test_valid() {
    assert_parse_display(
        "s=test\r\nrest\n",
        "rest\n",
        &SessionName("test".to_owned()),
        "s=test\r\n",
    );

    assert_parse_display(
        "s= \nmore\r\n",
        "more\r\n",
        &SessionName(" ".to_owned()),
        "s= \r\n",
    );
}

#[test]
fn session_name_test_invalid() {
    assert_err::<SessionName>("s=\r\n");
}

#[test]
fn time_description_valid() {
    assert_parse_display(
        "t=3034423619 3042462419\r\nmore\n",
        "more\n",
        &TimeDescription {
            timing: Timing {
                start_time: Instant::from_secs(3_034_423_619),
                stop_time: Instant::from_secs(3_042_462_419),
            },
            repeat_times: vec![],
        },
        "t=3034423619 3042462419\r\n",
    );

    assert_parse_display(
        "t=3034423619 3042462419\r\n\
         r=604800 3600 0 90000\r\nmore\r\n",
        "more\r\n",
        &TimeDescription {
            timing: Timing {
                start_time: Instant::from_secs(3_034_423_619),
                stop_time: Instant::from_secs(3_042_462_419),
            },
            repeat_times: vec![RepeatTimes {
                interval: Duration::from_secs(604_800),
                duration: Duration::from_secs(3600),
                offsets: vec![Duration::from_secs(0), Duration::from_secs(90000)],
            }],
        },
        "t=3034423619 3042462419\r\n\
         r=604800 3600 0 90000\r\n",
    );

    assert_parse_display(
        "t=3034423619 3042462419\r\n\
         r=604800 3600 0 90000\r\n\
         more\r\n",
        "more\r\n",
        &TimeDescription {
            timing: Timing {
                start_time: Instant::from_secs(3_034_423_619),
                stop_time: Instant::from_secs(3_042_462_419),
            },
            repeat_times: vec![RepeatTimes {
                interval: Duration::from_secs(604_800),
                duration: Duration::from_secs(3600),
                offsets: vec![Duration::from_secs(0), Duration::from_secs(90000)],
            }],
        },
        "t=3034423619 3042462419\r\n\
         r=604800 3600 0 90000\r\n",
    );

    assert_parse_display(
        "t=3034423619 3042462419\r\n\
         r=604800 3600 0 90000\r\n\
         r=604801 3601 1 90001\r\n\
         more\r\n",
        "more\r\n",
        &TimeDescription {
            timing: Timing {
                start_time: Instant::from_secs(3_034_423_619),
                stop_time: Instant::from_secs(3_042_462_419),
            },
            repeat_times: vec![
                RepeatTimes {
                    interval: Duration::from_secs(604_800),
                    duration: Duration::from_secs(3600),
                    offsets: vec![Duration::from_secs(0), Duration::from_secs(90000)],
                },
                RepeatTimes {
                    interval: Duration::from_secs(604_801),
                    duration: Duration::from_secs(3601),
                    offsets: vec![Duration::from_secs(1), Duration::from_secs(90001)],
                },
            ],
        },
        "t=3034423619 3042462419\r\n\
         r=604800 3600 0 90000\r\n\
         r=604801 3601 1 90001\r\n",
    );
}

#[test]
fn time_description_invalid() {
    assert_err::<TimeDescription>("r=604800 3600 0 90000\r\nmore");
}

#[test]
fn valid_time_zone() {
    assert_eq!(
        TimeZone::parse("2882844526 -1h\r\n"),
        Ok((
            "\r\n",
            TimeZone {
                adjustment_time: Instant::from_secs(2_882_844_526),
                offset: Duration::from_hours(-1),
            }
        ))
    );

    assert_eq!(
        TimeZone::parse("2898848070 0 hello"),
        Ok((
            " hello",
            TimeZone {
                adjustment_time: Instant::from_secs(2_898_848_070),
                offset: Duration::from_secs(0),
            }
        ))
    );
}

#[test]
fn invalid_time_zone() {
    assert_err::<TimeZone>("foo");
    assert_err::<TimeZone>("2 hello");
}

#[test]
fn valid_time_zones() {
    assert_parse_display(
        "z=2882844526 -1h\r\nmore",
        "more",
        &TimeZones(vec![TimeZone {
            adjustment_time: Instant::from_secs(2_882_844_526),
            offset: Duration::from_hours(-1),
        }]),
        "z=2882844526 -3600\r\n",
    );

    assert_parse_display(
        "z=2882844526 -1h 2898848070 0\r\nmore\n",
        "more\n",
        &TimeZones(vec![
            TimeZone {
                adjustment_time: Instant::from_secs(2_882_844_526),
                offset: Duration::from_hours(-1),
            },
            TimeZone {
                adjustment_time: Instant::from_secs(2_898_848_070),
                offset: Duration::from_secs(0),
            },
        ]),
        "z=2882844526 -3600 2898848070 0\r\n",
    );

    assert_parse_display(
        "z=2882844526 -1h 2898848070 0 42 +25d\r\nmore\n",
        "more\n",
        &TimeZones(vec![
            TimeZone {
                adjustment_time: Instant::from_secs(2_882_844_526),
                offset: Duration::from_hours(-1),
            },
            TimeZone {
                adjustment_time: Instant::from_secs(2_898_848_070),
                offset: Duration::from_secs(0),
            },
            TimeZone {
                adjustment_time: Instant::from_secs(42),
                offset: Duration::from_days(25),
            },
        ]),
        "z=2882844526 -3600 2898848070 0 42 2160000\r\n",
    );
}

#[test]
fn invalid_time_zones() {
    assert_err::<TimeZones>("z=1\r\n");
    assert_err::<TimeZones>("z=1 2 3\r\n");
    assert_err::<TimeZones>("z=1 2 3 4 5\r\n");
    assert_err::<TimeZones>("z=\r\n");
    assert_err::<TimeZones>("z=s 1\r\n");
    assert_err::<TimeZones>("z= 1 2\r\n");
    assert_err::<TimeZones>("z=1 2 \r\n");
}

#[test]
fn timing_test_valid() {
    assert_parse_display(
        "t=123 456\nmore\r\n",
        "more\r\n",
        &Timing {
            start_time: Instant::from_secs(123),
            stop_time: Instant::from_secs(456),
        },
        "t=123 456\r\n",
    );
}

#[test]
fn timing_test_invalid() {
    assert_err::<Timing>("t=123\r\n");
    assert_err::<Timing>("t=foo 456\r\n");
    assert_err::<Timing>("t=123 foo\r\n");
    assert_err::<Timing>("t=123 456 789\r\n");
}

#[test]
fn uri_test_valid() {
    let uri_str = "http://www.example.com/seminars/sdp.pdf";
    assert_parse_display(
        &format!("u={}\r\nrest\n", uri_str),
        "rest\n",
        &Uri(http::Uri::from_static(uri_str)),
        &format!("u={}\r\n", uri_str),
    );
}

#[test]
fn uri_test_invalid() {
    assert_err::<Uri>("u=\r\n");
    assert_err::<Uri>("u= \r\n");
}

#[test]
fn version_valid() {
    assert_parse_display("v=0\r\nmore", "more", &Version, "v=0\r\n");
    assert_parse_display("v=0\nrest\n", "rest\n", &Version, "v=0\r\n");
}

#[test]
fn unsupported_version() {
    assert_err::<Version>("v=1\r\n");
}

#[test]
fn bad_format() {
    assert_err::<Version>("v =0\r\n");
    assert_err::<Version>("v=0 \r\n");
    assert_err::<Version>("v=0\r");
    assert_err::<Version>("v=\r\n");
    assert_err::<Version>("v=0 1\r\n");
    assert_err::<Version>("v=x\r\n");
}

fn assert_read_back<T: Debug + Format + Parse + PartialEq>(value: T) {
    let text = format!("{}rest", value.to_string());
    assert_eq!(T::parse(&text), Ok(("rest", value)));
}

#[test]
fn written_lines_are_read_back() {
    assert_read_back(Version);
    assert_read_back(SessionName("a name: with é and spaces ".to_owned()));
    assert_read_back(Information(" ".to_owned()));
    assert_read_back(EmailAddress("j.doe@example.com (Jane Doe)".to_owned()));
    assert_read_back(PhoneNumber("+1 617 555-6011".to_owned()));
    assert_read_back(Attribute {
        name: "rtpmap".to_owned(),
        value: Some("".to_owned()),
    });
    assert_read_back(Attribute {
        name: " n ".to_owned(),
        value: Some(": v:".to_owned()),
    });
    assert_read_back(Attribute {
        name: "recvonly".to_owned(),
        value: None,
    });
    assert_read_back(Bandwidth {
        experimental: false,
        bwtype: "X".to_owned(),
        bandwidth: u64::max_value(),
    });
    assert_read_back(Bandwidth {
        experimental: true,
        bwtype: "X9z".to_owned(),
        bandwidth: 0,
    });
    assert_read_back(ConnectionData {
        network_type: "IN".to_owned(),
        address_type: "IP6".to_owned(),
        connection_address: "FF15::101/3".to_owned(),
    });
    assert_read_back(Origin {
        username: "-".to_owned(),
        session_id: u64::max_value(),
        session_version: 0,
        network_type: "IN".to_owned(),
        address_type: "IP4".to_owned(),
        unicast_address: "é".to_owned(),
    });
    assert_read_back(Timing {
        start_time: Instant::from_secs(0),
        stop_time: Instant::from_secs(u64::max_value()),
    });
    assert_read_back(MediaInformation {
        media_type: "audio".to_owned(),
        port: "49170/2".to_owned(),
        proto: "RTP/AVP".to_owned(),
        formats: vec!["0".to_owned(), "é".to_owned(), "31".to_owned()],
    });
    assert_read_back(RepeatTimes {
        interval: Duration::from_secs(i64::max_value()),
        duration: Duration::from_secs(-i64::max_value()),
        offsets: vec![
            Duration::from_secs(0),
            Duration::from_secs(-1),
            Duration::from_secs(90000),
        ],
    });
    assert_read_back(TimeZones(vec![
        TimeZone {
            adjustment_time: Instant::from_secs(2_882_844_526),
            offset: Duration::from_secs(-3600),
        },
        TimeZone {
            adjustment_time: Instant::from_secs(u64::max_value()),
            offset: Duration::from_secs(i64::max_value()),
        },
    ]));
    assert_read_back(EncryptionKey::Clear("a key".to_owned()));
    assert_read_back(EncryptionKey::Base64("Zm9v".to_owned()));
    assert_read_back(EncryptionKey::Prompt);
    assert_read_back(TimeDescription {
        timing: Timing {
            start_time: Instant::from_secs(1),
            stop_time: Instant::from_secs(2),
        },
        repeat_times: vec![RepeatTimes {
            interval: Duration::from_secs(7),
            duration: Duration::from_secs(8),
            offsets: vec![Duration::from_secs(9)],
        }],
    });
}

#[test]
fn the_least_span_is_not_read_back() {
    let line = RepeatTimes {
        interval: Duration::from_secs(i64::min_value()),
        duration: Duration::from_secs(0),
        offsets: vec![Duration::from_secs(0)],
    };
    assert_eq!(line.to_string(), "r=-9223372036854775808 0 0\r\n");
    assert!(RepeatTimes::parse(&line.to_string()).is_err());
}
