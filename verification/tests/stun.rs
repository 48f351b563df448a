use bifrost::stun::address::{IpAddress, SocketAddress};
use bifrost::stun::client::dispatcher::filter_addr;
use bifrost::stun::client::{
    new_message, Backoff, Client, ClientBuilder, Dispatch, Dispatcher, DispatcherMessage,
    RequestAction, RequestEvent, RequestState, RetryPolicy, TransactionKey, TransactionTable,
};
use bifrost::stun::codec::decoder::{
    parse_attribute, parse_class_and_method_streaming, parse_header_streaming,
};
use bifrost::stun::codec::encoder::encode_class_and_method;
use bifrost::stun::codec::{MessageCodec, Parsed, HEADER_LEN, MAX_ATTRS_LEN};
use bifrost::stun::message::attribute::xor_mapped_address::{xor_16_bytes, xor_4_bytes};
use bifrost::stun::message::attribute::{Attribute, XorMappedAddress};
use bifrost::stun::message::{Class, Message, Method, RawAttribute, TransactionId, MAGIC_COOKIE};
use bifrost::stun::Error;
use bifrost::webrtc::{MuxDecoder, MuxMessage};
use bytecodec::EncodeExt;
use bytes::BytesMut;

const TR_ID_BYTES: [u8; 12] = [
    0x8f, 0x18, 0x41, 0x1, 0x16, 0x70, 0x5f, 0xea, 0xec, 0x0b, 0xa7, 0xab,
];

fn tr_id() -> TransactionId {
    TransactionId::new(TR_ID_BYTES)
}

fn ipv4_addr() -> SocketAddress {
    SocketAddress::new(IpAddress::V4([213, 141, 156, 236]), 48583)
}

fn ipv6_addr() -> SocketAddress {
    SocketAddress::new(
        IpAddress::V6([
            0x20, 0x01, 0x0d, 0xb8, 0x85, 0xa3, 0x08, 0xd3, 0x13, 0x19, 0x8a, 0x2e, 0x03, 0x70,
            0x73, 0x48,
        ]),
        443,
    )
}

fn get_test_addrs() -> Vec<(SocketAddress, &'static str)> {
    vec![
        (ipv4_addr(), "213.141.156.236:48583"),
        (ipv6_addr(), "[2001:db8:85a3:8d3:1319:8a2e:370:7348]:443"),
    ]
}

fn new_test_msg(addr: SocketAddress) -> Message {
    let transaction_id = TransactionId::new([3; 12]);
    let attributes = vec![XorMappedAddress(addr).to_raw(&transaction_id)];

    Message {
        class: Class::SuccessResponse,
        method: Method::binding(),
        transaction_id,
        attributes,
    }
}

fn new_reference_msg(addr: &str) -> BytesMut {
    let mut msg = stun_codec::Message::new(
        stun_codec::MessageClass::SuccessResponse,
        stun_codec::rfc5389::methods::BINDING,
        stun_codec::TransactionId::new([3; 12]),
    );
    msg.add_attribute(stun_codec::rfc5389::Attribute::XorMappedAddress(
        stun_codec::rfc5389::attributes::XorMappedAddress::new(addr.parse().unwrap()),
    ));

    let mut encoder = stun_codec::MessageEncoder::new();
    BytesMut::from(encoder.encode_into_bytes(msg).unwrap())
}

#[test]
fn decoder_success() {
    for (addr, text) in get_test_addrs() {
        let mut bytes = new_reference_msg(text);
        bytes.extend(0..3);

        let mut codec = MessageCodec::new();
        let msg = match codec.decode(&mut bytes) {
            Ok(Some(Some(msg))) => msg,
            _ => panic!("failed to decode"),
        };

        assert_eq!(msg.class, Class::SuccessResponse);
        assert_eq!(msg.method, Method::binding());
        assert_eq!(msg.transaction_id, TransactionId::new([3; 12]));
        assert_eq!(msg.attr::<XorMappedAddress>(), Some(XorMappedAddress(addr)));
        assert_eq!(bytes.len(), 3);
        assert!(!codec.has_header());
    }
}

#[test]
fn incomplete() {
    for (addr, text) in get_test_addrs() {
        let full = new_reference_msg(text);
        let mut codec = MessageCodec::new();

        let len = full.len();
        for new_len in (0..len).step_by(3) {
            let mut bytes = BytesMut::from(&full[..new_len]);
            match codec.decode(&mut bytes) {
                Ok(None) => (),
                _ => panic!("failed to decode incomplete message"),
            };

            assert_eq!(bytes.len(), new_len);
            if new_len >= HEADER_LEN as usize {
                assert!(codec.has_header());
            }
        }

        let mut bytes = full;
        let msg = match codec.decode(&mut bytes) {
            Ok(Some(Some(msg))) => msg,
            _ => panic!("failed to eventually decode complete message"),
        };

        assert_eq!(msg.class, Class::SuccessResponse);
        assert_eq!(msg.method, Method::binding());
        assert_eq!(msg.transaction_id, TransactionId::new([3; 12]));
        assert_eq!(msg.attr::<XorMappedAddress>(), Some(XorMappedAddress(addr)));
        assert!(bytes.is_empty());
        assert!(!codec.has_header());
    }
}

#[test]
fn failure() {
    let mut bytes = BytesMut::from(&b"nonsense"[..]);
    let len = bytes.len();

    let mut codec = MessageCodec::new();
    match codec.decode(&mut bytes) {
        Ok(Some(None)) => (),
        x => panic!("failed to decode non-STUN message {:?}", x),
    };

    assert_eq!(bytes.len(), len);
    assert!(!codec.has_header());
}

#[test]
fn encoder_success() {
    for (addr, text) in get_test_addrs() {
        let msg = new_test_msg(addr);
        let mut bytes = BytesMut::new();
        let mut codec = MessageCodec::new();
        codec.encode(msg, &mut bytes).unwrap();

        let expected = new_reference_msg(text);
        assert_eq!(bytes, expected);
    }
}

#[test]
fn xor_4() {
    let a = [1, 2, 3, 4];
    let b = [5, 6, 7, 8];
    let c = xor_4_bytes(&a, b);
    assert_eq!(c, [1 ^ 5, 2 ^ 6, 3 ^ 7, 4 ^ 8]);
}

#[test]
fn xor_16() {
    let a: Vec<_> = (1..=16).collect();

    let mut b = [0u8; 16];
    b.copy_from_slice(&(17..=32).collect::<Vec<_>>());

    let c = xor_16_bytes(&a, b);

    let mut expected = [0u8; 16];
    expected.copy_from_slice(
        &(1..=16)
            .zip(17..=32)
            .map(|(x, y)| x ^ y)
            .collect::<Vec<_>>(),
    );

    assert_eq!(c, expected);
}

#[test]
fn ipv4() {
    let raw = [0x00, 0x01, 0x9c, 0xd5, 0xf4, 0x9f, 0x38, 0xae];
    let attr = XorMappedAddress::from_raw(&raw, &tr_id()).unwrap();
    let expected = XorMappedAddress(ipv4_addr());
    assert_eq!(attr, expected);
}

#[test]
fn ipv6() {
    let raw = [
        0x00, 0x02, 0x20, 0xa9, 0x01, 0x13, 0xa9, 0xfa, 0x0a, 0xbb, 0x49, 0xd2, 0x05, 0x69, 0xd5,
        0xc4, 0xef, 0x7b, 0xd4, 0xe3,
    ];
    let attr = XorMappedAddress::from_raw(&raw, &tr_id()).unwrap();
    let expected = XorMappedAddress(ipv6_addr());
    assert_eq!(attr, expected);
}

#[test]
fn nonzero_prefix() {
    let raw = [0x42, 0x01, 0x9c, 0xd5, 0xf4, 0x9f, 0x38, 0xae];
    assert!(XorMappedAddress::from_raw(&raw, &tr_id()).is_none());
}

#[test]
fn invalid_family() {
    let raw = [0x00, 0x03, 0x9c, 0xd5, 0xf4, 0x9f, 0x38, 0xae];
    assert!(XorMappedAddress::from_raw(&raw, &tr_id()).is_none());
}

#[test]
fn invalid_ipv4() {
    let raw1 = [0x00, 0x01, 0x9c, 0xd5, 0xf4, 0x9f, 0x38];
    let raw2 = [0x00, 0x01, 0x9c, 0xd5, 0xf4, 0x9f, 0x38, 0xae, 0x42];
    assert!(XorMappedAddress::from_raw(&raw1, &tr_id()).is_none());
    assert!(XorMappedAddress::from_raw(&raw2, &tr_id()).is_none());
}

#[test]
fn invalid_ipv6() {
    let raw1 = [
        0x00, 0x02, 0x20, 0xa9, 0x01, 0x13, 0xa9, 0xfa, 0x0a, 0xbb, 0x49, 0xd2, 0x05, 0x69, 0xd5,
        0xc4, 0xef, 0x7b, 0xd4,
    ];
    let raw2 = [
        0x00, 0x02, 0x20, 0xa9, 0x01, 0x13, 0xa9, 0xfa, 0x0a, 0xbb, 0x49, 0xd2, 0x05, 0x69, 0xd5,
        0xc4, 0xef, 0x7b, 0xd4, 0xe3, 0x42,
    ];
    assert!(XorMappedAddress::from_raw(&raw1, &tr_id()).is_none());
    assert!(XorMappedAddress::from_raw(&raw2, &tr_id()).is_none());
}

#[test]
fn test_valid_len() {
    let a0 = RawAttribute::new(0, vec![]).unwrap();
    assert_eq!(a0.unpadded_len(), 0);
    assert_eq!(a0.padded_len(), 0);

    let a1 = RawAttribute::new(0, vec![0; 21]).unwrap();
    assert_eq!(a1.unpadded_len(), 21);
    assert_eq!(a1.padded_len(), 24);

    let a2 = RawAttribute::new(0, vec![0; RawAttribute::MAX_LEN as usize]).unwrap();
    assert_eq!(a2.unpadded_len(), RawAttribute::MAX_LEN);
    assert_eq!(a2.padded_len(), RawAttribute::MAX_LEN);
}

#[test]
fn test_invalid_len() {
    assert!(RawAttribute::new(0, vec![0; RawAttribute::MAX_LEN as usize + 1]).is_err());
}

#[test]
fn class_bits_round_trip() {
    assert_eq!(Class::from_low_2_bits(0b00), Class::Request);
    assert_eq!(Class::from_low_2_bits(0b01), Class::Indication);
    assert_eq!(Class::from_low_2_bits(0b10), Class::SuccessResponse);
    assert_eq!(Class::from_low_2_bits(0b11), Class::FailureResponse);
    // Only the two low bits count.
    assert_eq!(Class::from_low_2_bits(0b1111_1110), Class::SuccessResponse);
    for bits in 0..4u8 {
        assert_eq!(Class::from_low_2_bits(bits).as_byte(), bits);
    }
}

#[test]
fn method_keeps_low_12_bits() {
    assert_eq!(Method::from_low_12_bits([0xff, 0xab]).as_bytes(), [0x0f, 0xab]);
    assert_eq!(Method::from_low_12_bits([0x10, 0x01]).as_bytes(), [0x00, 0x01]);
    assert_eq!(Method::binding().as_bytes(), [0, 1]);
    assert_eq!(Method::from_low_12_bits([0, 1]), Method::binding());
}

#[test]
fn transaction_id_bytes() {
    let id = tr_id();
    assert_eq!(id.as_bytes(), &TR_ID_BYTES);
    assert!(id.same(&TransactionId::from_slice(&TR_ID_BYTES)));
    assert!(!id.same(&TransactionId::new([3; 12])));
}

#[test]
fn raw_attribute_too_large_is_an_error() {
    assert_eq!(
        RawAttribute::new(7, vec![0; 1025]).unwrap_err(),
        Error::AttributeTooLarge
    );
    let attr = RawAttribute::new(7, vec![1, 2, 3]).unwrap();
    assert_eq!(attr.type_code(), 7);
    assert_eq!(attr.value(), &[1, 2, 3]);
    assert_eq!(attr.unpadded_len(), 3);
    assert_eq!(attr.padded_len(), 4);
    assert_eq!(attr.clone(), attr);
}

#[test]
fn xor_mapped_address_to_raw_ipv4() {
    let raw = XorMappedAddress(ipv4_addr()).to_raw(&tr_id());
    assert_eq!(raw.type_code(), 0x0020);
    assert_eq!(
        raw.value(),
        &[0x00, 0x01, 0x9c, 0xd5, 0xf4, 0x9f, 0x38, 0xae]
    );
}

#[test]
fn xor_mapped_address_to_raw_ipv6() {
    let raw = XorMappedAddress(ipv6_addr()).to_raw(&tr_id());
    assert_eq!(raw.type_code(), XorMappedAddress::TYPE);
    assert_eq!(
        raw.value(),
        &[
            0x00, 0x02, 0x20, 0xa9, 0x01, 0x13, 0xa9, 0xfa, 0x0a, 0xbb, 0x49, 0xd2, 0x05, 0x69,
            0xd5, 0xc4, 0xef, 0x7b, 0xd4, 0xe3,
        ]
    );
}

#[test]
fn xor_transform_is_its_own_inverse() {
    // A small generator of numbers, so that the pairs differ from run to run
    // in nothing.
    let mut state: u64 = 0x9e37_79b9_7f4a_7c15;
    let mut next = move || {
        state ^= state << 13;
        state ^= state >> 7;
        state ^= state << 17;
        state
    };
    for round in 0..10_000 {
        let mut id = [0u8; 12];
        for byte in id.iter_mut() {
            *byte = next() as u8;
        }
        let id = TransactionId::new(id);
        let port = next() as u16;
        let ip = if round % 2 == 0 {
            let mut octets = [0u8; 4];
            for byte in octets.iter_mut() {
                *byte = next() as u8;
            }
            IpAddress::V4(octets)
        } else {
            let mut octets = [0u8; 16];
            for byte in octets.iter_mut() {
                *byte = next() as u8;
            }
            IpAddress::V6(octets)
        };
        let address = XorMappedAddress(SocketAddress::new(ip, port));
        let raw = address.to_raw(&id);
        assert_eq!(XorMappedAddress::from_raw(raw.value(), &id), Some(address));
    }
}

#[test]
fn attr_first_matching_type_wins() {
    let id = TransactionId::new([3; 12]);
    let mut msg = Message::new(Class::SuccessResponse, Method::binding(), id);
    assert_eq!(msg.attr::<XorMappedAddress>(), None);

    msg.add_attribute(RawAttribute::new(0x8022, vec![b'x']).unwrap());
    msg.add_attribute(XorMappedAddress(ipv4_addr()).to_raw(&id));
    msg.add_attribute(XorMappedAddress(ipv6_addr()).to_raw(&id));
    assert_eq!(msg.attributes.len(), 3);
    assert_eq!(
        msg.attr::<XorMappedAddress>(),
        Some(XorMappedAddress(ipv4_addr()))
    );

    // A first attribute of the type whose value does not read: absent.
    let mut broken = Message::new(Class::SuccessResponse, Method::binding(), id);
    broken.add_attribute(RawAttribute::new(0x0020, vec![0x00, 0x03]).unwrap());
    broken.add_attribute(XorMappedAddress(ipv4_addr()).to_raw(&id));
    assert_eq!(broken.attr::<XorMappedAddress>(), None);
}

#[test]
fn header_bit_patterns() {
    // Binding request: method 0x001, class 0b00.
    let mut dst = BytesMut::new();
    encode_class_and_method(Class::Request, Method::binding(), &mut dst);
    assert_eq!(&dst[..], &[0x00, 0x01]);

    // Binding success response: class 0b10 sets bit 0 of the first byte.
    let mut dst = BytesMut::new();
    encode_class_and_method(Class::SuccessResponse, Method::binding(), &mut dst);
    assert_eq!(&dst[..], &[0x01, 0x01]);

    // Binding failure response: class 0b11 also sets bit 4 of the second.
    let mut dst = BytesMut::new();
    encode_class_and_method(Class::FailureResponse, Method::binding(), &mut dst);
    assert_eq!(&dst[..], &[0x01, 0x11]);

    // Binding indication: class 0b01.
    let mut dst = BytesMut::new();
    encode_class_and_method(Class::Indication, Method::binding(), &mut dst);
    assert_eq!(&dst[..], &[0x00, 0x11]);

    // All twelve method bits set, class 0b00: the class bits stay clear.
    let mut dst = BytesMut::new();
    encode_class_and_method(
        Class::Request,
        Method::from_low_12_bits([0x0f, 0xff]),
        &mut dst,
    );
    assert_eq!(&dst[..], &[0b0011_1110, 0b1110_1111]);

    // Method bit 7 alone goes to bit 1 of the first byte.
    let mut dst = BytesMut::new();
    encode_class_and_method(
        Class::Request,
        Method::from_low_12_bits([0x00, 0x80]),
        &mut dst,
    );
    assert_eq!(&dst[..], &[0b0000_0010, 0b0000_0000]);
}

#[test]
fn class_and_method_are_read_back() {
    let classes = [
        Class::Request,
        Class::Indication,
        Class::SuccessResponse,
        Class::FailureResponse,
    ];
    for class in classes.iter() {
        for value in 0..4096u16 {
            let method = Method::from_low_12_bits([(value >> 8) as u8, value as u8]);
            let mut dst = BytesMut::new();
            encode_class_and_method(*class, method, &mut dst);
            assert_eq!(dst[0] & 0b1100_0000, 0);
            match parse_class_and_method_streaming(&dst[..]) {
                Parsed::Done((c, m)) => {
                    assert_eq!(c, *class);
                    assert_eq!(m, method);
                }
                other => panic!("not read back: {:?}", other),
            }
        }
    }
}

#[test]
fn class_and_method_streaming_outcomes() {
    assert!(matches!(
        parse_class_and_method_streaming(&[]),
        Parsed::Incomplete
    ));
    assert!(matches!(
        parse_class_and_method_streaming(&[0x01]),
        Parsed::Incomplete
    ));
    assert!(matches!(
        parse_class_and_method_streaming(&[0x41]),
        Parsed::Malformed
    ));
    assert!(matches!(
        parse_class_and_method_streaming(&[0x80, 0x01]),
        Parsed::Malformed
    ));
}

fn header_bytes(len: u16) -> Vec<u8> {
    let mut bytes = vec![0x01, 0x01, (len >> 8) as u8, len as u8];
    bytes.extend_from_slice(&MAGIC_COOKIE);
    bytes.extend_from_slice(&[7; 12]);
    bytes
}

#[test]
fn header_streaming_outcomes() {
    let good = header_bytes(8);
    match parse_header_streaming(&good, MAX_ATTRS_LEN) {
        Parsed::Done(header) => {
            assert_eq!(header.class, Class::SuccessResponse);
            assert_eq!(header.method, Method::binding());
            assert_eq!(header.attrs_len, 8);
            assert_eq!(header.transaction_id, TransactionId::new([7; 12]));
        }
        other => panic!("header not read: {:?}", other),
    }
    // Every shorter prefix of a good header is incomplete.
    for n in 0..good.len() {
        assert!(matches!(
            parse_header_streaming(&good[..n], MAX_ATTRS_LEN),
            Parsed::Incomplete
        ));
    }
    // A length that is no multiple of four is malformed once it is there.
    let odd = header_bytes(6);
    assert!(matches!(
        parse_header_streaming(&odd[..3], MAX_ATTRS_LEN),
        Parsed::Incomplete
    ));
    assert!(matches!(
        parse_header_streaming(&odd[..4], MAX_ATTRS_LEN),
        Parsed::Malformed
    ));
    assert!(matches!(
        parse_header_streaming(&odd, MAX_ATTRS_LEN),
        Parsed::Malformed
    ));
    // A length above the bound is malformed.
    let long = header_bytes(65516);
    assert!(matches!(
        parse_header_streaming(&long, MAX_ATTRS_LEN),
        Parsed::Malformed
    ));
    let longest = header_bytes(65512);
    assert!(matches!(
        parse_header_streaming(&longest, MAX_ATTRS_LEN),
        Parsed::Done(_)
    ));
    // A wrong byte of the magic cookie is malformed as soon as it is there.
    let mut bad = header_bytes(8);
    bad[5] = 0x13;
    assert!(matches!(
        parse_header_streaming(&bad[..5], MAX_ATTRS_LEN),
        Parsed::Incomplete
    ));
    assert!(matches!(
        parse_header_streaming(&bad[..6], MAX_ATTRS_LEN),
        Parsed::Malformed
    ));
    assert!(matches!(
        parse_header_streaming(&bad, MAX_ATTRS_LEN),
        Parsed::Malformed
    ));
}

#[test]
fn parse_attribute_outcomes() {
    // Type 0x0102, three bytes of value, one of padding, then one more byte.
    let input = [0x01, 0x02, 0x00, 0x03, 9, 8, 7, 0xff, 0x55];
    let (rest, attr) = parse_attribute(&input).unwrap();
    assert_eq!(rest, &[0x55]);
    assert_eq!(attr.type_code(), 0x0102);
    assert_eq!(attr.value(), &[9, 8, 7]);

    // Too few bytes for the header, for the value, for the padding.
    assert!(parse_attribute(&input[..3]).is_none());
    assert!(parse_attribute(&input[..6]).is_none());
    assert!(parse_attribute(&input[..7]).is_none());
    // A length above the greatest.
    let mut long = vec![0x00, 0x01, 0x04, 0x01];
    long.extend_from_slice(&[0; 1028]);
    assert!(parse_attribute(&long).is_none());
    let mut longest = vec![0x00, 0x01, 0x04, 0x00];
    longest.extend_from_slice(&[0; 1024]);
    assert_eq!(parse_attribute(&longest).unwrap().1.unpadded_len(), 1024);
}

fn message_with_attributes(values: &[Vec<u8>]) -> Message {
    let mut msg = Message::new(
        Class::Indication,
        Method::from_low_12_bits([0x0a, 0xbc]),
        tr_id(),
    );
    for (i, value) in values.iter().enumerate() {
        msg.add_attribute(RawAttribute::new(0x8000 + i as u16, value.clone()).unwrap());
    }
    msg
}

fn assert_same_message(a: &Message, b: &Message) {
    assert_eq!(a.class, b.class);
    assert_eq!(a.method, b.method);
    assert_eq!(a.transaction_id, b.transaction_id);
    assert_eq!(a.attributes, b.attributes);
}

#[test]
fn round_trip_of_messages() {
    let cases: Vec<Vec<Vec<u8>>> = vec![
        vec![],
        vec![vec![]],
        vec![vec![1]],
        vec![vec![1, 2], vec![3, 4, 5], vec![6, 7, 8, 9], vec![]],
        vec![vec![0xaa; 1024], vec![0xbb; 1023]],
    ];
    for values in cases {
        let mut dst = BytesMut::new();
        let mut codec = MessageCodec::new();
        codec
            .encode(message_with_attributes(&values), &mut dst)
            .unwrap();
        assert_eq!(dst.len() % 4, 0);
        dst.extend_from_slice(&[1, 2, 3]);
        let read = match codec.decode(&mut dst) {
            Ok(Some(Some(msg))) => msg,
            other => panic!("not read back: {:?}", other),
        };
        assert_same_message(&read, &message_with_attributes(&values));
        assert_eq!(&dst[..], &[1, 2, 3]);
    }
}

#[test]
fn encoded_padding_is_zero() {
    let mut dst = BytesMut::new();
    MessageCodec::new()
        .encode(message_with_attributes(&[vec![0xff]]), &mut dst)
        .unwrap();
    assert_eq!(dst.len(), 28);
    assert_eq!(&dst[2..4], &[0, 8]);
    assert_eq!(&dst[4..8], &MAGIC_COOKIE);
    assert_eq!(&dst[8..20], &TR_ID_BYTES);
    assert_eq!(&dst[20..28], &[0x80, 0x00, 0x00, 0x01, 0xff, 0, 0, 0]);
}

#[test]
fn encode_appends_to_what_is_there() {
    let mut dst = BytesMut::from(&b"abc"[..]);
    MessageCodec::new()
        .encode(message_with_attributes(&[]), &mut dst)
        .unwrap();
    assert_eq!(dst.len(), 23);
    assert_eq!(&dst[..3], b"abc");
}

#[test]
fn encode_rejects_too_many_attributes() {
    // 63 attributes of 1028 bytes and one of 748 make 65512 bytes: the
    // greatest length that is written.
    let mut values = vec![vec![0u8; 1024]; 63];
    values.push(vec![0u8; 744]);
    let mut dst = BytesMut::new();
    assert_eq!(
        MessageCodec::new().encode(message_with_attributes(&values), &mut dst),
        Ok(())
    );
    assert_eq!(dst.len(), 20 + 65512);
    let mut codec = MessageCodec::new();
    let read = match codec.decode(&mut dst) {
        Ok(Some(Some(msg))) => msg,
        other => panic!("not read back: {:?}", other),
    };
    assert_eq!(read.attributes.len(), 64);
    assert!(dst.is_empty());

    // Four bytes more are too many, and nothing is written.
    let mut values = vec![vec![0u8; 1024]; 63];
    values.push(vec![0u8; 748]);
    let mut dst = BytesMut::from(&b"kept"[..]);
    assert_eq!(
        MessageCodec::new().encode(message_with_attributes(&values), &mut dst),
        Err(Error::MessageTooLarge)
    );
    assert_eq!(&dst[..], b"kept");
}

#[test]
fn decode_chunk_by_chunk() {
    let values = vec![vec![1, 2, 3], vec![4; 10]];
    let mut full = BytesMut::new();
    MessageCodec::new()
        .encode(message_with_attributes(&values), &mut full)
        .unwrap();

    let mut codec = MessageCodec::new();
    let mut buffer = BytesMut::new();
    for (i, byte) in full.iter().enumerate() {
        let before = buffer.len();
        match codec.decode(&mut buffer) {
            Ok(None) => (),
            other => panic!("prefix of {} bytes: {:?}", i, other),
        }
        assert_eq!(buffer.len(), before);
        assert_eq!(codec.has_header(), i >= 20);
        buffer.extend_from_slice(&[*byte]);
    }
    let read = match codec.decode(&mut buffer) {
        Ok(Some(Some(msg))) => msg,
        other => panic!("not read: {:?}", other),
    };
    assert_same_message(&read, &message_with_attributes(&values));
    assert!(buffer.is_empty());
    assert!(!codec.has_header());
}

#[test]
fn decode_two_messages_in_a_row() {
    let mut buffer = BytesMut::new();
    let mut codec = MessageCodec::new();
    codec
        .encode(message_with_attributes(&[vec![1]]), &mut buffer)
        .unwrap();
    codec
        .encode(message_with_attributes(&[vec![2, 2]]), &mut buffer)
        .unwrap();
    let first = codec.decode(&mut buffer).unwrap().unwrap().unwrap();
    assert_eq!(first.attributes[0].value(), &[1]);
    let second = codec.decode(&mut buffer).unwrap().unwrap().unwrap();
    assert_eq!(second.attributes[0].value(), &[2, 2]);
    assert!(matches!(codec.decode(&mut buffer), Ok(None)));
}

#[test]
fn malformed_is_not_incomplete() {
    // A length field that is no multiple of four.
    let mut bytes = BytesMut::from(&header_bytes(6)[..]);
    let mut codec = MessageCodec::new();
    assert!(matches!(codec.decode(&mut bytes), Ok(Some(None))));
    assert_eq!(bytes.len(), 20);
    assert!(!codec.has_header());

    // A bad magic cookie.
    let mut bad = header_bytes(0);
    bad[7] = 0x43;
    let mut bytes = BytesMut::from(&bad[..]);
    assert!(matches!(codec.decode(&mut bytes), Ok(Some(None))));
    assert_eq!(bytes.len(), 20);

    // An attribute that runs over the end of the message.
    let mut overrun = header_bytes(8);
    overrun.extend_from_slice(&[0x00, 0x01, 0x00, 0x08, 1, 2, 3, 4]);
    let mut bytes = BytesMut::from(&overrun[..]);
    assert!(matches!(codec.decode(&mut bytes), Ok(Some(None))));
    assert_eq!(bytes.len(), 28);
    assert!(!codec.has_header());

    // An attribute that leaves bytes over.
    let mut underrun = header_bytes(8);
    underrun.extend_from_slice(&[0x00, 0x01, 0x00, 0x00, 1, 2, 3, 4]);
    let mut bytes = BytesMut::from(&underrun[..]);
    assert!(matches!(codec.decode(&mut bytes), Ok(Some(None))));
    assert_eq!(bytes.len(), 28);

    // An attribute longer than the greatest length.
    let mut oversized = header_bytes(1032);
    oversized.extend_from_slice(&[0x00, 0x01, 0x04, 0x04]);
    oversized.extend_from_slice(&[0; 1028]);
    let mut bytes = BytesMut::from(&oversized[..]);
    assert!(matches!(codec.decode(&mut bytes), Ok(Some(None))));
    assert_eq!(bytes.len(), 20 + 1032);
}

#[test]
fn mux_decoder_outcomes() {
    let mut decoder = MuxDecoder::new();
    let mut empty = BytesMut::new();
    assert!(matches!(decoder.decode(&mut empty), Ok(None)));

    let mut nonsense = BytesMut::from(&b"nonsense"[..]);
    assert!(matches!(
        decoder.decode(&mut nonsense),
        Ok(Some(MuxMessage::Unknown))
    ));
    assert_eq!(nonsense.len(), 8);

    let mut bytes = new_reference_msg("213.141.156.236:48583");
    match decoder.decode(&mut bytes) {
        Ok(Some(MuxMessage::Stun(msg))) => {
            assert_eq!(msg.class, Class::SuccessResponse);
            assert_eq!(
                msg.attr::<XorMappedAddress>(),
                Some(XorMappedAddress(ipv4_addr()))
            );
        }
        other => panic!("no message: {:?}", other),
    }
    assert!(bytes.is_empty());
}

fn key(id: u8, peer: SocketAddress) -> TransactionKey {
    TransactionKey::new(TransactionId::new([id; 12]), peer)
}

fn response(id: u8) -> Message {
    Message::new(
        Class::SuccessResponse,
        Method::binding(),
        TransactionId::new([id; 12]),
    )
}

#[test]
fn table_register_deliver_remove() {
    let mut table: TransactionTable<&'static str> = TransactionTable::new();
    assert!(table.is_empty());
    assert!(!table.is_closed());

    assert_eq!(table.register(key(1, ipv4_addr()), "one"), Ok(None));
    assert_eq!(table.register(key(2, ipv4_addr()), "two"), Ok(None));
    assert_eq!(table.register(key(1, ipv6_addr()), "other peer"), Ok(None));
    assert_eq!(table.len(), 3);
    assert!(table.contains(&key(1, ipv4_addr())));

    // The same key again: the new channel takes the place of the old.
    assert_eq!(table.register(key(2, ipv4_addr()), "two again"), Ok(Some("two")));
    assert_eq!(table.len(), 3);

    // The peer belongs to the key.
    let (channel, message) = table.deliver(response(1), ipv6_addr()).unwrap();
    assert_eq!(channel, "other peer");
    assert_eq!(message.transaction_id, TransactionId::new([1; 12]));
    assert!(table.contains(&key(1, ipv4_addr())));

    // A second delivery finds nothing.
    assert!(table.deliver(response(1), ipv6_addr()).is_none());
    // An unknown transaction is discarded.
    assert!(table.deliver(response(9), ipv4_addr()).is_none());
    assert_eq!(table.len(), 2);

    assert_eq!(table.remove(key(2, ipv4_addr())), Some("two again"));
    assert_eq!(table.remove(key(2, ipv4_addr())), None);
    assert_eq!(table.len(), 1);
}

#[test]
fn table_close_cancels_everyone() {
    let mut table: TransactionTable<u32> = TransactionTable::new();
    table.register(key(1, ipv4_addr()), 10).unwrap();
    table.register(key(2, ipv4_addr()), 20).unwrap();
    let mut cancelled = table.close();
    cancelled.sort();
    assert_eq!(cancelled, vec![10, 20]);
    assert!(table.is_closed());
    assert!(table.is_empty());

    // Nothing is taken, nothing is delivered.
    assert_eq!(table.register(key(3, ipv4_addr()), 30), Err(30));
    assert!(table.is_empty());
    assert!(table.deliver(response(1), ipv4_addr()).is_none());
    assert_eq!(table.close(), Vec::<u32>::new());
}

#[test]
fn dispatcher_handles_items() {
    let mut dispatcher: Dispatcher<u32> = Dispatcher::new();
    assert!(matches!(
        dispatcher.handle(DispatcherMessage::NewTransaction(key(1, ipv4_addr()), 1)),
        Dispatch::Continue { released: None }
    ));
    assert!(matches!(
        dispatcher.handle(DispatcherMessage::NewTransaction(key(1, ipv4_addr()), 2)),
        Dispatch::Continue { released: Some(1) }
    ));
    assert!(matches!(
        dispatcher.handle(DispatcherMessage::RecvFailed),
        Dispatch::Continue { released: None }
    ));
    assert!(matches!(
        dispatcher.handle(DispatcherMessage::Recv(response(1), ipv6_addr())),
        Dispatch::Continue { released: None }
    ));
    match dispatcher.handle(DispatcherMessage::Recv(response(1), ipv4_addr())) {
        Dispatch::Deliver { channel, message } => {
            assert_eq!(channel, 2);
            assert_eq!(message.transaction_id, TransactionId::new([1; 12]));
        }
        _ => panic!("not delivered"),
    }
    assert!(dispatcher.transactions().is_empty());

    dispatcher.handle(DispatcherMessage::NewTransaction(key(2, ipv4_addr()), 3));
    assert!(matches!(
        dispatcher.handle(DispatcherMessage::RemoveTransaction(key(2, ipv4_addr()))),
        Dispatch::Continue { released: Some(3) }
    ));
    assert!(matches!(
        dispatcher.handle(DispatcherMessage::RemoveTransaction(key(2, ipv4_addr()))),
        Dispatch::Continue { released: None }
    ));

    dispatcher.handle(DispatcherMessage::NewTransaction(key(4, ipv4_addr()), 4));
    match dispatcher.handle(DispatcherMessage::Close) {
        Dispatch::Stop { cancelled } => assert_eq!(cancelled, vec![4]),
        _ => panic!("not stopped"),
    }
    assert!(dispatcher.transactions().is_closed());
    assert!(matches!(
        dispatcher.handle(DispatcherMessage::NewTransaction(key(5, ipv4_addr()), 5)),
        Dispatch::Continue { released: Some(5) }
    ));
}

#[test]
fn filter_addr_keeps_the_peer() {
    let item: Option<DispatcherMessage<u32>> =
        filter_addr(Some((response(1), ipv4_addr())), &ipv4_addr());
    assert!(matches!(item, Some(DispatcherMessage::Recv(_, _))));
    let item: Option<DispatcherMessage<u32>> =
        filter_addr(Some((response(1), ipv6_addr())), &ipv4_addr());
    assert!(item.is_none());
    let item: Option<DispatcherMessage<u32>> = filter_addr(None, &ipv4_addr());
    assert!(matches!(item, Some(DispatcherMessage::RecvFailed)));
}

#[test]
fn timeouts_double() {
    let policy = RetryPolicy {
        rto: 100,
        max_attempts: 7,
        backoff: Backoff::Doubling,
    };
    let timeouts: Vec<u64> = (0..7).map(|i| policy.timeout_for(i)).collect();
    assert_eq!(timeouts, vec![100, 200, 400, 800, 1600, 3200, 6400]);

    // The greatest value stands for what does not fit.
    assert_eq!(policy.timeout_for(63), u64::MAX);
    let huge = RetryPolicy {
        rto: u64::MAX / 2 + 1,
        max_attempts: 3,
        backoff: Backoff::Doubling,
    };
    assert_eq!(huge.timeout_for(0), u64::MAX / 2 + 1);
    assert_eq!(huge.timeout_for(1), u64::MAX);
    assert_eq!(huge.timeout_for(2), u64::MAX);
    let zero = RetryPolicy {
        rto: 0,
        max_attempts: 3,
        backoff: Backoff::Doubling,
    };
    assert_eq!(zero.timeout_for(40), 0);
}

#[test]
fn timeouts_with_last_multiplier() {
    let policy = RetryPolicy {
        rto: 500,
        max_attempts: 7,
        backoff: Backoff::LastAttempt { multiplier: 16 },
    };
    let timeouts: Vec<u64> = (0..7).map(|i| policy.timeout_for(i)).collect();
    assert_eq!(timeouts, vec![500, 1000, 2000, 4000, 8000, 16000, 8000]);

    let single = RetryPolicy {
        rto: 500,
        max_attempts: 1,
        backoff: Backoff::LastAttempt { multiplier: 16 },
    };
    assert_eq!(single.timeout_for(0), 500);
    let huge = RetryPolicy {
        rto: u64::MAX,
        max_attempts: 2,
        backoff: Backoff::LastAttempt { multiplier: 2 },
    };
    assert_eq!(huge.timeout_for(1), u64::MAX);
}

#[test]
fn retry_policy_peer_never_responds() {
    let policy = RetryPolicy {
        rto: 100,
        max_attempts: 3,
        backoff: Backoff::Doubling,
    };
    let client = Client::new(ipv4_addr(), policy);
    let message = new_message(tr_id());
    let mut request = client.request(&message);
    let mut table: TransactionTable<u32> = TransactionTable::new();
    let mut waited: u64 = 0;
    let mut sent: u32 = 0;

    let mut action = request.step(RequestEvent::Start);
    let outcome = loop {
        match action {
            RequestAction::Register { deregister_first } => {
                assert_eq!(deregister_first, sent > 0);
                if deregister_first {
                    assert!(table.remove(request.transaction_key()).is_some());
                }
                assert!(table.is_empty());
                table.register(request.transaction_key(), sent).unwrap();
                assert!(matches!(
                    request.current_state(),
                    RequestState::Registering { .. }
                ));
                action = request.step(RequestEvent::Registered);
            }
            RequestAction::Transmit { timeout } => {
                // The key is in the table before anything goes out.
                assert!(table.contains(&request.transaction_key()));
                assert_eq!(
                    request.current_state(),
                    RequestState::Sent {
                        attempt: sent,
                        timeout
                    }
                );
                sent += 1;
                waited += timeout;
                action = request.step(RequestEvent::Timeout);
            }
            RequestAction::Finish {
                deregister,
                outcome,
            } => {
                if deregister {
                    table.remove(request.transaction_key());
                }
                break outcome;
            }
            RequestAction::Ignore => panic!("ignored"),
        }
    };
    assert_eq!(sent, 3);
    assert_eq!(waited, 100 + 200 + 400);
    assert!(waited >= 700);
    assert_eq!(
        outcome.unwrap_err(),
        Error::ExhaustedRetries { attempts: 3 }
    );
    assert!(table.is_empty());
    assert!(request.is_finished());
    assert_eq!(request.current_state(), RequestState::Exhausted);
    assert!(matches!(
        request.step(RequestEvent::Timeout),
        RequestAction::Ignore
    ));
}

#[test]
fn late_response_after_give_up_is_discarded() {
    let policy = RetryPolicy {
        rto: 100,
        max_attempts: 1,
        backoff: Backoff::Doubling,
    };
    let client = Client::new(ipv4_addr(), policy);
    let mut dispatcher: Dispatcher<u32> = Dispatcher::new();

    // The first request times out and is given up.
    let first = new_message(TransactionId::new([1; 12]));
    let mut request = client.request(&first);
    assert!(matches!(
        request.step(RequestEvent::Start),
        RequestAction::Register {
            deregister_first: false
        }
    ));
    dispatcher.handle(DispatcherMessage::NewTransaction(
        request.transaction_key(),
        1,
    ));
    assert!(matches!(
        request.step(RequestEvent::Registered),
        RequestAction::Transmit { timeout: 100 }
    ));
    match request.step(RequestEvent::Timeout) {
        RequestAction::Finish {
            deregister: true,
            outcome,
        } => assert_eq!(
            outcome.unwrap_err(),
            Error::ExhaustedRetries { attempts: 1 }
        ),
        _ => panic!("not given up"),
    }
    dispatcher.handle(DispatcherMessage::RemoveTransaction(
        request.transaction_key(),
    ));
    assert!(dispatcher.transactions().is_empty());

    // A second, unrelated request to the same peer is under way.
    let second = new_message(TransactionId::new([2; 12]));
    let mut other = client.request(&second);
    other.step(RequestEvent::Start);
    dispatcher.handle(DispatcherMessage::NewTransaction(other.transaction_key(), 2));
    other.step(RequestEvent::Registered);

    // The late response to the first request is dropped without a trace.
    assert!(matches!(
        dispatcher.handle(DispatcherMessage::Recv(response(1), client.peer_addr())),
        Dispatch::Continue { released: None }
    ));
    assert_eq!(dispatcher.transactions().len(), 1);
    assert!(dispatcher.transactions().contains(&other.transaction_key()));

    // The response to the second request still arrives.
    let delivered = match dispatcher.handle(DispatcherMessage::Recv(response(2), ipv4_addr())) {
        Dispatch::Deliver { channel, message } => {
            assert_eq!(channel, 2);
            message
        }
        _ => panic!("not delivered"),
    };
    match other.step(RequestEvent::Response(delivered)) {
        RequestAction::Finish {
            deregister: false,
            outcome,
        } => assert_eq!(
            outcome.unwrap().transaction_id,
            TransactionId::new([2; 12])
        ),
        _ => panic!("not finished"),
    }
    assert_eq!(other.current_state(), RequestState::Delivered);
    assert!(dispatcher.transactions().is_empty());
}

#[test]
fn request_ends_on_response_failure_and_cancellation() {
    let policy = RetryPolicy {
        rto: 10,
        max_attempts: 4,
        backoff: Backoff::Doubling,
    };
    let client = Client::new(ipv6_addr(), policy);
    let message = new_message(tr_id());
    assert_eq!(
        client.request(&message).transaction_key(),
        TransactionKey::new(tr_id(), ipv6_addr())
    );

    // A response after one timeout.
    let mut request = client.request(&message);
    assert!(!request.is_finished());
    assert!(matches!(
        request.step(RequestEvent::Timeout),
        RequestAction::Ignore
    ));
    assert!(matches!(
        request.step(RequestEvent::Registered),
        RequestAction::Ignore
    ));
    request.step(RequestEvent::Start);
    assert!(matches!(
        request.step(RequestEvent::Start),
        RequestAction::Ignore
    ));
    // Nothing is awaited before the request went out.
    assert!(matches!(
        request.step(RequestEvent::Timeout),
        RequestAction::Ignore
    ));
    assert!(matches!(
        request.step(RequestEvent::Registered),
        RequestAction::Transmit { timeout: 10 }
    ));
    assert!(matches!(
        request.step(RequestEvent::Timeout),
        RequestAction::Register {
            deregister_first: true
        }
    ));
    assert!(matches!(
        request.step(RequestEvent::Registered),
        RequestAction::Transmit { timeout: 20 }
    ));
    assert!(matches!(
        request.step(RequestEvent::Response(response(1))),
        RequestAction::Finish {
            deregister: false,
            outcome: Ok(_)
        }
    ));
    assert!(request.is_finished());

    // A transport error.
    let mut request = client.request(&message);
    request.step(RequestEvent::Start);
    request.step(RequestEvent::Registered);
    assert!(matches!(
        request.step(RequestEvent::TransportError),
        RequestAction::Finish {
            deregister: true,
            outcome: Err(Error::Transport)
        }
    ));
    assert_eq!(request.current_state(), RequestState::Failed);

    // A cancellation while the request waits.
    let mut request = client.request(&message);
    request.step(RequestEvent::Start);
    request.step(RequestEvent::Registered);
    assert!(matches!(
        request.step(RequestEvent::Cancelled),
        RequestAction::Finish {
            deregister: false,
            outcome: Err(Error::Cancelled)
        }
    ));

    // A dispatcher that takes no registration any more.
    let mut request = client.request(&message);
    request.step(RequestEvent::Start);
    assert!(matches!(
        request.step(RequestEvent::Cancelled),
        RequestAction::Finish {
            deregister: false,
            outcome: Err(Error::Cancelled)
        }
    ));

    // No attempt at all.
    let none = Client::new(
        ipv6_addr(),
        RetryPolicy {
            rto: 10,
            max_attempts: 0,
            backoff: Backoff::Doubling,
        },
    );
    let mut request = none.request(&message);
    assert!(matches!(
        request.step(RequestEvent::Start),
        RequestAction::Finish {
            deregister: false,
            outcome: Err(Error::ExhaustedRetries { attempts: 0 })
        }
    ));
}

#[test]
fn binding_reads_the_reflexive_address() {
    let client = Client::new(ipv4_addr(), ClientBuilder::new().into_parts().2);
    for (addr, _) in get_test_addrs() {
        assert_eq!(client.binding(Ok(new_test_msg(addr))), Ok(addr));
    }
    assert_eq!(
        client.binding(Ok(response(1))),
        Err(Error::MissingAttribute)
    );
    assert_eq!(
        client.binding(Err(Error::ExhaustedRetries { attempts: 7 })),
        Err(Error::ExhaustedRetries { attempts: 7 })
    );
}

#[test]
fn binding_request_is_a_request_of_the_binding_method() {
    let message = new_message(tr_id());
    assert_eq!(message.class, Class::Request);
    assert_eq!(message.method, Method::binding());
    assert_eq!(message.transaction_id, tr_id());
    assert!(message.attributes.is_empty());
    let mut dst = BytesMut::new();
    MessageCodec::new().encode(message, &mut dst).unwrap();
    assert_eq!(&dst[..4], &[0x00, 0x01, 0x00, 0x00]);
}

#[test]
fn builder_collects_the_parts() {
    let (local, peer, policy) = ClientBuilder::new()
        .bind("0.0.0.0:0")
        .connect("stun.example.org:3478")
        .rto(5000)
        .max_attempts(3)
        .backoff(Backoff::LastAttempt { multiplier: 16 })
        .into_parts();
    assert_eq!(local, "0.0.0.0:0");
    assert_eq!(peer, "stun.example.org:3478");
    assert_eq!(
        policy,
        RetryPolicy {
            rto: 5000,
            max_attempts: 3,
            backoff: Backoff::LastAttempt { multiplier: 16 },
        }
    );

    let ((), (), policy) = ClientBuilder::default().into_parts();
    assert_eq!(
        policy,
        RetryPolicy {
            rto: 500,
            max_attempts: 7,
            backoff: Backoff::Doubling,
        }
    );
    let client = ClientBuilder::new().rto(100).build(ipv6_addr());
    assert_eq!(client.peer_addr(), ipv6_addr());
}
