use ctutils::der::any::Any;
use ctutils::der::asn1::big_uint::BigUInt;
use ctutils::der::asn1::bit_string::BitString;
use ctutils::der::asn1::boolean::Boolean;
use ctutils::der::asn1::context_specific::ContextSpecific;
use ctutils::der::asn1::integer::Integer;
use ctutils::der::asn1::null::Null;
use ctutils::der::asn1::octet_string::OctetString;
use ctutils::der::asn1::oid::ObjectIdentifier;
use ctutils::der::asn1::sequence::Sequence;
use ctutils::der::asn1::uint;
use ctutils::der::decoder::Decoder;
use ctutils::der::encoder::Encoder;
use ctutils::der::length::Length;
use ctutils::der::traits::{DecodeBytes, Decodable, EncodeToSlice, Encodable};
use ctutils::der::{decode, encode};
use ctutils::der::{Error, Result, Tag, TagNumber};

type BigU1<'a> = BigUInt<'a, 1>;

/// Parse a `BigU1` from an ASN.1 `Any` value to test decoding behaviors.
fn parse_bigu1_from_any(bytes: &[u8]) -> Result<BigU1<'_>> {
    BigU1::try_from(Any::new(Tag::Integer, bytes)?)
}

#[test]
fn decode_empty() {
    let x = parse_bigu1_from_any(&[]).unwrap();
    assert_eq!(x.as_bytes(), &[]);
}

#[test]
fn decode_zero() {
    let x = parse_bigu1_from_any(&[0]).unwrap();
    assert_eq!(x.as_bytes(), &[]);
}

#[test]
fn decode_leading_extra_zero() {
    let x = parse_bigu1_from_any(&[0x00, 0x81]).unwrap();
    assert_eq!(x.as_bytes(), &[0x81]);
}

#[test]
fn reject_oversize_without_extra_zero() {
    let err = parse_bigu1_from_any(&[0x81]).err().unwrap();
    assert_eq!(err, Error::Value { tag: Tag::Integer });
}

/// Parse a `BitString` from an ASN.1 `Any` value to test decoding behaviors.
fn parse_bitstring_from_any(bytes: &[u8]) -> Result<BitString<'_>> {
    BitString::try_from(Any::new(Tag::BitString, bytes)?)
}

#[test]
fn reject_non_prefixed_bitstring() {
    let err = parse_bitstring_from_any(&[]).err().unwrap();
    assert_eq!(err, Error::Length { tag: Tag::BitString });
}

#[test]
fn reject_non_zero_prefix() {
    let err = parse_bitstring_from_any(&[1, 1, 2, 3]).err().unwrap();
    assert_eq!(err, Error::Length { tag: Tag::BitString });
}

#[test]
fn decode_empty_bitstring() {
    let bs = parse_bitstring_from_any(&[0]).unwrap();
    assert_eq!(bs.as_bytes(), &[]);
}

#[test]
fn decode_non_empty_bitstring() {
    let bs = parse_bitstring_from_any(&[0, 1, 2, 3]).unwrap();
    assert_eq!(bs.as_bytes(), &[1, 2, 3]);
}

#[test]
fn round_trip() {
    let inner = Any::new(Tag::Integer, &[0x05]).unwrap();
    let field = ContextSpecific::new(1, inner).unwrap();
    let mut buffer = [0u8; 16];
    let encoded = field.encode_to_slice(&mut buffer).unwrap();
    assert_eq!(encoded, vec![0xA1, 0x03, 0x02, 0x01, 0x05]);

    let mut decoder = Decoder::new(&encoded);
    let decoded = ContextSpecific::decode(&mut decoder).unwrap();
    assert_eq!(decoded, field);
    assert!(decoder.is_finished());
}

// Vectors from Section 5.7 of "A Layman's Guide to a Subset of ASN.1, BER, and DER".
const I0_BYTES: &[u8] = &[0x02, 0x01, 0x00];
const I127_BYTES: &[u8] = &[0x02, 0x01, 0x7F];
const I128_BYTES: &[u8] = &[0x02, 0x02, 0x00, 0x80];
const I256_BYTES: &[u8] = &[0x02, 0x02, 0x01, 0x00];
const INEG128_BYTES: &[u8] = &[0x02, 0x01, 0x80];
const INEG129_BYTES: &[u8] = &[0x02, 0x02, 0xFF, 0x7F];

// Additional vectors
const I255_BYTES: &[u8] = &[0x02, 0x02, 0x00, 0xFF];
const I32767_BYTES: &[u8] = &[0x02, 0x02, 0x7F, 0xFF];
const INEG32768_BYTES: &[u8] = &[0x02, 0x02, 0x80, 0x00];

#[test]
fn decode_i8() {
    assert_eq!(0, i8::from_bytes(I0_BYTES).unwrap());
    assert_eq!(127, i8::from_bytes(I127_BYTES).unwrap());
    assert_eq!(-128, i8::from_bytes(INEG128_BYTES).unwrap());
}

#[test]
fn decode_i16() {
    assert_eq!(0, i16::from_bytes(I0_BYTES).unwrap());
    assert_eq!(127, i16::from_bytes(I127_BYTES).unwrap());
    assert_eq!(128, i16::from_bytes(I128_BYTES).unwrap());
    assert_eq!(255, i16::from_bytes(I255_BYTES).unwrap());
    assert_eq!(256, i16::from_bytes(I256_BYTES).unwrap());
    assert_eq!(32767, i16::from_bytes(I32767_BYTES).unwrap());
    assert_eq!(-128, i16::from_bytes(INEG128_BYTES).unwrap());
    assert_eq!(-129, i16::from_bytes(INEG129_BYTES).unwrap());
    assert_eq!(-32768, i16::from_bytes(INEG32768_BYTES).unwrap());
}

#[test]
fn encode_i8() {
    let mut buffer = [0u8; 3];

    assert_eq!(I0_BYTES, 0i8.encode_to_slice(&mut buffer).unwrap());
    assert_eq!(I127_BYTES, 127i8.encode_to_slice(&mut buffer).unwrap());

    assert_eq!(INEG128_BYTES, (-128i8).encode_to_slice(&mut buffer).unwrap());
}

#[test]
fn encode_i16() {
    let mut buffer = [0u8; 4];
    assert_eq!(I0_BYTES, 0i16.encode_to_slice(&mut buffer).unwrap());
    assert_eq!(I127_BYTES, 127i16.encode_to_slice(&mut buffer).unwrap());
    assert_eq!(I128_BYTES, 128i16.encode_to_slice(&mut buffer).unwrap());
    assert_eq!(I255_BYTES, 255i16.encode_to_slice(&mut buffer).unwrap());
    assert_eq!(I256_BYTES, 256i16.encode_to_slice(&mut buffer).unwrap());
    assert_eq!(I32767_BYTES, 32767i16.encode_to_slice(&mut buffer).unwrap());

    assert_eq!(INEG128_BYTES, (-128i16).encode_to_slice(&mut buffer).unwrap());

    assert_eq!(INEG129_BYTES, (-129i16).encode_to_slice(&mut buffer).unwrap());

    assert_eq!(INEG32768_BYTES, (-32768i16).encode_to_slice(&mut buffer).unwrap());
}

/// Integers must be encoded with a minimum number of octets
#[test]
fn reject_non_canonical() {
    assert!(i8::from_bytes(&[0x02, 0x02, 0x00, 0x00]).is_err());
    assert!(i16::from_bytes(&[0x02, 0x02, 0x00, 0x00]).is_err());
}

const EXAMPLE_OID_STR: &str = "1.2.840.113549";
const EXAMPLE_OID_BYTES: &[u8; 8] = &[0x06, 0x06, 0x2a, 0x86, 0x48, 0x86, 0xf7, 0x0d];

#[test]
fn decode() {
    let example_oid = ObjectIdentifier::parse(EXAMPLE_OID_STR).unwrap();
    assert_eq!(example_oid, ObjectIdentifier::from_bytes(EXAMPLE_OID_BYTES).unwrap());
}

#[test]
fn encode() {
    let example_oid = ObjectIdentifier::parse(EXAMPLE_OID_STR).unwrap();
    let mut buffer = [0u8; 8];
    assert_eq!(
        EXAMPLE_OID_BYTES.as_slice(),
        example_oid.encode_to_slice(&mut buffer).unwrap()
    );
}

#[test]
fn oid_parse_rejects_malformed() {
    assert_eq!(ObjectIdentifier::parse("1").err(), Some(Error::Oid));
    assert_eq!(ObjectIdentifier::parse("not an oid").err(), Some(Error::Oid));
    assert_eq!(ObjectIdentifier::from_ber(&[]).err(), Some(Error::Oid));
    assert_eq!(ObjectIdentifier::parse(EXAMPLE_OID_STR).unwrap().as_bytes(), &EXAMPLE_OID_BYTES[2..]);
}

#[test]
fn oid_free_functions() {
    let mut bytes: &[u8] = EXAMPLE_OID_BYTES;
    let oid = decode::oid(&mut bytes).unwrap();
    assert!(bytes.is_empty());
    let mut out = [0u8; 8];
    assert_eq!(encode::oid(&mut out, &oid), Ok(8));
    assert_eq!(&out, EXAMPLE_OID_BYTES);

    let mut short = [0u8; 5];
    assert_eq!(encode::oid(&mut short, &oid), Err(Error::Oid));

    let mut bad: &[u8] = &[0x06, 0x00];
    assert_eq!(decode::oid(&mut bad).err(), Some(Error::Oid));
}

#[test]
fn decode_length_forms() {
    let mut bytes: &[u8] = &[0x05];
    assert_eq!(decode::length(&mut bytes), Ok(5));
    let mut bytes: &[u8] = &[0x81, 0x80];
    assert_eq!(decode::length(&mut bytes), Ok(0x80));
    let mut bytes: &[u8] = &[0x82, 0x01, 0x00];
    assert_eq!(decode::length(&mut bytes), Ok(0x100));
    let mut bytes: &[u8] = &[0x81, 0x7F];
    assert_eq!(decode::length(&mut bytes), Err(Error::Noncanonical));
    let mut bytes: &[u8] = &[0x82, 0x00, 0xFF];
    assert_eq!(decode::length(&mut bytes), Err(Error::Noncanonical));
    let mut bytes: &[u8] = &[0x83, 0x01, 0x00, 0x00];
    assert_eq!(decode::length(&mut bytes), Err(Error::Overlength));
    let mut bytes: &[u8] = &[];
    assert_eq!(decode::length(&mut bytes), Err(Error::Truncated));
}

#[test]
fn decode_free_functions() {
    let mut bytes: &[u8] = &[0x02, 0x01, 0x07, 0x04, 0x02, 0xAA, 0xBB];
    assert_eq!(decode::integer(&mut bytes), Ok(7));
    assert_eq!(decode::octet_string(&mut bytes), Ok(&[0xAA, 0xBB][..]));
    assert!(bytes.is_empty());

    let mut bytes: &[u8] = &[0x03, 0x02, 0x00, 0x01];
    assert_eq!(decode::bit_string(&mut bytes), Ok(&[0x00, 0x01][..]));

    let mut bytes: &[u8] = &[0x30, 0x03, 0x02, 0x01, 0x09];
    let inner = decode::sequence(&mut bytes, |inner: &[u8]| Ok(inner.len())).unwrap();
    assert_eq!(inner, 3);

    let mut bytes: &[u8] = &[];
    assert_eq!(decode::optional(&mut bytes, |_tag: Tag, _v: &[u8]| Ok(1u8)), Ok(None));

    let mut bytes: &[u8] = &[0x04, 0x05, 0x00];
    assert_eq!(decode::octet_string(&mut bytes), Err(Error::Length { tag: Tag::OctetString }));

    let mut bytes: &[u8] = &[0x02, 0x01, 0x07];
    assert_eq!(
        decode::octet_string(&mut bytes),
        Err(Error::UnexpectedTag { expected: Some(Tag::OctetString), actual: Tag::Integer })
    );

    let mut bytes: &[u8] = &[0x1F];
    assert_eq!(decode::tag(&mut bytes), Err(Error::UnknownTag { byte: 0x1F }));
}

#[test]
fn encode_free_functions() {
    let mut buffer = [0u8; 6];
    assert_eq!(encode::nested(&mut buffer, Tag::OctetString, &[1, 2, 3]), Ok(5));
    assert_eq!(&buffer[..5], &[0x04, 0x03, 1, 2, 3]);

    let mut small = [0u8; 3];
    assert_eq!(encode::nested(&mut small, Tag::OctetString, &[1, 2, 3]), Err(Error::Overlength));

    let mut header = [0u8; 4];
    assert_eq!(encode::header(&mut header, Tag::Sequence, 0x100), Ok(4));
    assert_eq!(header, [0x30, 0x82, 0x01, 0x00]);
    assert_eq!(encode::header(&mut header, Tag::Sequence, 0x10000), Err(Error::Overlength));
}

#[test]
fn decoder_taints_on_error() {
    let bytes = [0x04, 0x01, 0xAA, 0x05, 0x00];
    let mut decoder = Decoder::new(&bytes);
    assert_eq!(decoder.integer().err(), Some(Error::UnexpectedTag { expected: Some(Tag::Integer), actual: Tag::OctetString }));
    assert!(decoder.is_failed());
    assert_eq!(decoder.null().err(), Some(Error::Failed));
    assert!(!decoder.is_finished());
}

#[test]
fn decoder_reads_values_in_turn() {
    let bytes = [0x04, 0x01, 0xAA, 0x05, 0x00, 0x02, 0x01, 0xFF, 0x03, 0x01, 0x00];
    let mut decoder = Decoder::new(&bytes);
    assert_eq!(decoder.octet_string().unwrap().as_bytes(), &[0xAA]);
    assert_eq!(decoder.null().unwrap(), Null);
    assert_eq!(decoder.integer().unwrap().to_i8(), -1);
    assert!(decoder.bit_string().unwrap().is_empty());
    assert!(decoder.is_finished());
    assert_eq!(decoder.optional::<Null>(), Ok(None));
    assert_eq!(decoder.finish(Null), Ok(Null));
}

#[test]
fn decoder_finish_with_trailing_data() {
    let bytes = [0x05, 0x00, 0x05, 0x00];
    let mut decoder = Decoder::new(&bytes);
    let null = decoder.null().unwrap();
    assert_eq!(decoder.finish(null), Err(Error::Length { tag: Tag::Integer }));
}

#[test]
fn decoder_sequence() {
    let bytes = [0x30, 0x06, 0x02, 0x01, 0x01, 0x02, 0x01, 0x02];
    let mut decoder = Decoder::new(&bytes);
    let sum = decoder
        .sequence(|mut inner: Decoder<'_>| {
            let a = inner.decode::<i8>()?;
            let b = inner.decode::<i8>()?;
            inner.finish(a + b)
        })
        .unwrap();
    assert_eq!(sum, 3);
    assert!(decoder.is_finished());

    let seq = Sequence::new(&bytes[2..]).unwrap();
    let mut inner = seq.decoder();
    assert_eq!(inner.decode::<i8>(), Ok(1));
}

#[test]
fn encoder_writes_values_in_turn() {
    let mut encoder = Encoder::new(vec![0u8; 16]);
    encoder.null().unwrap();
    encoder.octet_string(&[0xAA]).unwrap();
    encoder.bit_string(&[0x01]).unwrap();
    encoder.encode(&Boolean::new(true)).unwrap();
    let out = encoder.finish().unwrap();
    assert_eq!(out, vec![0x05, 0x00, 0x04, 0x01, 0xAA, 0x03, 0x02, 0x00, 0x01, 0x01, 0x01, 0xFF]);
}

#[test]
fn encoder_overlength_taints() {
    let mut encoder = Encoder::new(vec![]);
    assert_eq!(encoder.encode(&Boolean::new(false)), Err(Error::Overlength));
    assert!(encoder.is_failed());
    assert_eq!(encoder.null(), Err(Error::Failed));
    assert_eq!(encoder.finish(), Err(Error::Failed));
}

#[test]
fn encoder_sequence_of_fields() {
    let a = 1i8;
    let b = Boolean::new(false);
    let fields: [&dyn Encodable; 2] = [&a, &b];
    let mut encoder = Encoder::new(vec![0u8; 8]);
    encoder.sequence(&fields).unwrap();
    assert_eq!(encoder.finish().unwrap(), vec![0x30, 0x06, 0x02, 0x01, 0x01, 0x01, 0x01, 0x00]);
}

#[test]
fn boolean_round_trip_and_noncanonical() {
    assert_eq!(Boolean::from_bytes(&[0x01, 0x01, 0xFF]).unwrap().to_bool(), true);
    assert_eq!(Boolean::from_bytes(&[0x01, 0x01, 0x00]).unwrap().to_bool(), false);
    assert_eq!(Boolean::from_bytes(&[0x01, 0x01, 0x01]), Err(Error::Noncanonical));
    let mut buffer = [0u8; 3];
    assert_eq!(Boolean::new(true).encode_to_slice(&mut buffer).unwrap(), vec![0x01, 0x01, 0xFF]);
}

#[test]
fn integer_type_and_uint_helpers() {
    assert_eq!(Integer::from_bytes(&[0x02, 0x01, 0x80]).unwrap().to_i8(), -128);
    assert_eq!(uint::strip_leading_zeroes(&[0, 0, 1]), &[1]);
    assert_eq!(uint::strip_leading_zeroes(&[0, 0]), &[0]);
    assert!(uint::needs_leading_zero(&[0x80]));
    assert!(!uint::needs_leading_zero(&[0x7F]));
    assert_eq!(uint::encoded_len(&[0, 0xFF]).unwrap().to_usize(), 2);
    let any = Any::new(Tag::Integer, &[0x00, 0xFF]).unwrap();
    assert_eq!(uint::decode::<2>(any), Ok(vec![0x00, 0xFF]));
    let mut encoder = Encoder::new(vec![0u8; 4]);
    uint::encode(&mut encoder, &[0, 0, 0xFF]).unwrap();
    assert_eq!(encoder.finish().unwrap(), vec![0x02, 0x02, 0x00, 0xFF]);
}

#[test]
fn big_uint_encoding() {
    let x = BigUInt::<4>::new(&[0x00, 0x80, 0x01]).unwrap();
    assert_eq!(x.as_bytes(), &[0x80, 0x01]);
    let mut buffer = [0u8; 8];
    assert_eq!(x.encode_to_slice(&mut buffer).unwrap(), vec![0x02, 0x03, 0x00, 0x80, 0x01]);
    assert_eq!(BigUInt::<1>::new(&[1, 2]).err(), Some(Error::Length { tag: Tag::Integer }));
}

#[test]
fn tags_and_lengths() {
    assert_eq!(Tag::try_from(0x30), Ok(Tag::Sequence));
    assert_eq!(Tag::try_from(0xA2).unwrap().to_byte(), 0xA2);
    assert_eq!(Tag::context_specific(31), Err(Error::UnknownTag { byte: 31 }));
    assert_eq!(TagNumber::new(5).context_specific(), Tag::ContextSpecific(TagNumber::new(5)));
    assert_eq!(Tag::Integer.asn1_type_name(), "INTEGER");
    assert_eq!(Length::try_from_usize(0x10000), Err(Error::Overflow));
    assert_eq!(Length::from_u16(0xFFFF).checked_add(Length::one()), Err(Error::Overflow));
    assert_eq!(Length::from_u8(0x80).for_tlv().unwrap().to_usize(), 0x83);
}

#[test]
fn octet_string_and_null_encoding() {
    let os = OctetString::new(&[1, 2]).unwrap();
    let mut buffer = [0u8; 4];
    assert_eq!(os.encode_to_slice(&mut buffer).unwrap(), vec![0x04, 0x02, 1, 2]);
    assert_eq!(Null.encode_to_slice(&mut buffer).unwrap(), vec![0x05, 0x00]);
    assert_eq!(Null::from_bytes(&[0x05, 0x01, 0x00]), Err(Error::Length { tag: Tag::Null }));
}

#[test]
fn unknown_tag_octets_are_refused() {
    assert_eq!(Tag::try_from(0x60), Err(Error::UnknownTag { byte: 0x60 }));
    assert_eq!(Tag::try_from(0xA4), Err(Error::UnknownTag { byte: 0xA4 }));
    assert_eq!(Tag::try_from(0xE0), Err(Error::UnknownTag { byte: 0xE0 }));
    assert_eq!(Tag::try_from(0x00), Err(Error::UnknownTag { byte: 0x00 }));
    assert_eq!(Tag::try_from(0xA3).unwrap().to_byte(), 0xA3);
    assert_eq!(Tag::try_from(0x11), Ok(Tag::SetOf));
    let mut decoder = Decoder::new(&[0x60, 0x00]);
    assert_eq!(decoder.any().err(), Some(Error::UnknownTag { byte: 0x60 }));
}

#[test]
fn unsigned_integers_refuse_a_negative_first_octet() {
    let any = Any::new(Tag::Integer, &[0x80]).unwrap();
    assert_eq!(uint::decode::<1>(any), Err(Error::Value { tag: Tag::Integer }));
    let any = Any::new(Tag::Integer, &[0x7F]).unwrap();
    assert_eq!(uint::decode::<2>(any), Ok(vec![0x00, 0x7F]));
    assert_eq!(parse_bigu1_from_any(&[0x80]).err(), Some(Error::Value { tag: Tag::Integer }));
    assert_eq!(parse_bigu1_from_any(&[0x00, 0x80]).unwrap().as_bytes(), &[0x80]);
}

#[test]
fn i16_refuses_needless_sign_extension() {
    assert_eq!(i16::from_bytes(&[0x02, 0x02, 0xFF, 0x80]), Err(Error::Noncanonical));
    assert_eq!(i16::from_bytes(&[0x02, 0x02, 0xFF, 0xFF]), Err(Error::Noncanonical));
    assert_eq!(i16::from_bytes(&[0x02, 0x02, 0x00, 0x7F]), Err(Error::Noncanonical));
    assert_eq!(i16::from_bytes(&[0x02, 0x02, 0xFF, 0x7F]), Ok(-129));
    assert_eq!(i16::from_bytes(&[0x02, 0x02, 0x00, 0x80]), Ok(128));
}

#[test]
fn context_specific_unexpected_tag_fails_decoder() {
    let bytes = [0x30, 0x03, 0x02, 0x01, 0x05];
    let mut decoder = Decoder::new(&bytes);
    assert_eq!(
        ContextSpecific::decode(&mut decoder).err(),
        Some(Error::UnexpectedTag { expected: None, actual: Tag::Sequence })
    );
    assert!(decoder.is_failed());
    let bytes = [0xA1, 0x03, 0x02, 0x01, 0x05];
    let mut decoder = Decoder::new(&bytes);
    let field = ContextSpecific::decode(&mut decoder).unwrap();
    assert_eq!(field.tag(), 1);
    assert_eq!(field.value().value(), &[0x05]);
    assert!(decoder.is_finished());
}

#[test]
fn tag_names_differ() {
    let tags = [
        0x01u8, 0x02, 0x03, 0x04, 0x05, 0x06, 0x0C, 0x11, 0x13, 0x16, 0x17, 0x18, 0x30, 0xA0, 0xA1,
        0xA2, 0xA3,
    ];
    for (i, a) in tags.iter().enumerate() {
        for b in tags.iter().skip(i + 1) {
            let (ta, tb) = (Tag::try_from(*a).unwrap(), Tag::try_from(*b).unwrap());
            assert_ne!(ta.asn1_type_name(), tb.asn1_type_name());
        }
    }
    assert_eq!(Tag::try_from(0xA2).unwrap().asn1_type_name(), "Context Specific 2");
    assert_eq!(Tag::BitString.asn1_type_name(), "BIT STRING");
}
