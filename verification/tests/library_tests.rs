use ctutils::dbl::Dbl;
use ctutils::der::any::Any;
use ctutils::der::asn1::set_of::{SetOf, SetOfRef};
use ctutils::der::asn1::sequence;
use ctutils::der::asn1_type::Asn1Type;
use ctutils::der::str_slice::StrSlice;
use ctutils::der::traits::{Decodable, Encodable, EncodeToSlice};
use ctutils::der::decoder::Decoder;
use ctutils::der::header::Header;
use ctutils::der::encoder::Encoder;
use ctutils::der::{Error, Tag};
use ctutils::digest_buffer::DigestBuffer;

#[test]
fn dbl_known_values() {
    let one = [0u8, 0, 0, 0, 0, 0, 0, 1];
    assert_eq!(one.dbl(), [0u8, 0, 0, 0, 0, 0, 0, 2]);
    let top = [0x80u8, 0, 0, 0, 0, 0, 0, 0];
    assert_eq!(top.dbl(), [0u8, 0, 0, 0, 0, 0, 0, 0x1B]);
    let mut top16 = [0u8; 16];
    top16[0] = 0x80;
    let mut expected16 = [0u8; 16];
    expected16[15] = 0x87;
    assert_eq!(top16.dbl(), expected16);
    let mut top32 = [0u8; 32];
    top32[0] = 0x80;
    let mut expected32 = [0u8; 32];
    expected32[30] = 0x04;
    expected32[31] = 0x25;
    assert_eq!(top32.dbl(), expected32);
}

#[test]
fn dbl_inverse_round_trip() {
    let a = [0x12u8, 0x34, 0x56, 0x78, 0x9A, 0xBC, 0xDE, 0xF1];
    assert_eq!(a.dbl().inv_dbl(), a);
    assert_eq!(a.inv_dbl().dbl(), a);
    let b = [0xFFu8; 16];
    assert_eq!(b.dbl().inv_dbl(), b);
    let c = [0x81u8; 32];
    assert_eq!(c.inv_dbl().dbl(), c);
}

#[test]
fn digest_buffer_blocks_and_pending() {
    let mut buf: DigestBuffer<4> = DigestBuffer::new();
    let blocks = buf.input(&[1, 2, 3]);
    assert!(blocks.is_empty());
    assert_eq!(buf.position(), 3);
    assert_eq!(buf.remaining(), 1);
    let blocks = buf.input(&[4, 5, 6, 7, 8, 9, 10]);
    assert_eq!(blocks, vec![[1, 2, 3, 4], [5, 6, 7, 8]]);
    assert_eq!(buf.position(), 2);
    assert_eq!(buf.current_buffer(), vec![9, 10]);
    assert_eq!(buf.position(), 0);
    assert_eq!(buf.size(), 4);
}

#[test]
fn digest_buffer_padding() {
    let mut buf: DigestBuffer<8> = DigestBuffer::new();
    let _ = buf.input(&[0xAA, 0xBB]);
    assert_eq!(buf.standard_padding(4), None);
    assert_eq!(buf.full_buffer(), [0xAA, 0xBB, 0x80, 0, 0, 0, 0, 0]);

    let mut buf: DigestBuffer<8> = DigestBuffer::new();
    let _ = buf.input(&[1, 2, 3, 4, 5, 6]);
    let flushed = buf.standard_padding(4);
    assert_eq!(flushed, Some([1, 2, 3, 4, 5, 6, 0x80, 0]));
}

#[test]
fn str_slice_checks_utf8_and_length() {
    let s = StrSlice::from_bytes("hello".as_bytes()).unwrap();
    assert_eq!(s.as_str(), "hello");
    assert_eq!(s.as_bytes(), b"hello");
    assert_eq!(s.len().to_usize(), 5);
    assert!(!s.is_empty());
    assert_eq!(StrSlice::from_bytes(&[0xFF, 0xFE]).err(), Some(Error::Utf8));
    assert!(StrSlice::new("").unwrap().is_empty());
}

#[test]
fn asn1_type_keywords() {
    assert_eq!(Asn1Type::new("BIT STRING"), Asn1Type::BitString);
    assert_eq!(Asn1Type::new("UTF8String").tag(), Tag::Utf8String);
    assert_eq!(Asn1Type::try_new("INTEGER"), None);
    assert_eq!(Asn1Type::UtcTime.name(), "UTCTime");
    assert_eq!(Asn1Type::try_new(Asn1Type::GeneralizedTime.name()), Some(Asn1Type::GeneralizedTime));
}

#[test]
fn set_of_ordering() {
    let ascending = [0x02, 0x01, 0x01, 0x02, 0x01, 0x05];
    let set: SetOfRef<'_, i8> = SetOfRef::new(&ascending).unwrap();
    let mut iter = set.elements();
    assert_eq!(iter.next(), Some(Ok(1)));
    assert_eq!(iter.next(), Some(Ok(5)));
    assert_eq!(iter.next(), None);

    let descending = [0x02, 0x01, 0x05, 0x02, 0x01, 0x01];
    assert_eq!(SetOfRef::<'_, i8>::new(&descending).err(), Some(Error::Noncanonical));

    let duplicate = [0x02, 0x01, 0x05, 0x02, 0x01, 0x05];
    assert_eq!(SetOfRef::<'_, i8>::new(&duplicate).err(), Some(Error::Noncanonical));

    let malformed = [0x02, 0x01];
    assert_eq!(SetOfRef::<'_, i8>::new(&malformed).err(), Some(Error::Length { tag: Tag::Integer }));

    let any = Any::new(Tag::SetOf, &ascending).unwrap();
    assert!(SetOfRef::<'_, i8>::try_from(any).is_ok());
    let mut buffer = [0u8; 8];
    assert_eq!(set.encode_to_slice(&mut buffer).unwrap(), vec![0x11, 0x06, 0x02, 0x01, 0x01, 0x02, 0x01, 0x05]);
}

#[test]
fn sequence_lengths() {
    let a = 1i8;
    let b = 300i16;
    let fields: [&dyn Encodable; 2] = [&a, &b];
    assert_eq!(sequence::encoded_len_inner(&fields).unwrap().to_usize(), 7);
    assert_eq!(sequence::encoded_len(&fields).unwrap().to_usize(), 9);
}

#[test]
fn any_round_trip_through_encoder_and_decoder() {
    let value = [7u8; 200];
    let any = Any::new(Tag::OctetString, &value).unwrap();
    let mut encoder = Encoder::new(vec![0u8; 256]);
    encoder.encode(&any).unwrap();
    let bytes = encoder.finish().unwrap();
    assert_eq!(&bytes[..3], &[0x04, 0x81, 200]);
    let mut decoder = Decoder::new(&bytes);
    let back = decoder.any().unwrap();
    assert_eq!(back, any);
    assert!(decoder.is_finished());
}

#[test]
fn header_decoding_reports_long_lengths_against_the_tag() {
    let bytes = [0x04, 0x83, 0x01, 0x00, 0x00];
    let mut decoder = Decoder::new(&bytes);
    assert_eq!(Header::decode(&mut decoder), Err(Error::Length { tag: Tag::OctetString }));
    let truncated = [0x04, 0x05, 0x00];
    let mut decoder = Decoder::new(&truncated);
    assert_eq!(decoder.any().err(), Some(Error::Length { tag: Tag::OctetString }));
}

#[test]
fn set_of_empty_and_early_disorder() {
    let empty: [u8; 0] = [];
    assert_eq!(SetOfRef::<'_, i8>::new(&empty).unwrap().as_bytes(), &empty);
    let disorder_then_truncated = [0x02, 0x01, 0x05, 0x02, 0x01, 0x01, 0x02, 0x01];
    assert_eq!(SetOfRef::<'_, i8>::new(&disorder_then_truncated).err(), Some(Error::Noncanonical));
    let wrong_tag = Any::new(Tag::Sequence, &empty).unwrap();
    assert_eq!(
        SetOfRef::<'_, i8>::try_from(wrong_tag).err(),
        Some(Error::UnexpectedTag { expected: Some(Tag::SetOf), actual: Tag::Sequence })
    );
}
