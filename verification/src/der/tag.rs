//! ASN.1 tags.
use crate::der::decode::parse_tag;
use crate::der::decoder::Decoder;
use crate::der::encoder::Encoder;
use crate::der::error::{Error, Result};
use crate::der::length::Length;
use crate::der::traits::{Decodable, Encodable};
use vstd::prelude::*;

verus! {

/// Indicator bit for constructed form encoding (i.e. vs primitive form)
pub const CONSTRUCTED_FLAG: u8 = 0b100000;

/// Indicator bits of the `APPLICATION` class.
pub const APPLICATION_FLAG: u8 = 0b01000000;

/// Indicator bit for context-specific types
pub const CONTEXT_SPECIFIC_FLAG: u8 = 0b10000000;

/// Indicator bits of the `PRIVATE` class.
pub const PRIVATE_FLAG: u8 = 0b11000000;

/// ASN.1 tag numbers (i.e. lower 5 bits of a [`Tag`]), from zero to 30 inclusive, which can
/// be represented as a single identifier octet.
#[derive(Copy, Clone, Debug, Eq, PartialEq, Structural)]
pub struct TagNumber(u8);

impl TagNumber {
    #[verifier::type_invariant]
    spec fn inv(self) -> bool {
        self.0 <= 30
    }

    /// Maximum tag number supported (inclusive).
    pub const MAX: u8 = 30;

    /// The tag number.
    pub closed spec fn spec_value(self) -> u8 {
        self.0
    }

    /// Create a new tag number; it must not exceed [`TagNumber::MAX`].
    pub fn new(byte: u8) -> (r: Self)
        requires
            byte <= 30,
        ensures
            r.spec_value() == byte,
    {
        Self(byte)
    }

    /// Create a tag number, or fail with [`Error::UnknownTag`] when `byte` exceeds
    /// [`TagNumber::MAX`].
    pub fn try_from(byte: u8) -> (r: Result<Self>)
        ensures
            match r {
                Ok(n) => byte <= 30 && n.spec_value() == byte,
                Err(e) => byte > 30 && e == (Error::UnknownTag { byte }),
            },
    {
        if byte <= Self::MAX {
            Ok(Self(byte))
        } else {
            Err(Error::UnknownTag { byte })
        }
    }

    /// Create an `APPLICATION` tag with this tag number.
    pub fn application(self) -> (r: Tag)
        ensures
            r == Tag::Application(self),
    {
        Tag::Application(self)
    }

    /// Create a `CONTEXT-SPECIFIC` tag with this tag number.
    pub fn context_specific(self) -> (r: Tag)
        ensures
            r == Tag::ContextSpecific(self),
    {
        Tag::ContextSpecific(self)
    }

    /// Create a `PRIVATE` tag with this tag number.
    pub fn private(self) -> (r: Tag)
        ensures
            r == Tag::Private(self),
    {
        Tag::Private(self)
    }

    /// Get the inner value.
    pub fn value(self) -> (r: u8)
        ensures
            r == self.spec_value(),
            r <= 30,
    {
        proof {
            use_type_invariant(&self);
        }
        self.0
    }
}

/// ASN.1 tags: the leading byte of the Tag-Length-Value encoding, identifying the type of the
/// value that follows.
#[derive(Copy, Clone, Debug, Eq, PartialEq, Structural)]
pub enum Tag {
    /// `BOOLEAN` tag.
    Boolean,
    /// `INTEGER` tag.
    Integer,
    /// `BIT STRING` tag.
    BitString,
    /// `OCTET STRING` tag.
    OctetString,
    /// `NULL` tag.
    Null,
    /// `OBJECT IDENTIFIER` tag.
    ObjectIdentifier,
    /// `UTF8String` tag.
    Utf8String,
    /// `SET` and `SET OF` tag.
    SetOf,
    /// `PrintableString` tag.
    PrintableString,
    /// `IA5String` tag.
    Ia5String,
    /// `UTCTime` tag.
    UtcTime,
    /// `GeneralizedTime` tag.
    GeneralizedTime,
    /// `SEQUENCE` tag (constructed form).
    Sequence,
    /// `APPLICATION` tag (constructed form).
    Application(TagNumber),
    /// Context-specific tag (constructed form) unique to a particular structure.
    ContextSpecific(TagNumber),
    /// `PRIVATE` tag (constructed form).
    Private(TagNumber),
}

/// The identifier octet of a tag.
pub open spec fn tag_byte(t: Tag) -> u8 {
    match t {
        Tag::Boolean => 0x01,
        Tag::Integer => 0x02,
        Tag::BitString => 0x03,
        Tag::OctetString => 0x04,
        Tag::Null => 0x05,
        Tag::ObjectIdentifier => 0x06,
        Tag::Utf8String => 0x0C,
        Tag::SetOf => 0x11,
        Tag::PrintableString => 0x13,
        Tag::Ia5String => 0x16,
        Tag::UtcTime => 0x17,
        Tag::GeneralizedTime => 0x18,
        Tag::Sequence => 0x30,
        Tag::Application(n) => (0x60 + n.spec_value()) as u8,
        Tag::ContextSpecific(n) => (0xA0 + n.spec_value()) as u8,
        Tag::Private(n) => (0xE0 + n.spec_value()) as u8,
    }
}

/// The tag whose identifier octet is `b`, if it is one of the tags that are read: the
/// universal tags of this crate and the context-specific tags numbered 0 to 3. Every other
/// octet, the application and private tags among them, is unknown.
pub open spec fn tag_of_byte(b: u8) -> Option<Tag> {
    if b == 0x01 {
        Some(Tag::Boolean)
    } else if b == 0x02 {
        Some(Tag::Integer)
    } else if b == 0x03 {
        Some(Tag::BitString)
    } else if b == 0x04 {
        Some(Tag::OctetString)
    } else if b == 0x05 {
        Some(Tag::Null)
    } else if b == 0x06 {
        Some(Tag::ObjectIdentifier)
    } else if b == 0x0C {
        Some(Tag::Utf8String)
    } else if b == 0x11 {
        Some(Tag::SetOf)
    } else if b == 0x13 {
        Some(Tag::PrintableString)
    } else if b == 0x16 {
        Some(Tag::Ia5String)
    } else if b == 0x17 {
        Some(Tag::UtcTime)
    } else if b == 0x18 {
        Some(Tag::GeneralizedTime)
    } else if b == 0x30 {
        Some(Tag::Sequence)
    } else if 0xA0 <= b <= 0xA3 {
        Some(Tag::ContextSpecific(TagNumber::spec_new((b - 0xA0) as u8)))
    } else {
        None
    }
}

/// The name of the ASN.1 type of a tag.
pub open spec fn tag_type_name(t: Tag) -> Seq<char> {
    match t {
        Tag::Boolean => "BOOLEAN"@,
        Tag::Integer => "INTEGER"@,
        Tag::BitString => "BIT STRING"@,
        Tag::OctetString => "OCTET STRING"@,
        Tag::Null => "NULL"@,
        Tag::ObjectIdentifier => "OBJECT IDENTIFIER"@,
        Tag::Utf8String => "UTF8String"@,
        Tag::SetOf => "SET"@,
        Tag::PrintableString => "PrintableString"@,
        Tag::Ia5String => "IA5String"@,
        Tag::UtcTime => "UTCTime"@,
        Tag::GeneralizedTime => "GeneralizedTime"@,
        Tag::Sequence => "SEQUENCE"@,
        Tag::Application(_) => "APPLICATION"@,
        Tag::ContextSpecific(n) => if n.spec_value() == 0 {
            "Context Specific 0"@
        } else if n.spec_value() == 1 {
            "Context Specific 1"@
        } else if n.spec_value() == 2 {
            "Context Specific 2"@
        } else if n.spec_value() == 3 {
            "Context Specific 3"@
        } else {
            "Context Specific"@
        },
        Tag::Private(_) => "PRIVATE"@,
    }
}

impl TagNumber {
    /// The tag number with value `n`.
    pub closed spec fn spec_new(n: u8) -> TagNumber {
        TagNumber(n)
    }

    /// [`TagNumber::spec_new`] gives the tag number with the given value.
    pub proof fn lemma_spec_new(n: u8)
        ensures
            TagNumber::spec_new(n).spec_value() == n,
            forall|m: TagNumber| m.spec_value() == n ==> m == TagNumber::spec_new(n),
    {
    }
}

impl Tag {
    /// Parse a tag from its identifier octet, failing with [`Error::UnknownTag`] for octets
    /// which are not a known tag (see [`tag_of_byte`]): only the universal tags and the
    /// context-specific tags 0 to 3 are read.
    pub fn try_from(byte: u8) -> (r: Result<Tag>)
        ensures
            match tag_of_byte(byte) {
                Some(t) => r == Ok::<Tag, Error>(t),
                None => r == Err::<Tag, Error>(Error::UnknownTag { byte }),
            },
            r is Ok <==> (1 <= byte <= 6 || byte == 0x0C || byte == 0x11 || byte == 0x13
                || 0x16 <= byte <= 0x18 || byte == 0x30 || 0xA0 <= byte <= 0xA3),
            r matches Ok(t) ==> tag_byte(t) == byte && tag_known(t),
    {
        proof {
            TagNumber::lemma_spec_new((byte - 0xA0) as u8);
        }
        match byte {
            0x01 => Ok(Tag::Boolean),
            0x02 => Ok(Tag::Integer),
            0x03 => Ok(Tag::BitString),
            0x04 => Ok(Tag::OctetString),
            0x05 => Ok(Tag::Null),
            0x06 => Ok(Tag::ObjectIdentifier),
            0x0C => Ok(Tag::Utf8String),
            0x11 => Ok(Tag::SetOf),
            0x13 => Ok(Tag::PrintableString),
            0x16 => Ok(Tag::Ia5String),
            0x17 => Ok(Tag::UtcTime),
            0x18 => Ok(Tag::GeneralizedTime),
            0x30 => Ok(Tag::Sequence),
            0xA0..=0xA3 => Ok(Tag::ContextSpecific(TagNumber::new(byte - 0xA0))),
            _ => Err(Error::UnknownTag { byte }),
        }
    }

    /// The identifier octet of this tag.
    pub fn to_byte(self) -> (r: u8)
        ensures
            r == tag_byte(self),
            tag_valid(self),
    {
        match self {
            Tag::Boolean => 0x01,
            Tag::Integer => 0x02,
            Tag::BitString => 0x03,
            Tag::OctetString => 0x04,
            Tag::Null => 0x05,
            Tag::ObjectIdentifier => 0x06,
            Tag::Utf8String => 0x0C,
            Tag::SetOf => 0x11,
            Tag::PrintableString => 0x13,
            Tag::Ia5String => 0x16,
            Tag::UtcTime => 0x17,
            Tag::GeneralizedTime => 0x18,
            Tag::Sequence => 0x30,
            Tag::Application(n) => {
                let v = n.value();
                proof {
                    lemma_class_bits(v);
                }
                APPLICATION_FLAG | CONSTRUCTED_FLAG | v
            },
            Tag::ContextSpecific(n) => {
                let v = n.value();
                proof {
                    lemma_class_bits(v);
                }
                CONTEXT_SPECIFIC_FLAG | CONSTRUCTED_FLAG | v
            },
            Tag::Private(n) => {
                let v = n.value();
                proof {
                    lemma_class_bits(v);
                }
                PRIVATE_FLAG | CONSTRUCTED_FLAG | v
            },
        }
    }

    /// Assert that this [`Tag`] matches the provided expected tag, failing with
    /// [`Error::UnexpectedTag`] otherwise.
    pub fn assert_eq(self, expected: Tag) -> (r: Result<Tag>)
        ensures
            r == (if self == expected {
                Ok::<Tag, Error>(self)
            } else {
                Err::<Tag, Error>(Error::UnexpectedTag { expected: Some(expected), actual: self })
            }),
    {
        if self == expected {
            Ok(self)
        } else {
            Err(Error::UnexpectedTag { expected: Some(expected), actual: self })
        }
    }

    /// Is this a context-specific tag?
    pub fn is_context_specific(self) -> (r: bool)
        ensures
            r == (self is ContextSpecific),
    {
        match self {
            Tag::ContextSpecific(_) => true,
            _ => false,
        }
    }

    /// The context-specific tag with number `n`, failing with [`Error::UnknownTag`] when `n`
    /// exceeds [`TagNumber::MAX`].
    pub fn context_specific(n: u8) -> (r: Result<Tag>)
        ensures
            match r {
                Ok(t) => n <= 30 && (t matches Tag::ContextSpecific(m) && m.spec_value() == n),
                Err(e) => n > 30 && e == (Error::UnknownTag { byte: n }),
            },
    {
        let number = TagNumber::try_from(n)?;
        Ok(number.context_specific())
    }

    /// Names of ASN.1 type which corresponds to a given [`Tag`].
    pub fn asn1_type_name(self) -> (r: &'static str)
        ensures
            r@ == tag_type_name(self),
    {
        match self {
            Self::Boolean => "BOOLEAN",
            Self::Integer => "INTEGER",
            Self::BitString => "BIT STRING",
            Self::OctetString => "OCTET STRING",
            Self::Null => "NULL",
            Self::ObjectIdentifier => "OBJECT IDENTIFIER",
            Self::Utf8String => "UTF8String",
            Self::SetOf => "SET",
            Self::PrintableString => "PrintableString",
            Self::Ia5String => "IA5String",
            Self::UtcTime => "UTCTime",
            Self::GeneralizedTime => "GeneralizedTime",
            Self::Sequence => "SEQUENCE",
            Self::Application(_) => "APPLICATION",
            Self::ContextSpecific(n) => {
                let v = n.value();
                if v == 0 {
                    "Context Specific 0"
                } else if v == 1 {
                    "Context Specific 1"
                } else if v == 2 {
                    "Context Specific 2"
                } else if v == 3 {
                    "Context Specific 3"
                } else {
                    "Context Specific"
                }
            },
            Self::Private(_) => "PRIVATE",
        }
    }
}

/// The tag's number, for the tags which have one, is within the supported range.
pub open spec fn tag_valid(t: Tag) -> bool {
    match t {
        Tag::Application(n) => n.spec_value() <= 30,
        Tag::ContextSpecific(n) => n.spec_value() <= 30,
        Tag::Private(n) => n.spec_value() <= 30,
        _ => true,
    }
}

/// The tags that are read back from their identifier octet: the universal tags and the
/// context-specific tags numbered 0 to 3.
pub open spec fn tag_known(t: Tag) -> bool {
    match t {
        Tag::Application(_) => false,
        Tag::ContextSpecific(n) => n.spec_value() <= 3,
        Tag::Private(_) => false,
        _ => true,
    }
}

/// Setting the class bits of a tag number below 32 is adding them.
proof fn lemma_class_bits(v: u8)
    by (bit_vector)
    requires
        v <= 30,
    ensures
        0x40u8 | 0x20u8 | v == 0x60u8 + v,
        0x80u8 | 0x20u8 | v == 0xA0u8 + v,
        0xC0u8 | 0x20u8 | v == 0xE0u8 + v,
{
}

/// Reading a known tag back from its identifier octet gives the tag, and an octet read as a
/// tag is that tag's identifier octet.
pub proof fn lemma_tag_byte_roundtrip(t: Tag, b: u8)
    requires
        tag_known(t),
    ensures
        tag_of_byte(tag_byte(t)) == Some(t),
        tag_of_byte(b) matches Some(u) ==> tag_byte(u) == b && tag_known(u) && tag_valid(u),
{
    match t {
        Tag::ContextSpecific(n) => TagNumber::lemma_spec_new(n.spec_value()),
        _ => {},
    }
    TagNumber::lemma_spec_new((b - 0xA0) as u8);
}

/// Each known tag has a name of its own: two known tags with the same name are the same tag.
pub proof fn lemma_type_name_unique(t1: Tag, t2: Tag)
    requires
        tag_known(t1),
        tag_known(t2),
        tag_type_name(t1) == tag_type_name(t2),
    ensures
        t1 == t2,
{
    reveal_strlit("BOOLEAN");
    reveal_strlit("INTEGER");
    reveal_strlit("BIT STRING");
    reveal_strlit("OCTET STRING");
    reveal_strlit("NULL");
    reveal_strlit("OBJECT IDENTIFIER");
    reveal_strlit("UTF8String");
    reveal_strlit("SET");
    reveal_strlit("PrintableString");
    reveal_strlit("IA5String");
    reveal_strlit("UTCTime");
    reveal_strlit("GeneralizedTime");
    reveal_strlit("SEQUENCE");
    reveal_strlit("APPLICATION");
    reveal_strlit("Context Specific 0");
    reveal_strlit("Context Specific 1");
    reveal_strlit("Context Specific 2");
    reveal_strlit("Context Specific 3");
    reveal_strlit("Context Specific");
    reveal_strlit("PRIVATE");
    let (a, b) = (tag_type_name(t1), tag_type_name(t2));
    if a.len() == 18 {
        assert(a[17] == b[17]);
    } else {
        assert(a[0] == b[0]);
    }
    match (t1, t2) {
        (Tag::ContextSpecific(n1), Tag::ContextSpecific(n2)) => {
            TagNumber::lemma_spec_new(n1.spec_value());
            TagNumber::lemma_spec_new(n2.spec_value());
        },
        _ => {},
    }
}

impl View for Tag {
    type V = Tag;

    open spec fn view(&self) -> Tag {
        *self
    }
}

impl<'a> Decodable<'a> for Tag {
    open spec fn spec_decode(s: Seq<u8>) -> (Result<Tag>, nat) {
        (parse_tag(s), if s.len() == 0 { 0 } else { 1 })
    }

    fn decode(decoder: &mut Decoder<'a>) -> (r: Result<Tag>) {
        let b = decoder.byte()?;
        Tag::try_from(b)
    }
}

impl Encodable for Tag {
    open spec fn spec_encode(&self) -> Result<Seq<u8>> {
        Ok(seq![tag_byte(*self)])
    }

    fn encoded_len(&self) -> (r: Result<Length>) {
        Ok(Length::one())
    }

    fn encode(&self, encoder: &mut Encoder) -> (r: Result<()>) {
        encoder.byte(self.to_byte())
    }
}

} // verus!
