//! ASN.1 built-in types that a field or variant can be declared to convert through, named by
//! their ASN.1 keywords.
use crate::der::tag::Tag;
use vstd::prelude::*;
use vstd::string::StrSliceExecFns;

verus! {

/// ASN.1 built-in types supported by the `type = "..."` declaration of a field or variant.
#[derive(Copy, Clone, Debug, Eq, PartialEq, Structural)]
pub enum Asn1Type {
    /// ASN.1 `BIT STRING`
    BitString,
    /// ASN.1 `GeneralizedTime`
    GeneralizedTime,
    /// ASN.1 `OCTET STRING`
    OctetString,
    /// ASN.1 `PrintableString`
    PrintableString,
    /// ASN.1 `UTCTime`
    UtcTime,
    /// ASN.1 `UTF8String`
    Utf8String,
}

/// The ASN.1 type with keyword `s`, if it is one of those supported.
pub open spec fn asn1_type_of(s: Seq<char>) -> Option<Asn1Type> {
    if s == "BIT STRING"@ {
        Some(Asn1Type::BitString)
    } else if s == "GeneralizedTime"@ {
        Some(Asn1Type::GeneralizedTime)
    } else if s == "OCTET STRING"@ {
        Some(Asn1Type::OctetString)
    } else if s == "PrintableString"@ {
        Some(Asn1Type::PrintableString)
    } else if s == "UTCTime"@ {
        Some(Asn1Type::UtcTime)
    } else if s == "UTF8String"@ {
        Some(Asn1Type::Utf8String)
    } else {
        None
    }
}

/// The keyword of an ASN.1 type.
pub open spec fn asn1_type_keyword(t: Asn1Type) -> Seq<char> {
    match t {
        Asn1Type::BitString => "BIT STRING"@,
        Asn1Type::GeneralizedTime => "GeneralizedTime"@,
        Asn1Type::OctetString => "OCTET STRING"@,
        Asn1Type::PrintableString => "PrintableString"@,
        Asn1Type::UtcTime => "UTCTime"@,
        Asn1Type::Utf8String => "UTF8String"@,
    }
}

/// The tag of an ASN.1 type.
pub open spec fn asn1_type_tag(t: Asn1Type) -> Tag {
    match t {
        Asn1Type::BitString => Tag::BitString,
        Asn1Type::GeneralizedTime => Tag::GeneralizedTime,
        Asn1Type::OctetString => Tag::OctetString,
        Asn1Type::PrintableString => Tag::PrintableString,
        Asn1Type::UtcTime => Tag::UtcTime,
        Asn1Type::Utf8String => Tag::Utf8String,
    }
}

/// Do the two strings hold the same characters?
fn same_chars(a: &str, b: &str) -> (r: bool)
    ensures
        r == (a@ == b@),
{
    let n = a.unicode_len();
    if n != b.unicode_len() {
        return false;
    }
    let mut i: usize = 0;
    while i < n
        invariant
            n == a@.len(),
            n == b@.len(),
            i <= n,
            forall|j: int| 0 <= j < i ==> a@[j] == b@[j],
        decreases n - i,
    {
        if a.get_char(i) != b.get_char(i) {
            return false;
        }
        i = i + 1;
    }
    assert(a@ =~= b@);
    true
}

impl Asn1Type {
    /// Parse an ASN.1 type from its keyword, which must be one of those supported.
    pub fn new(s: &str) -> (r: Asn1Type)
        requires
            asn1_type_of(s@) is Some,
        ensures
            asn1_type_of(s@) == Some(r),
    {
        if same_chars(s, "BIT STRING") {
            Asn1Type::BitString
        } else if same_chars(s, "GeneralizedTime") {
            Asn1Type::GeneralizedTime
        } else if same_chars(s, "OCTET STRING") {
            Asn1Type::OctetString
        } else if same_chars(s, "PrintableString") {
            Asn1Type::PrintableString
        } else if same_chars(s, "UTCTime") {
            Asn1Type::UtcTime
        } else {
            Asn1Type::Utf8String
        }
    }

    /// Parse an ASN.1 type from its keyword, or `None` when it is not one of those supported.
    pub fn try_new(s: &str) -> (r: Option<Asn1Type>)
        ensures
            r == asn1_type_of(s@),
    {
        if same_chars(s, "BIT STRING") {
            Some(Asn1Type::BitString)
        } else if same_chars(s, "GeneralizedTime") {
            Some(Asn1Type::GeneralizedTime)
        } else if same_chars(s, "OCTET STRING") {
            Some(Asn1Type::OctetString)
        } else if same_chars(s, "PrintableString") {
            Some(Asn1Type::PrintableString)
        } else if same_chars(s, "UTCTime") {
            Some(Asn1Type::UtcTime)
        } else if same_chars(s, "UTF8String") {
            Some(Asn1Type::Utf8String)
        } else {
            None
        }
    }

    /// Get the [`Tag`] for this ASN.1 type.
    pub fn tag(&self) -> (r: Tag)
        ensures
            r == asn1_type_tag(*self),
    {
        match self {
            Asn1Type::BitString => Tag::BitString,
            Asn1Type::GeneralizedTime => Tag::GeneralizedTime,
            Asn1Type::OctetString => Tag::OctetString,
            Asn1Type::PrintableString => Tag::PrintableString,
            Asn1Type::UtcTime => Tag::UtcTime,
            Asn1Type::Utf8String => Tag::Utf8String,
        }
    }

    /// The ASN.1 keyword of this type.
    pub fn name(&self) -> (r: &'static str)
        ensures
            r@ == asn1_type_keyword(*self),
    {
        match self {
            Asn1Type::BitString => "BIT STRING",
            Asn1Type::GeneralizedTime => "GeneralizedTime",
            Asn1Type::OctetString => "OCTET STRING",
            Asn1Type::PrintableString => "PrintableString",
            Asn1Type::UtcTime => "UTCTime",
            Asn1Type::Utf8String => "UTF8String",
        }
    }
}

/// Parsing the keyword of a type gives the type back.
pub proof fn lemma_keyword_roundtrip(t: Asn1Type)
    ensures
        asn1_type_of(asn1_type_keyword(t)) == Some(t),
{
    reveal_strlit("BIT STRING");
    reveal_strlit("GeneralizedTime");
    reveal_strlit("OCTET STRING");
    reveal_strlit("PrintableString");
    reveal_strlit("UTCTime");
    reveal_strlit("UTF8String");
    assert("BIT STRING"@.len() == 10);
    assert("GeneralizedTime"@.len() == 15);
    assert("OCTET STRING"@.len() == 12);
    assert("PrintableString"@.len() == 15);
    assert("UTCTime"@.len() == 7);
    assert("UTF8String"@.len() == 10);
    assert("UTF8String"@[0] != "BIT STRING"@[0]);
    assert("PrintableString"@[0] != "GeneralizedTime"@[0]);
    assert("UTF8String"@ != "BIT STRING"@);
    assert("PrintableString"@ != "GeneralizedTime"@);
}

} // verus!
