use vstd::prelude::*;
use vstd::slice::slice_to_vec;
use vstd::utf8::encode_utf8;
use pnet::util::MacAddr;
use crate::error::WolError;
use crate::frame::{lemma_secret_appended, magic_payload};

verus! {

/// A SecureOn password, in one of the three forms a user may give it.
#[derive(Debug, Clone, PartialEq, Eq)]
pub enum WolPassword {
    /// Written like a MAC address: six raw bytes.
    SixByte([u8; 6]),
    /// Written like an IPv4 address: four raw bytes.
    FourByte([u8; 4]),
    /// Plain text, which must be exactly six ASCII bytes.
    String(String),
}

/// The octets that pnet reads from `s` as a colon-separated MAC address, if any.
pub uninterp spec fn mac_text_octets(s: Seq<char>) -> Option<Seq<u8>>;

/// Relies on pnet's `MacAddr::from_str`: the result depends on the text alone.
#[verifier::external_body]
fn parse_mac(s: &str) -> (r: Option<[u8; 6]>)
    ensures
        match r {
            Some(b) => mac_text_octets(s@) == Some(b@),
            None => mac_text_octets(s@) is None,
        },
{
    s.parse::<MacAddr>().ok().map(|m| m.octets())
}

/// Whether some byte of `b` lies outside ASCII.
pub open spec fn has_non_ascii(b: Seq<u8>) -> bool {
    exists|i: int| 0 <= i < b.len() && b[i] >= 0x80
}

/// What a text password puts on the wire, or why it is refused: it must be
/// six ASCII bytes exactly.
pub open spec fn text_secret(b: Seq<u8>) -> Result<Seq<u8>, WolError> {
    if has_non_ascii(b) {
        Err(WolError::PasswordNotAscii)
    } else if b.len() > 6 {
        Err(WolError::PasswordTooLong)
    } else if b.len() < 6 {
        Err(WolError::PasswordTooShort)
    } else {
        Ok(b)
    }
}

/// The bytes a password appends to the magic payload, or why it is refused.
pub open spec fn password_secret(pw: WolPassword) -> Result<Seq<u8>, WolError> {
    match pw {
        WolPassword::SixByte(b) => Ok(b@),
        WolPassword::FourByte(b) => Ok(b@),
        WolPassword::String(s) => text_secret(encode_utf8(s@)),
    }
}

/// `r` carries the same outcome as `spec`, with the bytes as a `Vec`.
pub open spec fn secret_matches(r: Result<Vec<u8>, WolError>, spec: Result<Seq<u8>, WolError>) -> bool {
    match spec {
        Ok(b) => r matches Ok(v) && v@ == b,
        Err(e) => r == Err::<Vec<u8>, WolError>(e),
    }
}

impl WolPassword {
    /// Chooses the form of a password from its text and from what the text
    /// reads as: an IPv4 address first, then a MAC address, else plain text.
    pub fn classify(text: &str, ipv4: Option<[u8; 4]>, mac: Option<[u8; 6]>) -> (r: WolPassword)
        ensures
            match ipv4 {
                Some(a) => r == WolPassword::FourByte(a),
                None => match mac {
                    Some(m) => r == WolPassword::SixByte(m),
                    None => r matches WolPassword::String(s) && s@ == text@,
                },
            },
    {
        match ipv4 {
            Some(a) => WolPassword::FourByte(a),
            None => match mac {
                Some(m) => WolPassword::SixByte(m),
                None => WolPassword::String(text.to_owned()),
            },
        }
    }

    /// Reads a password from its text, given what the text reads as an IPv4
    /// address; the MAC form is read here with pnet.
    pub fn from_text(text: &str, ipv4: Option<[u8; 4]>) -> (r: WolPassword)
        ensures
            match ipv4 {
                Some(a) => r == WolPassword::FourByte(a),
                None => match mac_text_octets(text@) {
                    Some(b) => r matches WolPassword::SixByte(m) && m@ == b,
                    None => r matches WolPassword::String(s) && s@ == text@,
                },
            },
    {
        match ipv4 {
            Some(a) => WolPassword::FourByte(a),
            None => WolPassword::classify(text, None, parse_mac(text)),
        }
    }

    /// The bytes this password appends to the magic payload: four or six,
    /// or the reason it is refused.
    pub fn secret_bytes(&self) -> (r: Result<Vec<u8>, WolError>)
        ensures
            secret_matches(r, password_secret(*self)),
    {
        match self {
            WolPassword::SixByte(b) => Ok(slice_to_vec(b.as_slice())),
            WolPassword::FourByte(b) => Ok(slice_to_vec(b.as_slice())),
            WolPassword::String(s) => {
                let bytes = s.as_str().as_bytes();
                let mut i: usize = 0;
                while i < bytes.len()
                    invariant
                        i <= bytes@.len(),
                        bytes@ == encode_utf8(s@),
                        password_secret(*self) == text_secret(bytes@),
                        forall|j: int| 0 <= j < i ==> bytes@[j] < 0x80,
                    decreases bytes@.len() - i,
                {
                    if bytes[i] >= 0x80 {
                        assert(bytes@[i as int] >= 0x80);
                        return Err(WolError::PasswordNotAscii);
                    }
                    i = i + 1;
                }
                if bytes.len() > 6 {
                    return Err(WolError::PasswordTooLong);
                }
                if bytes.len() < 6 {
                    return Err(WolError::PasswordTooShort);
                }
                Ok(slice_to_vec(bytes))
            },
        }
    }
}

/// A four-byte password is accepted as it is, and makes a 106-byte payload
/// that ends with it.
pub proof fn lemma_four_byte_payload(target: Seq<u8>, pw: [u8; 4])
    requires
        target.len() == 6,
    ensures
        password_secret(WolPassword::FourByte(pw)) == Ok::<Seq<u8>, WolError>(pw@),
        magic_payload(target, pw@).len() == 106,
        magic_payload(target, pw@).take(102) == magic_payload(target, Seq::empty()),
        magic_payload(target, pw@).skip(102) == pw@,
{
    lemma_secret_appended(target, pw@);
}

/// A six-byte password is accepted as it is, and makes a 108-byte payload
/// that ends with it.
pub proof fn lemma_six_byte_payload(target: Seq<u8>, pw: [u8; 6])
    requires
        target.len() == 6,
    ensures
        password_secret(WolPassword::SixByte(pw)) == Ok::<Seq<u8>, WolError>(pw@),
        magic_payload(target, pw@).len() == 108,
        magic_payload(target, pw@).take(102) == magic_payload(target, Seq::empty()),
        magic_payload(target, pw@).skip(102) == pw@,
{
    lemma_secret_appended(target, pw@);
}

/// A text password with any byte of 0x80 or above is refused as not ASCII,
/// whatever its length; an ASCII one of more than six bytes is refused as too
/// long.
pub proof fn lemma_text_password_refused(s: String)
    ensures
        has_non_ascii(encode_utf8(s@)) ==> password_secret(WolPassword::String(s)) == Err::<
            Seq<u8>,
            WolError,
        >(WolError::PasswordNotAscii),
        !has_non_ascii(encode_utf8(s@)) && encode_utf8(s@).len() > 6 ==> password_secret(
            WolPassword::String(s),
        ) == Err::<Seq<u8>, WolError>(WolError::PasswordTooLong),
{
}

} // verus!
