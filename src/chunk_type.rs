use vstd::prelude::*;
use vstd::string::StringSliceAdditionalSpecFns;
use vstd::utf8::*;

use crate::error::ChunkError;
use crate::external::push_char;
use crate::text::chars_of;

verus! {

/// `b` is an ASCII capital letter.
pub open spec fn is_upper(b: u8) -> bool {
    65 <= b && b <= 90
}

/// `b` is an ASCII letter of either case.
pub open spec fn is_letter(b: u8) -> bool {
    is_upper(b) || (97 <= b && b <= 122)
}

/// What building a type code from the bytes of a text gives.
pub open spec fn type_code_from_text(b: Seq<u8>) -> Result<Seq<u8>, ChunkError> {
    if b.len() != 4 {
        Err(ChunkError::InvalidLength)
    } else if exists|i: int| 0 <= i < 4 && !is_letter(#[trigger] b[i]) {
        Err(ChunkError::InvalidCharacter)
    } else {
        Ok(b)
    }
}

/// The text of a type code: each byte read as the character of the same value.
pub open spec fn type_code_text(t: Seq<u8>) -> Seq<char> {
    chars_of(t)
}

fn byte_is_upper(b: u8) -> (r: bool)
    ensures
        r == is_upper(b),
{
    65 <= b && b <= 90
}

fn byte_is_letter(b: u8) -> (r: bool)
    ensures
        r == is_letter(b),
{
    byte_is_upper(b) || (97 <= b && b <= 122)
}

/// `c` is an ASCII letter of either case.
pub open spec fn is_letter_char(c: char) -> bool {
    ('A' <= c && c <= 'Z') || ('a' <= c && c <= 'z')
}

/// Any four ASCII letters are accepted as a type code, and that type code's
/// text is the same four letters.
pub proof fn lemma_text_round_trip(s: Seq<char>)
    requires
        s.len() == 4,
        forall|i: int| 0 <= i < 4 ==> is_letter_char(#[trigger] s[i]),
    ensures
        type_code_from_text(encode_utf8(s)) matches Ok(t) && type_code_text(t) == s,
{
    assert(is_ascii_chars(s));
    is_ascii_chars_encode_utf8(s);
    let b = encode_utf8(s);
    assert forall|i: int| 0 <= i < 4 implies is_letter(#[trigger] b[i]) by {
        assert(s[i] as u8 == b[i]);
    }
    assert(type_code_text(b) =~= s);
}

/// Text that is not four bytes long is refused with `InvalidLength`; four
/// bytes that hold a `1` or a `!` are refused with `InvalidCharacter`.
pub proof fn lemma_text_rejected(b: Seq<u8>)
    ensures
        b.len() != 4 ==> type_code_from_text(b) == Err::<Seq<u8>, ChunkError>(ChunkError::InvalidLength),
        b.len() == 4 && (b.contains(49u8) || b.contains(33u8)) ==> type_code_from_text(b) == Err::<
            Seq<u8>,
            ChunkError,
        >(ChunkError::InvalidCharacter),
{
}

/// A four-byte chunk type. The case of each letter carries one flag:
/// critical (first), public (second), reserved bit valid (third), and
/// safe to copy (fourth, set when that letter is lower case).
///
/// Letter case is ASCII case: a byte outside `A`..`Z` counts as not upper
/// case. Built from bytes (as when read off the wire) the type code keeps
/// them as they are; built from text it accepts ASCII letters only.
#[derive(Debug, Clone, Copy, PartialEq, Eq, Structural)]
pub struct ChunkType {
    pub ancillary: u8,
    pub private: u8,
    pub reserved: u8,
    pub safe_to_copy: u8,
}

impl View for ChunkType {
    type V = Seq<u8>;

    open spec fn view(&self) -> Seq<u8> {
        seq![self.ancillary, self.private, self.reserved, self.safe_to_copy]
    }
}

impl ChunkType {
    /// The four bytes, in order.
    pub fn bytes(&self) -> (r: [u8; 4])
        ensures
            r@ == self@,
    {
        let r = [self.ancillary, self.private, self.reserved, self.safe_to_copy];
        assert(r@ =~= self@);
        r
    }

    /// Builds a type code from four bytes, kept as given. Never fails.
    pub fn try_from(value: [u8; 4]) -> (r: Result<ChunkType, ChunkError>)
        ensures
            r matches Ok(t) && t@ == value@,
    {
        let t = ChunkType {
            ancillary: value[0],
            private: value[1],
            reserved: value[2],
            safe_to_copy: value[3],
        };
        assert(t@ =~= value@);
        Ok(t)
    }

    /// Builds a type code from text of exactly four ASCII letters.
    pub fn from_str(s: &str) -> (r: Result<ChunkType, ChunkError>)
        ensures
            r matches Ok(t) ==> type_code_from_text(s.spec_bytes()) == Ok::<Seq<u8>, ChunkError>(t@),
            r matches Err(e) ==> type_code_from_text(s.spec_bytes()) == Err::<Seq<u8>, ChunkError>(e),
    {
        let arr = s.as_bytes();
        if arr.len() != 4 {
            return Err(ChunkError::InvalidLength);
        }
        let mut i: usize = 0;
        while i < 4
            invariant
                arr@ == s.spec_bytes(),
                arr@.len() == 4,
                0 <= i <= 4,
                forall|j: int| 0 <= j < i ==> is_letter(#[trigger] arr@[j]),
            decreases 4 - i,
        {
            let b = arr[i];
            if !byte_is_letter(b) {
                return Err(ChunkError::InvalidCharacter);
            }
            i = i + 1;
        }
        let t = ChunkType { ancillary: arr[0], private: arr[1], reserved: arr[2], safe_to_copy: arr[3] };
        assert(t@ =~= arr@);
        Ok(t)
    }

    /// Same as `is_reserved_bit_valid`.
    pub fn is_valid(&self) -> (r: bool)
        ensures
            r == is_upper(self.reserved),
    {
        self.is_reserved_bit_valid()
    }

    /// The first letter is upper case.
    pub fn is_critical(&self) -> (r: bool)
        ensures
            r == is_upper(self.ancillary),
    {
        byte_is_upper(self.ancillary)
    }

    /// The second letter is upper case.
    pub fn is_public(&self) -> (r: bool)
        ensures
            r == is_upper(self.private),
    {
        byte_is_upper(self.private)
    }

    /// The third letter is upper case.
    pub fn is_reserved_bit_valid(&self) -> (r: bool)
        ensures
            r == is_upper(self.reserved),
    {
        byte_is_upper(self.reserved)
    }

    /// The fourth letter is not upper case.
    pub fn is_safe_to_copy(&self) -> (r: bool)
        ensures
            r == !is_upper(self.safe_to_copy),
    {
        !byte_is_upper(self.safe_to_copy)
    }

    /// The four bytes as text, one character per byte.
    pub fn to_string(&self) -> (r: String)
        ensures
            r@ == type_code_text(self@),
    {
        let mut s = String::new();
        push_char(&mut s, self.ancillary as char);
        push_char(&mut s, self.private as char);
        push_char(&mut s, self.reserved as char);
        push_char(&mut s, self.safe_to_copy as char);
        assert(s@ =~= type_code_text(self@));
        s
    }
}

impl TryFrom<[u8; 4]> for ChunkType {
    type Error = ChunkError;

    fn try_from(value: [u8; 4]) -> Result<ChunkType, ChunkError> {
        ChunkType::try_from(value)
    }
}

impl vstd::std_specs::convert::TryFromSpecImpl<[u8; 4]> for ChunkType {
    open spec fn obeys_try_from_spec() -> bool {
        true
    }

    open spec fn try_from_spec(v: [u8; 4]) -> Result<ChunkType, ChunkError> {
        Ok(ChunkType { ancillary: v[0], private: v[1], reserved: v[2], safe_to_copy: v[3] })
    }
}

impl std::str::FromStr for ChunkType {
    type Err = ChunkError;

    fn from_str(s: &str) -> Result<ChunkType, ChunkError> {
        ChunkType::from_str(s)
    }
}

} // verus!
