use vstd::prelude::*;
use vstd::string::StringSliceAdditionalSpecFns;
use vstd::utf8::*;

use crate::error::PngError;

verus! {

/// An ASCII letter, upper or lower case.
pub open spec fn is_letter(b: u8) -> bool {
    is_upper(b) || is_lower(b)
}

/// An ASCII uppercase letter: bit 5 clear.
pub open spec fn is_upper(b: u8) -> bool {
    65 <= b && b <= 90
}

/// An ASCII lowercase letter: bit 5 set.
pub open spec fn is_lower(b: u8) -> bool {
    97 <= b && b <= 122
}

/// Four bytes, each an ASCII letter.
pub open spec fn is_letter_code(t: Seq<u8>) -> bool {
    t.len() == 4 && forall|i: int| 0 <= i < 4 ==> #[trigger] is_letter(t[i])
}

/// A chunk type that PNG 1.2 accepts: four letters, the reserved (third) one uppercase.
pub open spec fn is_valid_type(t: Seq<u8>) -> bool {
    is_letter_code(t) && is_upper(t[2])
}

/// Relies on std::str::from_utf8: it succeeds exactly on well-formed UTF-8,
/// and the text it returns is made of the same bytes.
#[verifier::external_body]
pub(crate) fn utf8_text(b: &[u8]) -> (r: Option<&str>)
    ensures
        r is Some <==> valid_utf8(b@),
        r is Some ==> r->Some_0.spec_bytes() == b@,
{
    match std::str::from_utf8(b) {
        Ok(s) => Some(s),
        Err(_) => None,
    }
}

fn is_valid_byte(byte: u8) -> (r: bool)
    ensures
        r == is_letter(byte),
{
    (65 <= byte && byte <= 90) || (97 <= byte && byte <= 122)
}

/// A four-byte chunk-type code. Each byte's case carries one flag.
#[derive(Debug, Clone, Copy)]
pub struct ChunkType([u8; 4]);

impl View for ChunkType {
    type V = Seq<u8>;

    closed spec fn view(&self) -> Seq<u8> {
        self.0@
    }
}

impl PartialEq for ChunkType {
    fn eq(&self, other: &ChunkType) -> (r: bool) {
        let r = self.0[0] == other.0[0] && self.0[1] == other.0[1] && self.0[2] == other.0[2]
            && self.0[3] == other.0[3];
        proof {
            if r {
                assert(self@ =~= other@);
            }
        }
        r
    }
}

impl vstd::std_specs::cmp::PartialEqSpecImpl for ChunkType {
    open spec fn obeys_eq_spec() -> bool {
        true
    }

    open spec fn eq_spec(&self, other: &ChunkType) -> bool {
        self@ == other@
    }
}

impl Eq for ChunkType {}

impl TryFrom<[u8; 4]> for ChunkType {
    type Error = PngError;

    fn try_from(value: [u8; 4]) -> Result<ChunkType, PngError> {
        Ok(ChunkType(value))
    }
}

impl vstd::std_specs::convert::TryFromSpecImpl<[u8; 4]> for ChunkType {
    open spec fn obeys_try_from_spec() -> bool {
        true
    }

    closed spec fn try_from_spec(value: [u8; 4]) -> Result<ChunkType, PngError> {
        Ok(ChunkType(value))
    }
}

impl std::str::FromStr for ChunkType {
    type Err = PngError;

    fn from_str(s: &str) -> Result<ChunkType, PngError> {
        ChunkType::from_str(s)
    }
}

impl ChunkType {
    /// Builds a chunk type from any four bytes; whether it is valid is a separate question.
    pub fn try_from(value: [u8; 4]) -> (r: Result<ChunkType, PngError>)
        ensures
            r is Ok,
            r->Ok_0@ == value@,
    {
        Ok(ChunkType(value))
    }

    /// Parses a chunk type written as four ASCII letters.
    pub fn from_str(s: &str) -> (r: Result<ChunkType, PngError>)
        ensures
            r is Ok <==> is_letter_code(encode_utf8(s@)),
            r is Ok ==> r->Ok_0@ == encode_utf8(s@),
            r is Err ==> r->Err_0 == PngError::InvalidFormat,
    {
        let b = s.as_bytes();
        if b.len() != 4 {
            return Err(PngError::InvalidFormat);
        }
        let mut i: usize = 0;
        while i < 4
            invariant
                b@ == encode_utf8(s@),
                b@.len() == 4,
                i <= 4,
                forall|j: int| 0 <= j < i ==> #[trigger] is_letter(b@[j]),
            decreases 4 - i,
        {
            if !is_valid_byte(b[i]) {
                return Err(PngError::InvalidFormat);
            }
            i = i + 1;
        }
        let r = ChunkType([b[0], b[1], b[2], b[3]]);
        assert(r@ =~= b@);
        Ok(r)
    }

    /// The four bytes, as given.
    pub fn bytes(&self) -> (r: [u8; 4])
        ensures
            r@ == self@,
            r@.len() == 4,
    {
        let r = [self.0[0], self.0[1], self.0[2], self.0[3]];
        assert(r@ =~= self@);
        r
    }

    /// Four letters, and the reserved bit clear.
    pub fn is_valid(&self) -> (r: bool)
        ensures
            r == is_valid_type(self@),
    {
        let mut i: usize = 0;
        while i < 4
            invariant
                self@.len() == 4,
                i <= 4,
                forall|j: int| 0 <= j < i ==> #[trigger] is_letter(self@[j]),
            decreases 4 - i,
        {
            if !is_valid_byte(self.0[i]) {
                return false;
            }
            i = i + 1;
        }
        self.is_reserved_bit_valid()
    }

    /// The ancillary bit is clear: the first letter is uppercase.
    pub fn is_critical(&self) -> (r: bool)
        ensures
            r == is_upper(self@[0]),
    {
        65 <= self.0[0] && self.0[0] <= 90
    }

    /// The private bit is clear: the second letter is uppercase.
    pub fn is_public(&self) -> (r: bool)
        ensures
            r == is_upper(self@[1]),
    {
        65 <= self.0[1] && self.0[1] <= 90
    }

    /// The reserved bit is clear: the third letter is uppercase.
    pub fn is_reserved_bit_valid(&self) -> (r: bool)
        ensures
            r == is_upper(self@[2]),
    {
        65 <= self.0[2] && self.0[2] <= 90
    }

    /// The safe-to-copy bit is set: the fourth letter is lowercase.
    pub fn is_safe_to_copy(&self) -> (r: bool)
        ensures
            r == is_lower(self@[3]),
    {
        97 <= self.0[3] && self.0[3] <= 122
    }

    /// The code as text. Bytes that are not well-formed UTF-8 render as a single
    /// replacement character.
    pub fn to_string(&self) -> (r: String)
        ensures
            valid_utf8(self@) ==> r@ == decode_utf8(self@),
            !valid_utf8(self@) ==> r@ == seq!['\u{FFFD}'],
    {
        let b = self.bytes();
        match utf8_text(b.as_slice()) {
            Some(s) => {
                proof {
                    encode_utf8_decode_utf8(s@);
                }
                s.to_owned()
            },
            None => {
                let r = String::from_str("\u{FFFD}");
                proof {
                    reveal_strlit("\u{FFFD}");
                }
                assert(r@ =~= seq!['\u{FFFD}']);
                r
            },
        }
    }
}

} // verus!
