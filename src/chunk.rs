use vstd::prelude::*;
use vstd::string::StringSliceAdditionalSpecFns;
use vstd::utf8::*;

use crate::chunk_type::{is_valid_type, utf8_text, ChunkType};
use crate::error::PngError;

verus! {

/// The CRC-32 (ISO-HDLC parameters, as PNG uses them) of a byte sequence.
pub uninterp spec fn crc32_of(bytes: Seq<u8>) -> u32;

/// Relies on crc::Crc::<u32>::checksum built with crc::CRC_32_ISO_HDLC: the
/// checksum is a function of the bytes alone.
#[verifier::external_body]
fn checksum(bytes: &[u8]) -> (r: u32)
    ensures
        r == crc32_of(bytes@),
{
    crc::Crc::<u32>::new(&crc::CRC_32_ISO_HDLC).checksum(bytes)
}

/// The four big-endian bytes of `n`.
pub open spec fn be_bytes(n: u32) -> Seq<u8> {
    seq![(n >> 24) as u8, (n >> 16) as u8, (n >> 8) as u8, n as u8]
}

/// The number that four bytes spell in big-endian order.
pub open spec fn be_value(b: Seq<u8>) -> u32
    recommends
        b.len() == 4,
{
    ((b[0] as u32) << 24) | ((b[1] as u32) << 16) | ((b[2] as u32) << 8) | (b[3] as u32)
}

/// The wire form of a chunk: length, type, payload, then the checksum of type and payload.
pub open spec fn encoded(kind: Seq<u8>, data: Seq<u8>) -> Seq<u8> {
    be_bytes(data.len() as u32) + kind + data + be_bytes(crc32_of(kind + data))
}

/// What decoding a buffer gives: the type and payload of the one record at its
/// start, or the first failure met in reading it.
pub open spec fn decoded(buf: Seq<u8>) -> Result<(Seq<u8>, Seq<u8>), PngError> {
    if buf.len() < 8 {
        Err(PngError::TruncatedInput)
    } else {
        let len = be_value(buf.subrange(0, 4)) as int;
        let kind = buf.subrange(4, 8);
        if !is_valid_type(kind) {
            Err(PngError::InvalidChunkType)
        } else if buf.len() < 12 + len {
            Err(PngError::TruncatedInput)
        } else {
            let data = buf.subrange(8, 8 + len);
            let expected = be_value(buf.subrange(8 + len, 12 + len));
            let actual = crc32_of(kind + data);
            if expected != actual {
                Err(PngError::ChecksumMismatch { expected, actual })
            } else {
                Ok((kind, data))
            }
        }
    }
}

/// Reading back the big-endian bytes of a number gives the number.
pub proof fn lemma_be_round_trip(n: u32)
    ensures
        be_value(be_bytes(n)) == n,
{
    let b = be_bytes(n);
    assert(b[0] == (n >> 24) as u8 && b[1] == (n >> 16) as u8 && b[2] == (n >> 8) as u8 && b[3]
        == n as u8);
    assert(((((n >> 24) as u8) as u32) << 24) | ((((n >> 16) as u8) as u32) << 16) | ((((n
        >> 8) as u8) as u32) << 8) | ((n as u8) as u32) == n) by (bit_vector);
}

/// Decoding the wire form of a valid type code and a payload that fits the
/// length field gives back that type code and payload.
pub proof fn lemma_round_trip(kind: Seq<u8>, data: Seq<u8>)
    requires
        is_valid_type(kind),
        data.len() <= u32::MAX,
    ensures
        decoded(encoded(kind, data)) == Ok::<(Seq<u8>, Seq<u8>), PngError>((kind, data)),
{
    let len = data.len() as u32;
    let sum = crc32_of(kind + data);
    let buf = encoded(kind, data);
    let l = data.len() as int;
    lemma_be_round_trip(len);
    lemma_be_round_trip(sum);
    assert(buf.len() == 12 + l);
    assert(buf.subrange(0, 4) =~= be_bytes(len));
    assert(buf.subrange(4, 8) =~= kind);
    assert(buf.subrange(8, 8 + l) =~= data);
    assert(buf.subrange(8 + l, 12 + l) =~= be_bytes(sum));
}

/// A buffer that ends before the payload its length field announces, under a
/// readable and valid type code, is rejected as truncated.
pub proof fn lemma_truncated(buf: Seq<u8>)
    requires
        buf.len() >= 8,
        is_valid_type(buf.subrange(4, 8)),
        buf.len() < 8 + be_value(buf.subrange(0, 4)),
    ensures
        decoded(buf) == Err::<(Seq<u8>, Seq<u8>), PngError>(PngError::TruncatedInput),
{
}

/// A buffer too short to hold the length field and the type code is rejected as truncated.
pub proof fn lemma_too_short(buf: Seq<u8>)
    requires
        buf.len() < 8,
    ensures
        decoded(buf) == Err::<(Seq<u8>, Seq<u8>), PngError>(PngError::TruncatedInput),
{
}

/// The UTF-8 encoding of any text is well-formed and reads back as that text,
/// so a payload made from a string is viewed as that same string.
pub proof fn lemma_text_round_trip(text: Seq<char>)
    ensures
        valid_utf8(encode_utf8(text)),
        decode_utf8(encode_utf8(text)) == text,
{
    encode_utf8_valid_utf8(text);
    encode_utf8_decode_utf8(text);
}

fn push_be(out: &mut Vec<u8>, n: u32)
    ensures
        final(out)@ == old(out)@ + be_bytes(n),
{
    out.push((n >> 24) as u8);
    out.push((n >> 16) as u8);
    out.push((n >> 8) as u8);
    out.push(n as u8);
    assert(final(out)@ =~= old(out)@ + be_bytes(n));
}

fn read_be(b: &[u8], at: usize) -> (r: u32)
    requires
        at + 4 <= b@.len(),
    ensures
        r == be_value(b@.subrange(at as int, at + 4)),
{
    ((b[at] as u32) << 24) | ((b[at + 1] as u32) << 16) | ((b[at + 2] as u32) << 8) | (b[at
        + 3] as u32)
}

fn push_all(out: &mut Vec<u8>, src: &[u8])
    ensures
        final(out)@ == old(out)@ + src@,
{
    let mut i: usize = 0;
    while i < src.len()
        invariant
            i <= src@.len(),
            out@ == old(out)@ + src@.subrange(0, i as int),
        decreases src@.len() - i,
    {
        out.push(src[i]);
        i = i + 1;
        assert(out@ =~= old(out)@ + src@.subrange(0, i as int));
    }
    assert(src@.subrange(0, i as int) =~= src@);
}

fn copy_range(src: &[u8], from: usize, to: usize) -> (r: Vec<u8>)
    requires
        from <= to <= src@.len(),
    ensures
        r@ == src@.subrange(from as int, to as int),
{
    let mut r: Vec<u8> = Vec::new();
    let mut i: usize = from;
    while i < to
        invariant
            from <= i <= to <= src@.len(),
            r@ == src@.subrange(from as int, i as int),
        decreases to - i,
    {
        r.push(src[i]);
        i = i + 1;
        assert(r@ =~= src@.subrange(from as int, i as int));
    }
    r
}

/// One chunk: a type code and a payload of at most 2^32 - 1 bytes.
#[derive(Debug)]
pub struct Chunk {
    chunk_type: ChunkType,
    data: Vec<u8>,
}

impl View for Chunk {
    /// The type code and the payload.
    type V = (Seq<u8>, Seq<u8>);

    closed spec fn view(&self) -> (Seq<u8>, Seq<u8>) {
        (self.chunk_type@, self.data@)
    }
}

impl PartialEq for Chunk {
    fn eq(&self, other: &Chunk) -> (r: bool) {
        if self.chunk_type != other.chunk_type || self.data.len() != other.data.len() {
            return false;
        }
        let mut i: usize = 0;
        while i < self.data.len()
            invariant
                self.data@.len() == other.data@.len(),
                i <= self.data@.len(),
                forall|j: int| 0 <= j < i ==> self.data@[j] == other.data@[j],
            decreases self.data@.len() - i,
        {
            if self.data[i] != other.data[i] {
                return false;
            }
            i = i + 1;
        }
        assert(self.data@ =~= other.data@);
        true
    }
}

impl vstd::std_specs::cmp::PartialEqSpecImpl for Chunk {
    open spec fn obeys_eq_spec() -> bool {
        true
    }

    open spec fn eq_spec(&self, other: &Chunk) -> bool {
        self@ == other@
    }
}

impl Eq for Chunk {}

impl<'a> TryFrom<&'a [u8]> for Chunk {
    type Error = PngError;

    fn try_from(value: &'a [u8]) -> Result<Chunk, PngError> {
        Chunk::try_from(value)
    }
}

/// The trait's `try_from` claims no spec-level result: what it returns is
/// stated over the views by the contract of `Chunk::try_from`, which it calls.
impl<'a> vstd::std_specs::convert::TryFromSpecImpl<&'a [u8]> for Chunk {
    open spec fn obeys_try_from_spec() -> bool {
        false
    }

    open spec fn try_from_spec(value: &'a [u8]) -> Result<Chunk, PngError> {
        Err(PngError::TruncatedInput)
    }
}

impl Chunk {
    #[verifier::type_invariant]
    spec fn fits(&self) -> bool {
        self.data@.len() <= u32::MAX
    }

    /// Pairs a type code with a payload; the code is not checked here.
    pub fn new(chunk_type: ChunkType, data: Vec<u8>) -> (r: Chunk)
        requires
            data@.len() <= u32::MAX,
        ensures
            r@ == (chunk_type@, data@),
    {
        Chunk { chunk_type, data }
    }

    /// The payload's length in bytes.
    pub fn length(&self) -> (r: usize)
        ensures
            r == self@.1.len(),
            r <= u32::MAX,
    {
        proof {
            use_type_invariant(self);
        }
        self.data.len()
    }

    pub fn chunk_type(&self) -> (r: &ChunkType)
        ensures
            r@ == self@.0,
    {
        &self.chunk_type
    }

    pub fn data(&self) -> (r: &[u8])
        ensures
            r@ == self@.1,
    {
        self.data.as_slice()
    }

    /// The checksum of the type code followed by the payload, computed afresh.
    pub fn crc(&self) -> (r: u32)
        ensures
            r == crc32_of(self@.0 + self@.1),
    {
        let kind = self.chunk_type.bytes();
        let mut bytes: Vec<u8> = Vec::new();
        push_all(&mut bytes, kind.as_slice());
        push_all(&mut bytes, self.data.as_slice());
        checksum(bytes.as_slice())
    }

    /// The payload read as UTF-8 text.
    pub fn data_as_string(&self) -> (r: Result<String, PngError>)
        ensures
            r is Ok <==> valid_utf8(self@.1),
            r is Ok ==> r->Ok_0@ == decode_utf8(self@.1),
            r is Err ==> r->Err_0 == PngError::EncodingError,
    {
        match utf8_text(self.data.as_slice()) {
            Some(s) => {
                proof {
                    encode_utf8_decode_utf8(s@);
                }
                Ok(s.to_owned())
            },
            None => Err(PngError::EncodingError),
        }
    }

    /// The chunk's wire form.
    pub fn as_bytes(&self) -> (r: Vec<u8>)
        ensures
            r@ == encoded(self@.0, self@.1),
    {
        proof {
            use_type_invariant(self);
        }
        let mut out: Vec<u8> = Vec::new();
        push_be(&mut out, self.data.len() as u32);
        let kind = self.chunk_type.bytes();
        push_all(&mut out, kind.as_slice());
        push_all(&mut out, self.data.as_slice());
        push_be(&mut out, self.crc());
        out
    }

    /// Decodes the record at the start of `value`; bytes after it are ignored.
    pub fn try_from(value: &[u8]) -> (r: Result<Chunk, PngError>)
        ensures
            r is Ok <==> decoded(value@) is Ok,
            r is Ok ==> decoded(value@) == Ok::<(Seq<u8>, Seq<u8>), PngError>(r->Ok_0@),
            r is Err ==> decoded(value@) == Err::<(Seq<u8>, Seq<u8>), PngError>(r->Err_0),
    {
        let n = value.len();
        if n < 8 {
            return Err(PngError::TruncatedInput);
        }
        let len = read_be(value, 0);
        let chunk_type = match ChunkType::try_from([value[4], value[5], value[6], value[7]]) {
            Ok(t) => t,
            Err(e) => return Err(e),
        };
        assert(chunk_type@ =~= value@.subrange(4, 8));
        if !chunk_type.is_valid() {
            return Err(PngError::InvalidChunkType);
        }
        let l = len as usize;
        if n - 8 < l || n - 8 - l < 4 {
            return Err(PngError::TruncatedInput);
        }
        let data = copy_range(value, 8, 8 + l);
        let expected = read_be(value, 8 + l);
        let chunk = Chunk { chunk_type, data };
        let actual = chunk.crc();
        if actual != expected {
            return Err(PngError::ChecksumMismatch { expected, actual });
        }
        Ok(chunk)
    }
}

} // verus!
