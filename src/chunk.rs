use vstd::prelude::*;
use vstd::utf8::*;

use crate::chunk_type::{type_code_text, ChunkType};
use crate::error::ChunkError;
use crate::external::{crc32_checksum, crc32_iso_hdlc, utf8_to_string};
use crate::text::{byte_list, decimal, push_byte_list, push_decimal};

verus! {

/// The four big-endian bytes of `x`.
pub open spec fn be_bytes(x: u32) -> Seq<u8> {
    seq![
        (x / 0x1000000) as u8,
        ((x / 0x10000) % 0x100) as u8,
        ((x / 0x100) % 0x100) as u8,
        (x % 0x100) as u8,
    ]
}

/// The number that four bytes spell in big-endian order.
pub open spec fn be_value(b: Seq<u8>) -> int {
    b[0] * 0x1000000 + b[1] * 0x10000 + b[2] * 0x100 + b[3]
}

/// What a chunk holds, as plain values.
pub struct ChunkView {
    pub length: u32,
    pub chunk_type: Seq<u8>,
    pub data: Seq<u8>,
    pub crc: u32,
}

/// The bytes the checksum is computed over: type code, then payload.
pub open spec fn crc_input(chunk_type: Seq<u8>, data: Seq<u8>) -> Seq<u8> {
    chunk_type + data
}

/// A chunk whose length counts its payload and whose checksum matches.
pub open spec fn is_well_formed(c: ChunkView) -> bool {
    &&& c.chunk_type.len() == 4
    &&& c.length == c.data.len()
    &&& c.crc == crc32_iso_hdlc(crc_input(c.chunk_type, c.data))
}

/// The chunk that type code `t` and payload `d` make.
pub open spec fn chunk_of(t: Seq<u8>, d: Seq<u8>) -> ChunkView {
    ChunkView { length: d.len() as u32, chunk_type: t, data: d, crc: crc32_iso_hdlc(crc_input(t, d)) }
}

/// Diagnostic text of a chunk: its length, type code, payload bytes as a
/// list, and checksum, written one after another.
pub open spec fn chunk_text(c: ChunkView) -> Seq<char> {
    decimal(c.length as nat) + type_code_text(c.chunk_type) + byte_list(c.data) + decimal(c.crc as nat)
}

/// The wire form: length, type code, payload, checksum.
pub open spec fn serialized(c: ChunkView) -> Seq<u8> {
    be_bytes(c.length) + c.chunk_type + c.data + be_bytes(c.crc)
}

/// What reading a buffer gives. The buffer must be exactly one chunk: a
/// shorter one is `Truncated`, a longer one a `LengthMismatch`.
pub open spec fn parsed(b: Seq<u8>) -> Result<ChunkView, ChunkError> {
    if b.len() < 12 {
        Err(ChunkError::Truncated)
    } else {
        let length = be_value(b.subrange(0, 4));
        if b.len() < 12 + length {
            Err(ChunkError::Truncated)
        } else if b.len() > 12 + length {
            Err(ChunkError::LengthMismatch)
        } else {
            let t = b.subrange(4, 8);
            let d = b.subrange(8, 8 + length);
            let crc = be_value(b.subrange(8 + length, 12 + length));
            if crc != crc32_iso_hdlc(crc_input(t, d)) {
                Err(ChunkError::ChecksumMismatch)
            } else {
                Ok(ChunkView { length: length as u32, chunk_type: t, data: d, crc: crc as u32 })
            }
        }
    }
}

proof fn lemma_be_value_of_bytes(x: u32)
    ensures
        be_bytes(x).len() == 4,
        be_value(be_bytes(x)) == x,
{
    let b = be_bytes(x);
    let v = x as int;
    assert(b[0] * 0x1000000 + b[1] * 0x10000 + b[2] * 0x100 + b[3] == v) by (nonlinear_arith)
        requires
            b[0] == v / 0x1000000,
            b[1] == (v / 0x10000) % 0x100,
            b[2] == (v / 0x100) % 0x100,
            b[3] == v % 0x100,
            0 <= v < 0x100000000,
    ;
}

/// Reading the wire form of a well-formed chunk gives that chunk back.
pub proof fn lemma_round_trip(c: ChunkView)
    requires
        is_well_formed(c),
    ensures
        parsed(serialized(c)) == Ok::<ChunkView, ChunkError>(c),
{
    lemma_be_value_of_bytes(c.length);
    lemma_be_value_of_bytes(c.crc);
    let w = serialized(c);
    let n = c.data.len() as int;
    assert(w.subrange(0, 4) =~= be_bytes(c.length));
    assert(w.subrange(4, 8) =~= c.chunk_type);
    assert(w.subrange(8, 8 + n) =~= c.data);
    assert(w.subrange(8 + n, 12 + n) =~= be_bytes(c.crc));
}

/// Building a chunk and then reading back its wire form gives the same chunk.
pub proof fn lemma_new_round_trip(t: Seq<u8>, d: Seq<u8>)
    requires
        t.len() == 4,
        d.len() <= u32::MAX,
    ensures
        is_well_formed(chunk_of(t, d)),
        parsed(serialized(chunk_of(t, d))) == Ok::<ChunkView, ChunkError>(chunk_of(t, d)),
{
    lemma_round_trip(chunk_of(t, d));
}

/// In the wire form of a well-formed chunk, flipping one bit of the type code
/// or payload makes reading fail with `ChecksumMismatch`, unless the changed
/// bytes happen to have the same CRC-32 as the original ones.
pub proof fn lemma_bit_flip_detected(c: ChunkView, i: int, bit: u8)
    requires
        is_well_formed(c),
        4 <= i < 8 + c.data.len(),
        bit < 8,
    ensures
        ({
            let w = serialized(c);
            let f = w.update(i, w[i] ^ (1u8 << bit));
            crc32_iso_hdlc(f.subrange(4, 8 + c.data.len() as int)) != crc32_iso_hdlc(
                crc_input(c.chunk_type, c.data),
            ) ==> parsed(f) == Err::<ChunkView, ChunkError>(ChunkError::ChecksumMismatch)
        }),
{
    lemma_be_value_of_bytes(c.length);
    lemma_be_value_of_bytes(c.crc);
    let w = serialized(c);
    let f = w.update(i, w[i] ^ (1u8 << bit));
    let n = c.data.len() as int;
    assert(f.subrange(0, 4) =~= be_bytes(c.length));
    assert(f.subrange(8 + n, 12 + n) =~= be_bytes(c.crc));
    assert(crc_input(f.subrange(4, 8), f.subrange(8, 8 + n)) =~= f.subrange(4, 8 + n));
}

/// A twelve-byte buffer whose length field is zero and whose checksum is that
/// of its type code reads as a chunk with no payload.
pub proof fn lemma_empty_payload(b: Seq<u8>)
    requires
        b.len() == 12,
        be_value(b.subrange(0, 4)) == 0,
        be_value(b.subrange(8, 12)) == crc32_iso_hdlc(b.subrange(4, 8)),
    ensures
        parsed(b) matches Ok(c) && c.length == 0 && c.data.len() == 0 && c.chunk_type == b.subrange(4, 8),
{
    assert(crc_input(b.subrange(4, 8), b.subrange(8, 8)) =~= b.subrange(4, 8));
}

fn be_bytes_of(x: u32) -> (r: [u8; 4])
    ensures
        r@ == be_bytes(x),
{
    let r = [(x / 0x1000000) as u8, ((x / 0x10000) % 0x100) as u8, ((x / 0x100) % 0x100) as u8, (x % 0x100) as u8];
    assert(r@ =~= be_bytes(x));
    r
}

fn be_value_at(b: &[u8], at: usize) -> (r: u32)
    requires
        at + 4 <= b@.len(),
    ensures
        r == be_value(b@.subrange(at as int, at + 4)),
{
    let r = (b[at] as u32) * 0x1000000 + (b[at + 1] as u32) * 0x10000 + (b[at + 2] as u32) * 0x100 + (b[at + 3] as u32);
    r
}

fn append_bytes(dst: &mut Vec<u8>, src: &[u8])
    ensures
        final(dst)@ == old(dst)@ + src@,
{
    let mut i: usize = 0;
    while i < src.len()
        invariant
            0 <= i <= src@.len(),
            dst@ == old(dst)@ + src@.subrange(0, i as int),
        decreases src@.len() - i,
    {
        dst.push(src[i]);
        i = i + 1;
        assert(dst@ =~= old(dst)@ + src@.subrange(0, i as int));
    }
    assert(src@.subrange(0, src@.len() as int) =~= src@);
}

fn copy_range(src: &[u8], from: usize, to: usize) -> (r: Vec<u8>)
    requires
        from <= to <= src@.len(),
    ensures
        r@ == src@.subrange(from as int, to as int),
{
    let mut r: Vec<u8> = Vec::new();
    let mut i: usize = from;
    while i < to
        invariant
            from <= i <= to <= src@.len(),
            r@ == src@.subrange(from as int, i as int),
        decreases to - i,
    {
        r.push(src[i]);
        i = i + 1;
        assert(r@ =~= src@.subrange(from as int, i as int));
    }
    r
}

/// A record: the payload's length, a type code, the payload, and the CRC-32
/// of type code and payload. The length and the checksum always agree with
/// the type code and payload.
#[derive(Debug, PartialEq, Eq)]
pub struct Chunk {
    length: u32,
    chunk_type: ChunkType,
    chunk_data: Vec<u8>,
    crc: u32,
}

impl View for Chunk {
    type V = ChunkView;

    closed spec fn view(&self) -> ChunkView {
        ChunkView { length: self.length, chunk_type: self.chunk_type@, data: self.chunk_data@, crc: self.crc }
    }
}

impl Clone for Chunk {
    fn clone(&self) -> Self {
        proof { use_type_invariant(self); }
        let chunk_data = copy_range(self.chunk_data.as_slice(), 0, self.chunk_data.len());
        assert(chunk_data@ =~= self.chunk_data@);
        Chunk { length: self.length, chunk_type: self.chunk_type, chunk_data, crc: self.crc }
    }
}

impl Chunk {
    #[verifier::type_invariant]
    spec fn inv(&self) -> bool {
        is_well_formed(self@)
    }

    /// A chunk of type `chunk_type` around `data`; computes length and checksum.
    pub fn new(chunk_type: ChunkType, data: Vec<u8>) -> (r: Chunk)
        requires
            data@.len() <= u32::MAX,
        ensures
            r@ == chunk_of(chunk_type@, data@),
            is_well_formed(r@),
    {
        let mut bytes: Vec<u8> = Vec::new();
        let t = chunk_type.bytes();
        append_bytes(&mut bytes, t.as_slice());
        append_bytes(&mut bytes, data.as_slice());
        let crc = crc32_checksum(bytes.as_slice());
        let r = Chunk { length: data.len() as u32, chunk_type, chunk_data: data, crc };
        r
    }

    /// The number of payload bytes.
    pub fn length(&self) -> (r: u32)
        ensures
            r == self@.length,
            r == self@.data.len(),
    {
        proof { use_type_invariant(self); }
        self.length
    }

    /// The type code.
    pub fn chunk_type(&self) -> (r: &ChunkType)
        ensures
            r@ == self@.chunk_type,
    {
        &self.chunk_type
    }

    /// The payload.
    pub fn data(&self) -> (r: &[u8])
        ensures
            r@ == self@.data,
    {
        self.chunk_data.as_slice()
    }

    /// The checksum.
    pub fn crc(&self) -> (r: u32)
        ensures
            r == self@.crc,
            r == crc32_iso_hdlc(crc_input(self@.chunk_type, self@.data)),
    {
        proof { use_type_invariant(self); }
        self.crc
    }

    /// The payload decoded as UTF-8 text, or `NotUtf8` with the length of
    /// its longest valid prefix.
    pub fn data_as_string(&self) -> (r: Result<String, ChunkError>)
        ensures
            r is Ok <==> valid_utf8(self@.data),
            r matches Ok(s) ==> s@ == decode_utf8(self@.data),
            r matches Err(e) ==> (e matches ChunkError::NotUtf8(n) && n <= self@.data.len()
                && valid_utf8(self@.data.subrange(0, n as int))),
    {
        let copy = copy_range(self.chunk_data.as_slice(), 0, self.chunk_data.len());
        assert(copy@ =~= self@.data);
        match utf8_to_string(copy) {
            Ok(s) => Ok(s),
            Err(n) => Err(ChunkError::NotUtf8(n)),
        }
    }

    /// The wire form: big-endian length, type code, payload, big-endian checksum.
    pub fn as_bytes(&self) -> (r: Vec<u8>)
        ensures
            r@ == serialized(self@),
    {
        let mut r: Vec<u8> = Vec::new();
        let l = be_bytes_of(self.length);
        append_bytes(&mut r, l.as_slice());
        let t = self.chunk_type.bytes();
        append_bytes(&mut r, t.as_slice());
        append_bytes(&mut r, self.chunk_data.as_slice());
        let c = be_bytes_of(self.crc);
        append_bytes(&mut r, c.as_slice());
        r
    }

    /// Diagnostic text: length, type code, payload bytes as a list, checksum.
    pub fn to_string(&self) -> (r: String)
        ensures
            r@ == chunk_text(self@),
    {
        let mut s = String::new();
        push_decimal(&mut s, self.length);
        let t = self.chunk_type.to_string();
        s.append(t.as_str());
        push_byte_list(&mut s, self.chunk_data.as_slice());
        push_decimal(&mut s, self.crc);
        assert(s@ =~= chunk_text(self@));
        s
    }

    /// Reads one chunk that fills `value` exactly, checking its length and checksum.
    pub fn try_from(value: &[u8]) -> (r: Result<Chunk, ChunkError>)
        ensures
            r matches Ok(c) ==> parsed(value@) == Ok::<ChunkView, ChunkError>(c@) && is_well_formed(c@),
            r matches Err(e) ==> parsed(value@) == Err::<ChunkView, ChunkError>(e),
    {
        let n = value.len();
        if n < 12 {
            return Err(ChunkError::Truncated);
        }
        let length = be_value_at(value, 0);
        if (n - 12) < length as usize {
            return Err(ChunkError::Truncated);
        }
        if (n - 12) > length as usize {
            return Err(ChunkError::LengthMismatch);
        }
        let len = length as usize;
        let chunk_type = ChunkType {
            ancillary: value[4],
            private: value[5],
            reserved: value[6],
            safe_to_copy: value[7],
        };
        let covered = copy_range(value, 4, 8 + len);
        let chunk_data = copy_range(value, 8, 8 + len);
        let crc = be_value_at(value, 8 + len);
        let expected = crc32_checksum(covered.as_slice());
        assert(chunk_type@ =~= value@.subrange(4, 8));
        assert(covered@ =~= crc_input(value@.subrange(4, 8), value@.subrange(8, 8 + len)));
        if crc != expected {
            return Err(ChunkError::ChecksumMismatch);
        }
        let c = Chunk { length, chunk_type, chunk_data, crc };
        proof { use_type_invariant(&c); }
        Ok(c)
    }
}

} // verus!
