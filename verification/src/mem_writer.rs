//! The growable, RVA-tracked byte arena that the dump is serialized into.
//!
//! Allocation is append-only and monotonic: a location's offset never changes
//! once issued. A reserved region may later be patched in place, which is how
//! records whose contents are only known after nested writes (the header, the
//! thread array) are filled in.

use vstd::prelude::*;

use crate::minidump_format::{le16, le32, MDLocationDescriptor};
use crate::minidump_format::{push_u16_le, push_u32_le};

verus! {

/// Failures of the serialization arena.
#[derive(Clone, Copy, Debug, PartialEq, Eq, Structural)]
pub enum MemoryWriterError {
    /// An append would push the buffer past the largest offset an RVA can hold.
    BufferTooLarge,
    /// A patch names a range that is not wholly inside the buffer.
    PatchOutOfBounds,
}

impl MemoryWriterError {
    /// A short description of the failure.
    pub fn message(&self) -> (s: &'static str) {
        match self {
            MemoryWriterError::BufferTooLarge => "dump buffer exceeds the 32-bit offset space",
            MemoryWriterError::PatchOutOfBounds => "patch range lies outside the dump buffer",
        }
    }
}

/// The dump buffer: an append-only byte arena whose length always fits the
/// 32-bit offset space, so every byte has a valid RVA.
pub struct DumpBuf {
    data: Vec<u8>,
}

impl DumpBuf {
    /// The bytes written so far.
    pub closed spec fn bytes(&self) -> Seq<u8> {
        self.data@
    }

    /// The buffer never outgrows the RVA space; constructors establish this
    /// and every operation preserves it.
    pub open spec fn wf(&self) -> bool {
        self.bytes().len() <= u32::MAX
    }

    /// An empty buffer.
    pub fn new() -> (b: Self)
        ensures
            b.bytes() == Seq::<u8>::empty(),
            b.wf(),
    {
        DumpBuf { data: Vec::new() }
    }

    /// An empty buffer; the capacity is only a hint.
    pub fn with_capacity(capacity: usize) -> (b: Self)
        ensures
            b.bytes() == Seq::<u8>::empty(),
            b.wf(),
    {
        DumpBuf { data: Vec::with_capacity(capacity) }
    }

    /// Current length, i.e. the RVA the next write will receive.
    pub fn position(&self) -> (p: u32)
        requires
            self.wf(),
        ensures
            p == self.bytes().len(),
    {
        self.data.len() as u32
    }

    /// Consumes the buffer, handing out the serialized bytes.
    pub fn into_vec(self) -> (v: Vec<u8>)
        ensures
            v@ == self.bytes(),
    {
        self.data
    }

    /// Appends `bytes`, returning the RVA where they begin. Fails if and only
    /// if the buffer would outgrow the RVA space; the buffer is then unchanged.
    pub fn write_all(&mut self, bytes: &[u8]) -> (r: Result<u32, MemoryWriterError>)
        requires
            old(self).wf(),
        ensures
            final(self).wf(),
            buf_extended(old(self).bytes(), final(self).bytes()),
            match r {
                Ok(rva) => {
                    &&& final(self).bytes() == old(self).bytes() + bytes@
                    &&& rva == old(self).bytes().len()
                    &&& old(self).bytes().len() + bytes@.len() <= u32::MAX
                },
                Err(_) => {
                    &&& final(self).bytes() == old(self).bytes()
                    &&& old(self).bytes().len() + bytes@.len() > u32::MAX
                },
            },
    {
        if bytes.len() as u64 > (u32::MAX as u64) - (self.data.len() as u64) {
            return Err(MemoryWriterError::BufferTooLarge);
        }
        let rva = self.data.len() as u32;
        self.data.extend_from_slice(bytes);
        assert(buf_extended(old(self).bytes(), self.bytes())) by {
            assert(forall|k: int|
                0 <= k < old(self).bytes().len() ==> old(self).bytes()[k] == #[trigger] self.data@[
                    k
                ]);
        }
        Ok(rva)
    }

    /// Reserves `size` bytes, filled with zeroes, to be patched later.
    /// On success the returned location has the reservation's RVA and size.
    pub fn reserve(&mut self, size: u32) -> (r: Result<MDLocationDescriptor, MemoryWriterError>)
        requires
            old(self).wf(),
        ensures
            final(self).wf(),
            buf_extended(old(self).bytes(), final(self).bytes()),
            match r {
                Ok(loc) => {
                    &&& final(self).bytes() == old(self).bytes() + Seq::new(size as nat, |i: int| 0u8)
                    &&& loc.rva == old(self).bytes().len()
                    &&& loc.data_size == size
                    &&& old(self).bytes().len() + size <= u32::MAX
                },
                Err(_) => {
                    &&& final(self).bytes() == old(self).bytes()
                    &&& old(self).bytes().len() + size > u32::MAX
                },
            },
    {
        if size as u64 > (u32::MAX as u64) - (self.data.len() as u64) {
            return Err(MemoryWriterError::BufferTooLarge);
        }
        let rva = self.data.len() as u32;
        let zeroes: Vec<u8> = vec![0u8; size as usize];
        self.data.extend_from_slice(zeroes.as_slice());
        assert(self.data@ =~= old(self).bytes() + Seq::new(size as nat, |i: int| 0u8));
        assert(buf_extended(old(self).bytes(), self.bytes())) by {
            assert(forall|k: int|
                0 <= k < old(self).bytes().len() ==> old(self).bytes()[k] == #[trigger] self.data@[
                    k
                ]);
        }
        Ok(MDLocationDescriptor { data_size: size, rva })
    }

    /// Overwrites the bytes at `rva..rva + bytes.len()` in place. Fails if and
    /// only if that range is not wholly inside the buffer; the buffer is then
    /// unchanged. The length never changes and nothing is relocated.
    pub fn patch(&mut self, rva: u32, bytes: &[u8]) -> (r: Result<(), MemoryWriterError>)
        requires
            old(self).wf(),
        ensures
            final(self).wf(),
            match r {
                Ok(_) => {
                    &&& rva + bytes@.len() <= old(self).bytes().len()
                    &&& final(self).bytes() == old(self).bytes().take(rva as int) + bytes@ + old(
                        self,
                    ).bytes().skip(rva + bytes@.len())
                    &&& final(self).bytes().len() == old(self).bytes().len()
                },
                Err(_) => {
                    &&& final(self).bytes() == old(self).bytes()
                    &&& rva + bytes@.len() > old(self).bytes().len()
                },
            },
    {
        if (rva as u64) > (self.data.len() as u64) || (bytes.len() as u64) > (self.data.len()
            as u64) - (rva as u64) {
            return Err(MemoryWriterError::PatchOutOfBounds);
        }
        let n = bytes.len();
        assert(rva + n <= usize::MAX) by {
            assert(self.data@.len() <= usize::MAX);
        }
        let mut i: usize = 0;
        while i < n
            invariant
                i <= n,
                n == bytes@.len(),
                rva + n <= old(self).bytes().len(),
                rva + n <= usize::MAX,
                self.data@.len() == old(self).bytes().len(),
                self.data@ == old(self).bytes().take(rva as int) + bytes@.take(i as int) + old(
                    self,
                ).bytes().skip(rva + i),
            decreases n - i,
        {
            self.data.set(rva as usize + i, bytes[i]);
            assert(self.data@ =~= old(self).bytes().take(rva as int) + bytes@.take(i + 1) + old(
                self,
            ).bytes().skip(rva + i + 1));
            i = i + 1;
        }
        assert(bytes@.take(n as int) =~= bytes@);
        Ok(())
    }
}

// ---------------------------------------------------------------------------
// Buffer growth
// ---------------------------------------------------------------------------

/// `b2` grows out of `b1` without disturbing it: everything already written
/// keeps its offset and value.
pub open spec fn buf_extended(b1: Seq<u8>, b2: Seq<u8>) -> bool {
    &&& b2.len() >= b1.len()
    &&& forall|i: int| 0 <= i < b1.len() ==> b1[i] == #[trigger] b2[i]
}

/// Buffer extension is transitive.
pub proof fn lemma_buf_extended_trans(b1: Seq<u8>, b2: Seq<u8>, b3: Seq<u8>)
    requires
        buf_extended(b1, b2),
        buf_extended(b2, b3),
    ensures
        buf_extended(b1, b3),
{
}

/// A subrange that lies inside the already-written prefix keeps its bytes
/// when the buffer is extended.
pub proof fn lemma_buf_extended_subrange(b1: Seq<u8>, b2: Seq<u8>, lo: int, hi: int)
    requires
        buf_extended(b1, b2),
        0 <= lo <= hi <= b1.len(),
    ensures
        b2.subrange(lo, hi) == b1.subrange(lo, hi),
{
    assert(b2.subrange(lo, hi) =~= b1.subrange(lo, hi));
}

// ---------------------------------------------------------------------------
// UTF-16 strings


// ---------------------------------------------------------------------------

/// The UTF-16 code units of one character: one unit for the basic plane, a
/// surrogate pair above it.
pub open spec fn utf16_char(c: char) -> Seq<u16> {
    let v = c as u32;
    if v < 0x10000 {
        seq![v as u16]
    } else {
        seq![
            (0xD800 + ((v - 0x10000) / 0x400)) as u16,
            (0xDC00 + ((v - 0x10000) % 0x400)) as u16,
        ]
    }
}

/// The UTF-16 code units of a character sequence.
pub open spec fn utf16_units_of(s: Seq<char>) -> Seq<u16>
    decreases s.len(),
{
    if s.len() == 0 {
        Seq::empty()
    } else {
        utf16_char(s[0]) + utf16_units_of(s.drop_first())
    }
}

/// The encoding of a sequence of `u16` values, each little-endian.
pub open spec fn le16_seq(s: Seq<u16>) -> Seq<u8>
    decreases s.len(),
{
    if s.len() == 0 {
        Seq::empty()
    } else {
        le16(s[0]) + le16_seq(s.drop_first())
    }
}

/// Appending one value to a sequence appends its two bytes to the encoding.
pub proof fn lemma_le16_seq_push(s: Seq<u16>, x: u16)
    ensures
        le16_seq(s.push(x)) == le16_seq(s) + le16(x),
    decreases s.len(),
{
    if s.len() == 0 {
        assert(s.push(x).drop_first() =~= s);
        assert(le16_seq(s.push(x)) =~= le16_seq(s) + le16(x));
    } else {
        assert(s.push(x).drop_first() =~= s.drop_first().push(x));
        lemma_le16_seq_push(s.drop_first(), x);
        assert(le16_seq(s.push(x)) =~= le16_seq(s) + le16(x));
    }
}

/// The length of the encoding of `n` units is `2 * n`.
pub proof fn lemma_le16_seq_len(s: Seq<u16>)
    ensures
        le16_seq(s).len() == 2 * s.len(),
    decreases s.len(),
{
    if s.len() > 0 {
        lemma_le16_seq_len(s.drop_first());
    }
}

/// Relies on `str::encode_utf16`: the UTF-16 code units of the string's
/// characters, in order — one unit for a basic-plane character, a surrogate
/// pair for the rest.
#[verifier::external_body]
fn encode_utf16_units(s: &str) -> (r: Vec<u16>)
    ensures
        r@ == utf16_units_of(s@),
{
    s.encode_utf16().collect()
}

/// The on-disk encoding of a string: a `u32` byte length followed by that many
/// bytes of UTF-16LE code units.
pub open spec fn md_string_bytes(s: Seq<char>) -> Seq<u8> {
    le32((2 * utf16_units_of(s).len()) as u32) + le16_seq(utf16_units_of(s))
}

/// Appends the string's length-prefixed UTF-16LE encoding, returning where it
/// was placed. Fails if and only if the encoding would push the buffer past
/// the 32-bit offset space; the buffer is then unchanged.
pub fn write_string_to_location(buf: &mut DumpBuf, s: &str) -> (r: Result<
    MDLocationDescriptor,
    MemoryWriterError,
>)
    requires
        old(buf).wf(),
    ensures
        final(buf).wf(),
        buf_extended(old(buf).bytes(), final(buf).bytes()),
        match r {
            Ok(loc) => {
                &&& final(buf).bytes() == old(buf).bytes() + md_string_bytes(s@)
                &&& loc.rva == old(buf).bytes().len()
                &&& loc.data_size == md_string_bytes(s@).len()
                &&& 2 * utf16_units_of(s@).len() <= u32::MAX
            },
            Err(_) => {
                &&& final(buf).bytes() == old(buf).bytes()
                &&& old(buf).bytes().len() + md_string_bytes(s@).len() > u32::MAX
            },
        },
{
    let units = encode_utf16_units(s);
    proof {
        lemma_le16_seq_len(units@);
    }
    if units.len() as u64 > ((u32::MAX / 2) as u64) - 2 {
        // The length prefix could not express the encoding.
        return Err(MemoryWriterError::BufferTooLarge);
    }
    let byte_len: u32 = 2 * (units.len() as u32);
    assert(byte_len == 2 * utf16_units_of(s@).len());
    let mut encoded: Vec<u8> = Vec::new();
    push_u32_le(&mut encoded, byte_len);
    let n = units.len();
    let mut i: usize = 0;
    while i < n
        invariant
            i <= n,
            n == units@.len(),
            byte_len == 2 * units@.len(),
            encoded@ == le32(byte_len) + le16_seq(units@.take(i as int)),
        decreases n - i,
    {
        push_u16_le(&mut encoded, units[i]);
        proof {
            lemma_le16_seq_push(units@.take(i as int), units@[i as int]);
            assert(units@.take(i + 1 as int) =~= units@.take(i as int).push(units@[i as int]));
        }
        i = i + 1;
    }
    assert(units@.take(n as int) =~= units@);
    let rva = match buf.write_all(encoded.as_slice()) {
        Ok(rva) => rva,
        Err(e) => {
            return Err(e);
        },
    };
    Ok(MDLocationDescriptor { data_size: encoded.len() as u32, rva })
}

} // verus!
