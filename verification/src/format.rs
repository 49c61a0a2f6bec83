//! The shard file format: a fixed header, then a length-prefixed metadata
//! block, then the raw bytes of the samples. All integers are little-endian.

use crate::endian::{
    append_bytes, le_u16, le_u32, le_u64, lemma_u16_roundtrip, lemma_u32_roundtrip,
    lemma_u64_roundtrip, read_u16, read_u32, read_u64, u16_le_bytes, u32_le_bytes, u64_le_bytes,
    write_u16, write_u32, write_u64,
};
use vstd::prelude::*;

verus! {

/// The format tag at the start of every shard: "ZCLD".
pub const MAGIC: u32 = 0x5A434C44;

/// The one supported version of the format.
pub const FORMAT_VERSION: u16 = 1;

/// A result with the borrowed bytes replaced by the sequence they hold.
pub open spec fn bytes_of<E>(r: Result<&[u8], E>) -> Result<Seq<u8>, E> {
    match r {
        Ok(s) => Ok(s@),
        Err(e) => Err(e),
    }
}

/// Why bytes are not a shard.
#[derive(Debug, Clone, Copy, PartialEq, Eq, Structural)]
pub enum FormatError {
    /// The bytes end before the field that is being read does.
    UnexpectedEof,
    /// The header starts with this value instead of `MAGIC`.
    InvalidMagic(u32),
    /// The header names this version instead of `FORMAT_VERSION`.
    UnsupportedVersion(u16),
    /// The metadata block does not start before the data section.
    InvalidOffsetOrder,
    /// The metadata block reaches beyond the end of the file.
    InvalidMetadataOffset,
    /// The content of the metadata block could not be decoded.
    MalformedMetadata,
}

/// The header at byte 0 of a shard.
#[derive(Debug, Clone, Copy, PartialEq, Eq, Structural)]
pub struct ShardHeader {
    pub magic: u32,
    pub version: u16,
    pub metadata_offset: u64,
    pub data_offset: u64,
}

impl ShardHeader {
    /// The length of an encoded header: 4 + 2 + 8 + 8 bytes.
    pub const SIZE: usize = 22;

    /// The header of the supported format with the given offsets.
    pub open spec fn with_offsets(metadata_offset: u64, data_offset: u64) -> ShardHeader {
        ShardHeader { magic: MAGIC, version: FORMAT_VERSION, metadata_offset, data_offset }
    }

    /// The 22 bytes of the header: magic, version, metadata offset, data offset.
    pub open spec fn encoding(&self) -> Seq<u8> {
        u32_le_bytes(self.magic) + u16_le_bytes(self.version) + u64_le_bytes(self.metadata_offset)
            + u64_le_bytes(self.data_offset)
    }

    /// What reading a header from the start of `bytes` gives. The fields are
    /// read in order, and each is checked as soon as it has been read.
    pub open spec fn decoding(bytes: Seq<u8>) -> Result<ShardHeader, FormatError> {
        if bytes.len() < 4 {
            Err(FormatError::UnexpectedEof)
        } else if le_u32(bytes.subrange(0, 4)) != MAGIC {
            Err(FormatError::InvalidMagic(le_u32(bytes.subrange(0, 4))))
        } else if bytes.len() < 6 {
            Err(FormatError::UnexpectedEof)
        } else if le_u16(bytes.subrange(4, 6)) != FORMAT_VERSION {
            Err(FormatError::UnsupportedVersion(le_u16(bytes.subrange(4, 6))))
        } else if bytes.len() < 22 {
            Err(FormatError::UnexpectedEof)
        } else {
            Ok(
                ShardHeader {
                    magic: MAGIC,
                    version: FORMAT_VERSION,
                    metadata_offset: le_u64(bytes.subrange(6, 14)),
                    data_offset: le_u64(bytes.subrange(14, 22)),
                },
            )
        }
    }

    /// Whether the header is one of the supported format with its metadata
    /// block before its data section.
    pub open spec fn valid(&self) -> bool {
        &&& self.magic == MAGIC
        &&& self.version == FORMAT_VERSION
        &&& self.metadata_offset < self.data_offset
    }

    /// What `validate` answers: the first of the three checks that fails.
    pub open spec fn validation(&self) -> Result<(), FormatError> {
        if self.magic != MAGIC {
            Err(FormatError::InvalidMagic(self.magic))
        } else if self.version != FORMAT_VERSION {
            Err(FormatError::UnsupportedVersion(self.version))
        } else if self.metadata_offset >= self.data_offset {
            Err(FormatError::InvalidOffsetOrder)
        } else {
            Ok(())
        }
    }

    pub fn new(metadata_offset: u64, data_offset: u64) -> (header: Self)
        ensures
            header == Self::with_offsets(metadata_offset, data_offset),
    {
        ShardHeader { magic: MAGIC, version: FORMAT_VERSION, metadata_offset, data_offset }
    }

    /// Appends the encoded header to `out`.
    pub fn write(&self, out: &mut Vec<u8>)
        ensures
            final(out)@ == old(out)@ + self.encoding(),
            self.encoding().len() == 22,
    {
        let magic = write_u32(self.magic);
        let version = write_u16(self.version);
        let metadata_offset = write_u64(self.metadata_offset);
        let data_offset = write_u64(self.data_offset);
        append_bytes(out, &magic);
        append_bytes(out, &version);
        append_bytes(out, &metadata_offset);
        append_bytes(out, &data_offset);
    }

    /// Reads a header from the start of `bytes`.
    pub fn read(bytes: &[u8]) -> (r: Result<Self, FormatError>)
        ensures
            r == Self::decoding(bytes@),
    {
        if bytes.len() < 4 {
            return Err(FormatError::UnexpectedEof);
        }
        let magic = read_u32(&bytes[0..4]);
        if magic != MAGIC {
            return Err(FormatError::InvalidMagic(magic));
        }
        if bytes.len() < 6 {
            return Err(FormatError::UnexpectedEof);
        }
        let version = read_u16(&bytes[4..6]);
        if version != FORMAT_VERSION {
            return Err(FormatError::UnsupportedVersion(version));
        }
        if bytes.len() < 22 {
            return Err(FormatError::UnexpectedEof);
        }
        let metadata_offset = read_u64(&bytes[6..14]);
        let data_offset = read_u64(&bytes[14..22]);
        Ok(ShardHeader { magic, version, metadata_offset, data_offset })
    }

    /// Checks the magic number, the version and the order of the offsets.
    pub fn validate(&self) -> (r: Result<(), FormatError>)
        ensures
            r == self.validation(),
            r is Ok <==> self.valid(),
    {
        if self.magic != MAGIC {
            return Err(FormatError::InvalidMagic(self.magic));
        }
        if self.version != FORMAT_VERSION {
            return Err(FormatError::UnsupportedVersion(self.version));
        }
        if self.metadata_offset >= self.data_offset {
            return Err(FormatError::InvalidOffsetOrder);
        }
        Ok(())
    }
}

/// Where one sample lies: its first byte, counted from the start of the data
/// section, and its length.
#[derive(Debug, Clone, Copy, PartialEq, Eq, Structural)]
pub struct SampleMetadata {
    pub offset: u64,
    pub size: u64,
}

/// The index of the samples of a shard. The position of an entry in `samples`
/// is the sample's index within the shard.
#[derive(Debug, Clone, PartialEq, Eq)]
pub struct ShardMetadata {
    pub num_samples: u64,
    pub samples: Vec<SampleMetadata>,
}

impl ShardMetadata {
    /// Whether the declared count is the number of entries.
    pub open spec fn wf(&self) -> bool {
        self.num_samples == self.samples@.len()
    }

    /// The metadata block that holds `encoded`: its length in eight bytes,
    /// then `encoded` itself.
    pub open spec fn framing(encoded: Seq<u8>) -> Seq<u8> {
        u64_le_bytes(encoded.len() as u64) + encoded
    }

    /// The encoded metadata that the block at the start of `bytes` holds.
    /// What follows the declared length is not part of the block.
    pub open spec fn unframing(bytes: Seq<u8>) -> Result<Seq<u8>, FormatError> {
        if bytes.len() < 8 {
            Err(FormatError::UnexpectedEof)
        } else if le_u64(bytes.subrange(0, 8)) > bytes.len() - 8 {
            Err(FormatError::UnexpectedEof)
        } else {
            Ok(bytes.subrange(8, 8 + le_u64(bytes.subrange(0, 8))))
        }
    }

    /// The index with the given entries.
    pub fn new(samples: Vec<SampleMetadata>) -> (metadata: Self)
        ensures
            metadata.wf(),
            metadata.samples@ == samples@,
    {
        ShardMetadata { num_samples: samples.len() as u64, samples }
    }

    /// Appends to `out` the metadata block that holds `encoded`, the
    /// serialized form of the index.
    pub fn write(encoded: &[u8], out: &mut Vec<u8>)
        ensures
            final(out)@ == old(out)@ + Self::framing(encoded@),
    {
        let len = write_u64(encoded.len() as u64);
        append_bytes(out, &len);
        append_bytes(out, encoded);
    }

    /// Reads a metadata block from the start of `bytes` and returns the
    /// serialized index that it holds, still encoded.
    pub fn read<'b>(bytes: &'b [u8]) -> (r: Result<&'b [u8], FormatError>)
        ensures
            bytes_of(r) == Self::unframing(bytes@),
    {
        if bytes.len() < 8 {
            return Err(FormatError::UnexpectedEof);
        }
        let len = read_u64(&bytes[0..8]);
        if len > (bytes.len() - 8) as u64 {
            return Err(FormatError::UnexpectedEof);
        }
        let end = 8 + len as usize;
        Ok(&bytes[8..end])
    }
}

/// Reading what was written gives the header back: the bytes of a header of
/// the supported format, followed by anything, decode to that header.
pub proof fn lemma_decode_encoded(header: ShardHeader, rest: Seq<u8>)
    requires
        header.magic == MAGIC,
        header.version == FORMAT_VERSION,
    ensures
        header.encoding().len() == 22,
        ShardHeader::decoding(header.encoding() + rest) == Ok::<ShardHeader, FormatError>(header),
{
    let bytes = header.encoding() + rest;
    lemma_u32_roundtrip(header.magic);
    lemma_u16_roundtrip(header.version);
    lemma_u64_roundtrip(header.metadata_offset);
    lemma_u64_roundtrip(header.data_offset);
    assert(bytes.subrange(0, 4) == u32_le_bytes(header.magic));
    assert(bytes.subrange(4, 6) == u16_le_bytes(header.version));
    assert(bytes.subrange(6, 14) == u64_le_bytes(header.metadata_offset));
    assert(bytes.subrange(14, 22) == u64_le_bytes(header.data_offset));
}

/// The header round trip: for all offsets with the metadata block before the
/// data section, reading the written header gives the header that was written.
pub proof fn lemma_header_roundtrip(metadata_offset: u64, data_offset: u64)
    requires
        metadata_offset < data_offset,
    ensures
        ShardHeader::decoding(ShardHeader::with_offsets(metadata_offset, data_offset).encoding())
            == Ok::<ShardHeader, FormatError>(
            ShardHeader::with_offsets(metadata_offset, data_offset),
        ),
        ShardHeader::with_offsets(metadata_offset, data_offset).valid(),
{
    let header = ShardHeader::with_offsets(metadata_offset, data_offset);
    lemma_decode_encoded(header, Seq::empty());
    assert(header.encoding() + Seq::<u8>::empty() == header.encoding());
}

/// The metadata round trip, as far as the block goes: reading the block that
/// was written for `encoded` gives `encoded` back, whatever follows the block.
pub proof fn lemma_metadata_block_roundtrip(encoded: Seq<u8>, rest: Seq<u8>)
    requires
        encoded.len() <= u64::MAX,
    ensures
        ShardMetadata::framing(encoded).len() == 8 + encoded.len(),
        ShardMetadata::unframing(ShardMetadata::framing(encoded) + rest) == Ok::<
            Seq<u8>,
            FormatError,
        >(encoded),
{
    let bytes = ShardMetadata::framing(encoded) + rest;
    lemma_u64_roundtrip(encoded.len() as u64);
    assert(bytes.subrange(0, 8) == u64_le_bytes(encoded.len() as u64));
    assert(bytes.subrange(8, 8 + encoded.len() as int) == encoded);
}

} // verus!
