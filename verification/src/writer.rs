//! Building a shard: the counterpart of the readers. It lays the samples end
//! to end behind the header and the metadata block, and says where each of
//! them lies.

use crate::endian::append_bytes;
use crate::format::{
    lemma_decode_encoded, lemma_metadata_block_roundtrip, FormatError, SampleMetadata, ShardHeader,
    ShardMetadata,
};
use crate::reader::{shard_layout, ReaderError, ShardView};
use vstd::prelude::*;

verus! {

/// The number of bytes in the first `n` of `samples`.
pub open spec fn size_before(samples: Seq<&[u8]>, n: int) -> int
    decreases n,
{
    if n <= 0 {
        0
    } else {
        size_before(samples, n - 1) + samples[n - 1]@.len()
    }
}

/// The bytes of the first `n` of `samples`, one sample after another.
pub open spec fn data_of(samples: Seq<&[u8]>, n: int) -> Seq<u8>
    decreases n,
{
    if n <= 0 {
        Seq::empty()
    } else {
        data_of(samples, n - 1) + samples[n - 1]@
    }
}

/// The index of `samples` laid end to end: each sample starts where the one
/// before it ends, the first at offset 0.
pub open spec fn index_of(samples: Seq<&[u8]>) -> Seq<SampleMetadata> {
    Seq::new(
        samples.len(),
        |i: int|
            SampleMetadata { offset: size_before(samples, i) as u64, size: samples[i]@.len() as u64 },
    )
}

/// The header of a shard whose metadata block follows the header at once and
/// holds `encoded_len` bytes of encoded metadata.
pub open spec fn header_for(encoded_len: nat) -> ShardHeader {
    ShardHeader::with_offsets(22, (30 + encoded_len) as u64)
}

/// The bytes of the shard with the encoded metadata `encoded` and the samples
/// `samples`: the header, the metadata block, the samples.
pub open spec fn shard_image(encoded: Seq<u8>, samples: Seq<&[u8]>) -> Seq<u8> {
    header_for(encoded.len()).encoding() + ShardMetadata::framing(encoded) + data_of(
        samples,
        samples.len() as int,
    )
}

impl ShardMetadata {
    /// The index of `samples` laid end to end, unless an offset is too large
    /// a number for the format.
    pub fn for_samples(samples: &[&[u8]]) -> (r: Option<Self>)
        ensures
            match r {
                Some(metadata) => {
                    &&& size_before(samples@, samples@.len() as int) <= u64::MAX
                    &&& metadata.wf()
                    &&& metadata.samples@ == index_of(samples@)
                },
                None => size_before(samples@, samples@.len() as int) > u64::MAX,
            },
    {
        let mut entries: Vec<SampleMetadata> = Vec::new();
        let mut current_offset: u64 = 0;
        let mut i: usize = 0;
        while i < samples.len()
            invariant
                i <= samples@.len(),
                current_offset == size_before(samples@, i as int),
                entries@ == index_of(samples@).subrange(0, i as int),
            decreases samples@.len() - i,
        {
            let size = samples[i].len() as u64;
            if size > u64::MAX - current_offset {
                proof {
                    lemma_size_before_grows(samples@, i as int + 1, samples@.len() as int);
                }
                return None;
            }
            entries.push(SampleMetadata { offset: current_offset, size });
            current_offset = current_offset + size;
            i += 1;
        }
        assert(entries@ == index_of(samples@));
        Some(ShardMetadata::new(entries))
    }
}

/// The bytes of the shard that holds `samples`, with `encoded_metadata` as
/// the serialized form of their index.
pub fn encode_shard(encoded_metadata: &[u8], samples: &[&[u8]]) -> (image: Vec<u8>)
    requires
        30 + encoded_metadata@.len() <= u64::MAX,
    ensures
        image@ == shard_image(encoded_metadata@, samples@),
{
    let mut image: Vec<u8> = Vec::new();
    let metadata_offset: u64 = 22;
    let data_offset: u64 = 30 + encoded_metadata.len() as u64;
    ShardHeader::new(metadata_offset, data_offset).write(&mut image);
    ShardMetadata::write(encoded_metadata, &mut image);
    let ghost front = image@;
    let mut i: usize = 0;
    while i < samples.len()
        invariant
            i <= samples@.len(),
            image@ == front + data_of(samples@, i as int),
        decreases samples@.len() - i,
    {
        append_bytes(&mut image, samples[i]);
        i += 1;
    }
    image
}

/// The first `m` samples hold no more bytes than the first `n`, where
/// `m <= n`.
pub proof fn lemma_size_before_grows(samples: Seq<&[u8]>, m: int, n: int)
    requires
        m <= n,
    ensures
        0 <= size_before(samples, m) <= size_before(samples, n),
    decreases n - m,
{
    if m < n {
        lemma_size_before_grows(samples, m, n - 1);
    } else {
        lemma_size_before_nonnegative(samples, m);
    }
}

proof fn lemma_size_before_nonnegative(samples: Seq<&[u8]>, n: int)
    ensures
        0 <= size_before(samples, n),
    decreases n,
{
    if n > 0 {
        lemma_size_before_nonnegative(samples, n - 1);
    }
}

/// In the bytes of the first `n` samples, the sample `index` lies where the
/// samples before it end.
pub proof fn lemma_data_of(samples: Seq<&[u8]>, n: int, index: int)
    requires
        0 <= index < n <= samples.len(),
    ensures
        data_of(samples, n).len() == size_before(samples, n),
        0 <= size_before(samples, index),
        size_before(samples, index) + samples[index]@.len() <= size_before(samples, n),
        data_of(samples, n).subrange(
            size_before(samples, index),
            size_before(samples, index) + samples[index]@.len(),
        ) == samples[index]@,
    decreases n,
{
    lemma_data_len(samples, n - 1);
    lemma_size_before_grows(samples, index, n - 1);
    if index < n - 1 {
        lemma_data_of(samples, n - 1, index);
        assert(data_of(samples, n).subrange(
            size_before(samples, index),
            size_before(samples, index) + samples[index]@.len(),
        ) == data_of(samples, n - 1).subrange(
            size_before(samples, index),
            size_before(samples, index) + samples[index]@.len(),
        ));
    } else {
        assert(data_of(samples, n).subrange(
            size_before(samples, index),
            size_before(samples, index) + samples[index]@.len(),
        ) == samples[index]@);
    }
}

proof fn lemma_data_len(samples: Seq<&[u8]>, n: int)
    ensures
        data_of(samples, n).len() == size_before(samples, n),
    decreases n,
{
    if n > 0 {
        lemma_data_len(samples, n - 1);
    }
}

/// A shard that was built has the layout it was given: its header and its
/// encoded metadata are read back, and the samples follow the metadata block.
pub proof fn lemma_shard_layout(encoded: Seq<u8>, samples: Seq<&[u8]>)
    requires
        shard_image(encoded, samples).len() <= u64::MAX,
    ensures
        shard_layout(shard_image(encoded, samples)) == Ok::<_, FormatError>(
            (header_for(encoded.len()), encoded),
        ),
        header_for(encoded.len()).data_offset == 30 + encoded.len(),
        shard_image(encoded, samples).len() == 30 + encoded.len() + size_before(
            samples,
            samples.len() as int,
        ),
        shard_image(encoded, samples).subrange(
            30 + encoded.len() as int,
            shard_image(encoded, samples).len() as int,
        ) == data_of(samples, samples.len() as int),
{
    let image = shard_image(encoded, samples);
    let header = header_for(encoded.len());
    let block = ShardMetadata::framing(encoded);
    let data = data_of(samples, samples.len() as int);
    lemma_data_len(samples, samples.len() as int);
    lemma_decode_encoded(header, block + data);
    assert(header.encoding() + (block + data) == image);
    lemma_metadata_block_roundtrip(encoded, Seq::empty());
    assert(block + Seq::<u8>::empty() == block);
    assert(image.subrange(22, 30 + encoded.len() as int) == block);
    assert(image.subrange(30 + encoded.len() as int, image.len() as int) == data);
}

/// What was written is what is read: a shard built from `samples` can be
/// opened, and, opened with the index of those samples, its sample `index`
/// is `samples[index]`.
pub proof fn lemma_shard_roundtrip(
    path: Seq<char>,
    encoded: Seq<u8>,
    samples: Seq<&[u8]>,
    metadata: ShardMetadata,
    index: usize,
)
    requires
        shard_image(encoded, samples).len() <= usize::MAX,
        shard_image(encoded, samples).len() <= u64::MAX,
        metadata.samples@ == index_of(samples),
        index < samples.len(),
    ensures
        ShardView::opened(path, shard_image(encoded, samples), metadata) matches Ok(shard)
            && shard.sample(index) == Ok::<_, ReaderError>(samples[index as int]@),
{
    let image = shard_image(encoded, samples);
    let data = data_of(samples, samples.len() as int);
    let header = header_for(encoded.len());
    lemma_shard_layout(encoded, samples);
    lemma_data_of(samples, samples.len() as int, index as int);
    let shard = ShardView { path, bytes: image, header, metadata };
    assert(ShardView::opened(path, image, metadata) == Ok::<_, ReaderError>(shard));
    let entry = metadata.samples@[index as int];
    let first = size_before(samples, index as int);
    let size = samples[index as int]@.len() as int;
    assert(entry.offset == first && entry.size == size);
    let start = header.data_offset + entry.offset;
    assert(image.subrange(start, start + size) == data.subrange(first, first + size)) by {
        assert(image.subrange(start, start + size) == image.subrange(
            30 + encoded.len() as int,
            image.len() as int,
        ).subrange(first, first + size));
    }
}

} // verus!
