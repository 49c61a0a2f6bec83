use serde_json::Value;
use std::sync::{Arc, Mutex};
use zero_copy_loader::format::{FormatError, SampleMetadata, ShardHeader, ShardMetadata};
use zero_copy_loader::mmap::{MmapError, MmapManager};
use zero_copy_loader::prefetch::{PrefetchError, Prefetcher};
use zero_copy_loader::reader::{MultiShardReader, ReaderError, ShardReader};
use zero_copy_loader::writer::encode_shard;
use zero_copy_loader::{DataLoader, DataLoaderError};

fn encode_metadata(metadata: &ShardMetadata) -> Vec<u8> {
    let mut samples = Vec::new();
    for sample in &metadata.samples {
        let mut entry = serde_json::Map::new();
        entry.insert("offset".to_string(), Value::from(sample.offset));
        entry.insert("size".to_string(), Value::from(sample.size));
        samples.push(Value::Object(entry));
    }
    let mut top = serde_json::Map::new();
    top.insert("num_samples".to_string(), Value::from(metadata.num_samples));
    top.insert("samples".to_string(), Value::Array(samples));
    serde_json::to_vec(&Value::Object(top)).unwrap()
}

fn decode_metadata(encoded: &[u8]) -> Option<ShardMetadata> {
    let value: Value = serde_json::from_slice(encoded).ok()?;
    let num_samples = value.get("num_samples")?.as_u64()?;
    let mut samples = Vec::new();
    for entry in value.get("samples")?.as_array()? {
        samples.push(SampleMetadata {
            offset: entry.get("offset")?.as_u64()?,
            size: entry.get("size")?.as_u64()?,
        });
    }
    Some(ShardMetadata { num_samples, samples })
}

/// The bytes of a shard file that holds `data`.
fn create_test_shard(data: &[&[u8]]) -> Vec<u8> {
    let metadata = ShardMetadata::for_samples(data).unwrap();
    encode_shard(&encode_metadata(&metadata), data)
}

/// The bytes of a shard file with the given index over the given data section.
fn shard_with_index(samples: Vec<SampleMetadata>, data: &[u8]) -> Vec<u8> {
    let metadata = ShardMetadata::new(samples);
    encode_shard(&encode_metadata(&metadata), &[data])
}

/// What opening a file does, from its bytes on.
fn open<'a>(file: &'a [u8], path: &str) -> Result<ShardReader<'a>, ReaderError> {
    let mmap = MmapManager::new(file, path.to_string());
    let encoded = ShardReader::metadata_bytes(&mmap)?;
    let metadata = decode_metadata(encoded)
        .ok_or(ReaderError::InvalidFormat(FormatError::MalformedMetadata))?;
    ShardReader::new(mmap, metadata)
}

fn mapped<'a>(file: &'a [u8], path: &str) -> (MmapManager<'a>, ShardMetadata) {
    let mmap = MmapManager::new(file, path.to_string());
    let metadata = decode_metadata(ShardReader::metadata_bytes(&mmap).unwrap()).unwrap();
    (mmap, metadata)
}

fn error_of<T>(result: Result<T, ReaderError>) -> ReaderError {
    match result {
        Ok(_) => panic!("the shard was opened"),
        Err(e) => e,
    }
}

fn loader_error_of<T>(result: Result<T, DataLoaderError>) -> DataLoaderError {
    match result {
        Ok(_) => panic!("the loader was made"),
        Err(e) => e,
    }
}

/// Keeps the requests it was given, and fails where it was told to.
struct Recording {
    requests: Arc<Mutex<Vec<Vec<String>>>>,
    waits: Arc<Mutex<usize>>,
    fail: bool,
}

impl Prefetcher for Recording {
    fn prefetch_files(&mut self, paths: &[String]) -> Result<(), PrefetchError> {
        self.requests.lock().unwrap().push(paths.to_vec());
        if self.fail {
            return Err(PrefetchError::Io("disk".to_string()));
        }
        Ok(())
    }

    fn wait(&mut self) -> Result<(), PrefetchError> {
        *self.waits.lock().unwrap() += 1;
        if self.fail {
            return Err(PrefetchError::NotSupported);
        }
        Ok(())
    }
}

#[test]
fn test_shard_reader() {
    let file = create_test_shard(&[b"sample1", b"sample2", b"sample3"]);
    let reader = open(&file, "shard").unwrap();

    assert_eq!(reader.num_samples(), 3);
    assert_eq!(reader.get_sample(0).unwrap(), b"sample1");
    assert_eq!(reader.get_sample(1).unwrap(), b"sample2");
    assert_eq!(reader.get_sample(2).unwrap(), b"sample3");
}

#[test]
fn test_multi_shard_reader() {
    let file1 = create_test_shard(&[b"shard1_sample1", b"shard1_sample2"]);
    let file2 = create_test_shard(&[b"shard2_sample1"]);

    let reader =
        MultiShardReader::new(vec![mapped(&file1, "shard1"), mapped(&file2, "shard2")]).unwrap();
    assert_eq!(reader.total_samples(), 3);
    assert_eq!(reader.get_sample(0).unwrap(), b"shard1_sample1");
    assert_eq!(reader.get_sample(1).unwrap(), b"shard1_sample2");
    assert_eq!(reader.get_sample(2).unwrap(), b"shard2_sample1");
}

#[test]
fn test_data_loader() {
    let file1 = create_test_shard(&[b"sample1", b"sample2"]);
    let file2 = create_test_shard(&[b"sample3"]);

    let loader = DataLoader::new(vec![mapped(&file1, "shard1"), mapped(&file2, "shard2")]).unwrap();
    assert_eq!(loader.total_samples(), 3);
    assert_eq!(loader.get_sample(0).unwrap(), b"sample1");
    assert_eq!(loader.get_sample(2).unwrap(), b"sample3");
}

#[test]
fn shard_file_has_the_documented_layout() {
    let file = create_test_shard(&[b"ab", b"", b"cde"]);
    let encoded = b"{\"num_samples\":3,\"samples\":[{\"offset\":0,\"size\":2},{\"offset\":2,\"size\":0},{\"offset\":2,\"size\":3}]}";
    let data_offset = 30 + encoded.len();
    let header = ShardHeader::read(&file).unwrap();
    assert_eq!(header, ShardHeader::new(22, data_offset as u64));
    assert_eq!(&file[22..30], &(encoded.len() as u64).to_le_bytes());
    assert_eq!(&file[30..data_offset], &encoded[..]);
    assert_eq!(&file[data_offset..], b"abcde");
}

#[test]
fn index_of_samples_laid_end_to_end() {
    let metadata = ShardMetadata::for_samples(&[b"ab", b"", b"cde"]).unwrap();
    assert_eq!(metadata.num_samples, 3);
    assert_eq!(
        metadata.samples,
        vec![
            SampleMetadata { offset: 0, size: 2 },
            SampleMetadata { offset: 2, size: 0 },
            SampleMetadata { offset: 2, size: 3 },
        ]
    );
    let none = ShardMetadata::for_samples(&[]).unwrap();
    assert_eq!(none.num_samples, 0);
    assert!(none.samples.is_empty());
}

#[test]
fn single_shard_retrieval() {
    let file = create_test_shard(&[b"sample1", b"sample2", b"sample3"]);
    let reader = open(&file, "shard").unwrap();
    assert_eq!(reader.get_sample(0), Ok(&b"sample1"[..]));
    assert_eq!(reader.get_sample(2), Ok(&b"sample3"[..]));
    assert_eq!(reader.get_sample(3), Err(ReaderError::IndexOutOfBounds(3)));
    assert_eq!(reader.get_sample(usize::MAX), Err(ReaderError::IndexOutOfBounds(usize::MAX)));
}

#[test]
fn sample_is_a_part_of_the_file() {
    let file = create_test_shard(&[b"sample1", b"sample2", b"sample3"]);
    let reader = open(&file, "shard").unwrap();
    let sample = reader.get_sample(1).unwrap();
    let data_offset = reader.header().data_offset as usize;
    assert_eq!(sample.as_ptr(), file[data_offset + 7..].as_ptr());
}

#[test]
fn reader_knows_its_shard() {
    let file = create_test_shard(&[b"one", b"three"]);
    let reader = open(&file, "/data/shard-7").unwrap();
    assert_eq!(reader.path(), "/data/shard-7");
    assert_eq!(reader.header().metadata_offset, 22);
    assert_eq!(reader.header().validate(), Ok(()));
    assert_eq!(reader.header(), &ShardHeader::read(&file).unwrap());
    assert_eq!(reader.metadata().num_samples, 2);
    assert_eq!(reader.metadata().samples[1], SampleMetadata { offset: 3, size: 5 });
    assert_eq!(reader.num_samples(), 2);
}

#[test]
fn empty_shard_has_no_samples() {
    let file = create_test_shard(&[]);
    let reader = open(&file, "empty").unwrap();
    assert_eq!(reader.num_samples(), 0);
    assert_eq!(reader.get_sample(0), Err(ReaderError::IndexOutOfBounds(0)));
    assert_eq!(reader.get_batch(&[]), Ok(Vec::new()));
}

#[test]
fn number_of_samples_is_the_number_of_entries() {
    let metadata = ShardMetadata {
        num_samples: 5,
        samples: vec![SampleMetadata { offset: 0, size: 1 }, SampleMetadata { offset: 1, size: 1 }],
    };
    let file = encode_shard(&encode_metadata(&metadata), &[b"xy"]);
    let reader = open(&file, "shard").unwrap();
    assert_eq!(reader.metadata().num_samples, 5);
    assert_eq!(reader.num_samples(), 2);
    assert_eq!(reader.get_sample(1), Ok(&b"y"[..]));
    assert_eq!(reader.get_sample(2), Err(ReaderError::IndexOutOfBounds(2)));
}

#[test]
fn batch_keeps_the_order_of_its_indices() {
    let file = create_test_shard(&[b"sample1", b"sample2", b"sample3"]);
    let reader = open(&file, "shard").unwrap();
    assert_eq!(
        reader.get_batch(&[2, 0, 2, 1]),
        Ok(vec![&b"sample3"[..], &b"sample1"[..], &b"sample3"[..], &b"sample2"[..]])
    );
}

#[test]
fn batch_fails_with_its_first_failure() {
    let file = create_test_shard(&[b"sample1", b"sample2", b"sample3"]);
    let reader = open(&file, "shard").unwrap();
    assert_eq!(reader.get_batch(&[0, 7, 1, 9]), Err(ReaderError::IndexOutOfBounds(7)));
    assert_eq!(reader.get_batch(&[9, 7]), Err(ReaderError::IndexOutOfBounds(9)));
}

#[test]
fn sample_beyond_the_file_is_refused_when_it_is_read() {
    let file = shard_with_index(
        vec![
            SampleMetadata { offset: 0, size: 4 },
            SampleMetadata { offset: 2, size: 3 },
            SampleMetadata { offset: 5, size: 0 },
            SampleMetadata { offset: 4, size: 0 },
        ],
        b"data",
    );
    let size = file.len();
    let data_offset = size - 4;
    let reader = open(&file, "shard").unwrap();
    assert_eq!(reader.get_sample(0), Ok(&b"data"[..]));
    assert_eq!(
        reader.get_sample(1),
        Err(ReaderError::Mmap(MmapError::OutOfBounds { offset: data_offset + 2, len: 3, size }))
    );
    assert_eq!(
        reader.get_sample(2),
        Err(ReaderError::Mmap(MmapError::OutOfBounds { offset: data_offset + 5, len: 0, size }))
    );
    assert_eq!(reader.get_sample(3), Ok(&b""[..]));
    assert_eq!(
        reader.get_batch(&[0, 1, 2]),
        Err(ReaderError::Mmap(MmapError::OutOfBounds { offset: data_offset + 2, len: 3, size }))
    );
}

#[test]
fn sample_whose_range_overflows_is_refused() {
    let file = shard_with_index(
        vec![
            SampleMetadata { offset: u64::MAX, size: 1 },
            SampleMetadata { offset: 0, size: u64::MAX },
            SampleMetadata { offset: u64::MAX - 1, size: u64::MAX },
        ],
        b"data",
    );
    let reader = open(&file, "shard").unwrap();
    for index in 0..3 {
        assert_eq!(reader.get_sample(index), Err(ReaderError::Mmap(MmapError::OffsetOverflow)));
    }
}

#[test]
fn corrupt_magic_is_rejected() {
    let mut file = create_test_shard(&[b"sample1"]);
    file[0] ^= 0x01;
    let mmap = MmapManager::new(&file, "shard".to_string());
    assert_eq!(
        ShardReader::metadata_bytes(&mmap),
        Err(ReaderError::InvalidFormat(FormatError::InvalidMagic(0x5A434C45)))
    );
    let opened = ShardReader::new(mmap, ShardMetadata::new(Vec::new()));
    assert_eq!(
        error_of(opened),
        ReaderError::InvalidFormat(FormatError::InvalidMagic(0x5A434C45))
    );
}

#[test]
fn incremented_version_is_rejected() {
    let mut file = create_test_shard(&[b"sample1"]);
    file[4] += 1;
    assert_eq!(
        error_of(open(&file, "shard")),
        ReaderError::InvalidFormat(FormatError::UnsupportedVersion(2))
    );
}

#[test]
fn corrupt_shard_gives_no_loader() {
    let good = create_test_shard(&[b"sample1", b"sample2"]);
    let other = create_test_shard(&[b"sample3"]);
    let metadata = || ShardMetadata::new(vec![SampleMetadata { offset: 0, size: 7 }]);

    let mut bad_magic = other.clone();
    bad_magic[3] = 0;
    let shards = vec![
        (MmapManager::new(&good, "good".to_string()), metadata()),
        (MmapManager::new(&bad_magic, "bad".to_string()), metadata()),
    ];
    assert_eq!(
        loader_error_of(DataLoader::new(shards)),
        DataLoaderError::Reader(ReaderError::InvalidFormat(FormatError::InvalidMagic(0x00434C44)))
    );

    let mut bad_version = other.clone();
    bad_version[4] += 1;
    let shards = vec![
        (MmapManager::new(&bad_version, "bad".to_string()), metadata()),
        (MmapManager::new(&bad_magic, "worse".to_string()), metadata()),
    ];
    assert_eq!(
        error_of(MultiShardReader::new(shards)),
        ReaderError::InvalidFormat(FormatError::UnsupportedVersion(2))
    );
}

#[test]
fn truncated_file_is_rejected() {
    let file = create_test_shard(&[b"sample1"]);
    let data_offset = file.len() - 7;
    for len in [0, 3, 5, 21] {
        assert_eq!(
            error_of(open(&file[..len], "shard")),
            ReaderError::InvalidFormat(FormatError::UnexpectedEof)
        );
    }
    for len in [22, 29, data_offset - 1] {
        assert_eq!(
            error_of(open(&file[..len], "shard")),
            ReaderError::InvalidFormat(FormatError::InvalidMetadataOffset)
        );
    }
    // The data section may be cut short: its samples are checked when they are read.
    let reader = open(&file[..data_offset + 3], "shard").unwrap();
    assert_eq!(
        reader.get_sample(0),
        Err(ReaderError::Mmap(MmapError::OutOfBounds {
            offset: data_offset,
            len: 7,
            size: data_offset + 3
        }))
    );
}

#[test]
fn inconsistent_offsets_are_rejected() {
    let file = create_test_shard(&[b"sample1"]);
    let metadata = || ShardMetadata::new(vec![SampleMetadata { offset: 0, size: 7 }]);
    let open_with = |header: ShardHeader| {
        let mut changed = Vec::new();
        header.write(&mut changed);
        changed.extend_from_slice(&file[22..]);
        let shards = vec![(MmapManager::new(&changed, "shard".to_string()), metadata())];
        error_of(MultiShardReader::new(shards))
    };
    let data_offset = (file.len() - 7) as u64;
    assert_eq!(
        open_with(ShardHeader::new(data_offset, data_offset)),
        ReaderError::InvalidFormat(FormatError::InvalidOffsetOrder)
    );
    assert_eq!(
        open_with(ShardHeader::new(data_offset + 1, data_offset)),
        ReaderError::InvalidFormat(FormatError::InvalidOffsetOrder)
    );
    assert_eq!(
        open_with(ShardHeader::new(22, file.len() as u64 + 1)),
        ReaderError::InvalidFormat(FormatError::InvalidMetadataOffset)
    );
    assert_eq!(
        open_with(ShardHeader::new(22, u64::MAX)),
        ReaderError::InvalidFormat(FormatError::InvalidMetadataOffset)
    );
    // A block that is shorter than the length it declares.
    assert_eq!(
        open_with(ShardHeader::new(22, data_offset - 1)),
        ReaderError::InvalidFormat(FormatError::UnexpectedEof)
    );
    assert_eq!(
        open_with(ShardHeader::new(22, 29)),
        ReaderError::InvalidFormat(FormatError::UnexpectedEof)
    );
}

#[test]
fn malformed_metadata_is_rejected() {
    let file = encode_shard(b"{\"num_samples\":1,\"samples\":[", &[b"sample1"]);
    assert_eq!(
        error_of(open(&file, "shard")),
        ReaderError::InvalidFormat(FormatError::MalformedMetadata)
    );
}

#[test]
fn multi_shard_global_indexing() {
    let a = create_test_shard(&[b"a0", b"a1"]);
    let b = create_test_shard(&[b"b0"]);
    let reader = MultiShardReader::new(vec![mapped(&a, "a"), mapped(&b, "b")]).unwrap();
    assert_eq!(reader.total_samples(), 3);
    assert_eq!(reader.num_shards(), 2);
    assert_eq!(reader.get_sample(0), Ok(&b"a0"[..]));
    assert_eq!(reader.get_sample(1), Ok(&b"a1"[..]));
    assert_eq!(reader.get_sample(2), Ok(&b"b0"[..]));
    assert_eq!(reader.get_sample(3), Err(ReaderError::IndexOutOfBounds(3)));
}

#[test]
fn global_index_skips_empty_shards() {
    let empty = create_test_shard(&[]);
    let a = create_test_shard(&[b"a0", b"a1"]);
    let b = create_test_shard(&[b"b0", b"b1", b"b2"]);
    let reader = MultiShardReader::new(vec![
        mapped(&empty, "e1"),
        mapped(&a, "a"),
        mapped(&empty, "e2"),
        mapped(&b, "b"),
        mapped(&empty, "e3"),
    ])
    .unwrap();
    assert_eq!(reader.num_shards(), 5);
    assert_eq!(reader.total_samples(), 5);
    let all: Vec<&[u8]> = (0..5).map(|i| reader.get_sample(i).unwrap()).collect();
    assert_eq!(all, vec![&b"a0"[..], b"a1", b"b0", b"b1", b"b2"]);
    assert_eq!(reader.get_sample(5), Err(ReaderError::IndexOutOfBounds(5)));
    assert_eq!(reader.get_batch(&[4, 0, 2]), Ok(vec![&b"b2"[..], b"a0", b"b0"]));
    assert_eq!(reader.get_batch(&[4, 5, 6]), Err(ReaderError::IndexOutOfBounds(5)));
}

#[test]
fn reader_of_no_shards_has_no_samples() {
    let reader = MultiShardReader::new(Vec::new()).unwrap();
    assert_eq!(reader.num_shards(), 0);
    assert_eq!(reader.total_samples(), 0);
    assert_eq!(reader.get_sample(0), Err(ReaderError::IndexOutOfBounds(0)));
}

#[test]
fn global_read_hands_on_the_error_of_the_shard() {
    let a = create_test_shard(&[b"a0"]);
    let b = shard_with_index(vec![SampleMetadata { offset: 1, size: 4 }], b"data");
    let reader = MultiShardReader::new(vec![mapped(&a, "a"), mapped(&b, "b")]).unwrap();
    assert_eq!(
        reader.get_sample(1),
        Err(ReaderError::Mmap(MmapError::OutOfBounds {
            offset: b.len() - 3,
            len: 4,
            size: b.len()
        }))
    );
}

#[test]
fn loader_reads_by_global_index() {
    let a = create_test_shard(&[b"a0", b"a1"]);
    let b = create_test_shard(&[b"b0"]);
    let loader = DataLoader::new(vec![mapped(&a, "a"), mapped(&b, "b")]).unwrap();
    assert_eq!(loader.num_shards(), 2);
    assert_eq!(loader.total_samples(), 3);
    assert_eq!(loader.get_sample(1), Ok(&b"a1"[..]));
    assert_eq!(
        loader.get_sample(3),
        Err(DataLoaderError::Reader(ReaderError::IndexOutOfBounds(3)))
    );
    assert_eq!(loader.get_batch(&[2, 0]), Ok(vec![&b"b0"[..], b"a0"]));
    assert_eq!(
        loader.get_batch(&[2, 8, 9]),
        Err(DataLoaderError::Reader(ReaderError::IndexOutOfBounds(8)))
    );
}

#[test]
fn prefetching_without_a_platform_prefetcher_changes_nothing() {
    let a = create_test_shard(&[b"a0", b"a1"]);
    let b = create_test_shard(&[b"b0"]);
    let mut loader = DataLoader::new(vec![mapped(&a, "a"), mapped(&b, "b")]).unwrap();
    let before: Vec<Vec<u8>> = (0..3).map(|i| loader.get_sample(i).unwrap().to_vec()).collect();
    for count in [0, 1, 5, usize::MAX, 1] {
        assert_eq!(loader.prefetch_next(count), Ok(()));
        assert_eq!(loader.wait_prefetch(), Ok(()));
        let after: Vec<Vec<u8>> = (0..3).map(|i| loader.get_sample(i).unwrap().to_vec()).collect();
        assert_eq!(before, after);
        assert_eq!(
            loader.get_sample(3),
            Err(DataLoaderError::Reader(ReaderError::IndexOutOfBounds(3)))
        );
    }
    assert_eq!(loader.total_samples(), 3);
    assert_eq!(loader.num_shards(), 2);
}

#[test]
fn prefetch_hands_over_the_next_shards_by_position() {
    let files: Vec<Vec<u8>> = (0..5).map(|_| create_test_shard(&[b"s0", b"s1", b"s2"])).collect();
    let names = ["shard-0", "shard-1", "shard-2", "shard-3", "shard-4"];
    let shards = files.iter().zip(names).map(|(file, name)| mapped(file, name)).collect();
    let requests = Arc::new(Mutex::new(Vec::new()));
    let waits = Arc::new(Mutex::new(0));
    let prefetcher = Recording { requests: requests.clone(), waits: waits.clone(), fail: false };
    let mut loader = DataLoader::with_prefetcher(shards, prefetcher).unwrap();

    assert_eq!(loader.next_range(2), (0, 2));
    assert_eq!(loader.prefetch_next(2), Ok(()));
    assert_eq!(loader.next_range(0), (2, 2));
    assert_eq!(loader.prefetch_next(0), Ok(()));
    assert_eq!(loader.next_range(1), (2, 3));
    assert_eq!(loader.prefetch_next(1), Ok(()));
    assert_eq!(loader.next_range(usize::MAX), (3, 5));
    assert_eq!(loader.prefetch_next(usize::MAX), Ok(()));
    assert_eq!(loader.next_range(3), (5, 5));
    assert_eq!(loader.prefetch_next(3), Ok(()));
    assert_eq!(loader.wait_prefetch(), Ok(()));

    let expected: Vec<Vec<String>> = vec![
        vec!["shard-0".to_string(), "shard-1".to_string()],
        vec![],
        vec!["shard-2".to_string()],
        vec!["shard-3".to_string(), "shard-4".to_string()],
    ];
    assert_eq!(*requests.lock().unwrap(), expected);
    assert_eq!(*waits.lock().unwrap(), 1);
}

#[test]
fn failed_prefetch_leaves_the_cursor() {
    let files: Vec<Vec<u8>> = (0..3).map(|_| create_test_shard(&[b"s0"])).collect();
    let names = ["shard-0", "shard-1", "shard-2"];
    let shards = files.iter().zip(names).map(|(file, name)| mapped(file, name)).collect();
    let requests = Arc::new(Mutex::new(Vec::new()));
    let waits = Arc::new(Mutex::new(0));
    let prefetcher = Recording { requests: requests.clone(), waits: waits.clone(), fail: true };
    let mut loader = DataLoader::with_prefetcher(shards, prefetcher).unwrap();

    assert_eq!(
        loader.prefetch_next(2),
        Err(DataLoaderError::Prefetch(PrefetchError::Io("disk".to_string())))
    );
    assert_eq!(loader.next_range(2), (0, 2));
    assert_eq!(
        loader.wait_prefetch(),
        Err(DataLoaderError::Prefetch(PrefetchError::NotSupported))
    );
    assert_eq!(loader.get_sample(2), Ok(&b"s0"[..]));

    assert_eq!(loader.record_prefetch(2, Ok(())), Ok(()));
    assert_eq!(loader.next_range(2), (2, 3));
    assert_eq!(
        loader.record_prefetch(2, Err(PrefetchError::NotSupported)),
        Err(DataLoaderError::Prefetch(PrefetchError::NotSupported))
    );
    assert_eq!(loader.next_range(2), (2, 3));
    assert_eq!(loader.record_prefetch(2, Ok(())), Ok(()));
    assert_eq!(loader.next_range(2), (3, 3));
}
