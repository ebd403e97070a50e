use aira_tiff::metadata::{Layout, Metadata, Sample};
use aira_tiff::{Decoder, Entry, ErrorKind, SampleFormat, Tag};

/// A classic little-endian TIFF with one directory at offset 8 holding `entries`, given as
/// (tag, datatype, count, value bytes); values longer than 4 bytes are stored after the
/// directory.
fn tiff_with(entries: &[(u16, u16, u32, Vec<u8>)]) -> Vec<u8> {
    let mut out = b"II\x2a\x00\x08\x00\x00\x00".to_vec();
    let ifd_len = 2 + 12 * entries.len() + 4;
    let mut extra: Vec<u8> = Vec::new();
    out.extend_from_slice(&(entries.len() as u16).to_le_bytes());
    for (tag, dtype, count, value) in entries {
        out.extend_from_slice(&tag.to_le_bytes());
        out.extend_from_slice(&dtype.to_le_bytes());
        out.extend_from_slice(&count.to_le_bytes());
        if value.len() <= 4 {
            let mut slot = value.clone();
            slot.resize(4, 0);
            out.extend_from_slice(&slot);
        } else {
            let offset = (8 + ifd_len + extra.len()) as u32;
            out.extend_from_slice(&offset.to_le_bytes());
            extra.extend_from_slice(value);
        }
    }
    out.extend_from_slice(&0u32.to_le_bytes());
    out.extend_from_slice(&extra);
    out
}

fn short(v: u16) -> Vec<u8> {
    v.to_le_bytes().to_vec()
}

fn longs(vs: &[u32]) -> Vec<u8> {
    vs.iter().flat_map(|v| v.to_le_bytes()).collect()
}

fn metadata_of(data: Vec<u8>) -> Result<Metadata, aira_tiff::Error> {
    let decoder = Decoder::new(data).unwrap();
    let mut directories = decoder.directories();
    let directory = directories.next_directory().unwrap().unwrap();
    Metadata::from_decoder(directory)
}

fn strips_image(rows_per_strip: u32, strips: u32) -> Vec<(u16, u16, u32, Vec<u8>)> {
    let offsets: Vec<u32> = (0..strips).map(|i| 1000 + 100 * i).collect();
    let counts: Vec<u32> = (0..strips).map(|_| 100).collect();
    vec![
        (Tag::IMAGE_WIDTH, 3, 1, short(10)),
        (Tag::IMAGE_LENGTH, 4, 1, longs(&[20])),
        (Tag::PHOTOMETRIC_INTERPRETATION, 3, 1, short(1)),
        (Tag::ROWS_PER_STRIP, 3, 1, short(rows_per_strip as u16)),
        (Tag::STRIP_OFFSETS, 4, strips, longs(&offsets)),
        (Tag::STRIP_BYTE_COUNTS, 4, strips, longs(&counts)),
    ]
}

#[test]
fn strips_metadata_and_chunks() {
    let mut entries = strips_image(8, 3);
    entries.push((Tag::ARTIST, 2, 4, b"Ann\0".to_vec()));
    entries.push((40000, 3, 2, [7u16.to_le_bytes(), 9u16.to_le_bytes()].concat()));
    let metadata = metadata_of(tiff_with(&entries)).unwrap();
    assert_eq!(metadata.dimensions(), (10, 20));
    assert_eq!(metadata.layout(), Layout::Strips { length: 8 });
    assert_eq!(metadata.chunk_size(), (10, 8));
    assert_eq!(metadata.chunks_count(), 3);
    assert_eq!(metadata.artist(), Some("Ann"));
    assert_eq!(metadata.copyright(), None);
    assert_eq!(metadata.samples(), [Sample::new(SampleFormat(SampleFormat::UNSIGNED), 1)]);
    assert_eq!(metadata.compression().0, 1);
    assert_eq!(metadata.predictor().0, 1);
    assert_eq!(metadata.configuration().0, 1);
    assert_eq!(metadata.subfile_type().to_u32(), 0);
    assert!(metadata.resolution().is_none());
    match metadata.custom_entry(Tag(40000)) {
        Some(Entry::U16(values)) => assert_eq!(values, &vec![7, 9]),
        _ => panic!("custom entry missing"),
    }
    assert!(metadata.custom_entry(Tag(40001)).is_none());

    let mut chunks = metadata.chunks();
    assert_eq!(chunks.len(), 3);
    let first = chunks.next().unwrap();
    assert_eq!((first.origin, first.size, first.offset, first.byte_count), ((0, 0), (10, 8), 1000, 100));
    let last = chunks.next_back().unwrap();
    assert_eq!((last.origin, last.size, last.offset), ((0, 16), (10, 4), 1200));
    let middle = chunks.next().unwrap();
    assert_eq!((middle.origin, middle.size), ((0, 8), (10, 8)));
    assert_eq!(chunks.len(), 0);
    assert!(chunks.next().is_none());
    assert!(chunks.next_back().is_none());
}

#[test]
fn tiles_metadata_and_chunk_formulas() {
    let tiles = 48u32;
    let offsets: Vec<u32> = (0..tiles).collect();
    let entries = vec![
        (Tag::IMAGE_WIDTH, 3, 1, short(490)),
        (Tag::IMAGE_LENGTH, 3, 1, short(367)),
        (Tag::BITS_PER_SAMPLE, 3, 3, [8u16, 8, 8].iter().flat_map(|v| v.to_le_bytes()).collect()),
        (Tag::PHOTOMETRIC_INTERPRETATION, 3, 1, short(2)),
        (Tag::SAMPLES_PER_PIXEL, 3, 1, short(3)),
        (Tag::XRESOLUTION, 5, 1, longs(&[314, 1])),
        (Tag::YRESOLUTION, 5, 1, longs(&[314, 1])),
        (Tag::TILE_WIDTH, 3, 1, short(32)),
        (Tag::TILE_LENGTH, 3, 1, short(128)),
        (Tag::TILE_OFFSETS, 4, tiles, longs(&offsets)),
        (Tag::TILE_BYTE_COUNTS, 4, tiles, longs(&offsets)),
    ];
    let metadata = metadata_of(tiff_with(&entries)).unwrap();
    assert_eq!(metadata.dimensions(), (490, 367));
    assert_eq!(metadata.layout(), Layout::Tiles { width: 32, length: 128 });
    assert_eq!(metadata.layout().expected_chunks_count(490, 367), 48);
    assert_eq!(metadata.chunk_size(), (32, 128));
    assert_eq!(metadata.chunks_count(), 48);
    assert_eq!(metadata.samples(), [Sample::new(SampleFormat(SampleFormat::UNSIGNED), 8); 3]);
    let resolution = metadata.resolution().unwrap();
    assert!(resolution.pixels_per_unit.0 == aira_tiff::Ratio::new(314, 1));
    assert_eq!(resolution.unit.0, 2);

    let mut chunks = metadata.chunks();
    let mut seen = 0;
    while let Some(chunk) = chunks.next() {
        let (col, row) = (seen % 16, seen / 16);
        assert_eq!(chunk.origin, (col * 32, row * 128));
        let width = if col == 15 { 490 - 15 * 32 } else { 32 };
        let height = if row == 2 { 367 - 256 } else { 128 };
        assert_eq!(chunk.size, (width, height));
        assert_eq!(chunk.offset, seen as u64);
        seen += 1;
    }
    assert_eq!(seen, 48);
}

#[test]
fn build_fails_with_both_layouts() {
    let mut entries = strips_image(8, 3);
    entries.push((Tag::TILE_WIDTH, 3, 1, short(16)));
    let err = metadata_of(tiff_with(&entries)).err().unwrap();
    assert_eq!(err.kind, ErrorKind::AmbiguousLayout);
}

#[test]
fn build_fails_without_required_tags() {
    let entries: Vec<_> = strips_image(8, 3).into_iter().filter(|e| e.0 != Tag::IMAGE_WIDTH).collect();
    let err = metadata_of(tiff_with(&entries)).err().unwrap();
    assert_eq!(err.kind, ErrorKind::MissingRequiredTag(Tag(Tag::IMAGE_WIDTH)));

    let entries: Vec<_> = strips_image(8, 3)
        .into_iter()
        .filter(|e| e.0 != Tag::PHOTOMETRIC_INTERPRETATION)
        .collect();
    let err = metadata_of(tiff_with(&entries)).err().unwrap();
    assert_eq!(err.kind, ErrorKind::MissingRequiredTag(Tag(Tag::PHOTOMETRIC_INTERPRETATION)));
}

#[test]
fn build_fails_with_too_few_chunks() {
    let err = metadata_of(tiff_with(&strips_image(8, 2))).err().unwrap();
    assert_eq!(err.kind, ErrorKind::TooFewChunks { actual: 2, expected: 3 });
    // More offsets than needed are accepted.
    let metadata = metadata_of(tiff_with(&strips_image(8, 4))).unwrap();
    assert_eq!(metadata.chunks_count(), 4);
}

#[test]
fn invalid_entries_are_reported_with_their_tag() {
    let mut entries = strips_image(8, 3);
    entries[0] = (Tag::IMAGE_WIDTH, 1, 1, vec![10]);
    let err = metadata_of(tiff_with(&entries)).err().unwrap();
    assert_eq!(err.kind, ErrorKind::UnexpectedDType(aira_tiff::DType::Byte));
    assert_eq!(err.context, Some(Tag(Tag::IMAGE_WIDTH)));

    let mut entries = strips_image(8, 3);
    entries.push((Tag::SOFTWARE, 2, 3, b"abc".to_vec()));
    let err = metadata_of(tiff_with(&entries)).err().unwrap();
    assert_eq!(err.kind, ErrorKind::InvalidString);
    assert_eq!(err.context, Some(Tag(Tag::SOFTWARE)));
}

#[test]
fn zero_dimensions_and_mismatches_are_refused() {
    let mut entries = strips_image(8, 3);
    entries[3] = (Tag::ROWS_PER_STRIP, 3, 1, short(0));
    assert_eq!(
        metadata_of(tiff_with(&entries)).err().unwrap().kind,
        ErrorKind::ZeroValue(Tag(Tag::ROWS_PER_STRIP))
    );

    let mut entries = strips_image(8, 3);
    entries[5] = (Tag::STRIP_BYTE_COUNTS, 4, 2, longs(&[1, 2]));
    assert_eq!(
        metadata_of(tiff_with(&entries)).err().unwrap().kind,
        ErrorKind::ByteCountsMismatch { offsets: 3, byte_counts: 2 }
    );

    let mut entries = strips_image(8, 3);
    entries.push((Tag::SAMPLES_PER_PIXEL, 3, 1, short(2)));
    entries.push((Tag::BITS_PER_SAMPLE, 3, 1, short(8)));
    assert_eq!(
        metadata_of(tiff_with(&entries)).err().unwrap().kind,
        ErrorKind::SamplesMismatch { values: 1, samples_per_pixel: 2 }
    );

    let mut entries = strips_image(8, 3);
    entries.push((Tag::XRESOLUTION, 5, 1, longs(&[1, 1])));
    assert_eq!(metadata_of(tiff_with(&entries)).err().unwrap().kind, ErrorKind::IncompleteResolution);
}
