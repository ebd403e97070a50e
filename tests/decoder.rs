use aira_tiff::decoder::{Decoder, Entries};
use aira_tiff::{ByteOrder, DType, ErrorKind, Ratio, Tag, Version};

/// A classic little-endian TIFF with one directory at offset 8 holding `entries`, given as
/// (tag, datatype, count, value bytes); values longer than 4 bytes are stored after the
/// directory.
fn classic_le(entries: &[(u16, u16, u32, Vec<u8>)]) -> Vec<u8> {
    let mut out = b"II\x2a\x00\x08\x00\x00\x00".to_vec();
    let ifd_len = 2 + 12 * entries.len() + 4;
    let mut extra: Vec<u8> = Vec::new();
    out.extend_from_slice(&(entries.len() as u16).to_le_bytes());
    for (tag, dtype, count, value) in entries {
        out.extend_from_slice(&tag.to_le_bytes());
        out.extend_from_slice(&dtype.to_le_bytes());
        out.extend_from_slice(&count.to_le_bytes());
        if value.len() <= 4 {
            let mut slot = value.clone();
            slot.resize(4, 0);
            out.extend_from_slice(&slot);
        } else {
            let offset = (8 + ifd_len + extra.len()) as u32;
            out.extend_from_slice(&offset.to_le_bytes());
            extra.extend_from_slice(value);
        }
    }
    out.extend_from_slice(&0u32.to_le_bytes());
    out.extend_from_slice(&extra);
    out
}

fn next_entry_tag(entries: &mut Entries<'_>) -> Option<u16> {
    entries.next_entry().unwrap().map(|e| e.tag.0)
}

#[test]
fn create_a_decoder_for_classic_tiff() {
    let big_endian_header: &[u8] = b"\x4d\x4d\x00\x2a";
    let decoder = Decoder::new(big_endian_header.to_vec()).unwrap();
    assert_eq!(decoder.byteorder(), ByteOrder::BigEndian);
    assert_eq!(decoder.version(), Version::Classic);

    let little_endian_header: &[u8] = b"\x49\x49\x2a\x00";
    let decoder = Decoder::new(little_endian_header.to_vec()).unwrap();
    assert_eq!(decoder.byteorder(), ByteOrder::LittleEndian);
    assert_eq!(decoder.version(), Version::Classic);
}

#[test]
fn create_a_decoder_for_big_tiff() {
    let big_endian_header: &[u8] = b"\x4d\x4d\x00\x2b\x00\x08\x00\x00\x08\x00\x00";
    let decoder = Decoder::new(big_endian_header.to_vec()).unwrap();
    assert_eq!(decoder.byteorder(), ByteOrder::BigEndian);
    assert_eq!(decoder.version(), Version::BigTiff);

    let little_endian_header: &[u8] = b"\x49\x49\x2b\x00\x08\x00\x00\x00";
    let decoder = Decoder::new(little_endian_header.to_vec()).unwrap();
    assert_eq!(decoder.byteorder(), ByteOrder::LittleEndian);
    assert_eq!(decoder.version(), Version::BigTiff);
}

#[test]
fn header_rejections() {
    let kind = |b: &[u8]| Decoder::new(b.to_vec()).err().unwrap().kind;
    assert_eq!(kind(b"IM\x2a\x00"), ErrorKind::InvalidSignature(b'I', b'M'));
    assert_eq!(kind(b"XX\x2a\x00"), ErrorKind::InvalidSignature(b'X', b'X'));
    assert_eq!(kind(b"II\x2c\x00"), ErrorKind::InvalidVersion(44));
    assert_eq!(kind(b"MM\x00\x2a"[..3].as_ref()), ErrorKind::UnexpectedEof);
    assert_eq!(kind(b"I"), ErrorKind::UnexpectedEof);
    assert_eq!(kind(b"II\x2b\x00\x04\x00\x00\x00"), ErrorKind::InvalidBigTiffHeader(4, 0));
    assert_eq!(kind(b"MM\x00\x2b\x00\x08\x00\x01"), ErrorKind::InvalidBigTiffHeader(8, 1));
    assert_eq!(kind(b"MM\x00\x2b\x00\x08"), ErrorKind::UnexpectedEof);
}

#[test]
fn directory_walk_stops_at_zero_offset() {
    let data = classic_le(&[(256, 3, 1, vec![10, 0]), (257, 3, 1, vec![20, 0])]);
    let decoder = Decoder::new(data).unwrap();
    let mut directories = decoder.directories();
    let directory = directories.next_directory().unwrap().unwrap();
    assert_eq!(directory.offset, 8);
    assert_eq!(directory.entries_count, 2);
    assert_eq!(directory.next_offset, 0);
    assert!(directories.next_directory().unwrap().is_none());
    assert!(directories.next_directory().unwrap().is_none());
}

#[test]
fn directory_chain_is_followed() {
    // Two directories: the first at 8 with one entry links to a second one with no entry.
    let mut data = classic_le(&[(256, 3, 1, vec![1, 0])]);
    let second = data.len() as u32;
    let link = 8 + 2 + 12;
    data[link..link + 4].copy_from_slice(&second.to_le_bytes());
    data.extend_from_slice(&[0, 0, 0, 0, 0, 0]);
    let decoder = Decoder::new(data).unwrap();
    let mut directories = decoder.directories();
    let first = directories.next_directory().unwrap().unwrap();
    assert_eq!(first.next_offset, second as u64);
    let last = directories.next_directory().unwrap().unwrap();
    assert_eq!(last.offset, second as u64);
    assert_eq!(last.entries_count, 0);
    assert!(directories.next_directory().unwrap().is_none());
}

#[test]
fn directory_offset_past_the_end_is_an_error() {
    let mut data = classic_le(&[]);
    data[4..8].copy_from_slice(&1000u32.to_le_bytes());
    let decoder = Decoder::new(data).unwrap();
    let mut directories = decoder.directories();
    assert_eq!(directories.next_directory().err().unwrap().kind, ErrorKind::UnexpectedEof);
}

#[test]
fn entries_inline_and_indirect() {
    let data = classic_le(&[
        (256, 3, 1, vec![0x34, 0x12]),
        (273, 4, 2, vec![1, 0, 0, 0, 2, 0, 0, 0]),
        (282, 5, 1, vec![72, 0, 0, 0, 1, 0, 0, 0]),
        (50000, 8, 2, vec![0xfe, 0xff, 3, 0]),
    ]);
    let decoder = Decoder::new(data).unwrap();
    let mut directories = decoder.directories();
    let directory = directories.next_directory().unwrap().unwrap();
    let mut entries = directory.entries();

    let width = entries.next_entry().unwrap().unwrap();
    assert_eq!(width.tag, Tag(Tag::IMAGE_WIDTH));
    assert_eq!(width.dtype, DType::Short);
    // The value fits in the slot: its offset is that of the slot, 8 + 2 + 8.
    assert_eq!(width.offset, 18);
    assert_eq!(width.decode::<u16>().unwrap(), 0x1234);
    assert_eq!(width.decode::<u32>().err().unwrap().kind, ErrorKind::UnexpectedDType(DType::Short));

    let offsets = entries.next_entry().unwrap().unwrap();
    assert_eq!(offsets.count, 2);
    assert_eq!(offsets.decode_vec::<u32>().unwrap(), vec![1, 2]);
    assert_eq!(
        offsets.decode::<u32>().err().unwrap().kind,
        ErrorKind::CountMismatch { count: 2, expected: 1 }
    );
    let mut buffer = [0u32; 2];
    offsets.decode_into(&mut buffer).unwrap();
    assert_eq!(buffer, [1, 2]);

    let resolution = entries.next_entry().unwrap().unwrap();
    let ratio = resolution.decode::<Ratio<u32>>().unwrap();
    assert_eq!((ratio.num, ratio.den), (72, 1));
    assert_eq!(resolution.decode::<(u32, u32)>().unwrap(), (72, 1));

    let signed = entries.next_entry().unwrap().unwrap();
    assert_eq!(signed.decode_vec::<i16>().unwrap(), vec![-2, 3]);
    assert_eq!(next_entry_tag(&mut entries), None);
}

#[test]
fn unknown_datatype_is_an_error() {
    let data = classic_le(&[(256, 14, 1, vec![0, 0])]);
    let decoder = Decoder::new(data).unwrap();
    let mut directories = decoder.directories();
    let directory = directories.next_directory().unwrap().unwrap();
    let mut entries = directory.entries();
    assert_eq!(entries.next_entry().err().unwrap().kind, ErrorKind::UnknownDType(14));
}

#[test]
fn big_tiff_directory_layout() {
    // Big TIFF, little-endian: header, first directory at 16, one entry of 20 bytes.
    let mut data = b"II\x2b\x00\x08\x00\x00\x00".to_vec();
    data.extend_from_slice(&16u64.to_le_bytes());
    data.extend_from_slice(&1u64.to_le_bytes());
    data.extend_from_slice(&256u16.to_le_bytes());
    data.extend_from_slice(&16u16.to_le_bytes());
    data.extend_from_slice(&1u64.to_le_bytes());
    data.extend_from_slice(&77u64.to_le_bytes());
    data.extend_from_slice(&0u64.to_le_bytes());
    let decoder = Decoder::new(data).unwrap();
    let mut directories = decoder.directories();
    let directory = directories.next_directory().unwrap().unwrap();
    assert_eq!(directory.offset, 16);
    assert_eq!(directory.entries_count, 1);
    let mut entries = directory.entries();
    let entry = entries.next_entry().unwrap().unwrap();
    assert_eq!(entry.dtype, DType::BigLong);
    // The eight-byte value fits in the slot of a Big TIFF entry.
    assert_eq!(entry.offset, 16 + 8 + 12);
    assert_eq!(entry.decode::<u64>().unwrap(), 77);
    assert!(entries.next_entry().unwrap().is_none());
    assert!(directories.next_directory().unwrap().is_none());
}

#[test]
fn directory_size_overflow_is_an_error() {
    // Big TIFF whose directory claims more entries than 64-bit positions can reach.
    let mut data = b"MM\x00\x2b\x00\x08\x00\x00".to_vec();
    data.extend_from_slice(&16u64.to_be_bytes());
    data.extend_from_slice(&(u64::MAX / 4).to_be_bytes());
    let decoder = Decoder::new(data).unwrap();
    let mut directories = decoder.directories();
    assert_eq!(directories.next_directory().err().unwrap().kind, ErrorKind::Overflow);
}

#[test]
fn signature_detection() {
    assert_eq!(ByteOrder::try_from_signature(*b"MM"), Some(ByteOrder::BigEndian));
    assert_eq!(ByteOrder::try_from_signature(*b"II"), Some(ByteOrder::LittleEndian));
    assert_eq!(ByteOrder::try_from_signature(*b"MI"), None);
}
