use std::io::Write;

use aira_tiff::compression::DecompressReader;
use aira_tiff::packbits::PackBitsReader;
use aira_tiff::{Compression, ErrorKind};

#[test]
fn decode_packbits() {
    // This data comes from the Apple specification for PackBits compression.
    let packed_data = b"\xFE\xAA\x02\x80\x00\x2A\xFD\xAA\x03\x80\x00\x2A\x22\xF7\xAA";
    let unpacked_data = b"\xAA\xAA\xAA\x80\x00\x2A\xAA\xAA\xAA\xAA\x80\x00\x2A\x22\xAA\xAA\xAA\xAA\xAA\xAA\xAA\xAA\xAA\xAA";

    let mut reader = PackBitsReader::new(packed_data.to_vec());
    let mut output = Vec::new();
    assert_eq!(reader.read_to_end(&mut output).unwrap(), 24);
    assert_eq!(output, unpacked_data);
}

#[test]
fn packbits_partial_reads_and_errors() {
    let packed = b"\xFE\xAA\x80\x02\x01\x02\x03".to_vec();
    let mut reader = PackBitsReader::new(packed);
    let mut buf = [0u8; 2];
    assert_eq!(reader.read(&mut buf).unwrap(), 2);
    assert_eq!(buf, [0xAA, 0xAA]);
    let mut buf = [0u8; 10];
    assert_eq!(reader.read(&mut buf).unwrap(), 4);
    assert_eq!(buf[..4], [0xAA, 1, 2, 3]);
    assert_eq!(reader.read(&mut buf).unwrap(), 0);

    // A run cut short by the end of the data.
    let mut reader = PackBitsReader::new(b"\x05\x01\x02".to_vec());
    let mut output = Vec::new();
    assert_eq!(reader.read_to_end(&mut output).err().unwrap().kind, ErrorKind::UnexpectedEof);
    let mut reader = PackBitsReader::new(b"\xFE".to_vec());
    assert_eq!(reader.read_to_end(&mut output).err().unwrap().kind, ErrorKind::UnexpectedEof);
}

#[test]
fn decompress_none_passes_bytes_through() {
    let mut reader = DecompressReader::new(vec![1, 2, 3], Compression(Compression::NONE)).unwrap();
    let mut buf = [0u8; 5];
    assert_eq!(reader.read(&mut buf).unwrap(), 3);
    assert_eq!(buf[..3], [1, 2, 3]);
    assert_eq!(reader.read(&mut buf).unwrap(), 0);
}

#[test]
fn decompress_packbits_reader() {
    let mut reader =
        DecompressReader::new(b"\xFD\x07\x00\x09".to_vec(), Compression(Compression::PACKBITS)).unwrap();
    let mut buf = [0u8; 8];
    assert_eq!(reader.read(&mut buf).unwrap(), 5);
    assert_eq!(buf[..5], [7, 7, 7, 7, 9]);
}

#[test]
fn decompress_deflate_round_trip() {
    let original: Vec<u8> = (0..1000u32).map(|i| (i * 7 % 251) as u8).collect();
    let mut encoder = flate2::write::ZlibEncoder::new(Vec::new(), flate2::Compression::default());
    encoder.write_all(&original).unwrap();
    let packed = encoder.finish().unwrap();
    for code in [Compression::DEFLATE, Compression::LEGACY_DEFLATE] {
        let mut reader = DecompressReader::new(packed.clone(), Compression(code)).unwrap();
        let mut buf = vec![0u8; 1200];
        assert_eq!(reader.read(&mut buf).unwrap(), 1000);
        assert_eq!(buf[..1000], original[..]);
    }
}

#[test]
fn decompress_invalid_deflate_and_unsupported() {
    let mut reader =
        DecompressReader::new(vec![1, 2, 3, 4], Compression(Compression::DEFLATE)).unwrap();
    let mut buf = [0u8; 4];
    assert_eq!(reader.read(&mut buf).err().unwrap().kind, ErrorKind::InvalidCompressedData);
    let err = DecompressReader::new(vec![], Compression(Compression::LZW)).err().unwrap();
    assert_eq!(err.kind, ErrorKind::UnsupportedCompression(Compression(Compression::LZW)));
}
