use aira_tiff::predictor::horizontal::{decode_u8, IntPredictor};
use aira_tiff::predictor::rows::{FloatPredictorReader, IntegerPredictorReader, IntPredictorReader};
use aira_tiff::{ByteOrder, ErrorKind};

fn ones(bytes_per_sample: usize, count: usize, endian: ByteOrder) -> Vec<u8> {
    let mut row = Vec::new();
    for _ in 0..count {
        let mut one = vec![0u8; bytes_per_sample];
        match endian {
            ByteOrder::BigEndian => one[bytes_per_sample - 1] = 1,
            ByteOrder::LittleEndian => one[0] = 1,
        }
        row.extend_from_slice(&one);
    }
    row
}

fn native_values(bytes: &[u8], bytes_per_sample: usize) -> Vec<u64> {
    bytes
        .chunks(bytes_per_sample)
        .map(|c| match bytes_per_sample {
            1 => c[0] as u64,
            2 => u16::from_ne_bytes([c[0], c[1]]) as u64,
            4 => u32::from_ne_bytes([c[0], c[1], c[2], c[3]]) as u64,
            _ => u64::from_ne_bytes([c[0], c[1], c[2], c[3], c[4], c[5], c[6], c[7]]),
        })
        .collect()
}

fn check_reader(endian: ByteOrder, bytes_per_sample: u16) {
    let bps = bytes_per_sample as usize;
    let row = ones(bps, 10, endian);
    let mut values = vec![0u8; 10 * bps];

    let mut reader = IntegerPredictorReader::new(row.clone(), endian, 10, 1, bytes_per_sample).unwrap();
    reader.read_exact(&mut values).unwrap();
    assert_eq!(native_values(&values, bps), [1, 2, 3, 4, 5, 6, 7, 8, 9, 10]);

    let mut reader = IntegerPredictorReader::new(row, endian, 5, 2, bytes_per_sample).unwrap();
    reader.read_exact(&mut values).unwrap();
    assert_eq!(native_values(&values, bps), [1, 1, 2, 2, 3, 3, 4, 4, 5, 5]);
}

#[test]
fn read_u8_little_endian() {
    check_reader(ByteOrder::LittleEndian, 1);
}

#[test]
fn read_u8_big_endian() {
    check_reader(ByteOrder::BigEndian, 1);
}

#[test]
fn read_u16_little_endian() {
    check_reader(ByteOrder::LittleEndian, 2);
}

#[test]
fn read_u16_big_endian() {
    check_reader(ByteOrder::BigEndian, 2);
}

#[test]
fn read_u32_little_endian() {
    check_reader(ByteOrder::LittleEndian, 4);
}

#[test]
fn read_u32_big_endian() {
    check_reader(ByteOrder::BigEndian, 4);
}

#[test]
fn read_u64_little_endian() {
    check_reader(ByteOrder::LittleEndian, 8);
}

#[test]
fn read_u64_big_endian() {
    check_reader(ByteOrder::BigEndian, 8);
}

#[test]
fn reader_f32() {
    let row = [
        0x3f, 0x01, 0x00, 0x00, 0x40, 0x80, 0x40, 0x40, 0x80, 0x00, 0x00, 0x00, 0x00, 0x00,
        0x00, 0x00,
    ];
    let mut reader = FloatPredictorReader::new(row.to_vec(), 4, 1, 4);

    let mut bytes = [0u8; 16];
    reader.read_exact(&mut bytes).unwrap();
    let values: Vec<f32> =
        bytes.chunks(4).map(|c| f32::from_ne_bytes([c[0], c[1], c[2], c[3]])).collect();

    assert_eq!(values, [1f32, 2f32, 3f32, 4f32]);
}

#[test]
fn reader_f64() {
    let row = [
        0x3f, 0x01, 0x00, 0x00, 0xb0, 0x10, 0x08, 0x08, 0xf0, 0x00, 0x00, 0x00, 0x00, 0x00,
        0x00, 0x00, 0x00, 0x00, 0x00, 0x00, 0x00, 0x00, 0x00, 0x00, 0x00, 0x00, 0x00, 0x00,
        0x00, 0x00, 0x00, 0x00,
    ];
    let mut reader = FloatPredictorReader::new(row.to_vec(), 4, 1, 8);

    let mut bytes = [0u8; 32];
    reader.read_exact(&mut bytes).unwrap();
    let values: Vec<f64> = bytes
        .chunks(8)
        .map(|c| f64::from_ne_bytes([c[0], c[1], c[2], c[3], c[4], c[5], c[6], c[7]]))
        .collect();

    assert_eq!(values, [1f64, 2f64, 3f64, 4f64]);
}

#[test]
fn int_predictor_prefix_sums_per_channel() {
    let cases: [(u16, usize, Vec<u8>); 4] = [
        (1, 16, (1..=16).collect()),
        (2, 16, vec![1, 1, 2, 2, 3, 3, 4, 4, 5, 5, 6, 6, 7, 7, 8, 8]),
        (3, 15, vec![1, 1, 1, 2, 2, 2, 3, 3, 3, 4, 4, 4, 5, 5, 5]),
        (5, 15, vec![1, 1, 1, 1, 1, 2, 2, 2, 2, 2, 3, 3, 3, 3, 3]),
    ];
    for (samples, len, expected) in cases {
        for bps in [1u16, 2, 4, 8] {
            for endian in [ByteOrder::LittleEndian, ByteOrder::BigEndian] {
                let predictor = IntPredictor::new(endian, samples, bps).unwrap();
                let mut row = ones(bps as usize, len, endian);
                predictor.decode(&mut row);
                let got = native_values(&row, bps as usize);
                let want: Vec<u64> = expected.iter().map(|&v| v as u64).collect();
                assert_eq!(got, want);
            }
        }
    }
}

#[test]
fn fixed_kernels_match_dynamic_ones() {
    let row: Vec<u8> = (0..48u32).map(|i| (i * 37 % 256) as u8).collect();
    for samples in 1..=4u16 {
        let mut fixed = row.clone();
        match samples {
            1 => decode_u8::<1>(&mut fixed),
            2 => decode_u8::<2>(&mut fixed),
            3 => decode_u8::<3>(&mut fixed),
            _ => decode_u8::<4>(&mut fixed),
        }
        let mut dynamic = row.clone();
        IntPredictor::new(ByteOrder::BigEndian, samples, 1).unwrap().decode(&mut dynamic);
        assert_eq!(fixed, dynamic);
    }
}

#[test]
fn wrapping_accumulation() {
    let predictor = IntPredictor::new(ByteOrder::LittleEndian, 1, 1).unwrap();
    let mut row = vec![200u8, 100, 1];
    predictor.decode(&mut row);
    assert_eq!(row, [200, 44, 45]);
}

#[test]
fn unsupported_predictor_layouts() {
    let err = IntPredictor::new(ByteOrder::LittleEndian, 1, 3).err().unwrap();
    assert_eq!(err.kind, ErrorKind::UnsupportedPredictor { samples: 1, bytes_per_sample: 3 });
    assert!(IntPredictor::new(ByteOrder::LittleEndian, 0, 1).is_err());
    assert!(IntPredictorReader::new(vec![], ByteOrder::BigEndian, 4, 1, 16).is_err());
}

#[test]
fn truncated_row_is_an_error() {
    let mut reader = IntPredictorReader::new(vec![1, 1, 1], ByteOrder::LittleEndian, 2, 1, 1).unwrap();
    let mut two = [0u8; 2];
    reader.read_exact(&mut two).unwrap();
    assert_eq!(two, [1, 2]);
    let mut one = [0u8; 1];
    assert_eq!(reader.read_exact(&mut one).err().unwrap().kind, ErrorKind::UnexpectedEof);
}
