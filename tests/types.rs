use std::cmp::Ordering;

use aira_tiff::ratio::Integer;
use aira_tiff::{
    Compression, DType, Interpretation, PlanarConfiguration, Predictor, Ratio, ResolutionUnit,
    SampleFormat, SubfileType, Tag, Version,
};

#[test]
fn dtype_fmt_debug() {
    assert_eq!(DType::Byte.debug_name(), "Byte(1)");
    assert_eq!(DType::Ascii.debug_name(), "Ascii(2)");
    assert_eq!(DType::Short.debug_name(), "Short(3)");
    assert_eq!(DType::Long.debug_name(), "Long(4)");
    assert_eq!(DType::Rational.debug_name(), "Rational(5)");
    assert_eq!(DType::SignedByte.debug_name(), "SignedByte(6)");
    assert_eq!(DType::Undefined.debug_name(), "Undefined(7)");
    assert_eq!(DType::SignedShort.debug_name(), "SignedShort(8)");
    assert_eq!(DType::SignedLong.debug_name(), "SignedLong(9)");
    assert_eq!(DType::SignedRational.debug_name(), "SignedRational(10)");
    assert_eq!(DType::Float.debug_name(), "Float(11)");
    assert_eq!(DType::Double.debug_name(), "Double(12)");
    assert_eq!(DType::Ifd.debug_name(), "Ifd(13)");
    assert_eq!(DType::BigLong.debug_name(), "BigLong(16)");
    assert_eq!(DType::BigSignedLong.debug_name(), "BigSignedLong(17)");
    assert_eq!(DType::BigIfd.debug_name(), "BigIfd(18)");
}

#[test]
fn floored_division() {
    let a = 8_i32;
    let b = 3_i32;

    assert_eq!(a.div_mod_floor(b), (2, 2));
    assert_eq!(a.div_mod_floor(-b), (-3, -1));
    assert_eq!((-a).div_mod_floor(b), (-3, 1));
    assert_eq!((-a).div_mod_floor(-b), (2, -2));
}

#[test]
fn floored_division_unsigned_and_exact() {
    assert_eq!(17_u32.div_mod_floor(5), (3, 2));
    assert_eq!((-9_i32).div_mod_floor(3), (-3, 0));
    assert_eq!(i32::MIN.div_mod_floor(1), (i32::MIN, 0));
    assert_eq!(<i32 as Integer>::zero(), 0);
}

#[test]
fn sample_format_size() {
    let expected_size = std::mem::size_of::<u16>();
    assert_eq!(std::mem::size_of::<SampleFormat>(), expected_size);
}

#[test]
fn subfile_type_size() {
    let expected_size = std::mem::size_of::<u32>();
    assert_eq!(std::mem::size_of::<SubfileType>(), expected_size);
}

#[test]
fn dtype_sizes_and_codes() {
    assert_eq!(DType::Byte.size(), 1);
    assert_eq!(DType::SignedShort.size(), 2);
    assert_eq!(DType::Float.size(), 4);
    assert_eq!(DType::Ifd.size(), 4);
    assert_eq!(DType::Rational.size(), 8);
    assert_eq!(DType::BigIfd.size(), 8);
    assert_eq!(DType::try_from_u16(16), Some(DType::BigLong));
    assert_eq!(DType::try_from_u16(14), None);
    assert_eq!(DType::try_from_u16(0), None);
    assert_eq!(DType::BigSignedLong.code(), 17);
    assert_eq!(DType::Undefined.name(), "Undefined");
}

#[test]
fn version_words() {
    assert_eq!(Version::try_from_u16(42), Some(Version::Classic));
    assert_eq!(Version::try_from_u16(43), Some(Version::BigTiff));
    assert_eq!(Version::try_from_u16(44), None);
    assert_eq!(Version::Classic.entry_size(), 12);
    assert_eq!(Version::BigTiff.entry_size(), 20);
}

#[test]
fn names_of_codes() {
    assert_eq!(Tag(Tag::IMAGE_WIDTH).name(), "ImageWidth");
    assert_eq!(Tag(Tag::GEO_KEY_DIRECTORY).name(), "GeoKeyDirectory");
    assert_eq!(Tag(1).name(), "Unknown");
    assert_eq!(Compression(Compression::LEGACY_DEFLATE).name(), "Deflate");
    assert_eq!(Compression(Compression::PACKBITS).name(), "PackBits");
    assert_eq!(Compression(9).name(), "Unknown");
    assert_eq!(Predictor(Predictor::FLOAT).name(), "FloatingPoint");
    assert_eq!(Interpretation(Interpretation::LOGL).name(), "LogL");
    assert_eq!(PlanarConfiguration(2).name(), "Planar");
    assert_eq!(ResolutionUnit(3).name(), "Centimeter");
    assert_eq!(SampleFormat(6).name(), "ComplexFloat");
    assert_eq!(Compression::default().0, Compression::NONE);
    assert_eq!(Predictor::default().0, Predictor::NONE);
    assert_eq!(PlanarConfiguration::default().0, PlanarConfiguration::CHUNKY);
    assert_eq!(ResolutionUnit::default().0, ResolutionUnit::INCH);
    assert_eq!(SampleFormat::default().0, SampleFormat::UNSIGNED);
}

#[test]
fn subfile_type_flags() {
    let t = SubfileType::from_u32(0xff);
    assert_eq!(t.to_u32(), 7);
    assert!(t.is_reduced_image() && t.is_page() && t.is_mask());
    let page = SubfileType::from_u32(SubfileType::PAGE);
    assert!(page.is_page());
    assert!(!page.is_mask());
    assert!(!page.is_reduced_image());
    let both = page.union(SubfileType::from_u32(SubfileType::MASK));
    assert_eq!(both.to_u32(), 6);
    assert_eq!(SubfileType::default().to_u32(), 0);
}

#[test]
fn ratio_equality_by_value() {
    assert!(Ratio::new(1u32, 2u32) == Ratio::new(5u32, 10u32));
    assert!(Ratio::new(1i32, -2i32) == Ratio::new(-1i32, 2i32));
    assert!(Ratio::new(1u32, 3u32) != Ratio::new(1u32, 2u32));
    assert!(Ratio::new(0i32, 0i32) == Ratio::new(0i32, 7i32));
}

#[test]
fn ratio_ordering() {
    assert_eq!(Ratio::new(1u32, 3u32).cmp(&Ratio::new(1u32, 2u32)), Ordering::Less);
    assert_eq!(Ratio::new(7i32, -2i32).cmp(&Ratio::new(-3i32, 1i32)), Ordering::Less);
    assert_eq!(Ratio::new(-7i32, -2i32).cmp(&Ratio::new(3i32, 1i32)), Ordering::Greater);
    // A zero denominator stands for an infinity of the sign of the numerator.
    assert_eq!(Ratio::new(1u32, 0u32).cmp(&Ratio::new(u32::MAX, 1u32)), Ordering::Greater);
    assert_eq!(Ratio::new(-1i32, 0i32).cmp(&Ratio::new(i32::MIN, 1i32)), Ordering::Less);
    assert_eq!(Ratio::new(2u32, 0u32).cmp(&Ratio::new(1u32, 0u32)), Ordering::Equal);
    assert!(Ratio::new(2u32, 3u32) < Ratio::new(3u32, 4u32));
}
