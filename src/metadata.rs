//! Metadata of a TIFF directory: the entries of one directory gathered into a validated record.
//!
//! [`MetadataBuilder::push_entry`] files each entry under the field its tag names, and
//! [`MetadataBuilder::build`] checks the whole and applies the defaults. Both are stated over
//! [`BuilderView`], a mathematical picture of the builder: [`update_of`] says which field an
//! entry sets and to what, and [`build_spec`] what `build` returns.
use vstd::prelude::*;

use std::collections::BTreeMap;

use crate::compression::Compression;
use crate::decoder::{self, entry_step, values_at, Decode, Decoder, Directory};
use crate::dtype::DType;
use crate::entry::{ascii_text, holds_values_of, text_from_ascii, values_error, Entry};
use crate::error::{err, Error, ErrorKind};
use crate::interpretation::Interpretation;
use crate::planar_configuration::PlanarConfiguration;
use crate::predictor::Predictor;
use crate::ratio::Ratio;
use crate::resolution_unit::ResolutionUnit;
use crate::sample_format::SampleFormat;
use crate::subfile_type::SubfileType;
use crate::tag::Tag;

verus! {

/// The single value of type `T` that the entry holds, as [`decoder::Entry::decode`] reads it.
pub open spec fn single_value<T: Decode>(e: decoder::Entry) -> Result<T, ErrorKind> {
    if e.count != 1 {
        Err(ErrorKind::CountMismatch { count: e.count, expected: 1 })
    } else if !T::accepts(e.dtype) {
        Err(ErrorKind::UnexpectedDType(e.dtype))
    } else {
        match decoder::bytes_at(e.decoder.spec_data(), e.offset as int, T::width()) {
            None => Err(ErrorKind::UnexpectedEof),
            Some(b) => Ok(T::from_bytes(e.decoder.spec_byteorder(), b)),
        }
    }
}

/// All the values of type `T` that the entry holds, as [`decoder::Entry::decode_vec`] reads
/// them.
pub open spec fn all_values<T: Decode>(e: decoder::Entry) -> Result<Seq<T>, ErrorKind> {
    if !T::accepts(e.dtype) {
        Err(ErrorKind::UnexpectedDType(e.dtype))
    } else {
        match values_at::<T>(
            e.decoder.spec_data(),
            e.decoder.spec_byteorder(),
            e.offset as int,
            e.count as nat,
        ) {
            None => Err(ErrorKind::UnexpectedEof),
            Some(v) => Ok(v),
        }
    }
}

/// A single `SHORT` or `LONG` value, widened to 32 bits.
pub open spec fn widened_u32(e: decoder::Entry) -> Result<u32, ErrorKind> {
    match e.dtype {
        DType::Short => match single_value::<u16>(e) {
            Ok(v) => Ok(v as u32),
            Err(k) => Err(k),
        },
        DType::Long => single_value::<u32>(e),
        _ => Err(ErrorKind::UnexpectedDType(e.dtype)),
    }
}

/// The values of a `SHORT`, `LONG`, `IFD`, `LONG8` or `IFD8` entry, widened to 64 bits.
pub open spec fn widened_u64s(e: decoder::Entry) -> Result<Seq<u64>, ErrorKind> {
    match e.dtype {
        DType::Short => match all_values::<u16>(e) {
            Ok(v) => Ok(Seq::new(v.len(), |i: int| v[i] as u64)),
            Err(k) => Err(k),
        },
        DType::Long | DType::Ifd => match all_values::<u32>(e) {
            Ok(v) => Ok(Seq::new(v.len(), |i: int| v[i] as u64)),
            Err(k) => Err(k),
        },
        DType::BigLong | DType::BigIfd => all_values::<u64>(e),
        _ => Err(ErrorKind::UnexpectedDType(e.dtype)),
    }
}

/// The text of an `ASCII` entry.
pub open spec fn text_value(e: decoder::Entry) -> Result<Seq<char>, ErrorKind> {
    if e.dtype != DType::Ascii {
        Err(ErrorKind::UnexpectedDType(e.dtype))
    } else {
        match all_values::<u8>(e) {
            Err(k) => Err(k),
            Ok(bytes) => match ascii_text(bytes) {
                Some(s) => Ok(s),
                None => Err(ErrorKind::InvalidString),
            },
        }
    }
}

/// The value of an entry whose datatype must be exactly `dtype`.
pub open spec fn exact_value<T: Decode>(e: decoder::Entry, dtype: DType) -> Result<T, ErrorKind> {
    if e.dtype != dtype {
        Err(ErrorKind::UnexpectedDType(e.dtype))
    } else {
        single_value::<T>(e)
    }
}

/// The values of an entry whose datatype must be exactly `dtype`.
pub open spec fn exact_values<T: Decode>(e: decoder::Entry, dtype: DType) -> Result<
    Seq<T>,
    ErrorKind,
> {
    if e.dtype != dtype {
        Err(ErrorKind::UnexpectedDType(e.dtype))
    } else {
        all_values::<T>(e)
    }
}

/// What an entry sets in the builder.
pub enum Update {
    ImageWidth(u32),
    ImageLength(u32),
    Interpretation(u16),
    RowsPerStrip(u32),
    StripOffsets(Seq<u64>),
    StripByteCounts(Seq<u64>),
    TileWidth(u32),
    TileLength(u32),
    TileOffsets(Seq<u64>),
    TileByteCounts(Seq<u64>),
    Compression(u16),
    Predictor(u16),
    SubfileType(u32),
    Configuration(u16),
    XResolution(Ratio<u32>),
    YResolution(Ratio<u32>),
    ResolutionUnit(u16),
    DateTime(Seq<char>),
    SamplesPerPixel(u16),
    BitsPerSample(Seq<u16>),
    SampleFormat(Seq<u16>),
    Artist(Seq<char>),
    HostComputer(Seq<char>),
    Description(Seq<char>),
    Copyright(Seq<char>),
    Software(Seq<char>),
    /// An entry of another tag, kept with all its values.
    Custom(u16),
}

/// Maps the result of decoding to an update.
pub open spec fn map_ok<A>(r: Result<A, ErrorKind>, f: spec_fn(A) -> Update) -> Result<
    Update,
    ErrorKind,
> {
    match r {
        Ok(a) => Ok(f(a)),
        Err(k) => Err(k),
    }
}

/// The field that the entry `e` sets, with its new value, or why the entry is refused.
pub open spec fn update_of(e: decoder::Entry) -> Result<Update, ErrorKind> {
    let code = e.tag.0;
    if code == Tag::IMAGE_WIDTH {
        map_ok(widened_u32(e), |v: u32| Update::ImageWidth(v))
    } else if code == Tag::IMAGE_LENGTH {
        map_ok(widened_u32(e), |v: u32| Update::ImageLength(v))
    } else if code == Tag::PHOTOMETRIC_INTERPRETATION {
        map_ok(exact_value::<u16>(e, DType::Short), |v: u16| Update::Interpretation(v))
    } else if code == Tag::ROWS_PER_STRIP {
        map_ok(widened_u32(e), |v: u32| Update::RowsPerStrip(v))
    } else if code == Tag::STRIP_OFFSETS {
        map_ok(widened_u64s(e), |v: Seq<u64>| Update::StripOffsets(v))
    } else if code == Tag::STRIP_BYTE_COUNTS {
        map_ok(widened_u64s(e), |v: Seq<u64>| Update::StripByteCounts(v))
    } else if code == Tag::TILE_WIDTH {
        map_ok(widened_u32(e), |v: u32| Update::TileWidth(v))
    } else if code == Tag::TILE_LENGTH {
        map_ok(widened_u32(e), |v: u32| Update::TileLength(v))
    } else if code == Tag::TILE_OFFSETS {
        map_ok(widened_u64s(e), |v: Seq<u64>| Update::TileOffsets(v))
    } else if code == Tag::TILE_BYTE_COUNTS {
        map_ok(widened_u64s(e), |v: Seq<u64>| Update::TileByteCounts(v))
    } else if code == Tag::COMPRESSION {
        map_ok(exact_value::<u16>(e, DType::Short), |v: u16| Update::Compression(v))
    } else if code == Tag::PREDICTOR {
        map_ok(exact_value::<u16>(e, DType::Short), |v: u16| Update::Predictor(v))
    } else if code == Tag::NEW_SUBFILE_TYPE {
        map_ok(exact_value::<u32>(e, DType::Long), |v: u32| Update::SubfileType(v & 7))
    } else if code == Tag::PLANAR_CONFIGURATION {
        map_ok(exact_value::<u16>(e, DType::Short), |v: u16| Update::Configuration(v))
    } else if code == Tag::XRESOLUTION {
        map_ok(
            exact_value::<Ratio<u32>>(e, DType::Rational),
            |v: Ratio<u32>| Update::XResolution(v),
        )
    } else if code == Tag::YRESOLUTION {
        map_ok(
            exact_value::<Ratio<u32>>(e, DType::Rational),
            |v: Ratio<u32>| Update::YResolution(v),
        )
    } else if code == Tag::RESOLUTION_UNIT {
        map_ok(exact_value::<u16>(e, DType::Short), |v: u16| Update::ResolutionUnit(v))
    } else if code == Tag::DATE_TIME {
        map_ok(text_value(e), |v: Seq<char>| Update::DateTime(v))
    } else if code == Tag::SAMPLES_PER_PIXEL {
        map_ok(exact_value::<u16>(e, DType::Short), |v: u16| Update::SamplesPerPixel(v))
    } else if code == Tag::BITS_PER_SAMPLE {
        map_ok(exact_values::<u16>(e, DType::Short), |v: Seq<u16>| Update::BitsPerSample(v))
    } else if code == Tag::SAMPLE_FORMAT {
        map_ok(exact_values::<u16>(e, DType::Short), |v: Seq<u16>| Update::SampleFormat(v))
    } else if code == Tag::ARTIST {
        map_ok(text_value(e), |v: Seq<char>| Update::Artist(v))
    } else if code == Tag::HOST_COMPUTER {
        map_ok(text_value(e), |v: Seq<char>| Update::HostComputer(v))
    } else if code == Tag::IMAGE_DESCRIPTION {
        map_ok(text_value(e), |v: Seq<char>| Update::Description(v))
    } else if code == Tag::COPYRIGHT {
        map_ok(text_value(e), |v: Seq<char>| Update::Copyright(v))
    } else if code == Tag::SOFTWARE {
        map_ok(text_value(e), |v: Seq<char>| Update::Software(v))
    } else {
        match values_error(e) {
            Some(k) => Err(k),
            None => Ok(Update::Custom(code)),
        }
    }
}

/// A mathematical picture of a [`MetadataBuilder`].
pub struct BuilderView {
    pub image_width: Option<u32>,
    pub image_length: Option<u32>,
    pub interpretation: Option<u16>,
    pub rows_per_strip: Option<u32>,
    pub strip_offsets: Option<Seq<u64>>,
    pub strip_byte_counts: Option<Seq<u64>>,
    pub tile_width: Option<u32>,
    pub tile_length: Option<u32>,
    pub tile_offsets: Option<Seq<u64>>,
    pub tile_byte_counts: Option<Seq<u64>>,
    pub compression: Option<u16>,
    pub predictor: Option<u16>,
    pub subfile_type: Option<u32>,
    pub configuration: Option<u16>,
    pub xresolution: Option<Ratio<u32>>,
    pub yresolution: Option<Ratio<u32>>,
    pub resolution_unit: Option<u16>,
    pub samples_per_pixel: Option<u16>,
    pub bits_per_sample: Option<Seq<u16>>,
    pub sample_format: Option<Seq<u16>>,
    pub artist: Option<Seq<char>>,
    pub copyright: Option<Seq<char>>,
    pub host_computer: Option<Seq<char>>,
    pub description: Option<Seq<char>>,
    pub software: Option<Seq<char>>,
    pub datetime: Option<Seq<char>>,
    /// The tags of the entries kept as they are.
    pub custom_tags: Set<u16>,
}

/// The builder after the update `u`.
pub open spec fn apply_update(b: BuilderView, u: Update) -> BuilderView {
    match u {
        Update::ImageWidth(v) => BuilderView { image_width: Some(v), ..b },
        Update::ImageLength(v) => BuilderView { image_length: Some(v), ..b },
        Update::Interpretation(v) => BuilderView { interpretation: Some(v), ..b },
        Update::RowsPerStrip(v) => BuilderView { rows_per_strip: Some(v), ..b },
        Update::StripOffsets(v) => BuilderView { strip_offsets: Some(v), ..b },
        Update::StripByteCounts(v) => BuilderView { strip_byte_counts: Some(v), ..b },
        Update::TileWidth(v) => BuilderView { tile_width: Some(v), ..b },
        Update::TileLength(v) => BuilderView { tile_length: Some(v), ..b },
        Update::TileOffsets(v) => BuilderView { tile_offsets: Some(v), ..b },
        Update::TileByteCounts(v) => BuilderView { tile_byte_counts: Some(v), ..b },
        Update::Compression(v) => BuilderView { compression: Some(v), ..b },
        Update::Predictor(v) => BuilderView { predictor: Some(v), ..b },
        Update::SubfileType(v) => BuilderView { subfile_type: Some(v), ..b },
        Update::Configuration(v) => BuilderView { configuration: Some(v), ..b },
        Update::XResolution(v) => BuilderView { xresolution: Some(v), ..b },
        Update::YResolution(v) => BuilderView { yresolution: Some(v), ..b },
        Update::ResolutionUnit(v) => BuilderView { resolution_unit: Some(v), ..b },
        Update::DateTime(v) => BuilderView { datetime: Some(v), ..b },
        Update::SamplesPerPixel(v) => BuilderView { samples_per_pixel: Some(v), ..b },
        Update::BitsPerSample(v) => BuilderView { bits_per_sample: Some(v), ..b },
        Update::SampleFormat(v) => BuilderView { sample_format: Some(v), ..b },
        Update::Artist(v) => BuilderView { artist: Some(v), ..b },
        Update::HostComputer(v) => BuilderView { host_computer: Some(v), ..b },
        Update::Description(v) => BuilderView { description: Some(v), ..b },
        Update::Copyright(v) => BuilderView { copyright: Some(v), ..b },
        Update::Software(v) => BuilderView { software: Some(v), ..b },
        Update::Custom(code) => BuilderView { custom_tags: b.custom_tags.insert(code), ..b },
    }
}

/// The view of an optional vector.
pub open spec fn opt_view<T>(o: Option<Vec<T>>) -> Option<Seq<T>> {
    match o {
        Some(v) => Some(v@),
        None => None,
    }
}

/// The view of an optional string.
pub open spec fn opt_text(o: Option<String>) -> Option<Seq<char>> {
    match o {
        Some(s) => Some(s@),
        None => None,
    }
}

/// The codes of an optional vector of sample formats.
pub open spec fn opt_formats(o: Option<Vec<SampleFormat>>) -> Option<Seq<u16>> {
    match o {
        Some(v) => Some(Seq::new(v@.len(), |i: int| v@[i].0)),
        None => None,
    }
}

/// Builder for [`Metadata`].
pub struct MetadataBuilder {
    image_width: Option<u32>,
    image_length: Option<u32>,
    interpretation: Option<Interpretation>,
    rows_per_strip: Option<u32>,
    strip_offsets: Option<Vec<u64>>,
    strip_byte_counts: Option<Vec<u64>>,
    tile_width: Option<u32>,
    tile_length: Option<u32>,
    tile_offsets: Option<Vec<u64>>,
    tile_byte_counts: Option<Vec<u64>>,
    compression: Option<Compression>,
    predictor: Option<Predictor>,
    subfile_type: Option<SubfileType>,
    configuration: Option<PlanarConfiguration>,
    xresolution: Option<Ratio<u32>>,
    yresolution: Option<Ratio<u32>>,
    resolution_unit: Option<ResolutionUnit>,
    samples_per_pixel: Option<u16>,
    bits_per_sample: Option<Vec<u16>>,
    sample_format: Option<Vec<SampleFormat>>,
    artist: Option<String>,
    copyright: Option<String>,
    host_computer: Option<String>,
    description: Option<String>,
    software: Option<String>,
    datetime: Option<String>,
    entries: BTreeMap<u16, Entry>,
}

impl MetadataBuilder {
    /// The mathematical picture of the builder.
    pub closed spec fn view(&self) -> BuilderView {
        BuilderView {
            image_width: self.image_width,
            image_length: self.image_length,
            interpretation: match self.interpretation {
                Some(v) => Some(v.0),
                None => None,
            },
            rows_per_strip: self.rows_per_strip,
            strip_offsets: opt_view(self.strip_offsets),
            strip_byte_counts: opt_view(self.strip_byte_counts),
            tile_width: self.tile_width,
            tile_length: self.tile_length,
            tile_offsets: opt_view(self.tile_offsets),
            tile_byte_counts: opt_view(self.tile_byte_counts),
            compression: match self.compression {
                Some(v) => Some(v.0),
                None => None,
            },
            predictor: match self.predictor {
                Some(v) => Some(v.0),
                None => None,
            },
            subfile_type: match self.subfile_type {
                Some(v) => Some(v.bits()),
                None => None,
            },
            configuration: match self.configuration {
                Some(v) => Some(v.0),
                None => None,
            },
            xresolution: self.xresolution,
            yresolution: self.yresolution,
            resolution_unit: match self.resolution_unit {
                Some(v) => Some(v.0),
                None => None,
            },
            samples_per_pixel: self.samples_per_pixel,
            bits_per_sample: opt_view(self.bits_per_sample),
            sample_format: opt_formats(self.sample_format),
            artist: opt_text(self.artist),
            copyright: opt_text(self.copyright),
            host_computer: opt_text(self.host_computer),
            description: opt_text(self.description),
            software: opt_text(self.software),
            datetime: opt_text(self.datetime),
            custom_tags: self.entries@.dom(),
        }
    }

    /// The entries kept as they are, by tag code.
    pub closed spec fn custom(&self) -> Map<u16, Entry> {
        self.entries@
    }

    /// An empty builder.
    pub fn new() -> (r: Self)
        ensures
            r.view() == empty_builder(),
            r.custom().dom().len() == 0,
    {
        let r = MetadataBuilder {
            image_width: None,
            image_length: None,
            interpretation: None,
            rows_per_strip: None,
            strip_offsets: None,
            strip_byte_counts: None,
            tile_width: None,
            tile_length: None,
            tile_offsets: None,
            tile_byte_counts: None,
            compression: None,
            predictor: None,
            subfile_type: None,
            configuration: None,
            xresolution: None,
            yresolution: None,
            resolution_unit: None,
            samples_per_pixel: None,
            bits_per_sample: None,
            sample_format: None,
            artist: None,
            copyright: None,
            host_computer: None,
            description: None,
            software: None,
            datetime: None,
            entries: BTreeMap::new(),
        };
        assert(r.view().custom_tags =~= Set::<u16>::empty());
        r
    }
}

/// The picture of a builder that holds nothing.
pub open spec fn empty_builder() -> BuilderView {
    BuilderView {
        image_width: None,
        image_length: None,
        interpretation: None,
        rows_per_strip: None,
        strip_offsets: None,
        strip_byte_counts: None,
        tile_width: None,
        tile_length: None,
        tile_offsets: None,
        tile_byte_counts: None,
        compression: None,
        predictor: None,
        subfile_type: None,
        configuration: None,
        xresolution: None,
        yresolution: None,
        resolution_unit: None,
        samples_per_pixel: None,
        bits_per_sample: None,
        sample_format: None,
        artist: None,
        copyright: None,
        host_computer: None,
        description: None,
        software: None,
        datetime: None,
        custom_tags: Set::empty(),
    }
}

/// True when the executable result `r` is the result `s` of a spec function.
pub open spec fn same_result<T>(r: Result<T, Error>, s: Result<T, ErrorKind>) -> bool {
    match (r, s) {
        (Ok(a), Ok(b)) => a == b,
        (Err(e), Err(k)) => e == err(k),
        _ => false,
    }
}

/// True when the executable result `r` is the sequence result `s` of a spec function.
pub open spec fn same_values<T>(r: Result<Vec<T>, Error>, s: Result<Seq<T>, ErrorKind>) -> bool {
    match (r, s) {
        (Ok(a), Ok(b)) => a@ == b,
        (Err(e), Err(k)) => e == err(k),
        _ => false,
    }
}

/// Decodes the single value of an entry of datatype `dtype`.
fn exact_value_of<T: Decode>(e: &decoder::Entry, dtype: DType) -> (r: Result<T, Error>)
    ensures
        same_result(r, exact_value::<T>(*e, dtype)),
{
    if e.dtype != dtype {
        return Err(Error::new(ErrorKind::UnexpectedDType(e.dtype)));
    }
    e.decode::<T>()
}

/// Decodes the values of an entry of datatype `dtype`.
fn exact_values_of<T: Decode>(e: &decoder::Entry, dtype: DType) -> (r: Result<Vec<T>, Error>)
    ensures
        same_values(r, exact_values::<T>(*e, dtype)),
{
    if e.dtype != dtype {
        return Err(Error::new(ErrorKind::UnexpectedDType(e.dtype)));
    }
    e.decode_vec::<T>()
}

/// Decodes a single `SHORT` or `LONG` value as a 32-bit value.
fn widened_u32_of(e: &decoder::Entry) -> (r: Result<u32, Error>)
    ensures
        same_result(r, widened_u32(*e)),
{
    match e.dtype {
        DType::Short => match e.decode::<u16>() {
            Ok(v) => Ok(v as u32),
            Err(x) => Err(x),
        },
        DType::Long => e.decode::<u32>(),
        _ => Err(Error::new(ErrorKind::UnexpectedDType(e.dtype))),
    }
}

/// Widens each value to 64 bits.
fn widen_u16s(v: Vec<u16>) -> (r: Vec<u64>)
    ensures
        r@ == Seq::new(v@.len(), |i: int| v@[i] as u64),
{
    let mut r: Vec<u64> = Vec::new();
    let mut i: usize = 0;
    while i < v.len()
        invariant
            i <= v@.len(),
            r@ == Seq::new(i as nat, |k: int| v@[k] as u64),
        decreases v@.len() - i,
    {
        r.push(v[i] as u64);
        i = i + 1;
        assert(r@ =~= Seq::new(i as nat, |k: int| v@[k] as u64));
    }
    r
}

/// Widens each value to 64 bits.
fn widen_u32s(v: Vec<u32>) -> (r: Vec<u64>)
    ensures
        r@ == Seq::new(v@.len(), |i: int| v@[i] as u64),
{
    let mut r: Vec<u64> = Vec::new();
    let mut i: usize = 0;
    while i < v.len()
        invariant
            i <= v@.len(),
            r@ == Seq::new(i as nat, |k: int| v@[k] as u64),
        decreases v@.len() - i,
    {
        r.push(v[i] as u64);
        i = i + 1;
        assert(r@ =~= Seq::new(i as nat, |k: int| v@[k] as u64));
    }
    r
}

/// Decodes the values of a `SHORT`, `LONG`, `IFD`, `LONG8` or `IFD8` entry as 64-bit values.
fn widened_u64s_of(e: &decoder::Entry) -> (r: Result<Vec<u64>, Error>)
    ensures
        same_values(r, widened_u64s(*e)),
{
    match e.dtype {
        DType::Short => match e.decode_vec::<u16>() {
            Ok(v) => Ok(widen_u16s(v)),
            Err(x) => Err(x),
        },
        DType::Long | DType::Ifd => match e.decode_vec::<u32>() {
            Ok(v) => Ok(widen_u32s(v)),
            Err(x) => Err(x),
        },
        DType::BigLong | DType::BigIfd => e.decode_vec::<u64>(),
        _ => Err(Error::new(ErrorKind::UnexpectedDType(e.dtype))),
    }
}

/// Decodes the text of an `ASCII` entry.
fn text_of(e: &decoder::Entry) -> (r: Result<String, Error>)
    ensures
        match (r, text_value(*e)) {
            (Ok(a), Ok(b)) => a@ == b,
            (Err(x), Err(k)) => x == err(k),
            _ => false,
        },
{
    if e.dtype != DType::Ascii {
        return Err(Error::new(ErrorKind::UnexpectedDType(e.dtype)));
    }
    let bytes = e.decode_vec::<u8>()?;
    text_from_ascii(bytes.as_slice())
}

/// The sample formats with the given codes.
fn formats_of(v: Vec<u16>) -> (r: Vec<SampleFormat>)
    ensures
        Seq::new(r@.len(), |i: int| r@[i].0) == v@,
{
    let mut r: Vec<SampleFormat> = Vec::new();
    let mut i: usize = 0;
    while i < v.len()
        invariant
            i <= v@.len(),
            r@.len() == i,
            forall|k: int| 0 <= k < i ==> r@[k].0 == v@[k],
        decreases v@.len() - i,
    {
        r.push(SampleFormat(v[i]));
        i = i + 1;
    }
    assert(Seq::new(r@.len(), |i: int| r@[i].0) =~= v@);
    r
}

impl MetadataBuilder {
    /// Pushes an entry into the metadata builder: a well-known tag sets its field, any other
    /// tag is kept with all its values. A refused entry leaves the builder as it was.
    pub fn push_entry(&mut self, entry: decoder::Entry) -> (r: Result<(), Error>)
        ensures
            match update_of(entry) {
                Ok(u) => r is Ok && final(self).view() == apply_update(old(self).view(), u) && if u
                    is Custom {
                    final(self).custom() == old(self).custom().insert(
                        entry.tag.0,
                        final(self).custom()[entry.tag.0],
                    ) && holds_values_of(final(self).custom()[entry.tag.0], entry)
                } else {
                    final(self).custom() == old(self).custom()
                },
                Err(k) => r == Err::<(), Error>(err(k)) && final(self).view() == old(self).view()
                    && final(self).custom() == old(self).custom(),
            },
    {
        let code = entry.tag.0;
        if code == Tag::IMAGE_WIDTH {
            self.image_width = Some(widened_u32_of(&entry)?);
        } else if code == Tag::IMAGE_LENGTH {
            self.image_length = Some(widened_u32_of(&entry)?);
        } else if code == Tag::PHOTOMETRIC_INTERPRETATION {
            let v = exact_value_of::<u16>(&entry, DType::Short)?;
            self.interpretation = Some(Interpretation(v));
        } else if code == Tag::ROWS_PER_STRIP {
            self.rows_per_strip = Some(widened_u32_of(&entry)?);
        } else if code == Tag::STRIP_OFFSETS {
            self.strip_offsets = Some(widened_u64s_of(&entry)?);
        } else if code == Tag::STRIP_BYTE_COUNTS {
            self.strip_byte_counts = Some(widened_u64s_of(&entry)?);
        } else if code == Tag::TILE_WIDTH {
            self.tile_width = Some(widened_u32_of(&entry)?);
        } else if code == Tag::TILE_LENGTH {
            self.tile_length = Some(widened_u32_of(&entry)?);
        } else if code == Tag::TILE_OFFSETS {
            self.tile_offsets = Some(widened_u64s_of(&entry)?);
        } else if code == Tag::TILE_BYTE_COUNTS {
            self.tile_byte_counts = Some(widened_u64s_of(&entry)?);
        } else if code == Tag::COMPRESSION {
            let v = exact_value_of::<u16>(&entry, DType::Short)?;
            self.compression = Some(Compression(v));
        } else if code == Tag::PREDICTOR {
            let v = exact_value_of::<u16>(&entry, DType::Short)?;
            self.predictor = Some(Predictor(v));
        } else if code == Tag::NEW_SUBFILE_TYPE {
            let v = exact_value_of::<u32>(&entry, DType::Long)?;
            self.subfile_type = Some(SubfileType::from_u32(v));
        } else if code == Tag::PLANAR_CONFIGURATION {
            let v = exact_value_of::<u16>(&entry, DType::Short)?;
            self.configuration = Some(PlanarConfiguration(v));
        } else if code == Tag::XRESOLUTION {
            self.xresolution = Some(exact_value_of::<Ratio<u32>>(&entry, DType::Rational)?);
        } else if code == Tag::YRESOLUTION {
            self.yresolution = Some(exact_value_of::<Ratio<u32>>(&entry, DType::Rational)?);
        } else if code == Tag::RESOLUTION_UNIT {
            let v = exact_value_of::<u16>(&entry, DType::Short)?;
            self.resolution_unit = Some(ResolutionUnit(v));
        } else if code == Tag::DATE_TIME {
            self.datetime = Some(text_of(&entry)?);
        } else if code == Tag::SAMPLES_PER_PIXEL {
            self.samples_per_pixel = Some(exact_value_of::<u16>(&entry, DType::Short)?);
        } else if code == Tag::BITS_PER_SAMPLE {
            self.bits_per_sample = Some(exact_values_of::<u16>(&entry, DType::Short)?);
        } else if code == Tag::SAMPLE_FORMAT {
            let v = exact_values_of::<u16>(&entry, DType::Short)?;
            self.sample_format = Some(formats_of(v));
        } else if code == Tag::ARTIST {
            self.artist = Some(text_of(&entry)?);
        } else if code == Tag::HOST_COMPUTER {
            self.host_computer = Some(text_of(&entry)?);
        } else if code == Tag::IMAGE_DESCRIPTION {
            self.description = Some(text_of(&entry)?);
        } else if code == Tag::COPYRIGHT {
            self.copyright = Some(text_of(&entry)?);
        } else if code == Tag::SOFTWARE {
            self.software = Some(text_of(&entry)?);
        } else {
            let value = Entry::from_decoder(entry)?;
            self.entries.insert(code, value);
        }
        Ok(())
    }
}

/// Ceiling of `a / b`.
pub open spec fn div_ceil(a: nat, b: nat) -> nat {
    ((a + b - 1) / (b as int)) as nat
}

/// A rounded-up quotient by a positive number is at most the dividend.
pub proof fn lemma_div_ceil_bound(a: nat, b: nat)
    requires
        b >= 1,
    ensures
        div_ceil(a, b) <= a,
{
    let n = (a + b - 1) as int;
    vstd::arithmetic::div_mod::lemma_fundamental_div_mod(n, b as int);
    vstd::arithmetic::div_mod::lemma_mod_bound(n, b as int);
    let q = n / (b as int);
    let r = n % (b as int);
    assert(q <= a) by (nonlinear_arith)
        requires
            n == b * q + r,
            0 <= r,
            n == a + b - 1,
            b >= 1,
            a >= 0,
    ;
}

/// Storage layout of the image data.
#[derive(Clone, Copy, Debug, PartialEq, Eq, Structural)]
pub enum Layout {
    /// Horizontal bands of `length` rows, each as wide as the image.
    Strips { length: u32 },
    /// Rectangular tiles of `width` by `length` pixels.
    Tiles { width: u32, length: u32 },
}

impl Layout {
    /// True when the chunk dimensions are positive.
    pub open spec fn valid(self) -> bool {
        match self {
            Layout::Strips { length } => length > 0,
            Layout::Tiles { width, length } => width > 0 && length > 0,
        }
    }

    /// The number of chunks that an image of the given dimensions needs: one strip per
    /// `length` rows, or one tile per `width` by `length` block, rounding up.
    pub open spec fn spec_expected_chunks(self, image_width: u32, image_length: u32) -> nat {
        match self {
            Layout::Strips { length } => div_ceil(image_length as nat, length as nat),
            Layout::Tiles { width, length } => div_ceil(image_length as nat, length as nat)
                * div_ceil(image_width as nat, width as nat),
        }
    }

    /// Gets the number of expected chunks for an image with the given dimensions.
    pub fn expected_chunks_count(self, image_width: u32, image_length: u32) -> (r: u64)
        requires
            self.valid(),
        ensures
            r == self.spec_expected_chunks(image_width, image_length),
    {
        match self {
            Layout::Strips { length } => ((image_length as u64 + length as u64 - 1) / length as u64),
            Layout::Tiles { width, length } => {
                let rows = (image_length as u64 + length as u64 - 1) / length as u64;
                let cols = (image_width as u64 + width as u64 - 1) / width as u64;
                proof {
                    lemma_div_ceil_bound(image_length as nat, length as nat);
                    lemma_div_ceil_bound(image_width as nat, width as nat);
                }
                assert(rows * cols <= 0xffff_ffff * 0xffff_ffff) by (nonlinear_arith)
                    requires
                        rows <= 0xffff_ffff,
                        cols <= 0xffff_ffff,
                        rows >= 0,
                        cols >= 0,
                ;
                rows * cols
            },
        }
    }
}

/// The location of a single chunk.
#[derive(Clone, Copy, Debug, PartialEq, Eq, Structural)]
pub struct ChunkLoc {
    /// The offset of the chunk from the beginning of the file.
    pub offset: u64,
    /// The number of bytes in the chunk.
    pub byte_count: u64,
}

/// A single component of a pixel.
#[derive(Clone, Copy, Debug, PartialEq, Eq, Structural)]
pub struct Sample {
    /// Specify how to interpret the pixel data.
    pub format: SampleFormat,
    /// The number of bits used to represent this sample.
    pub bits: u16,
}

impl Sample {
    /// Creates a new [`Sample`] with the given format and bits.
    pub fn new(format: SampleFormat, bits: u16) -> (r: Self)
        ensures
            r.format == format,
            r.bits == bits,
    {
        Sample { format, bits }
    }
}

/// The resolution of the image.
#[derive(Clone, Copy, Debug)]
pub struct Resolution {
    /// The number of pixels per unit along each direction.
    pub pixels_per_unit: (Ratio<u32>, Ratio<u32>),
    /// The unit of measurement for the resolution.
    pub unit: ResolutionUnit,
}

/// A mathematical picture of a [`Metadata`].
pub struct MetadataView {
    pub dimensions: (u32, u32),
    pub interpretation: u16,
    pub layout: Layout,
    pub compression: u16,
    pub predictor: u16,
    pub subfile_type: u32,
    pub configuration: u16,
    pub resolution: Option<(Ratio<u32>, Ratio<u32>, u16)>,
    pub samples: Seq<Sample>,
    pub artist: Option<Seq<char>>,
    pub copyright: Option<Seq<char>>,
    pub host_computer: Option<Seq<char>>,
    pub description: Option<Seq<char>>,
    pub software: Option<Seq<char>>,
    pub datetime: Option<Seq<char>>,
    pub custom_tags: Set<u16>,
    pub chunks: Seq<ChunkLoc>,
}

/// The layout that the strip and tile fields describe, with the chunk offsets and byte counts,
/// or why they describe none: exactly one of the two groups of tags must be complete and the
/// other absent.
pub open spec fn layout_of(b: BuilderView) -> Result<(Layout, Seq<u64>, Seq<u64>), ErrorKind> {
    match (
        b.rows_per_strip,
        b.strip_offsets,
        b.strip_byte_counts,
        b.tile_width,
        b.tile_length,
        b.tile_offsets,
        b.tile_byte_counts,
    ) {
        (Some(length), Some(offsets), Some(counts), None, None, None, None) => if length == 0 {
            Err(ErrorKind::ZeroValue(Tag(Tag::ROWS_PER_STRIP)))
        } else {
            Ok((Layout::Strips { length }, offsets, counts))
        },
        (None, None, None, Some(width), Some(length), Some(offsets), Some(counts)) => if width
            == 0 {
            Err(ErrorKind::ZeroValue(Tag(Tag::TILE_WIDTH)))
        } else if length == 0 {
            Err(ErrorKind::ZeroValue(Tag(Tag::TILE_LENGTH)))
        } else {
            Ok((Layout::Tiles { width, length }, offsets, counts))
        },
        _ => Err(ErrorKind::AmbiguousLayout),
    }
}

/// The value of an optional field, or `d`.
pub open spec fn or_default<T>(o: Option<T>, d: T) -> T {
    match o {
        Some(v) => v,
        None => d,
    }
}

/// What [`MetadataBuilder::build`] returns for the builder `b`: the checks in order, then the
/// record with the defaults applied.
pub open spec fn build_spec(b: BuilderView) -> Result<MetadataView, ErrorKind> {
    if b.image_width is None {
        Err(ErrorKind::MissingRequiredTag(Tag(Tag::IMAGE_WIDTH)))
    } else if b.image_width == Some(0u32) {
        Err(ErrorKind::ZeroValue(Tag(Tag::IMAGE_WIDTH)))
    } else if b.image_length is None {
        Err(ErrorKind::MissingRequiredTag(Tag(Tag::IMAGE_LENGTH)))
    } else if b.image_length == Some(0u32) {
        Err(ErrorKind::ZeroValue(Tag(Tag::IMAGE_LENGTH)))
    } else if b.interpretation is None {
        Err(ErrorKind::MissingRequiredTag(Tag(Tag::PHOTOMETRIC_INTERPRETATION)))
    } else {
        let width = b.image_width->Some_0;
        let length = b.image_length->Some_0;
        match layout_of(b) {
            Err(k) => Err(k),
            Ok((layout, offsets, counts)) => {
                let expected = layout.spec_expected_chunks(width, length);
                let spp = or_default(b.samples_per_pixel, 1u16);
                let bits = or_default(b.bits_per_sample, Seq::new(spp as nat, |i: int| 1u16));
                let formats = or_default(
                    b.sample_format,
                    Seq::new(spp as nat, |i: int| SampleFormat::UNSIGNED),
                );
                if offsets.len() != counts.len() {
                    Err(
                        ErrorKind::ByteCountsMismatch {
                            offsets: offsets.len() as u64,
                            byte_counts: counts.len() as u64,
                        },
                    )
                } else if offsets.len() < expected {
                    Err(
                        ErrorKind::TooFewChunks {
                            actual: offsets.len() as u64,
                            expected: expected as u64,
                        },
                    )
                } else if bits.len() != spp {
                    Err(
                        ErrorKind::SamplesMismatch {
                            values: bits.len() as u64,
                            samples_per_pixel: spp,
                        },
                    )
                } else if formats.len() != spp {
                    Err(
                        ErrorKind::SamplesMismatch {
                            values: formats.len() as u64,
                            samples_per_pixel: spp,
                        },
                    )
                } else if b.xresolution is Some != b.yresolution is Some {
                    Err(ErrorKind::IncompleteResolution)
                } else {
                    Ok(
                        MetadataView {
                            dimensions: (width, length),
                            interpretation: b.interpretation->Some_0,
                            layout,
                            compression: or_default(b.compression, Compression::NONE),
                            predictor: or_default(b.predictor, Predictor::NONE),
                            subfile_type: or_default(b.subfile_type, 0u32),
                            configuration: or_default(
                                b.configuration,
                                PlanarConfiguration::CHUNKY,
                            ),
                            resolution: match (b.xresolution, b.yresolution) {
                                (Some(x), Some(y)) => Some(
                                    (x, y, or_default(b.resolution_unit, ResolutionUnit::INCH)),
                                ),
                                _ => None,
                            },
                            samples: Seq::new(
                                spp as nat,
                                |i: int| Sample { format: SampleFormat(formats[i]), bits: bits[i] },
                            ),
                            artist: b.artist,
                            copyright: b.copyright,
                            host_computer: b.host_computer,
                            description: b.description,
                            software: b.software,
                            datetime: b.datetime,
                            custom_tags: b.custom_tags,
                            chunks: Seq::new(
                                offsets.len(),
                                |i: int| ChunkLoc { offset: offsets[i], byte_count: counts[i] },
                            ),
                        },
                    )
                }
            },
        }
    }
}

/// The invariants of a validated record: positive dimensions, a valid layout, at least as many
/// chunks as the dimensions need.
pub open spec fn metadata_wf(v: MetadataView) -> bool {
    &&& v.dimensions.0 > 0
    &&& v.dimensions.1 > 0
    &&& v.layout.valid()
    &&& v.chunks.len() >= v.layout.spec_expected_chunks(v.dimensions.0, v.dimensions.1)
}

/// Every record that `build` returns holds the invariants of [`metadata_wf`].
pub proof fn built_metadata_is_wf(b: BuilderView)
    requires
        build_spec(b) is Ok,
    ensures
        metadata_wf(build_spec(b)->Ok_0),
{
}

/// `build` fails when strip tags and tile tags are both present, when a required tag (image
/// width, image length, photometric interpretation) is missing, or when there are fewer chunk
/// offsets than the dimensions and the layout need.
pub proof fn build_refuses(b: BuilderView)
    requires
        ((b.rows_per_strip is Some || b.strip_offsets is Some || b.strip_byte_counts is Some) && (
        b.tile_width is Some || b.tile_length is Some || b.tile_offsets is Some
            || b.tile_byte_counts is Some)) || b.image_width is None || b.image_length is None
            || b.interpretation is None || (layout_of(b) is Ok && b.image_width is Some
            && b.image_length is Some && layout_of(b)->Ok_0.1.len() < layout_of(
            b,
        )->Ok_0.0.spec_expected_chunks(b.image_width->Some_0, b.image_length->Some_0)),
    ensures
        build_spec(b) is Err,
{
}

/// The builder after the entries of a directory from position `pos` on, `remaining` of them,
/// were read and pushed one after the other, or the first error met: an entry that cannot be
/// read, or one whose value is refused (reported with its tag).
pub open spec fn walk_entries(
    d: &Decoder,
    pos: u64,
    remaining: u64,
    b: BuilderView,
) -> Result<BuilderView, Error>
    decreases remaining,
{
    if remaining == 0 {
        Ok(b)
    } else {
        match entry_step(d.spec_data(), d.spec_byteorder(), d.spec_version(), pos) {
            Err(k) => Err(err(k)),
            Ok((tag, dtype, count, offset, next)) => {
                let e = decoder::Entry { decoder: d, tag: Tag(tag), dtype, count, offset };
                match update_of(e) {
                    Err(k) => Err(Error { kind: k, context: Some(Tag(tag)) }),
                    Ok(u) => walk_entries(d, next, (remaining - 1) as u64, apply_update(b, u)),
                }
            },
        }
    }
}

/// The position of the first entry of a directory at `offset`: just after the entry count.
pub open spec fn first_entry(d: &Decoder, offset: u64) -> u64 {
    if offset + d.spec_version().spec_count_size() <= u64::MAX {
        (offset + d.spec_version().spec_count_size()) as u64
    } else {
        u64::MAX
    }
}

/// What [`Metadata::from_decoder`] returns for the directory at `offset` with `count` entries.
pub open spec fn metadata_of_directory(d: &Decoder, offset: u64, count: u64) -> Result<
    MetadataView,
    Error,
> {
    match walk_entries(d, first_entry(d, offset), count, empty_builder()) {
        Err(e) => Err(e),
        Ok(b) => match build_spec(b) {
            Ok(v) => Ok(v),
            Err(k) => Err(err(k)),
        },
    }
}

/// Metadata of TIFF directory.
pub struct Metadata {
    dimensions: (u32, u32),
    interpretation: Interpretation,
    layout: Layout,
    compression: Compression,
    predictor: Predictor,
    subfile_type: SubfileType,
    configuration: PlanarConfiguration,
    resolution: Option<Resolution>,
    samples: Vec<Sample>,
    artist: Option<String>,
    copyright: Option<String>,
    host_computer: Option<String>,
    description: Option<String>,
    software: Option<String>,
    datetime: Option<String>,
    entries: BTreeMap<u16, Entry>,
    chunks: Vec<ChunkLoc>,
}

impl Metadata {
    /// The mathematical picture of the record.
    pub closed spec fn view(&self) -> MetadataView {
        MetadataView {
            dimensions: self.dimensions,
            interpretation: self.interpretation.0,
            layout: self.layout,
            compression: self.compression.0,
            predictor: self.predictor.0,
            subfile_type: self.subfile_type.bits(),
            configuration: self.configuration.0,
            resolution: match self.resolution {
                Some(r) => Some((r.pixels_per_unit.0, r.pixels_per_unit.1, r.unit.0)),
                None => None,
            },
            samples: self.samples@,
            artist: opt_text(self.artist),
            copyright: opt_text(self.copyright),
            host_computer: opt_text(self.host_computer),
            description: opt_text(self.description),
            software: opt_text(self.software),
            datetime: opt_text(self.datetime),
            custom_tags: self.entries@.dom(),
            chunks: self.chunks@,
        }
    }

    /// The entries kept as they are, by tag code.
    pub closed spec fn custom(&self) -> Map<u16, Entry> {
        self.entries@
    }

    #[verifier::type_invariant]
    spec fn inv(&self) -> bool {
        metadata_wf(self.view())
    }
}

/// Zips offsets and byte counts into chunk locations.
fn zip_chunks(offsets: Vec<u64>, counts: Vec<u64>) -> (r: Vec<ChunkLoc>)
    requires
        offsets@.len() == counts@.len(),
    ensures
        r@ == Seq::new(
            offsets@.len(),
            |i: int| ChunkLoc { offset: offsets@[i], byte_count: counts@[i] },
        ),
{
    let mut r: Vec<ChunkLoc> = Vec::new();
    let mut i: usize = 0;
    while i < offsets.len()
        invariant
            i <= offsets@.len(),
            offsets@.len() == counts@.len(),
            r@ == Seq::new(i as nat, |k: int| ChunkLoc { offset: offsets@[k], byte_count: counts@[k] }),
        decreases offsets@.len() - i,
    {
        r.push(ChunkLoc { offset: offsets[i], byte_count: counts[i] });
        i = i + 1;
        assert(r@ =~= Seq::new(
            i as nat,
            |k: int| ChunkLoc { offset: offsets@[k], byte_count: counts@[k] },
        ));
    }
    r
}

/// Pairs bit counts and formats into samples.
fn zip_samples(bits: Vec<u16>, formats: Vec<SampleFormat>) -> (r: Vec<Sample>)
    requires
        bits@.len() == formats@.len(),
    ensures
        r@ == Seq::new(bits@.len(), |i: int| Sample { format: formats@[i], bits: bits@[i] }),
{
    let mut r: Vec<Sample> = Vec::new();
    let mut i: usize = 0;
    while i < bits.len()
        invariant
            i <= bits@.len(),
            bits@.len() == formats@.len(),
            r@ == Seq::new(i as nat, |k: int| Sample { format: formats@[k], bits: bits@[k] }),
        decreases bits@.len() - i,
    {
        r.push(Sample { format: formats[i], bits: bits[i] });
        i = i + 1;
        assert(r@ =~= Seq::new(i as nat, |k: int| Sample { format: formats@[k], bits: bits@[k] }));
    }
    r
}

impl MetadataBuilder {
    /// Validates the collected metadata and returns a new [`Metadata`] instance.
    pub fn build(self) -> (r: Result<Metadata, Error>)
        ensures
            match r {
                Ok(m) => build_spec(self.view()) == Ok::<MetadataView, ErrorKind>(m.view())
                    && m.custom() == self.custom(),
                Err(e) => build_spec(self.view()) == Err::<MetadataView, ErrorKind>(e.kind)
                    && e.context is None,
            },
    {
        let ghost b = self.view();
        let image_width = match self.image_width {
            Some(w) => w,
            None => return Err(Error::new(ErrorKind::MissingRequiredTag(Tag(Tag::IMAGE_WIDTH)))),
        };
        if image_width == 0 {
            return Err(Error::new(ErrorKind::ZeroValue(Tag(Tag::IMAGE_WIDTH))));
        }
        let image_length = match self.image_length {
            Some(l) => l,
            None => return Err(Error::new(ErrorKind::MissingRequiredTag(Tag(Tag::IMAGE_LENGTH)))),
        };
        if image_length == 0 {
            return Err(Error::new(ErrorKind::ZeroValue(Tag(Tag::IMAGE_LENGTH))));
        }
        let interpretation = match self.interpretation {
            Some(i) => i,
            None => return Err(
                Error::new(ErrorKind::MissingRequiredTag(Tag(Tag::PHOTOMETRIC_INTERPRETATION))),
            ),
        };
        let (layout, offsets, byte_counts) = match (
            self.rows_per_strip,
            self.strip_offsets,
            self.strip_byte_counts,
            self.tile_width,
            self.tile_length,
            self.tile_offsets,
            self.tile_byte_counts,
        ) {
            (Some(length), Some(offsets), Some(counts), None, None, None, None) => {
                if length == 0 {
                    return Err(Error::new(ErrorKind::ZeroValue(Tag(Tag::ROWS_PER_STRIP))));
                }
                (Layout::Strips { length }, offsets, counts)
            },
            (None, None, None, Some(width), Some(length), Some(offsets), Some(counts)) => {
                if width == 0 {
                    return Err(Error::new(ErrorKind::ZeroValue(Tag(Tag::TILE_WIDTH))));
                }
                if length == 0 {
                    return Err(Error::new(ErrorKind::ZeroValue(Tag(Tag::TILE_LENGTH))));
                }
                (Layout::Tiles { width, length }, offsets, counts)
            },
            _ => return Err(Error::new(ErrorKind::AmbiguousLayout)),
        };
        if offsets.len() != byte_counts.len() {
            return Err(
                Error::new(
                    ErrorKind::ByteCountsMismatch {
                        offsets: offsets.len() as u64,
                        byte_counts: byte_counts.len() as u64,
                    },
                ),
            );
        }
        let expected = layout.expected_chunks_count(image_width, image_length);
        if (offsets.len() as u64) < expected {
            return Err(
                Error::new(ErrorKind::TooFewChunks { actual: offsets.len() as u64, expected }),
            );
        }
        let chunks = zip_chunks(offsets, byte_counts);
        let compression = match self.compression {
            Some(c) => c,
            None => Compression(Compression::NONE),
        };
        let predictor = match self.predictor {
            Some(p) => p,
            None => Predictor(Predictor::NONE),
        };
        let subfile_type = match self.subfile_type {
            Some(t) => t,
            None => SubfileType::from_u32(0),
        };
        let configuration = match self.configuration {
            Some(c) => c,
            None => PlanarConfiguration(PlanarConfiguration::CHUNKY),
        };
        let samples_per_pixel = match self.samples_per_pixel {
            Some(n) => n,
            None => 1,
        };
        let bits_per_sample = match self.bits_per_sample {
            Some(v) => v,
            None => vec![1u16; samples_per_pixel as usize],
        };
        let sample_format = match self.sample_format {
            Some(v) => v,
            None => vec![SampleFormat(SampleFormat::UNSIGNED); samples_per_pixel as usize],
        };
        proof {
            assert(opt_formats(Some(sample_format)) == Some(
                or_default(b.sample_format, Seq::new(samples_per_pixel as nat, |i: int| SampleFormat::UNSIGNED)),
            )) by {
                if b.sample_format is None {
                    assert(Seq::new(sample_format@.len(), |i: int| sample_format@[i].0) =~= Seq::new(
                        samples_per_pixel as nat,
                        |i: int| SampleFormat::UNSIGNED,
                    ));
                }
            }
            if b.bits_per_sample is None {
                assert(bits_per_sample@ =~= Seq::new(samples_per_pixel as nat, |i: int| 1u16));
            }
            assert(0u32 & 7 == 0) by (bit_vector);
        }
        if bits_per_sample.len() != samples_per_pixel as usize {
            return Err(
                Error::new(
                    ErrorKind::SamplesMismatch {
                        values: bits_per_sample.len() as u64,
                        samples_per_pixel,
                    },
                ),
            );
        }
        if sample_format.len() != samples_per_pixel as usize {
            return Err(
                Error::new(
                    ErrorKind::SamplesMismatch {
                        values: sample_format.len() as u64,
                        samples_per_pixel,
                    },
                ),
            );
        }
        let samples = zip_samples(bits_per_sample, sample_format);
        let resolution_unit = match self.resolution_unit {
            Some(u) => u,
            None => ResolutionUnit(ResolutionUnit::INCH),
        };
        let resolution = match (self.xresolution, self.yresolution) {
            (Some(x), Some(y)) => Some(Resolution { pixels_per_unit: (x, y), unit: resolution_unit }),
            (None, None) => None,
            _ => return Err(Error::new(ErrorKind::IncompleteResolution)),
        };
        let m = Metadata {
            dimensions: (image_width, image_length),
            interpretation,
            layout,
            compression,
            predictor,
            subfile_type,
            configuration,
            resolution,
            samples,
            artist: self.artist,
            copyright: self.copyright,
            host_computer: self.host_computer,
            description: self.description,
            software: self.software,
            datetime: self.datetime,
            entries: self.entries,
            chunks,
        };
        proof {
            assert(m.view().samples =~= build_spec(b)->Ok_0.samples);
            assert(m.view().chunks =~= build_spec(b)->Ok_0.chunks);
        }
        Ok(m)
    }
}

/// The view of an optional string as an optional `&str`.
fn text_ref(o: &Option<String>) -> (r: Option<&str>)
    ensures
        match r {
            Some(t) => opt_text(*o) == Some(t@),
            None => o is None,
        },
{
    match o {
        Some(s) => Some(s.as_str()),
        None => None,
    }
}

/// The default size of a chunk: the image width by the rows per strip for strips, the tile
/// dimensions for tiles.
pub open spec fn spec_chunk_size(v: MetadataView) -> (u32, u32) {
    match v.layout {
        Layout::Strips { length } => (v.dimensions.0, length),
        Layout::Tiles { width, length } => (width, length),
    }
}

impl Metadata {
    /// Returns the entries of a directory gathered into a validated record. An entry that
    /// cannot be read stops the walk, and an entry with an invalid value is reported with its
    /// tag.
    pub fn from_decoder(directory: Directory) -> (r: Result<Metadata, Error>)
        ensures
            match metadata_of_directory(directory.decoder, directory.offset, directory.entries_count) {
                Ok(v) => r matches Ok(m) && m.view() == v && metadata_wf(v),
                Err(e) => r == Err::<Metadata, Error>(e),
            },
    {
        let ghost d = directory.decoder;
        let ghost total = walk_entries(
            d,
            first_entry(d, directory.offset),
            directory.entries_count,
            empty_builder(),
        );
        let mut entries = directory.entries();
        let mut builder = MetadataBuilder::new();
        let mut done = false;
        while !done
            invariant
                entries.spec_decoder() == d,
                d == directory.decoder,
                total == walk_entries(
                    d,
                    first_entry(d, directory.offset),
                    directory.entries_count,
                    empty_builder(),
                ),
                done ==> total == Ok::<BuilderView, Error>(builder.view()),
                !done ==> total == walk_entries(
                    d,
                    entries.spec_entry_offset(),
                    entries.spec_remaining(),
                    builder.view(),
                ),
            decreases entries.spec_remaining() + if done {
                0int
            } else {
                1int
            },
        {
            match entries.next_entry() {
                Err(e) => return Err(e),
                Ok(None) => {
                    done = true;
                },
                Ok(Some(entry)) => {
                    let tag = entry.tag;
                    match builder.push_entry(entry) {
                        Ok(()) => {},
                        Err(e) => return Err(e.with_context(tag)),
                    }
                },
            }
        }
        match builder.build() {
            Ok(m) => {
                proof {
                    use_type_invariant(&m);
                }
                Ok(m)
            },
            Err(e) => Err(e),
        }
    }

    /// A tuple with the width and height of the image in pixels.
    pub fn dimensions(&self) -> (r: (u32, u32))
        ensures
            r == self.view().dimensions,
    {
        self.dimensions
    }

    /// The color space of the image data.
    pub fn interpretation(&self) -> (r: Interpretation)
        ensures
            r.0 == self.view().interpretation,
    {
        self.interpretation
    }

    /// Storage layout of the image data.
    pub fn layout(&self) -> (r: Layout)
        ensures
            r == self.view().layout,
    {
        self.layout
    }

    /// Compression algorithm used for the image data.
    pub fn compression(&self) -> (r: Compression)
        ensures
            r.0 == self.view().compression,
    {
        self.compression
    }

    /// The operator applied to the image data before encoding scheme.
    pub fn predictor(&self) -> (r: Predictor)
        ensures
            r.0 == self.view().predictor,
    {
        self.predictor
    }

    /// A general indication of the kind of data contained in this subfile.
    pub fn subfile_type(&self) -> (r: SubfileType)
        ensures
            r.bits() == self.view().subfile_type,
    {
        self.subfile_type
    }

    /// How the components of each pixel are stored.
    pub fn configuration(&self) -> (r: PlanarConfiguration)
        ensures
            r.0 == self.view().configuration,
    {
        self.configuration
    }

    /// The resolution of the image, if given.
    pub fn resolution(&self) -> (r: Option<Resolution>)
        ensures
            match r {
                Some(x) => self.view().resolution == Some(
                    (x.pixels_per_unit.0, x.pixels_per_unit.1, x.unit.0),
                ),
                None => self.view().resolution is None,
            },
    {
        self.resolution
    }

    /// Returns a slice of samples that make up the pixel data.
    pub fn samples(&self) -> (r: &[Sample])
        ensures
            r@ == self.view().samples,
    {
        self.samples.as_slice()
    }

    /// Returns a string containing the name of the person who created the image, if available.
    pub fn artist(&self) -> (r: Option<&str>)
        ensures
            match r {
                Some(t) => self.view().artist == Some(t@),
                None => self.view().artist is None,
            },
    {
        text_ref(&self.artist)
    }

    /// Returns the copyright notice of the image, if available.
    pub fn copyright(&self) -> (r: Option<&str>)
        ensures
            match r {
                Some(t) => self.view().copyright == Some(t@),
                None => self.view().copyright is None,
            },
    {
        text_ref(&self.copyright)
    }

    /// Returns the host computer used to create the image, if available.
    pub fn host_computer(&self) -> (r: Option<&str>)
        ensures
            match r {
                Some(t) => self.view().host_computer == Some(t@),
                None => self.view().host_computer is None,
            },
    {
        text_ref(&self.host_computer)
    }

    /// Returns a string that describes the subject of the image, if available.
    pub fn description(&self) -> (r: Option<&str>)
        ensures
            match r {
                Some(t) => self.view().description == Some(t@),
                None => self.view().description is None,
            },
    {
        text_ref(&self.description)
    }

    /// Returns the name and version number of the software package(s) used to create the
    /// image, if available.
    pub fn software(&self) -> (r: Option<&str>)
        ensures
            match r {
                Some(t) => self.view().software == Some(t@),
                None => self.view().software is None,
            },
    {
        text_ref(&self.software)
    }

    /// Date and time of image creation, as written in the file.
    pub fn datetime(&self) -> (r: Option<&str>)
        ensures
            match r {
                Some(t) => self.view().datetime == Some(t@),
                None => self.view().datetime is None,
            },
    {
        text_ref(&self.datetime)
    }

    /// Returns a tuple with the default width and height of chunks. Any chunk in the image
    /// will be at most this size.
    pub fn chunk_size(&self) -> (r: (u32, u32))
        ensures
            r == spec_chunk_size(self.view()),
            r.0 > 0 && r.1 > 0,
    {
        proof {
            use_type_invariant(self);
        }
        match self.layout {
            Layout::Strips { length } => (self.dimensions.0, length),
            Layout::Tiles { width, length } => (width, length),
        }
    }

    /// Returns the number of chunks that make up the image: one per chunk offset.
    pub fn chunks_count(&self) -> (r: usize)
        ensures
            r == self.view().chunks.len(),
    {
        self.chunks.len()
    }

    /// Returns an iterator over the chunks that make up the image, in the order of their
    /// offsets.
    pub fn chunks(&self) -> (r: Chunks<'_>)
        ensures
            r.spec_image_size() == self.view().dimensions,
            r.spec_chunk_size() == spec_chunk_size(self.view()),
            r.spec_locs() == self.view().chunks,
            r.spec_front() == 0,
            r.spec_back() == self.view().chunks.len(),
    {
        proof {
            use_type_invariant(self);
        }
        let chunk_size = self.chunk_size();
        Chunks {
            image_size: self.dimensions,
            chunk_size,
            locs: self.chunks.as_slice(),
            front: 0,
            back: self.chunks.len(),
        }
    }

    /// Returns the custom entry associated to the given tag.
    pub fn custom_entry(&self, tag: Tag) -> (r: Option<&Entry>)
        ensures
            match r {
                Some(x) => self.custom().contains_key(tag.0) && *x == self.custom()[tag.0],
                None => !self.custom().contains_key(tag.0),
            },
    {
        self.entries.get(&tag.0)
    }
}

/// A single chunk of the image data.
#[derive(Clone, Copy, Debug)]
pub struct Chunk {
    /// A tuple with the x and y coordinates of the top-left corner of the chunk.
    pub origin: (u32, u32),
    /// A tuple with the width and height of the chunk in pixels, the padding is subtracted.
    pub size: (u32, u32),
    /// The offset of the chunk from the beginning of the file.
    pub offset: u64,
    /// The number of bytes in the chunk.
    pub byte_count: u64,
}

/// The smaller of two numbers.
pub open spec fn min(a: int, b: int) -> int {
    if a <= b {
        a
    } else {
        b
    }
}

/// The chunk at position `index` of the chunk table, for an image of `image` pixels cut into
/// chunks of `chunk` pixels, row by row: `stride` chunks across, the chunk at column
/// `index % stride` and row `index / stride`, cut at the right and bottom edges of the image.
/// Chunks past those the image needs lie below it and have no height.
pub open spec fn chunk_at(image: (u32, u32), chunk: (u32, u32), index: nat, loc: ChunkLoc) -> Chunk {
    let stride = div_ceil(image.0 as nat, chunk.0 as nat);
    let col = index % stride;
    let row = index / stride;
    let x = col * chunk.0;
    let y = min(row * chunk.1, u32::MAX as int);
    Chunk {
        origin: (x as u32, y as u32),
        size: (
            min(chunk.0 as int, image.0 - x) as u32,
            if y < image.1 {
                min(chunk.1 as int, image.1 - y) as u32
            } else {
                0u32
            },
        ),
        offset: loc.offset,
        byte_count: loc.byte_count,
    }
}

/// An iterator over the chunks that make up the image, from both ends.
pub struct Chunks<'tiff> {
    image_size: (u32, u32),
    chunk_size: (u32, u32),
    locs: &'tiff [ChunkLoc],
    front: usize,
    back: usize,
}

impl<'tiff> Chunks<'tiff> {
    /// The dimensions of the image.
    pub closed spec fn spec_image_size(&self) -> (u32, u32) {
        self.image_size
    }

    /// The default dimensions of a chunk.
    pub closed spec fn spec_chunk_size(&self) -> (u32, u32) {
        self.chunk_size
    }

    /// The whole chunk table.
    pub closed spec fn spec_locs(&self) -> Seq<ChunkLoc> {
        self.locs@
    }

    /// The index of the next chunk from the front.
    pub closed spec fn spec_front(&self) -> nat {
        self.front as nat
    }

    /// One past the index of the next chunk from the back.
    pub closed spec fn spec_back(&self) -> nat {
        self.back as nat
    }

    #[verifier::type_invariant]
    spec fn inv(&self) -> bool {
        &&& self.image_size.0 > 0
        &&& self.image_size.1 > 0
        &&& self.chunk_size.0 > 0
        &&& self.chunk_size.1 > 0
        &&& self.front <= self.back <= self.locs@.len()
    }

    /// Builds the chunk at position `index` of the table.
    fn build_nth_chunk(&self, index: usize, loc: ChunkLoc) -> (r: Chunk)
        ensures
            r == chunk_at(self.image_size, self.chunk_size, index as nat, loc),
    {
        proof {
            use_type_invariant(self);
        }
        let (image_width, image_length) = self.image_size;
        let (chunk_width, chunk_length) = self.chunk_size;
        let stride = (image_width as u64 + chunk_width as u64 - 1) / chunk_width as u64;
        proof {
            let n = (image_width + chunk_width - 1) as int;
            vstd::arithmetic::div_mod::lemma_fundamental_div_mod(n, chunk_width as int);
            vstd::arithmetic::div_mod::lemma_mod_bound(n, chunk_width as int);
            assert(stride >= 1) by (nonlinear_arith)
                requires
                    n == chunk_width * stride + n % (chunk_width as int),
                    n % (chunk_width as int) < chunk_width,
                    n >= chunk_width,
            ;
            assert(chunk_width * (stride - 1) < image_width) by (nonlinear_arith)
                requires
                    n == chunk_width * stride + n % (chunk_width as int),
                    n % (chunk_width as int) >= 0,
                    n == image_width + chunk_width - 1,
            ;
        }
        let col = index as u64 % stride;
        let row = index as u64 / stride;
        proof {
            vstd::arithmetic::div_mod::lemma_mod_bound(index as int, stride as int);
            assert(col * chunk_width < image_width) by (nonlinear_arith)
                requires
                    col <= stride - 1,
                    chunk_width * (stride - 1) < image_width,
                    chunk_width >= 1,
                    col >= 0,
            ;
            assert(row * chunk_length <= 0xffff_ffff_ffff_ffff * 0xffff_ffff) by (nonlinear_arith)
                requires
                    row <= 0xffff_ffff_ffff_ffff,
                    chunk_length <= 0xffff_ffff,
                    row >= 0,
            ;
        }
        let origin_x = (col * chunk_width as u64) as u32;
        let full_y = row as u128 * chunk_length as u128;
        let origin_y: u32 = if full_y > u32::MAX as u128 {
            u32::MAX
        } else {
            full_y as u32
        };
        let rest_x = image_width - origin_x;
        let size_x = if chunk_width <= rest_x {
            chunk_width
        } else {
            rest_x
        };
        let size_y = if origin_y < image_length {
            let rest_y = image_length - origin_y;
            if chunk_length <= rest_y {
                chunk_length
            } else {
                rest_y
            }
        } else {
            0
        };
        Chunk {
            origin: (origin_x, origin_y),
            size: (size_x, size_y),
            offset: loc.offset,
            byte_count: loc.byte_count,
        }
    }

    /// The number of chunks left.
    pub fn len(&self) -> (r: usize)
        ensures
            r == self.spec_back() - self.spec_front(),
    {
        proof {
            use_type_invariant(self);
        }
        self.back - self.front
    }

    /// Returns the next chunk from the front.
    pub fn next(&mut self) -> (r: Option<Chunk>)
        ensures
            final(self).spec_image_size() == old(self).spec_image_size(),
            final(self).spec_chunk_size() == old(self).spec_chunk_size(),
            final(self).spec_locs() == old(self).spec_locs(),
            final(self).spec_back() == old(self).spec_back(),
            if old(self).spec_front() < old(self).spec_back() {
                r == Some(
                    chunk_at(
                        old(self).spec_image_size(),
                        old(self).spec_chunk_size(),
                        old(self).spec_front(),
                        old(self).spec_locs()[old(self).spec_front() as int],
                    ),
                ) && final(self).spec_front() == old(self).spec_front() + 1
            } else {
                r is None && final(self).spec_front() == old(self).spec_front()
            },
    {
        proof {
            use_type_invariant(&*self);
        }
        if self.front < self.back {
            let index = self.front;
            let chunk = self.build_nth_chunk(index, self.locs[index]);
            self.front = index + 1;
            Some(chunk)
        } else {
            None
        }
    }

    /// Returns the next chunk from the back.
    pub fn next_back(&mut self) -> (r: Option<Chunk>)
        ensures
            final(self).spec_image_size() == old(self).spec_image_size(),
            final(self).spec_chunk_size() == old(self).spec_chunk_size(),
            final(self).spec_locs() == old(self).spec_locs(),
            final(self).spec_front() == old(self).spec_front(),
            if old(self).spec_front() < old(self).spec_back() {
                r == Some(
                    chunk_at(
                        old(self).spec_image_size(),
                        old(self).spec_chunk_size(),
                        (old(self).spec_back() - 1) as nat,
                        old(self).spec_locs()[old(self).spec_back() - 1],
                    ),
                ) && final(self).spec_back() == old(self).spec_back() - 1
            } else {
                r is None && final(self).spec_back() == old(self).spec_back()
            },
    {
        proof {
            use_type_invariant(&*self);
        }
        if self.front < self.back {
            let index = self.back - 1;
            let chunk = self.build_nth_chunk(index, self.locs[index]);
            self.back = index;
            Some(chunk)
        } else {
            None
        }
    }
}

} // verus!
