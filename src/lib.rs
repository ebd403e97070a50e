//! TIFF image reader: byte-order handling, structural decoding of directories and entries,
//! metadata validation, decompression and predictor reversal.
pub mod byteorder;
pub mod compression;
pub mod decoder;
pub mod dtype;
pub mod endian;
pub mod entry;
pub mod error;
pub mod interpretation;
pub mod json;
pub mod metadata;
pub mod packbits;
pub mod planar_configuration;
pub mod predictor;
pub mod ratio;
pub mod resolution_unit;
pub mod sample_format;
pub mod subfile_type;
pub mod tag;
pub mod version;

pub use compression::Compression;
pub use decoder::Decoder;
pub use dtype::DType;
pub use endian::ByteOrder;
pub use entry::Entry;
pub use error::{Error, ErrorKind};
pub use interpretation::Interpretation;
pub use planar_configuration::PlanarConfiguration;
pub use predictor::Predictor;
pub use ratio::Ratio;
pub use resolution_unit::ResolutionUnit;
pub use sample_format::SampleFormat;
pub use subfile_type::SubfileType;
pub use tag::Tag;
pub use version::Version;
