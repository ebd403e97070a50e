//! Tags of directory entries.
use vstd::prelude::*;

verus! {

/// The tag of IFD entry: a 16-bit code.
#[derive(Clone, Copy, Debug, PartialEq, Eq, PartialOrd, Ord, Hash, Structural)]
pub struct Tag(pub u16);

/// Codes of the known tags.
impl Tag {
    // ---------- Baseline TIFF ----------
    /// A general indication of the kind of data contained in this subfile.
    pub const NEW_SUBFILE_TYPE: u16 = 254;
    /// A general indication of the kind of data contained in this subfile.
    pub const SUBFILE_TYPE: u16 = 255;
    /// The number of columns in the image.
    pub const IMAGE_WIDTH: u16 = 256;
    /// The number of rows in the image.
    pub const IMAGE_LENGTH: u16 = 257;
    /// The number of bits per component.
    pub const BITS_PER_SAMPLE: u16 = 258;
    /// Data compression algorithm.
    pub const COMPRESSION: u16 = 259;
    /// The color space of the image data.
    pub const PHOTOMETRIC_INTERPRETATION: u16 = 262;
    /// For black and white TIFF files that represent shades of gray; the technique used to convert from gray to black and white pixels.
    pub const THRESHHOLDING: u16 = 263;
    /// The width of the dithering or halftoning matrix used to create a dithered or halftoned bilevel file.
    pub const CELL_WIDTH: u16 = 264;
    /// The length of the dithering or halftoning matrix used to create a dithered or halftoned bilevel file.
    pub const CELL_LENGTH: u16 = 265;
    /// The logical order of bits within a byte.
    pub const FILL_ORDER: u16 = 266;
    /// A string that describes the subject of the image.
    pub const IMAGE_DESCRIPTION: u16 = 270;
    /// The scanner manufacturer.
    pub const MAKE: u16 = 271;
    /// The scanner model name or number.
    pub const MODEL: u16 = 272;
    /// For each strip; the byte offset of that strip.
    pub const STRIP_OFFSETS: u16 = 273;
    /// The orientation of the image with respect to the rows and columns.
    pub const ORIENTATION: u16 = 274;
    /// The number of components per pixel.
    pub const SAMPLES_PER_PIXEL: u16 = 277;
    /// The number of rows in each strip.
    pub const ROWS_PER_STRIP: u16 = 278;
    /// For each strip; the number of bytes in that strip after any compression.
    pub const STRIP_BYTE_COUNTS: u16 = 279;
    /// The minimum component value used.
    pub const MIN_SAMPLE_VALUE: u16 = 280;
    /// The maximum component value used.
    pub const MAX_SAMPLE_VALUE: u16 = 281;
    /// The number of pixels per `ResolutionUnit`` in the `ImageWidth` direction.
    pub const XRESOLUTION: u16 = 282;
    /// The number of pixels per `ResolutionUnit`` in the `ImageLength` direction.
    pub const YRESOLUTION: u16 = 283;
    /// How the components of each pixel are stored.
    pub const PLANAR_CONFIGURATION: u16 = 284;
    /// For each string of contiguous unused bytes in a TIFF file; the byte offset of the string.
    pub const FREE_OFFSETS: u16 = 288;
    /// For each string of contiguous unused bytes in a TIFF file; the number of bytes in the string.
    pub const FREE_BYTE_COUNTS: u16 = 289;
    /// The precision of the information contained in the GrayResponseCurve.
    pub const GRAY_RESPONSE_UNIT: u16 = 290;
    /// For grayscale data; the optical density of each possible pixel value.
    pub const GRAY_RESPONSE_CURVE: u16 = 291;
    /// The size of the picture represented by an image.
    pub const RESOLUTION_UNIT: u16 = 296;
    /// Name and version number of the software package(s) used to create the image.
    pub const SOFTWARE: u16 = 305;
    /// Date and time of image creation.
    pub const DATE_TIME: u16 = 306;
    /// Person who created the image.
    pub const ARTIST: u16 = 315;
    /// The computer and/or operating system in use at the time of image creation.
    pub const HOST_COMPUTER: u16 = 316;
    /// This field defines a Red-Green-Blue color map.
    pub const COLOR_MAP: u16 = 320;
    /// Description of extra components.
    pub const EXTRA_SAMPLES: u16 = 338;
    /// Copyright notice.
    pub const COPYRIGHT: u16 = 33432;
    // ---------- TIFF extensions ----------
    /// The name of the document from which this image was scanned.
    pub const DOCUMENT_NAME: u16 = 269;
    /// The name of the page from which this image was scanned.
    pub const PAGE_NAME: u16 = 285;
    /// X position of the image.
    pub const XPOSITION: u16 = 286;
    /// Y position of the image.
    pub const YPOSITION: u16 = 287;
    /// TSelf(4)-encoding options.
    pub const T4_OPTIONS: u16 = 292;
    /// TSelf(6)-encoding options.
    pub const T6_OPTIONS: u16 = 293;
    /// The page number of the page from which this image was scanned.
    pub const PAGE_NUMBER: u16 = 297;
    /// Describes a transfer function for the image in tabular style.
    pub const TRANSFER_FUNCTION: u16 = 301;
    /// LZW predictor.
    pub const PREDICTOR: u16 = 317;
    /// The chromaticity of the white point of the image.
    pub const WHITE_POINT: u16 = 318;
    /// The chromaticities of the primaries of the image.
    pub const PRIMARY_CHROMATICITIES: u16 = 319;
    /// Provides information about how halftoning should be applied to the image.
    pub const HALFTONE_HINTS: u16 = 321;
    /// The tile width in pixels.
    pub const TILE_WIDTH: u16 = 322;
    /// The tile length (height) in pixels.
    pub const TILE_LENGTH: u16 = 323;
    /// The byte offset of each tile.
    pub const TILE_OFFSETS: u16 = 324;
    /// The number of (compressed) bytes in each tile.
    pub const TILE_BYTE_COUNTS: u16 = 325;
    /// The set of inks used in a separated image.
    pub const INK_SET: u16 = 332;
    /// The name of each ink used in a separated image.
    pub const INK_NAMES: u16 = 333;
    /// The number of inks.
    pub const NUMBER_OF_INKS: u16 = 334;
    /// The component values that correspond to a Self(0)% dot and Self(100)% dot.
    pub const DOT_RANGE: u16 = 336;
    /// A description of the printing environment for which this separation is intended.
    pub const TARGET_PRINTER: u16 = 337;
    /// This field specifies how to interpret each data sample in a pixel.
    pub const SAMPLE_FORMAT: u16 = 339;
    /// This field specifies the minimum sample value.
    pub const SMIN_SAMPLE_VALUE: u16 = 340;
    /// This field specifies the maximum sample value.
    pub const SMAX_SAMPLE_VALUE: u16 = 341;
    /// Expands the range of the `TransferFunction`.
    pub const TRANSFER_RANGE: u16 = 342;
    /// The JPEG process used to produce the compressed data.
    pub const JPEG_PROC: u16 = 512;
    /// This field indicates whether a JPEG interchange format bitstream is present in the TIFF file.
    pub const JPEG_INTERCHANGE_FORMAT: u16 = 513;
    /// The length in bytes of the JPEG interchange format bitstream.
    pub const JPEG_INTERCHANGE_FORMAT_LENGTH: u16 = 514;
    /// The length of the restart interval used in the compressed image data.
    pub const JPEG_RESTART_INTERVAL: u16 = 515;
    /// A list of lossless predictor-selection values; one per component.
    pub const JPEG_LOSSLESS_PREDICTORS: u16 = 517;
    /// A list of point transform values; one per component.
    pub const JPEG_POINT_TRANSFORMS: u16 = 518;
    /// A list of point transform values; one per component.
    pub const JPEG_QTABLES: u16 = 519;
    /// A  list of offsets to the DC Huffman tables or the lossless Huffman tables; one per component.
    pub const JPEG_DCTABLES: u16 = 520;
    /// A list of offsets to the Huffman AC tables; one per component.
    pub const JPEG_ACTABLES: u16 = 521;
    /// The transformation from RGB to YCbCr image data.
    pub const YCBCR_COEFFICIENTS: u16 = 529;
    /// Specifies the subsampling factors used for the chrominance components of a YCbCr image
    pub const YCBCR_SUB_SAMPLING: u16 = 530;
    /// Specifies the positioning of subsampled chrominance components relative to luminance samples.
    pub const YCBCR_POSITIONING: u16 = 531;
    /// Specifies a pair of headroom and footroom image data values for each pixel component.
    pub const REFERENCE_BLACK_WHITE: u16 = 532;
    // ---------- Adobe PageMaker 6.0 ----------
    /// A list of offsets to the sub-IFDs; one per component.
    pub const SUBIFDS: u16 = 330;
    /// Description of the clipping path.
    pub const CLIP_PATH: u16 = 343;
    /// The number of units that span the width of the image, in terms of integer ClipPath coordinates.
    pub const X_CLIP_PATH_UNITS: u16 = 344;
    /// The number of units that span the height of the image, in terms of integer ClipPath coordinates.
    pub const Y_CLIP_PATH_UNITS: u16 = 345;
    // ---------- GeoTIFF ----------
    /// Transformation between raster space and model space: scaling parameters.
    pub const MODEL_PIXEL_SCALE: u16 = 33550;
    /// Transformation between raster space and model space: tiepoints.
    pub const MODEL_TIEPOINT: u16 = 33922;
    /// Transformation between raster space and model space: matrix representation.
    pub const MODEL_TRANSFORMATION: u16 = 34264;
    /// The set of keys of the projection parameters.
    pub const GEO_KEY_DIRECTORY: u16 = 34735;
    /// The set of double values of the projection parameters.
    pub const GEO_DOUBLE_PARAMS: u16 = 34736;
    /// The set of string values of the projection parameters.
    pub const GEO_ASCII_PARAMS: u16 = 34737;
    // ---------- GDAL ----------
    /// GDAL non standard metadata.
    pub const GDAL_METADATA: u16 = 42112;
    /// GDAL band nodata value.
    pub const GDAL_NO_DATA: u16 = 42113;
    /// The full set of NITF RPCSelf(00)B values.
    pub const RPCCOEFFICIENT: u16 = 50844;
    // ---------- EXIF ----------
    /// Exposure time; given in seconds.
    pub const EXPOSURE_TIME: u16 = 33434;
    /// The F number.
    pub const FNUMBER: u16 = 33437;
    /// The class of the program used by the camera to set exposure when the picture is taken.
    pub const EXPOSURE_PROGRAM: u16 = 34850;
    /// Indicates the spectral sensitivity of each channel of the camera used.
    pub const SPECTRAL_SENSITIVITY: u16 = 34852;
    /// Indicates the ISO Speed and ISO Latitude of the camera or input device as specified in ISO Self(12232).
    pub const ISO_SPEED_RATINGS: u16 = 34855;
    /// Indicates the Opto-Electric Conversion Function (OECF) specified in ISO Self(14524).
    pub const OECF: u16 = 34856;
    /// The version of the supported Exif standard.
    pub const EXIF_VERSION: u16 = 36864;
    /// The date and time when the image data was first generated.
    pub const DATE_TIME_ORIGINAL: u16 = 36867;
    /// The date and time when the image was stored as digital data.
    pub const DATE_TIME_DIGITIZED: u16 = 36868;
    /// Specific to compressed data; specifies the channels and complements PhotometricInterpretation
    pub const COMPONENTS_CONFIGURATION: u16 = 37121;
    /// Specific to compressed data; states the compressed bits per pixel.
    pub const COMPRESSED_BITS_PER_PIXEL: u16 = 37122;
    /// Shutter speed.
    pub const SHUTTER_SPEED_VALUE: u16 = 37377;
    /// The lens aperture.
    pub const APERTURE_VALUE: u16 = 37378;
    /// The value of brightness.
    pub const BRIGHTNESS_VALUE: u16 = 37379;
    /// The exposure bias.
    pub const EXPOSURE_BIAS_VALUE: u16 = 37380;
    /// The smallest F number of the lens.
    pub const MAX_APERTURE_VALUE: u16 = 37381;
    /// The distance to the subject; given in meters.
    pub const SUBJECT_DISTANCE: u16 = 37382;
    /// The metering mode.
    pub const METERING_MODE: u16 = 37383;
    /// The kind of light source.
    pub const LIGHT_SOURCE: u16 = 37384;
    /// Indicates the status of flash when the image was shot.
    pub const FLASH: u16 = 37385;
    /// The actual focal length of the lens; in mm.
    pub const FOCAL_LENGTH: u16 = 37386;
    /// Indicates the location and area of the main subject in the overall scene.
    pub const SUBJECT_AREA: u16 = 37396;
    /// Manufacturer specific information.
    pub const MAKER_NOTE: u16 = 37500;
    /// Keywords or comments on the image; complements ImageDescription.
    pub const USER_COMMENT: u16 = 37510;
    /// A tag used to record fractions of seconds for the DateTime tag.
    pub const SUBSEC_TIME: u16 = 37520;
    /// A tag used to record fractions of seconds for the DateTimeOriginal tag.
    pub const SUBSEC_TIME_ORIGINAL: u16 = 37521;
    /// A tag used to record fractions of seconds for the DateTimeDigitized tag.
    pub const SUBSEC_TIME_DIGITIZED: u16 = 37522;
    /// The Flashpix format version supported by a FPXR file.
    pub const FLASHPIX_VERSION: u16 = 40960;
    /// The color space information tag is always recorded as the color space specifier.
    pub const COLOR_SPACE: u16 = 40961;
    /// Specific to compressed data; the valid width of the meaningful image.
    pub const PIXEL_XDIMENSION: u16 = 40962;
    /// Specific to compressed data; the valid height of the meaningful image.
    pub const PIXEL_YDIMENSION: u16 = 40963;
    /// Used to record the name of an audio file related to the image data.
    pub const RELATED_SOUND_FILE: u16 = 40964;
    /// Indicates the strobe energy at the time the image is captured; as measured in Beam Candle Power Seconds
    pub const FLASH_ENERGY: u16 = 41483;
    /// Records the camera or input device spatial frequency table and SFR values in the direction of image width; image height; and diagonal direction; as specified in ISO Self(12233).
    pub const SPATIAL_FREQUENCY_RESPONSE: u16 = 41484;
    /// Indicates the number of pixels in the image width (X) direction per FocalPlaneResolutionUnit on the camera focal plane.
    pub const FOCAL_PLANE_XRESOLUTION: u16 = 41486;
    /// Indicates the number of pixels in the image height (Y) direction per FocalPlaneResolutionUnit on the camera focal plane.
    pub const FOCAL_PLANE_YRESOLUTION: u16 = 41487;
    /// Indicates the unit for measuring FocalPlaneXResolution and FocalPlaneYResolution.
    pub const FOCAL_PLANE_RESOLUTION_UNIT: u16 = 41488;
    /// Indicates the location of the main subject in the scene.
    pub const SUBJECT_LOCATION: u16 = 41492;
    /// Indicates the exposure index selected on the camera or input device at the time the image is captured.
    pub const EXPOSURE_INDEX: u16 = 41493;
    /// Indicates the image sensor type on the camera or input device.
    pub const SENSING_METHOD: u16 = 41495;
    /// Indicates the image source.
    pub const FILE_SOURCE: u16 = 41728;
    /// Indicates the type of scene.
    pub const SCENE_TYPE: u16 = 41729;
    /// Indicates the color filter array (CFA) geometric pattern of the image sensor when a one-chip color area sensor is used.
    pub const CFA_PATTERN: u16 = 41730;
    /// Indicates the use of special processing on image data; such as rendering geared to output.
    pub const CUSTOM_RENDERED: u16 = 41985;
    /// Indicates the exposure mode set when the image was shot.
    pub const EXPOSURE_MODE: u16 = 41986;
    /// Indicates the white balance mode set when the image was shot.
    pub const WHITE_BALANCE: u16 = 41987;
    /// Indicates the digital zoom ratio when the image was shot.
    pub const DIGITAL_ZOOM_RATIO: u16 = 41988;
    /// Indicates the equivalent focal length assuming a Self(35)mm film camera; in mm.
    pub const FOCAL_LENGTH_IN35MM_FILM: u16 = 41989;
    /// Indicates the type of scene that was shot.
    pub const SCENE_CAPTURE_TYPE: u16 = 41990;
    /// Indicates the degree of overall image gain adjustment.
    pub const GAIN_COLOR: u16 = 41991;
    /// Indicates the direction of contrast processing applied by the camera when the image was shot.
    pub const CONTRAST: u16 = 41992;
    /// Indicates the direction of saturation processing applied by the camera when the image was shot.
    pub const SATURATION: u16 = 41993;
    /// Indicates the direction of sharpness processing applied by the camera when the image was shot.
    pub const SHARPNESS: u16 = 41994;
    /// This tag indicates information on the picture-taking conditions of a particular camera model.
    pub const DEVICE_SETTING_DESCRIPTION: u16 = 41995;
    /// Indicates the distance to the subject.
    pub const SUBJECT_DISTANCE_RANGE: u16 = 41996;
    /// Indicates an identifier assigned uniquely to each image.
    pub const IMAGE_UNIQUE_ID: u16 = 42016;
    // ---------- Baseline TIFF ----------
    // ---------- TIFF extensions ----------
    // ---------- Adobe PageMaker 6.0 ----------
    // ---------- GeoTIFF ----------
    // ---------- GDAL ----------
    // ---------- EXIF ----------
    // ---------- Unknown ----------
}

/// The name of the tag with code `code`, or "Unknown".
pub open spec fn tag_name(code: u16) -> &'static str {
    if code == Tag::NEW_SUBFILE_TYPE {
        "NewSubfileType"
    } else if code == Tag::SUBFILE_TYPE {
        "SubfileType"
    } else if code == Tag::IMAGE_WIDTH {
        "ImageWidth"
    } else if code == Tag::IMAGE_LENGTH {
        "ImageLength"
    } else if code == Tag::BITS_PER_SAMPLE {
        "BitsPerSample"
    } else if code == Tag::COMPRESSION {
        "Compression"
    } else if code == Tag::PHOTOMETRIC_INTERPRETATION {
        "PhotometricInterpretation"
    } else if code == Tag::THRESHHOLDING {
        "Threshholding"
    } else if code == Tag::CELL_WIDTH {
        "CellWidth"
    } else if code == Tag::CELL_LENGTH {
        "CellLength"
    } else if code == Tag::FILL_ORDER {
        "FillOrder"
    } else if code == Tag::IMAGE_DESCRIPTION {
        "ImageDescription"
    } else if code == Tag::MAKE {
        "Make"
    } else if code == Tag::MODEL {
        "Model"
    } else if code == Tag::STRIP_OFFSETS {
        "StripOffsets"
    } else if code == Tag::ORIENTATION {
        "Orientation"
    } else if code == Tag::SAMPLES_PER_PIXEL {
        "SamplesPerPixel"
    } else if code == Tag::ROWS_PER_STRIP {
        "RowsPerStrip"
    } else if code == Tag::STRIP_BYTE_COUNTS {
        "StripByteCounts"
    } else if code == Tag::MIN_SAMPLE_VALUE {
        "MinSampleValue"
    } else if code == Tag::MAX_SAMPLE_VALUE {
        "MaxSampleValue"
    } else if code == Tag::XRESOLUTION {
        "XResolution"
    } else if code == Tag::YRESOLUTION {
        "YResolution"
    } else if code == Tag::PLANAR_CONFIGURATION {
        "PlanarConfiguration"
    } else if code == Tag::FREE_OFFSETS {
        "FreeOffsets"
    } else if code == Tag::FREE_BYTE_COUNTS {
        "FreeByteCounts"
    } else if code == Tag::GRAY_RESPONSE_UNIT {
        "GrayResponseUnit"
    } else if code == Tag::GRAY_RESPONSE_CURVE {
        "GrayResponseCurve"
    } else if code == Tag::RESOLUTION_UNIT {
        "ResolutionUnit"
    } else if code == Tag::SOFTWARE {
        "Software"
    } else if code == Tag::DATE_TIME {
        "DateTime"
    } else if code == Tag::ARTIST {
        "Artist"
    } else if code == Tag::HOST_COMPUTER {
        "HostComputer"
    } else if code == Tag::COLOR_MAP {
        "ColorMap"
    } else if code == Tag::EXTRA_SAMPLES {
        "ExtraSamples"
    } else if code == Tag::COPYRIGHT {
        "Copyright"
    } else if code == Tag::DOCUMENT_NAME {
        "DocumentName"
    } else if code == Tag::PAGE_NAME {
        "PageName"
    } else if code == Tag::XPOSITION {
        "XPosition"
    } else if code == Tag::YPOSITION {
        "YPosition"
    } else if code == Tag::T4_OPTIONS {
        "T4Options"
    } else if code == Tag::T6_OPTIONS {
        "T6Options"
    } else if code == Tag::PAGE_NUMBER {
        "PageNumber"
    } else if code == Tag::TRANSFER_FUNCTION {
        "TransferFunction"
    } else if code == Tag::PREDICTOR {
        "Predictor"
    } else if code == Tag::WHITE_POINT {
        "WhitePoint"
    } else if code == Tag::PRIMARY_CHROMATICITIES {
        "PrimaryChromaticities"
    } else if code == Tag::HALFTONE_HINTS {
        "HalftoneHints"
    } else if code == Tag::TILE_WIDTH {
        "TileWidth"
    } else if code == Tag::TILE_LENGTH {
        "TileLength"
    } else if code == Tag::TILE_OFFSETS {
        "TileOffsets"
    } else if code == Tag::TILE_BYTE_COUNTS {
        "TileByteCounts"
    } else if code == Tag::INK_SET {
        "InkSet"
    } else if code == Tag::INK_NAMES {
        "InkNames"
    } else if code == Tag::NUMBER_OF_INKS {
        "NumberOfInks"
    } else if code == Tag::DOT_RANGE {
        "DotRange"
    } else if code == Tag::TARGET_PRINTER {
        "TargetPrinter"
    } else if code == Tag::SAMPLE_FORMAT {
        "SampleFormat"
    } else if code == Tag::SMIN_SAMPLE_VALUE {
        "SMinSampleValue"
    } else if code == Tag::SMAX_SAMPLE_VALUE {
        "SMaxSampleValue"
    } else if code == Tag::TRANSFER_RANGE {
        "TransferRange"
    } else if code == Tag::JPEG_PROC {
        "JPEGProc"
    } else if code == Tag::JPEG_INTERCHANGE_FORMAT {
        "JPEGInterchangeFormat"
    } else if code == Tag::JPEG_INTERCHANGE_FORMAT_LENGTH {
        "JPEGInterchangeFormatLength"
    } else if code == Tag::JPEG_RESTART_INTERVAL {
        "JPEGRestartInterval"
    } else if code == Tag::JPEG_LOSSLESS_PREDICTORS {
        "JPEGLosslessPredictors"
    } else if code == Tag::JPEG_POINT_TRANSFORMS {
        "JPEGPointTransforms"
    } else if code == Tag::JPEG_QTABLES {
        "JPEGQTables"
    } else if code == Tag::JPEG_DCTABLES {
        "JPEGDCTables"
    } else if code == Tag::JPEG_ACTABLES {
        "JPEGACTables"
    } else if code == Tag::YCBCR_COEFFICIENTS {
        "YCbCrCoefficients"
    } else if code == Tag::YCBCR_SUB_SAMPLING {
        "YCbCrSubSampling"
    } else if code == Tag::YCBCR_POSITIONING {
        "YCbCrPositioning"
    } else if code == Tag::REFERENCE_BLACK_WHITE {
        "ReferenceBlackWhite"
    } else if code == Tag::SUBIFDS {
        "SubIFDs"
    } else if code == Tag::CLIP_PATH {
        "ClipPath"
    } else if code == Tag::X_CLIP_PATH_UNITS {
        "XClipPathUnits"
    } else if code == Tag::Y_CLIP_PATH_UNITS {
        "YClipPathUnits"
    } else if code == Tag::MODEL_PIXEL_SCALE {
        "ModelPixelScale"
    } else if code == Tag::MODEL_TIEPOINT {
        "ModelTiepoint"
    } else if code == Tag::MODEL_TRANSFORMATION {
        "ModelTransformation"
    } else if code == Tag::GEO_KEY_DIRECTORY {
        "GeoKeyDirectory"
    } else if code == Tag::GEO_DOUBLE_PARAMS {
        "GeoDoubleParams"
    } else if code == Tag::GEO_ASCII_PARAMS {
        "GeoAsciiParams"
    } else if code == Tag::GDAL_METADATA {
        "GdalMetadata"
    } else if code == Tag::GDAL_NO_DATA {
        "GdalNoData"
    } else if code == Tag::RPCCOEFFICIENT {
        "RpcCoefficient"
    } else if code == Tag::EXPOSURE_TIME {
        "ExposureTime"
    } else if code == Tag::FNUMBER {
        "FNumber"
    } else if code == Tag::EXPOSURE_PROGRAM {
        "ExposureProgram"
    } else if code == Tag::SPECTRAL_SENSITIVITY {
        "SpectralSensitivity"
    } else if code == Tag::ISO_SPEED_RATINGS {
        "IsoSpeedRatings"
    } else if code == Tag::OECF {
        "Oecf"
    } else if code == Tag::EXIF_VERSION {
        "ExifVersion"
    } else if code == Tag::DATE_TIME_ORIGINAL {
        "DateTimeOriginal"
    } else if code == Tag::DATE_TIME_DIGITIZED {
        "DateTimeDigitized"
    } else if code == Tag::COMPONENTS_CONFIGURATION {
        "ComponentsConfiguration"
    } else if code == Tag::COMPRESSED_BITS_PER_PIXEL {
        "CompressedBitsPerPixel"
    } else if code == Tag::SHUTTER_SPEED_VALUE {
        "ShutterSpeedValue"
    } else if code == Tag::APERTURE_VALUE {
        "ApertureValue"
    } else if code == Tag::BRIGHTNESS_VALUE {
        "BrightnessValue"
    } else if code == Tag::EXPOSURE_BIAS_VALUE {
        "ExposureBiasValue"
    } else if code == Tag::MAX_APERTURE_VALUE {
        "MaxApertureValue"
    } else if code == Tag::SUBJECT_DISTANCE {
        "SubjectDistance"
    } else if code == Tag::METERING_MODE {
        "MeteringMode"
    } else if code == Tag::LIGHT_SOURCE {
        "LightSource"
    } else if code == Tag::FLASH {
        "Flash"
    } else if code == Tag::FOCAL_LENGTH {
        "FocalLength"
    } else if code == Tag::SUBJECT_AREA {
        "SubjectArea"
    } else if code == Tag::MAKER_NOTE {
        "MakerNote"
    } else if code == Tag::USER_COMMENT {
        "UserComment"
    } else if code == Tag::SUBSEC_TIME {
        "SubSecTime"
    } else if code == Tag::SUBSEC_TIME_ORIGINAL {
        "SubSecTimeOriginal"
    } else if code == Tag::SUBSEC_TIME_DIGITIZED {
        "SubSecTimeDigitized"
    } else if code == Tag::FLASHPIX_VERSION {
        "FlashpixVersion"
    } else if code == Tag::COLOR_SPACE {
        "ColorSpace"
    } else if code == Tag::PIXEL_XDIMENSION {
        "PixelXDimension"
    } else if code == Tag::PIXEL_YDIMENSION {
        "PixelYDimension"
    } else if code == Tag::RELATED_SOUND_FILE {
        "RelatedSoundFile"
    } else if code == Tag::FLASH_ENERGY {
        "FlashEnergy"
    } else if code == Tag::SPATIAL_FREQUENCY_RESPONSE {
        "SpatialFrequencyResponse"
    } else if code == Tag::FOCAL_PLANE_XRESOLUTION {
        "FocalPlaneXResolution"
    } else if code == Tag::FOCAL_PLANE_YRESOLUTION {
        "FocalPlaneYResolution"
    } else if code == Tag::FOCAL_PLANE_RESOLUTION_UNIT {
        "FocalPlaneResolutionUnit"
    } else if code == Tag::SUBJECT_LOCATION {
        "SubjectLocation"
    } else if code == Tag::EXPOSURE_INDEX {
        "ExposureIndex"
    } else if code == Tag::SENSING_METHOD {
        "SensingMethod"
    } else if code == Tag::FILE_SOURCE {
        "FileSource"
    } else if code == Tag::SCENE_TYPE {
        "SceneType"
    } else if code == Tag::CFA_PATTERN {
        "CfaPattern"
    } else if code == Tag::CUSTOM_RENDERED {
        "CustomRendered"
    } else if code == Tag::EXPOSURE_MODE {
        "ExposureMode"
    } else if code == Tag::WHITE_BALANCE {
        "WhiteBalance"
    } else if code == Tag::DIGITAL_ZOOM_RATIO {
        "DigitalZoomRatio"
    } else if code == Tag::FOCAL_LENGTH_IN35MM_FILM {
        "FocalLengthIn35mmFilm"
    } else if code == Tag::SCENE_CAPTURE_TYPE {
        "SceneCaptureType"
    } else if code == Tag::GAIN_COLOR {
        "GainColor"
    } else if code == Tag::CONTRAST {
        "Contrast"
    } else if code == Tag::SATURATION {
        "Saturation"
    } else if code == Tag::SHARPNESS {
        "Sharpness"
    } else if code == Tag::DEVICE_SETTING_DESCRIPTION {
        "DeviceSettingDescription"
    } else if code == Tag::SUBJECT_DISTANCE_RANGE {
        "SubjectDistanceRange"
    } else if code == Tag::IMAGE_UNIQUE_ID {
        "ImageUniqueId"
    } else {
        "Unknown"
    }
}

impl Tag {
    /// Returns the name of the tag if known, otherwise "Unknown" is returned.
    pub fn name(&self) -> (r: &'static str)
        ensures
            r == tag_name(self.0),
    {
        let code = self.0;
        if code == Tag::NEW_SUBFILE_TYPE {
            "NewSubfileType"
        } else if code == Tag::SUBFILE_TYPE {
            "SubfileType"
        } else if code == Tag::IMAGE_WIDTH {
            "ImageWidth"
        } else if code == Tag::IMAGE_LENGTH {
            "ImageLength"
        } else if code == Tag::BITS_PER_SAMPLE {
            "BitsPerSample"
        } else if code == Tag::COMPRESSION {
            "Compression"
        } else if code == Tag::PHOTOMETRIC_INTERPRETATION {
            "PhotometricInterpretation"
        } else if code == Tag::THRESHHOLDING {
            "Threshholding"
        } else if code == Tag::CELL_WIDTH {
            "CellWidth"
        } else if code == Tag::CELL_LENGTH {
            "CellLength"
        } else if code == Tag::FILL_ORDER {
            "FillOrder"
        } else if code == Tag::IMAGE_DESCRIPTION {
            "ImageDescription"
        } else if code == Tag::MAKE {
            "Make"
        } else if code == Tag::MODEL {
            "Model"
        } else if code == Tag::STRIP_OFFSETS {
            "StripOffsets"
        } else if code == Tag::ORIENTATION {
            "Orientation"
        } else if code == Tag::SAMPLES_PER_PIXEL {
            "SamplesPerPixel"
        } else if code == Tag::ROWS_PER_STRIP {
            "RowsPerStrip"
        } else if code == Tag::STRIP_BYTE_COUNTS {
            "StripByteCounts"
        } else if code == Tag::MIN_SAMPLE_VALUE {
            "MinSampleValue"
        } else if code == Tag::MAX_SAMPLE_VALUE {
            "MaxSampleValue"
        } else if code == Tag::XRESOLUTION {
            "XResolution"
        } else if code == Tag::YRESOLUTION {
            "YResolution"
        } else if code == Tag::PLANAR_CONFIGURATION {
            "PlanarConfiguration"
        } else if code == Tag::FREE_OFFSETS {
            "FreeOffsets"
        } else if code == Tag::FREE_BYTE_COUNTS {
            "FreeByteCounts"
        } else if code == Tag::GRAY_RESPONSE_UNIT {
            "GrayResponseUnit"
        } else if code == Tag::GRAY_RESPONSE_CURVE {
            "GrayResponseCurve"
        } else if code == Tag::RESOLUTION_UNIT {
            "ResolutionUnit"
        } else if code == Tag::SOFTWARE {
            "Software"
        } else if code == Tag::DATE_TIME {
            "DateTime"
        } else if code == Tag::ARTIST {
            "Artist"
        } else if code == Tag::HOST_COMPUTER {
            "HostComputer"
        } else if code == Tag::COLOR_MAP {
            "ColorMap"
        } else if code == Tag::EXTRA_SAMPLES {
            "ExtraSamples"
        } else if code == Tag::COPYRIGHT {
            "Copyright"
        } else if code == Tag::DOCUMENT_NAME {
            "DocumentName"
        } else if code == Tag::PAGE_NAME {
            "PageName"
        } else if code == Tag::XPOSITION {
            "XPosition"
        } else if code == Tag::YPOSITION {
            "YPosition"
        } else if code == Tag::T4_OPTIONS {
            "T4Options"
        } else if code == Tag::T6_OPTIONS {
            "T6Options"
        } else if code == Tag::PAGE_NUMBER {
            "PageNumber"
        } else if code == Tag::TRANSFER_FUNCTION {
            "TransferFunction"
        } else if code == Tag::PREDICTOR {
            "Predictor"
        } else if code == Tag::WHITE_POINT {
            "WhitePoint"
        } else if code == Tag::PRIMARY_CHROMATICITIES {
            "PrimaryChromaticities"
        } else if code == Tag::HALFTONE_HINTS {
            "HalftoneHints"
        } else if code == Tag::TILE_WIDTH {
            "TileWidth"
        } else if code == Tag::TILE_LENGTH {
            "TileLength"
        } else if code == Tag::TILE_OFFSETS {
            "TileOffsets"
        } else if code == Tag::TILE_BYTE_COUNTS {
            "TileByteCounts"
        } else if code == Tag::INK_SET {
            "InkSet"
        } else if code == Tag::INK_NAMES {
            "InkNames"
        } else if code == Tag::NUMBER_OF_INKS {
            "NumberOfInks"
        } else if code == Tag::DOT_RANGE {
            "DotRange"
        } else if code == Tag::TARGET_PRINTER {
            "TargetPrinter"
        } else if code == Tag::SAMPLE_FORMAT {
            "SampleFormat"
        } else if code == Tag::SMIN_SAMPLE_VALUE {
            "SMinSampleValue"
        } else if code == Tag::SMAX_SAMPLE_VALUE {
            "SMaxSampleValue"
        } else if code == Tag::TRANSFER_RANGE {
            "TransferRange"
        } else if code == Tag::JPEG_PROC {
            "JPEGProc"
        } else if code == Tag::JPEG_INTERCHANGE_FORMAT {
            "JPEGInterchangeFormat"
        } else if code == Tag::JPEG_INTERCHANGE_FORMAT_LENGTH {
            "JPEGInterchangeFormatLength"
        } else if code == Tag::JPEG_RESTART_INTERVAL {
            "JPEGRestartInterval"
        } else if code == Tag::JPEG_LOSSLESS_PREDICTORS {
            "JPEGLosslessPredictors"
        } else if code == Tag::JPEG_POINT_TRANSFORMS {
            "JPEGPointTransforms"
        } else if code == Tag::JPEG_QTABLES {
            "JPEGQTables"
        } else if code == Tag::JPEG_DCTABLES {
            "JPEGDCTables"
        } else if code == Tag::JPEG_ACTABLES {
            "JPEGACTables"
        } else if code == Tag::YCBCR_COEFFICIENTS {
            "YCbCrCoefficients"
        } else if code == Tag::YCBCR_SUB_SAMPLING {
            "YCbCrSubSampling"
        } else if code == Tag::YCBCR_POSITIONING {
            "YCbCrPositioning"
        } else if code == Tag::REFERENCE_BLACK_WHITE {
            "ReferenceBlackWhite"
        } else if code == Tag::SUBIFDS {
            "SubIFDs"
        } else if code == Tag::CLIP_PATH {
            "ClipPath"
        } else if code == Tag::X_CLIP_PATH_UNITS {
            "XClipPathUnits"
        } else if code == Tag::Y_CLIP_PATH_UNITS {
            "YClipPathUnits"
        } else if code == Tag::MODEL_PIXEL_SCALE {
            "ModelPixelScale"
        } else if code == Tag::MODEL_TIEPOINT {
            "ModelTiepoint"
        } else if code == Tag::MODEL_TRANSFORMATION {
            "ModelTransformation"
        } else if code == Tag::GEO_KEY_DIRECTORY {
            "GeoKeyDirectory"
        } else if code == Tag::GEO_DOUBLE_PARAMS {
            "GeoDoubleParams"
        } else if code == Tag::GEO_ASCII_PARAMS {
            "GeoAsciiParams"
        } else if code == Tag::GDAL_METADATA {
            "GdalMetadata"
        } else if code == Tag::GDAL_NO_DATA {
            "GdalNoData"
        } else if code == Tag::RPCCOEFFICIENT {
            "RpcCoefficient"
        } else if code == Tag::EXPOSURE_TIME {
            "ExposureTime"
        } else if code == Tag::FNUMBER {
            "FNumber"
        } else if code == Tag::EXPOSURE_PROGRAM {
            "ExposureProgram"
        } else if code == Tag::SPECTRAL_SENSITIVITY {
            "SpectralSensitivity"
        } else if code == Tag::ISO_SPEED_RATINGS {
            "IsoSpeedRatings"
        } else if code == Tag::OECF {
            "Oecf"
        } else if code == Tag::EXIF_VERSION {
            "ExifVersion"
        } else if code == Tag::DATE_TIME_ORIGINAL {
            "DateTimeOriginal"
        } else if code == Tag::DATE_TIME_DIGITIZED {
            "DateTimeDigitized"
        } else if code == Tag::COMPONENTS_CONFIGURATION {
            "ComponentsConfiguration"
        } else if code == Tag::COMPRESSED_BITS_PER_PIXEL {
            "CompressedBitsPerPixel"
        } else if code == Tag::SHUTTER_SPEED_VALUE {
            "ShutterSpeedValue"
        } else if code == Tag::APERTURE_VALUE {
            "ApertureValue"
        } else if code == Tag::BRIGHTNESS_VALUE {
            "BrightnessValue"
        } else if code == Tag::EXPOSURE_BIAS_VALUE {
            "ExposureBiasValue"
        } else if code == Tag::MAX_APERTURE_VALUE {
            "MaxApertureValue"
        } else if code == Tag::SUBJECT_DISTANCE {
            "SubjectDistance"
        } else if code == Tag::METERING_MODE {
            "MeteringMode"
        } else if code == Tag::LIGHT_SOURCE {
            "LightSource"
        } else if code == Tag::FLASH {
            "Flash"
        } else if code == Tag::FOCAL_LENGTH {
            "FocalLength"
        } else if code == Tag::SUBJECT_AREA {
            "SubjectArea"
        } else if code == Tag::MAKER_NOTE {
            "MakerNote"
        } else if code == Tag::USER_COMMENT {
            "UserComment"
        } else if code == Tag::SUBSEC_TIME {
            "SubSecTime"
        } else if code == Tag::SUBSEC_TIME_ORIGINAL {
            "SubSecTimeOriginal"
        } else if code == Tag::SUBSEC_TIME_DIGITIZED {
            "SubSecTimeDigitized"
        } else if code == Tag::FLASHPIX_VERSION {
            "FlashpixVersion"
        } else if code == Tag::COLOR_SPACE {
            "ColorSpace"
        } else if code == Tag::PIXEL_XDIMENSION {
            "PixelXDimension"
        } else if code == Tag::PIXEL_YDIMENSION {
            "PixelYDimension"
        } else if code == Tag::RELATED_SOUND_FILE {
            "RelatedSoundFile"
        } else if code == Tag::FLASH_ENERGY {
            "FlashEnergy"
        } else if code == Tag::SPATIAL_FREQUENCY_RESPONSE {
            "SpatialFrequencyResponse"
        } else if code == Tag::FOCAL_PLANE_XRESOLUTION {
            "FocalPlaneXResolution"
        } else if code == Tag::FOCAL_PLANE_YRESOLUTION {
            "FocalPlaneYResolution"
        } else if code == Tag::FOCAL_PLANE_RESOLUTION_UNIT {
            "FocalPlaneResolutionUnit"
        } else if code == Tag::SUBJECT_LOCATION {
            "SubjectLocation"
        } else if code == Tag::EXPOSURE_INDEX {
            "ExposureIndex"
        } else if code == Tag::SENSING_METHOD {
            "SensingMethod"
        } else if code == Tag::FILE_SOURCE {
            "FileSource"
        } else if code == Tag::SCENE_TYPE {
            "SceneType"
        } else if code == Tag::CFA_PATTERN {
            "CfaPattern"
        } else if code == Tag::CUSTOM_RENDERED {
            "CustomRendered"
        } else if code == Tag::EXPOSURE_MODE {
            "ExposureMode"
        } else if code == Tag::WHITE_BALANCE {
            "WhiteBalance"
        } else if code == Tag::DIGITAL_ZOOM_RATIO {
            "DigitalZoomRatio"
        } else if code == Tag::FOCAL_LENGTH_IN35MM_FILM {
            "FocalLengthIn35mmFilm"
        } else if code == Tag::SCENE_CAPTURE_TYPE {
            "SceneCaptureType"
        } else if code == Tag::GAIN_COLOR {
            "GainColor"
        } else if code == Tag::CONTRAST {
            "Contrast"
        } else if code == Tag::SATURATION {
            "Saturation"
        } else if code == Tag::SHARPNESS {
            "Sharpness"
        } else if code == Tag::DEVICE_SETTING_DESCRIPTION {
            "DeviceSettingDescription"
        } else if code == Tag::SUBJECT_DISTANCE_RANGE {
            "SubjectDistanceRange"
        } else if code == Tag::IMAGE_UNIQUE_ID {
            "ImageUniqueId"
        } else {
            "Unknown"
        }
    }
}

} // verus!
