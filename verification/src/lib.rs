//! Decoding of DICOM imaging data into displayable RGBA pixel buffers.
//!
//! The heart of the crate is the window/level pipeline: extraction of
//! windowing parameters from a data set, construction and in-place refresh of
//! a value-to-display lookup table (LUT), and conversion of raw monochrome or
//! RGB samples into a packed RGBA buffer honoring the declared photometric
//! interpretation.
//!
//! Windowing parameters are kept in a binary fixed-point representation
//! ([`fixed::Fixed`]), so every step of the numeric pipeline is exact integer
//! arithmetic with a precise contract.

pub mod dcm;
pub mod error;
pub mod fixed;
pub mod imaging;
pub mod lut;
pub mod parse;
pub mod transcode;
pub mod window;

pub use error::Error;
pub use imaging::byte_data_to_dicom_obj;
pub use imaging::convert_monochrome_to_y_samples;
pub use imaging::convert_rgb_to_imagedata;
pub use imaging::obj_to_imagedata;
pub use imaging::simple_pixel_data_lut;
pub use imaging::simple_pixel_data_lut_with;
pub use imaging::update_pixel_data_lut_with;
pub use imaging::window_level_of;
pub use imaging::RgbaImage;
pub use fixed::Fixed;
pub use fixed::WindowLevel;
pub use lut::build_lut;
pub use lut::update_lut;
pub use parse::parse_ds;
pub use transcode::Monochrome;
pub use transcode::PhotometricInterpretation;
pub use transcode::PixelSamples;
pub use transcode::transcode;
pub use window::VoiLutFunction;
pub use window::apply_window_level;
pub use window::window_level_linear;
pub use window::window_level_linear_exact;
pub use window::window_level_sigmoid;
