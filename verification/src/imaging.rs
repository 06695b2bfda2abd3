//! The object-level imaging pipeline: extraction of windowing parameters
//! from a parsed data set, lookup-table management, and transcoding of the
//! pixel data into a packed RGBA buffer.
//!
//! Attribute access goes through the trusted wrappers of [`crate::dcm`];
//! everything computed from the attribute values is verified. Tags are
//! written as group and element numbers of the standard data dictionary.

use dicom::object::DefaultDicomObject;
use vstd::prelude::*;

use crate::dcm::{
    elem_bytes, elem_is_pixel_sequence, elem_text, elem_u16s, elem_uint, find_element,
    find_element_opt,
};
use crate::error::Error;
use crate::fixed::{Fixed, WindowLevel};
use crate::lut::{lut_matches, lut_size, update_lut};
use crate::parse::parse_ds;
use crate::transcode::{
    transcode, transcode_ok, transcoded, Monochrome, PhotometricInterpretation, PixelSamples,
};
use crate::window::VoiLutFunction;

pub use crate::dcm::byte_data_to_dicom_obj;

verus! {

/// An RGBA pixel buffer with its dimensions: the output-facing value handed
/// to a rendering surface. The bytes are row-major, four per pixel, in the
/// order red, green, blue, alpha, with alpha always 255.
#[derive(Debug, Clone, PartialEq, Eq)]
pub struct RgbaImage {
    pub data: Vec<u8>,
    pub width: u32,
    pub height: u32,
}

/// The photometric interpretation of a monochrome flavor.
pub open spec fn mono_pi(m: Monochrome) -> PhotometricInterpretation {
    match m {
        Monochrome::Monochrome1 => PhotometricInterpretation::Monochrome1,
        Monochrome::Monochrome2 => PhotometricInterpretation::Monochrome2,
    }
}

/// A required unsigned integer attribute: absent and unreadable values are
/// told apart, as typed failures.
fn read_required_uint(obj: &DefaultDicomObject, group: u16, element: u16) -> (r: Result<
    u32,
    Error,
>)
    ensures
        r is Err ==> (r == Err::<u32, Error>(Error::MissingAttribute { group, element }) || r
            == Err::<u32, Error>(Error::MalformedAttribute { group, element })),
{
    match find_element(obj, group, element) {
        Err(_) => Err(Error::MissingAttribute { group, element }),
        Ok(el) => match elem_uint(el) {
            Some(v) => Ok(v),
            None => Err(Error::MalformedAttribute { group, element }),
        },
    }
}

/// An optional decimal-string attribute, parsed into fixed point: an absent
/// attribute takes the given default, a present but unparsable one is a
/// malformed-attribute failure.
fn read_optional_fixed(obj: &DefaultDicomObject, group: u16, element: u16, default: Fixed) -> (r:
    Result<Fixed, Error>)
    ensures
        r is Err ==> r == Err::<Fixed, Error>(Error::MalformedAttribute { group, element }),
{
    match find_element_opt(obj, group, element) {
        Err(_) => Err(Error::MalformedAttribute { group, element }),
        Ok(None) => Ok(default),
        Ok(Some(el)) => match elem_text(el) {
            None => Err(Error::MalformedAttribute { group, element }),
            Some(s) => {
                let bytes = vstd::slice::slice_to_vec(s.as_str().as_bytes());
                match parse_ds(&bytes) {
                    Some(f) => Ok(f),
                    None => Err(Error::MalformedAttribute { group, element }),
                }
            },
        },
    }
}

/// Reads the windowing parameters of a data set: both window width (0028,1050)
/// and window center (0028,1051) present and numeric give the pair; either
/// absent means no windowing is available, which is not an error; a present
/// but unreadable value is a malformed-attribute failure.
pub fn window_level_of(obj: &DefaultDicomObject) -> (r: Result<Option<WindowLevel>, Error>)
    ensures
        r is Err ==> (r == Err::<Option<WindowLevel>, Error>(
            Error::MalformedAttribute { group: 0x0028, element: 0x1050 },
        ) || r == Err::<Option<WindowLevel>, Error>(
            Error::MalformedAttribute { group: 0x0028, element: 0x1051 },
        )),
{
    let ww = match find_element_opt(obj, 0x0028, 0x1050) {
        Err(_) => {
            return Err(Error::MalformedAttribute { group: 0x0028, element: 0x1050 });
        },
        Ok(v) => v,
    };
    let wc = match find_element_opt(obj, 0x0028, 0x1051) {
        Err(_) => {
            return Err(Error::MalformedAttribute { group: 0x0028, element: 0x1051 });
        },
        Ok(v) => v,
    };
    match (ww, wc) {
        (Some(ww_el), Some(wc_el)) => {
            let width = match read_text_fixed(ww_el, 0x0028, 0x1050) {
                Ok(f) => f,
                Err(e) => {
                    return Err(e);
                },
            };
            let center = match read_text_fixed(wc_el, 0x0028, 0x1051) {
                Ok(f) => f,
                Err(e) => {
                    return Err(e);
                },
            };
            Ok(Some(WindowLevel { width, center }))
        },
        _ => Ok(None),
    }
}

/// A present decimal-string value parsed into fixed point; unreadable or
/// unparsable values are malformed-attribute failures naming the tag.
fn read_text_fixed(el: &dicom::object::mem::InMemElement, group: u16, element: u16) -> (r: Result<
    Fixed,
    Error,
>)
    ensures
        r is Err ==> r == Err::<Fixed, Error>(Error::MalformedAttribute { group, element }),
{
    match elem_text(el) {
        None => Err(Error::MalformedAttribute { group, element }),
        Some(s) => {
            let bytes = vstd::slice::slice_to_vec(s.as_str().as_bytes());
            match parse_ds(&bytes) {
                Some(f) => Ok(f),
                None => Err(Error::MalformedAttribute { group, element }),
            }
        },
    }
}

/// Refreshes a pre-existing lookup table in place from the data set's
/// rescale slope (0028,1053), rescale intercept (0028,1052) and VOI LUT
/// function (0028,1056), under the given window level. The rescale
/// parameters default to 1 and 0, the function to LINEAR. A window width
/// below what the selected function needs is rejected like a malformed
/// width. On failure the table is left untouched; on success every entry is
/// freshly computed, so no partial staleness is possible.
pub fn update_pixel_data_lut_with(
    lut: &mut Vec<u8>,
    obj: &DefaultDicomObject,
    window_level: WindowLevel,
) -> (r: Result<(), Error>)
    requires
        old(lut)@.len() <= 65536,
    ensures
        r is Ok ==> final(lut)@.len() == old(lut)@.len(),
        r is Ok ==> exists|sl: Fixed, ic: Fixed, f: VoiLutFunction|
            lut_matches(final(lut)@, sl, ic, f, window_level),
        r is Err ==> *final(lut) == *old(lut),
        !(r matches Err(Error::UnsupportedPhotometricInterpretation { .. })),
{
    let slope = match read_optional_fixed(obj, 0x0028, 0x1053, Fixed { raw: 65536 }) {
        Ok(f) => f,
        Err(e) => {
            return Err(e);
        },
    };
    let intercept = match read_optional_fixed(obj, 0x0028, 0x1052, Fixed { raw: 0 }) {
        Ok(f) => f,
        Err(e) => {
            return Err(e);
        },
    };
    let f = match find_element_opt(obj, 0x0028, 0x1056) {
        Err(_) => {
            return Err(Error::MalformedAttribute { group: 0x0028, element: 0x1056 });
        },
        Ok(None) => VoiLutFunction::Linear,
        Ok(Some(el)) => match elem_text(el) {
            None => {
                return Err(Error::MalformedAttribute { group: 0x0028, element: 0x1056 });
            },
            Some(s) => match VoiLutFunction::parse(&s) {
                Ok(f) => f,
                Err(e) => {
                    return Err(e);
                },
            },
        },
    };
    let valid = match f {
        VoiLutFunction::LinearExact => window_level.width.raw >= 0,
        _ => window_level.width.raw >= 65536,
    };
    if !valid {
        return Err(Error::MalformedAttribute { group: 0x0028, element: 0x1050 });
    }
    update_lut(lut, slope, intercept, f, window_level);
    proof {
        assert(lut_matches(lut@, slope, intercept, f, window_level));
    }
    Ok(())
}

/// Builds a lookup table for the data set, sized by bits stored (0028,0101)
/// to one entry per storable value, using the given window level.
pub fn simple_pixel_data_lut_with(obj: &DefaultDicomObject, window_level: WindowLevel) -> (r:
    Result<Vec<u8>, Error>)
    ensures
        match r {
            Ok(t) => t@.len() <= 65536 && exists|sl: Fixed, ic: Fixed, f: VoiLutFunction|
                lut_matches(t@, sl, ic, f, window_level),
            Err(e) => !(e matches Error::UnsupportedPhotometricInterpretation { .. }),
        },
{
    let bits_stored = match read_required_uint(obj, 0x0028, 0x0101) {
        Ok(v) => v,
        Err(e) => {
            return Err(e);
        },
    };
    if !(1 <= bits_stored && bits_stored <= 16) {
        return Err(Error::MalformedAttribute { group: 0x0028, element: 0x0101 });
    }
    let len = lut_size(bits_stored);
    let mut lut: Vec<u8> = vec![0u8; len];
    match update_pixel_data_lut_with(&mut lut, obj, window_level) {
        Ok(()) => Ok(lut),
        Err(e) => Err(e),
    }
}

/// Builds a lookup table for the data set using its own windowing
/// attributes; a data set without them cannot drive the monochrome pipeline,
/// so the absent window width is a missing-attribute failure here.
pub fn simple_pixel_data_lut(obj: &DefaultDicomObject) -> (r: Result<Vec<u8>, Error>)
    ensures
        match r {
            Ok(t) => t@.len() <= 65536,
            Err(e) => !(e matches Error::UnsupportedPhotometricInterpretation { .. }),
        },
{
    match window_level_of(obj) {
        Err(e) => Err(e),
        Ok(None) => Err(Error::MissingAttribute { group: 0x0028, element: 0x1050 }),
        Ok(Some(window_level)) => simple_pixel_data_lut_with(obj, window_level),
    }
}

/// Transcodes the data set's monochrome pixel data (7FE0,0010) into the
/// RGBA buffer, dispatching on bits allocated (0028,0100): 8-bit samples
/// index the table byte by byte, 16-bit samples value by value, any other
/// depth is unsupported. Encapsulated pixel data is rejected before any
/// transcoding. On failure the buffer is left untouched.
pub fn convert_monochrome_to_y_samples(
    y_samples: &mut Vec<u8>,
    obj: &DefaultDicomObject,
    monochrome: Monochrome,
    lut: &Vec<u8>,
) -> (r: Result<(), Error>)
    ensures
        r is Ok ==> exists|ps: PixelSamples|
            #[trigger] transcode_ok(ps, mono_pi(monochrome), lut@) && final(y_samples)@
                == transcoded(ps, mono_pi(monochrome), lut@),
        r is Err ==> final(y_samples)@ == old(y_samples)@,
        !(r matches Err(Error::UnsupportedPhotometricInterpretation { .. })),
{
    let bits_allocated = match read_required_uint(obj, 0x0028, 0x0100) {
        Ok(v) => v,
        Err(e) => {
            return Err(e);
        },
    };
    let pd = match find_element(obj, 0x7FE0, 0x0010) {
        Err(_) => {
            return Err(Error::MissingAttribute { group: 0x7FE0, element: 0x0010 });
        },
        Ok(el) => el,
    };
    if elem_is_pixel_sequence(pd) {
        return Err(Error::UnsupportedEncoding);
    }
    let pi = match monochrome {
        Monochrome::Monochrome1 => PhotometricInterpretation::Monochrome1,
        Monochrome::Monochrome2 => PhotometricInterpretation::Monochrome2,
    };
    if bits_allocated == 8 {
        let bytes = match elem_bytes(pd) {
            None => {
                return Err(Error::MalformedAttribute { group: 0x7FE0, element: 0x0010 });
            },
            Some(b) => b,
        };
        let ps = PixelSamples::Bits8(bytes);
        transcode(y_samples, &ps, pi, lut)
    } else if bits_allocated == 16 {
        let words = match elem_u16s(pd) {
            None => {
                return Err(Error::MalformedAttribute { group: 0x7FE0, element: 0x0010 });
            },
            Some(w) => w,
        };
        let ps = PixelSamples::Bits16(words);
        transcode(y_samples, &ps, pi, lut)
    } else {
        Err(Error::UnsupportedBitsAllocated { bits_allocated })
    }
}

/// Transcodes the data set's RGB pixel data into a fresh RGBA image of the
/// given dimensions. Exactly 3 samples per pixel (0028,0002) are supported;
/// the byte count must agree with the dimensions; encapsulated pixel data is
/// rejected. The table and the window level play no part here.
pub fn convert_rgb_to_imagedata(obj: &DefaultDicomObject, width: u32, height: u32) -> (r: Result<
    RgbaImage,
    Error,
>)
    ensures
        match r {
            Ok(img) => img.width == width && img.height == height && img.data@.len() == 4 * (
            width as int) * (height as int),
            Err(e) => !(e matches Error::UnsupportedPhotometricInterpretation { .. }),
        },
{
    let spp = match read_required_uint(obj, 0x0028, 0x0002) {
        Ok(v) => v,
        Err(e) => {
            return Err(e);
        },
    };
    if spp != 3 {
        return Err(Error::DimensionMismatch);
    }
    let pd = match find_element(obj, 0x7FE0, 0x0010) {
        Err(_) => {
            return Err(Error::MissingAttribute { group: 0x7FE0, element: 0x0010 });
        },
        Ok(el) => el,
    };
    if elem_is_pixel_sequence(pd) {
        return Err(Error::UnsupportedEncoding);
    }
    let bytes = match elem_bytes(pd) {
        None => {
            return Err(Error::MalformedAttribute { group: 0x7FE0, element: 0x0010 });
        },
        Some(b) => b,
    };
    proof {
        assert(3 * (width as int) * (height as int) <= 0x30000000000000000int) by (nonlinear_arith)
            requires width <= 0xffffffffu32 && height <= 0xffffffffu32;
    }
    if bytes.len() as u128 != 3 * (width as u128) * (height as u128) {
        return Err(Error::DimensionMismatch);
    }
    let mut data: Vec<u8> = Vec::new();
    let empty: Vec<u8> = Vec::new();
    let ps = PixelSamples::Bits8(bytes);
    match transcode(&mut data, &ps, PhotometricInterpretation::Rgb, &empty) {
        Ok(()) => {
            proof {
                let total = (ps->Bits8_0)@.len() as int;
                assert((3 * (width as int)) * (height as int) == ((width as int) * (
                height as int)) * 3) by (nonlinear_arith);
                assert(total == ((width as int) * (height as int)) * 3);
                vstd::arithmetic::div_mod::lemma_div_by_multiple(
                    (width as int) * (height as int),
                    3,
                );
                assert(((width as int) * (height as int)) * 4 == 4 * (width as int) * (
                height as int)) by (nonlinear_arith);
            }
            Ok(RgbaImage { data, width, height })
        },
        Err(e) => Err(e),
    }
}

/// Decodes one frame of the data set into the RGBA buffer, returning the
/// image dimensions (columns, rows). A monochrome interpretation builds the
/// lookup table lazily if none is cached, then transcodes through it; RGB
/// bypasses the table entirely. Any other photometric interpretation fails
/// before anything is written, leaving buffer and table untouched.
pub fn obj_to_imagedata(
    obj: &DefaultDicomObject,
    y_samples: &mut Vec<u8>,
    lut: &mut Option<Vec<u8>>,
) -> (r: Result<(u32, u32), Error>)
    ensures
        match r {
            Ok(dims) => final(y_samples)@.len() == 4 * (dims.0 as int) * (dims.1 as int),
            Err(_) => true,
        },
        (r matches Err(Error::UnsupportedPhotometricInterpretation { .. })) ==> final(y_samples)@
            == old(y_samples)@ && *final(lut) == *old(lut),
{
    let pi_el = match find_element(obj, 0x0028, 0x0004) {
        Err(_) => {
            return Err(Error::MissingAttribute { group: 0x0028, element: 0x0004 });
        },
        Ok(el) => el,
    };
    let pi_text = match elem_text(pi_el) {
        None => {
            return Err(Error::MalformedAttribute { group: 0x0028, element: 0x0004 });
        },
        Some(s) => s,
    };
    let pi = match PhotometricInterpretation::parse(&pi_text) {
        Ok(pi) => pi,
        Err(e) => {
            return Err(e);
        },
    };
    let width = match read_required_uint(obj, 0x0028, 0x0011) {
        Ok(v) => v,
        Err(e) => {
            return Err(e);
        },
    };
    let height = match read_required_uint(obj, 0x0028, 0x0010) {
        Ok(v) => v,
        Err(e) => {
            return Err(e);
        },
    };
    match pi.monochrome() {
        Some(m) => {
            if lut.is_none() {
                let fresh = match simple_pixel_data_lut(obj) {
                    Ok(t) => t,
                    Err(e) => {
                        return Err(e);
                    },
                };
                *lut = Some(fresh);
            }
            let table = match lut.as_ref() {
                Some(t) => t,
                None => {
                    return Err(Error::MissingAttribute { group: 0x0028, element: 0x1050 });
                },
            };
            match convert_monochrome_to_y_samples(y_samples, obj, m, table) {
                Ok(()) => {},
                Err(e) => {
                    return Err(e);
                },
            }
            proof {
                assert(4 * (width as int) * (height as int) <= 0x40000000000000000int)
                    by (nonlinear_arith)
                    requires width <= 0xffffffffu32 && height <= 0xffffffffu32;
            }
            if y_samples.len() as u128 != 4 * (width as u128) * (height as u128) {
                return Err(Error::DimensionMismatch);
            }
            Ok((width, height))
        },
        None => {
            let img = match convert_rgb_to_imagedata(obj, width, height) {
                Ok(img) => img,
                Err(e) => {
                    return Err(e);
                },
            };
            *y_samples = img.data;
            Ok((width, height))
        },
    }
}

} // verus!
