//! Conversion of raw pixel samples into a packed RGBA buffer.
//!
//! Monochrome samples are looked up in the display table and written as
//! opaque gray pixels, inverted for MONOCHROME1; RGB samples are copied
//! straight from the interleaved byte triples, bypassing the table and the
//! window level entirely. The output buffer is resized only when the pixel
//! count changes and is otherwise refreshed in place.

use vstd::arithmetic::div_mod::{
    lemma_fundamental_div_mod, lemma_fundamental_div_mod_converse, lemma_div_pos_is_pos,
    lemma_mod_division_less_than_divisor, lemma_multiply_divide_lt,
};
use vstd::prelude::*;

use crate::error::Error;

verus! {

/// Monochrome flavor: MONOCHROME1 shows low values bright (every display
/// byte is inverted), MONOCHROME2 shows low values dark.
#[derive(Debug, Copy, Clone, Eq, Hash, PartialEq, Structural)]
pub enum Monochrome {
    Monochrome1,
    Monochrome2,
}

/// How raw samples map to color: a closed set of the supported photometric
/// interpretations. Any other attribute value is a hard decode error.
#[derive(Debug, Copy, Clone, Eq, PartialEq, Structural)]
pub enum PhotometricInterpretation {
    Monochrome1,
    Monochrome2,
    Rgb,
}

/// The supported interpretation named by `s`, if any.
pub open spec fn photometric_of(s: Seq<char>) -> PhotometricInterpretation {
    if s == "MONOCHROME1"@ {
        PhotometricInterpretation::Monochrome1
    } else if s == "MONOCHROME2"@ {
        PhotometricInterpretation::Monochrome2
    } else {
        PhotometricInterpretation::Rgb
    }
}

impl PhotometricInterpretation {
    /// Reads a photometric interpretation attribute value; exactly the
    /// strings MONOCHROME1, MONOCHROME2 and RGB are supported, and any other
    /// value fails, carrying the offending string.
    pub fn parse(value: &String) -> (r: Result<PhotometricInterpretation, Error>)
        ensures
            r is Ok <==> (value@ == "MONOCHROME1"@ || value@ == "MONOCHROME2"@ || value@
                == "RGB"@),
            r is Ok ==> r == Ok::<PhotometricInterpretation, Error>(photometric_of(value@)),
            r is Err ==> (r matches Err(Error::UnsupportedPhotometricInterpretation { value: v })
                && v@ == value@),
    {
        let m1: String = "MONOCHROME1".to_owned();
        let m2: String = "MONOCHROME2".to_owned();
        let rgb: String = "RGB".to_owned();
        if *value == m1 {
            Ok(PhotometricInterpretation::Monochrome1)
        } else if *value == m2 {
            Ok(PhotometricInterpretation::Monochrome2)
        } else if *value == rgb {
            Ok(PhotometricInterpretation::Rgb)
        } else {
            Err(Error::UnsupportedPhotometricInterpretation { value: value.clone() })
        }
    }

    /// The monochrome flavor of this interpretation, if it is one.
    pub fn monochrome(&self) -> (r: Option<Monochrome>)
        ensures
            r == match self {
                PhotometricInterpretation::Monochrome1 => Some(Monochrome::Monochrome1),
                PhotometricInterpretation::Monochrome2 => Some(Monochrome::Monochrome2),
                PhotometricInterpretation::Rgb => None::<Monochrome>,
            },
    {
        match self {
            PhotometricInterpretation::Monochrome1 => Some(Monochrome::Monochrome1),
            PhotometricInterpretation::Monochrome2 => Some(Monochrome::Monochrome2),
            PhotometricInterpretation::Rgb => None,
        }
    }
}

/// Raw decoded samples of a single frame, as read from the data set:
/// either one unsigned byte per sample or one unsigned 16-bit integer per
/// sample. An encapsulated (compressed) encoding is rejected before a value
/// of this type is ever formed.
pub enum PixelSamples {
    Bits8(Vec<u8>),
    Bits16(Vec<u16>),
}

impl PixelSamples {
    /// The sample values as mathematical integers.
    pub open spec fn values(self) -> Seq<int> {
        match self {
            PixelSamples::Bits8(v) => v@.map_values(|b: u8| b as int),
            PixelSamples::Bits16(v) => v@.map_values(|b: u16| b as int),
        }
    }
}

/// Every sample value is a valid index of a table of length `len`.
pub open spec fn in_lut_range(samples: Seq<int>, len: int) -> bool {
    forall|i: int| 0 <= i < samples.len() ==> 0 <= #[trigger] samples[i] < len
}

/// A pixel count `n` whose RGBA buffer length `4 n` is addressable.
pub open spec fn fits_rgba(n: int) -> bool {
    n <= usize::MAX as int / 4
}

/// The display byte of raw sample value `v`: its table entry, inverted for
/// MONOCHROME1.
pub open spec fn display_byte(lut: Seq<u8>, v: int, m: Monochrome) -> u8 {
    if m == Monochrome::Monochrome1 {
        (255 - lut[v]) as u8
    } else {
        lut[v]
    }
}

/// The packed RGBA bytes of a monochrome frame: each sample becomes an
/// opaque gray pixel of its display byte.
pub open spec fn mono_rgba(samples: Seq<int>, lut: Seq<u8>, m: Monochrome) -> Seq<u8> {
    Seq::new(
        samples.len() * 4,
        |k: int|
            if k % 4 == 3 {
                255u8
            } else {
                display_byte(lut, samples[k / 4], m)
            },
    )
}

/// The packed RGBA bytes of an RGB frame: each interleaved byte triple
/// becomes one opaque pixel, with no table and no windowing involved.
pub open spec fn rgb_rgba(bytes: Seq<u8>) -> Seq<u8> {
    Seq::new(
        (bytes.len() / 3) * 4,
        |k: int|
            if k % 4 == 3 {
                255u8
            } else {
                bytes[3 * (k / 4) + k % 4]
            },
    )
}

/// Whether a transcode of `samples` under `pi` with table `lut` succeeds:
/// RGB needs byte samples forming whole 3-byte triples; monochrome needs
/// every sample to be a valid table index; and the pixel count must fit an
/// addressable RGBA buffer.
pub open spec fn transcode_ok(
    samples: PixelSamples,
    pi: PhotometricInterpretation,
    lut: Seq<u8>,
) -> bool {
    match pi {
        PhotometricInterpretation::Rgb => (samples matches PixelSamples::Bits8(b)
            && b@.len() % 3 == 0 && fits_rgba(b@.len() as int / 3)),
        _ => in_lut_range(samples.values(), lut.len() as int) && fits_rgba(
            samples.values().len() as int,
        ),
    }
}

/// The RGBA bytes produced by a successful transcode.
pub open spec fn transcoded(
    samples: PixelSamples,
    pi: PhotometricInterpretation,
    lut: Seq<u8>,
) -> Seq<u8> {
    match pi {
        PhotometricInterpretation::Rgb => match samples {
            PixelSamples::Bits8(b) => rgb_rgba(b@),
            PixelSamples::Bits16(_) => Seq::empty(),
        },
        PhotometricInterpretation::Monochrome1 => mono_rgba(
            samples.values(),
            lut,
            Monochrome::Monochrome1,
        ),
        PhotometricInterpretation::Monochrome2 => mono_rgba(
            samples.values(),
            lut,
            Monochrome::Monochrome2,
        ),
    }
}

/// Positions `4 i + j` for `j < 4` address pixel `i` of the RGBA grid.
proof fn lemma_quad_index(i: int, j: int)
    requires
        0 <= i,
        0 <= j < 4,
    ensures
        (4 * i + j) / 4 == i,
        (4 * i + j) % 4 == j,
{
    lemma_fundamental_div_mod_converse(4 * i + j, 4, i, j);
}

/// A pixel count within [`fits_rgba`] gives an RGBA length within `usize`.
proof fn lemma_fits_rgba(n: int)
    requires
        0 <= n,
        fits_rgba(n),
    ensures
        4 * n <= usize::MAX as int,
{
    lemma_fundamental_div_mod(usize::MAX as int, 4);
    lemma_mod_division_less_than_divisor(usize::MAX as int, 4);
}

/// Transcodes one frame of 8-bit monochrome samples.
fn transcode_mono8(out: &mut Vec<u8>, samples: &Vec<u8>, m: Monochrome, lut: &Vec<u8>) -> (r:
    Result<(), Error>)
    ensures
        r is Ok <==> (in_lut_range(samples@.map_values(|b: u8| b as int), lut@.len() as int)
            && fits_rgba(samples@.len() as int)),
        r is Ok ==> final(out)@ == mono_rgba(samples@.map_values(|b: u8| b as int), lut@, m),
        r is Err ==> final(out)@ == old(out)@ && r == Err::<(), Error>(Error::DimensionMismatch),
{
    let ghost vals = samples@.map_values(|b: u8| b as int);
    let n = samples.len();
    if n > usize::MAX / 4 {
        return Err(Error::DimensionMismatch);
    }
    let mut i: usize = 0;
    while i < n
        invariant
            i <= n,
            n == samples@.len(),
            vals == samples@.map_values(|b: u8| b as int),
            forall|j: int| 0 <= j < i ==> 0 <= #[trigger] vals[j] < lut@.len(),
        decreases n - i,
    {
        if samples[i] as usize >= lut.len() {
            proof {
                assert(vals[i as int] == samples@[i as int] as int);
            }
            return Err(Error::DimensionMismatch);
        }
        i = i + 1;
    }
    proof {
        lemma_fits_rgba(n as int);
    }
    if out.len() != n * 4 {
        out.resize(n * 4, 255);
    }
    let ghost target = mono_rgba(vals, lut@, m);
    let mut i: usize = 0;
    while i < n
        invariant
            i <= n,
            n == samples@.len(),
            vals == samples@.map_values(|b: u8| b as int),
            in_lut_range(vals, lut@.len() as int),
            out@.len() == n * 4,
            4 * n <= usize::MAX as int,
            target == mono_rgba(vals, lut@, m),
            forall|k: int| 0 <= k < 4 * i ==> out@[k] == #[trigger] target[k],
        decreases n - i,
    {
        proof {
            assert(vals[i as int] == samples@[i as int] as int);
        }
        let v = samples[i] as usize;
        let d = lut[v];
        let d2: u8 = if matches!(m, Monochrome::Monochrome1) {
            255 - d
        } else {
            d
        };
        out.set(4 * i, d2);
        out.set(4 * i + 1, d2);
        out.set(4 * i + 2, d2);
        out.set(4 * i + 3, 255);
        proof {
            lemma_quad_index(i as int, 0);
            lemma_quad_index(i as int, 1);
            lemma_quad_index(i as int, 2);
            lemma_quad_index(i as int, 3);
        }
        i = i + 1;
    }
    proof {
        assert(out@ =~= target);
    }
    Ok(())
}

/// Transcodes one frame of 16-bit monochrome samples.
fn transcode_mono16(out: &mut Vec<u8>, samples: &Vec<u16>, m: Monochrome, lut: &Vec<u8>) -> (r:
    Result<(), Error>)
    ensures
        r is Ok <==> (in_lut_range(samples@.map_values(|b: u16| b as int), lut@.len() as int)
            && fits_rgba(samples@.len() as int)),
        r is Ok ==> final(out)@ == mono_rgba(samples@.map_values(|b: u16| b as int), lut@, m),
        r is Err ==> final(out)@ == old(out)@ && r == Err::<(), Error>(Error::DimensionMismatch),
{
    let ghost vals = samples@.map_values(|b: u16| b as int);
    let n = samples.len();
    if n > usize::MAX / 4 {
        return Err(Error::DimensionMismatch);
    }
    let mut i: usize = 0;
    while i < n
        invariant
            i <= n,
            n == samples@.len(),
            vals == samples@.map_values(|b: u16| b as int),
            forall|j: int| 0 <= j < i ==> 0 <= #[trigger] vals[j] < lut@.len(),
        decreases n - i,
    {
        if samples[i] as usize >= lut.len() {
            proof {
                assert(vals[i as int] == samples@[i as int] as int);
            }
            return Err(Error::DimensionMismatch);
        }
        i = i + 1;
    }
    proof {
        lemma_fits_rgba(n as int);
    }
    if out.len() != n * 4 {
        out.resize(n * 4, 255);
    }
    let ghost target = mono_rgba(vals, lut@, m);
    let mut i: usize = 0;
    while i < n
        invariant
            i <= n,
            n == samples@.len(),
            vals == samples@.map_values(|b: u16| b as int),
            in_lut_range(vals, lut@.len() as int),
            out@.len() == n * 4,
            4 * n <= usize::MAX as int,
            target == mono_rgba(vals, lut@, m),
            forall|k: int| 0 <= k < 4 * i ==> out@[k] == #[trigger] target[k],
        decreases n - i,
    {
        proof {
            assert(vals[i as int] == samples@[i as int] as int);
        }
        let v = samples[i] as usize;
        let d = lut[v];
        let d2: u8 = if matches!(m, Monochrome::Monochrome1) {
            255 - d
        } else {
            d
        };
        out.set(4 * i, d2);
        out.set(4 * i + 1, d2);
        out.set(4 * i + 2, d2);
        out.set(4 * i + 3, 255);
        proof {
            lemma_quad_index(i as int, 0);
            lemma_quad_index(i as int, 1);
            lemma_quad_index(i as int, 2);
            lemma_quad_index(i as int, 3);
        }
        i = i + 1;
    }
    proof {
        assert(out@ =~= target);
    }
    Ok(())
}

/// Transcodes one frame of interleaved RGB byte triples, reading the colors
/// straight from the raw bytes.
fn transcode_rgb(out: &mut Vec<u8>, bytes: &Vec<u8>) -> (r: Result<(), Error>)
    ensures
        r is Ok <==> (bytes@.len() % 3 == 0 && fits_rgba(bytes@.len() as int / 3)),
        r is Ok ==> final(out)@ == rgb_rgba(bytes@),
        r is Err ==> final(out)@ == old(out)@ && r == Err::<(), Error>(Error::DimensionMismatch),
{
    let total = bytes.len();
    if total % 3 != 0 {
        return Err(Error::DimensionMismatch);
    }
    let n = total / 3;
    if n > usize::MAX / 4 {
        return Err(Error::DimensionMismatch);
    }
    proof {
        lemma_fits_rgba(n as int);
        lemma_fundamental_div_mod(total as int, 3);
    }
    if out.len() != n * 4 {
        out.resize(n * 4, 255);
    }
    let ghost target = rgb_rgba(bytes@);
    let mut i: usize = 0;
    while i < n
        invariant
            i <= n,
            total == bytes@.len(),
            total % 3 == 0,
            n == total as int / 3,
            3 * n == total,
            out@.len() == n * 4,
            4 * n <= usize::MAX as int,
            target == rgb_rgba(bytes@),
            forall|k: int| 0 <= k < 4 * i ==> out@[k] == #[trigger] target[k],
        decreases n - i,
    {
        let cr = bytes[3 * i];
        let cg = bytes[3 * i + 1];
        let cb = bytes[3 * i + 2];
        out.set(4 * i, cr);
        out.set(4 * i + 1, cg);
        out.set(4 * i + 2, cb);
        out.set(4 * i + 3, 255);
        proof {
            lemma_quad_index(i as int, 0);
            lemma_quad_index(i as int, 1);
            lemma_quad_index(i as int, 2);
            lemma_quad_index(i as int, 3);
        }
        i = i + 1;
    }
    proof {
        assert(out@ =~= target);
    }
    Ok(())
}

/// Transcodes one frame of raw samples into the packed RGBA buffer `out`,
/// honoring the photometric interpretation: monochrome samples go through
/// the lookup table (inverted for MONOCHROME1), RGB triples are copied
/// directly, bypassing the table. The buffer is resized exactly when the
/// pixel count changed; on failure it is left untouched.
pub fn transcode(
    out: &mut Vec<u8>,
    samples: &PixelSamples,
    pi: PhotometricInterpretation,
    lut: &Vec<u8>,
) -> (r: Result<(), Error>)
    ensures
        r is Ok <==> transcode_ok(*samples, pi, lut@),
        r is Ok ==> final(out)@ == transcoded(*samples, pi, lut@),
        r is Err ==> final(out)@ == old(out)@ && r == Err::<(), Error>(Error::DimensionMismatch),
{
    match pi {
        PhotometricInterpretation::Rgb => match samples {
            PixelSamples::Bits8(bytes) => transcode_rgb(out, bytes),
            PixelSamples::Bits16(_) => Err(Error::DimensionMismatch),
        },
        PhotometricInterpretation::Monochrome1 => match samples {
            PixelSamples::Bits8(v) => transcode_mono8(out, v, Monochrome::Monochrome1, lut),
            PixelSamples::Bits16(v) => transcode_mono16(out, v, Monochrome::Monochrome1, lut),
        },
        PhotometricInterpretation::Monochrome2 => match samples {
            PixelSamples::Bits8(v) => transcode_mono8(out, v, Monochrome::Monochrome2, lut),
            PixelSamples::Bits16(v) => transcode_mono16(out, v, Monochrome::Monochrome2, lut),
        },
    }
}

/// Monochrome inversion: with the same table and samples, the MONOCHROME1
/// and MONOCHROME2 transcodes are pixel-wise complements on the color
/// channels and agree on the opaque alpha channel.
pub proof fn lemma_monochrome_inversion(samples: Seq<int>, lut: Seq<u8>, k: int)
    requires
        in_lut_range(samples, lut.len() as int),
        0 <= k < samples.len() * 4,
    ensures
        k % 4 != 3 ==> mono_rgba(samples, lut, Monochrome::Monochrome1)[k] + mono_rgba(
            samples,
            lut,
            Monochrome::Monochrome2,
        )[k] == 255,
        k % 4 == 3 ==> mono_rgba(samples, lut, Monochrome::Monochrome1)[k] == 255 && mono_rgba(
            samples,
            lut,
            Monochrome::Monochrome2,
        )[k] == 255,
{
    lemma_div_pos_is_pos(k, 4);
    lemma_multiply_divide_lt(k, 4, samples.len() as int);
}

/// The RGB path bypasses the lookup table: under an RGB photometric
/// interpretation the transcoded output, and whether the transcode succeeds
/// at all, are the same for any two tables, hence for any two window levels.
pub proof fn lemma_rgb_ignores_lut(samples: PixelSamples, lut1: Seq<u8>, lut2: Seq<u8>)
    ensures
        transcoded(samples, PhotometricInterpretation::Rgb, lut1) == transcoded(
            samples,
            PhotometricInterpretation::Rgb,
            lut2,
        ),
        transcode_ok(samples, PhotometricInterpretation::Rgb, lut1) == transcode_ok(
            samples,
            PhotometricInterpretation::Rgb,
            lut2,
        ),
{
}

} // verus!
