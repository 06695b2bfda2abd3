//! Tests of the lookup-table builder/updater and the pixel transcoder.

use dicom_view::{
    build_lut, transcode, update_lut, Error, Fixed, Monochrome, PhotometricInterpretation,
    PixelSamples, VoiLutFunction, WindowLevel,
};

const SCALE: i64 = 65536;

fn fx(v: i64) -> Fixed {
    Fixed { raw: v * SCALE }
}

fn wl(width: i64, center: i64) -> WindowLevel {
    WindowLevel { width: fx(width), center: fx(center) }
}

fn identity_lut() -> Vec<u8> {
    // width 256, center 128, slope 1, intercept 0: entry i holds i
    build_lut(8, fx(1), fx(0), VoiLutFunction::Linear, wl(256, 128))
}

#[test]
fn build_lut_sizes_are_powers_of_two() {
    for bits in 1u32..=16 {
        let table = build_lut(bits, fx(1), fx(0), VoiLutFunction::Linear, wl(256, 128));
        assert_eq!(table.len(), 1usize << bits, "bits_stored {bits}");
        // every entry is a byte in [0, 255] by type; spot the range anyway
        assert!(table.iter().all(|&b| b <= 255));
    }
}

#[test]
fn build_lut_linear_identity_entries() {
    let table = identity_lut();
    for (i, &b) in table.iter().enumerate() {
        assert_eq!(b as usize, i);
    }
}

#[test]
fn build_lut_linear_exact_entries() {
    let table = build_lut(2, fx(1), fx(0), VoiLutFunction::LinearExact, wl(2, 1));
    assert_eq!(table, vec![0u8, 127, 255, 255]);
}

#[test]
fn build_lut_sigmoid_center_entry() {
    let table = build_lut(8, fx(1), fx(0), VoiLutFunction::Sigmoid, wl(256, 128));
    // 127.5 display units truncate to 127 at the center index
    assert_eq!(table[128], 127);
    // at the window edges the exponential has not saturated:
    // 255 / (1 + exp(2)) is a little above 30
    assert_eq!(table[0], 30);
    assert!(table[0] < table[64] && table[64] < table[128]);
    assert!(table[128] < table[192] && table[192] < table[255]);
}

#[test]
fn update_lut_is_idempotent() {
    let mut a = vec![0u8; 256];
    let mut b = vec![9u8; 256];
    update_lut(&mut a, fx(2), fx(-3), VoiLutFunction::Linear, wl(100, 50));
    update_lut(&mut b, fx(2), fx(-3), VoiLutFunction::Linear, wl(100, 50));
    assert_eq!(a, b);
    let snapshot = a.clone();
    update_lut(&mut a, fx(2), fx(-3), VoiLutFunction::Linear, wl(100, 50));
    assert_eq!(a, snapshot);
}

#[test]
fn monochrome1_inverts_monochrome2() {
    let lut = identity_lut();
    let samples = vec![0u8, 1, 64, 128, 200, 255];
    let mut out1: Vec<u8> = Vec::new();
    let mut out2: Vec<u8> = Vec::new();
    let ps = PixelSamples::Bits8(samples);
    transcode(&mut out1, &ps, PhotometricInterpretation::Monochrome1, &lut).unwrap();
    transcode(&mut out2, &ps, PhotometricInterpretation::Monochrome2, &lut).unwrap();
    assert_eq!(out1.len(), out2.len());
    for k in 0..out1.len() {
        if k % 4 == 3 {
            assert_eq!(out1[k], 255);
            assert_eq!(out2[k], 255);
        } else {
            assert_eq!(out1[k] as u16 + out2[k] as u16, 255, "at {k}");
        }
    }
}

#[test]
fn sixteen_bit_samples_index_the_table() {
    let lut = identity_lut();
    let mut out: Vec<u8> = Vec::new();
    let ps = PixelSamples::Bits16(vec![0u16, 128, 255]);
    transcode(&mut out, &ps, PhotometricInterpretation::Monochrome2, &lut).unwrap();
    assert_eq!(
        out,
        vec![0, 0, 0, 255, 128, 128, 128, 255, 255, 255, 255, 255]
    );
}

#[test]
fn out_of_range_sample_is_an_error_and_leaves_buffer() {
    let lut = identity_lut();
    let mut out = vec![7u8; 8];
    let ps = PixelSamples::Bits16(vec![0u16, 300]);
    let r = transcode(&mut out, &ps, PhotometricInterpretation::Monochrome2, &lut);
    assert_eq!(r, Err(Error::DimensionMismatch));
    assert_eq!(out, vec![7u8; 8]);
}

#[test]
fn rgb_bypasses_the_table() {
    let bytes = vec![1u8, 2, 3, 200, 100, 50];
    let ps = PixelSamples::Bits8(bytes);
    let lut_a = identity_lut();
    let lut_b = build_lut(8, fx(1), fx(0), VoiLutFunction::Linear, wl(2, 9));
    assert_ne!(lut_a, lut_b);
    let mut out_a: Vec<u8> = Vec::new();
    let mut out_b: Vec<u8> = Vec::new();
    transcode(&mut out_a, &ps, PhotometricInterpretation::Rgb, &lut_a).unwrap();
    transcode(&mut out_b, &ps, PhotometricInterpretation::Rgb, &lut_b).unwrap();
    assert_eq!(out_a, out_b);
    assert_eq!(out_a, vec![1, 2, 3, 255, 200, 100, 50, 255]);
}

#[test]
fn rgb_needs_whole_triples() {
    let ps = PixelSamples::Bits8(vec![1u8, 2, 3, 4]);
    let lut = identity_lut();
    let mut out = vec![5u8; 4];
    let r = transcode(&mut out, &ps, PhotometricInterpretation::Rgb, &lut);
    assert_eq!(r, Err(Error::DimensionMismatch));
    assert_eq!(out, vec![5u8; 4]);
}

#[test]
fn equal_pixel_count_reuses_the_buffer() {
    let lut = identity_lut();
    let mut out: Vec<u8> = Vec::new();
    let ps1 = PixelSamples::Bits8(vec![10u8, 20, 30, 40]);
    transcode(&mut out, &ps1, PhotometricInterpretation::Monochrome2, &lut).unwrap();
    let cap = out.capacity();
    let ptr = out.as_ptr();
    let ps2 = PixelSamples::Bits8(vec![90u8, 80, 70, 60]);
    transcode(&mut out, &ps2, PhotometricInterpretation::Monochrome2, &lut).unwrap();
    assert_eq!(out.capacity(), cap);
    assert_eq!(out.as_ptr(), ptr);
    assert_eq!(&out[0..4], &[90, 90, 90, 255]);
}

#[test]
fn changed_pixel_count_resizes_the_buffer() {
    let lut = identity_lut();
    let mut out: Vec<u8> = Vec::new();
    let ps1 = PixelSamples::Bits8(vec![10u8, 20]);
    transcode(&mut out, &ps1, PhotometricInterpretation::Monochrome2, &lut).unwrap();
    assert_eq!(out.len(), 8);
    let ps2 = PixelSamples::Bits8(vec![1u8, 2, 3]);
    transcode(&mut out, &ps2, PhotometricInterpretation::Monochrome2, &lut).unwrap();
    assert_eq!(out.len(), 12);
}
