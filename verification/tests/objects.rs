//! End-to-end tests against in-memory DICOM objects.

use dicom::object::meta::FileMetaTableBuilder;
use dicom::object::{DefaultDicomObject, InMemDicomObject, Tag};

use dicom_view::{
    byte_data_to_dicom_obj, convert_monochrome_to_y_samples, convert_rgb_to_imagedata,
    obj_to_imagedata, simple_pixel_data_lut, simple_pixel_data_lut_with, update_pixel_data_lut_with,
    window_level_of, Error, Fixed, Monochrome, WindowLevel,
};

const SCALE: i64 = 65536;

fn with_meta(obj: InMemDicomObject) -> DefaultDicomObject {
    obj.with_meta(
        FileMetaTableBuilder::default()
            // Explicit VR Little Endian
            .transfer_syntax("1.2.840.10008.1.2.1")
            // Secondary Capture image storage
            .media_storage_sop_class_uid("1.2.840.10008.5.1.4.1.1.7")
            .media_storage_sop_instance_uid("2.25.4242"),
    )
    .unwrap()
}

fn put_str(obj: &mut InMemDicomObject, tag: Tag, vr: dicom::core::VR, v: &str) {
    obj.put(dicom::core::DataElement::new(tag, vr, dicom::core::PrimitiveValue::from(v)));
}

fn put_u16(obj: &mut InMemDicomObject, tag: Tag, v: u16) {
    obj.put(dicom::core::DataElement::new(tag, dicom::core::VR::US, dicom::core::PrimitiveValue::from(v)));
}

/// A 2x2, 16-bit monochrome2 object with 8 bits stored, identity rescale,
/// window width 256 and center 128.
fn mono_2x2() -> DefaultDicomObject {
    let mut obj = InMemDicomObject::new_empty();
    put_str(&mut obj, Tag(0x0028, 0x0004), dicom::core::VR::CS, "MONOCHROME2");
    put_u16(&mut obj, Tag(0x0028, 0x0010), 2); // Rows
    put_u16(&mut obj, Tag(0x0028, 0x0011), 2); // Columns
    put_u16(&mut obj, Tag(0x0028, 0x0100), 16); // Bits Allocated
    put_u16(&mut obj, Tag(0x0028, 0x0101), 8); // Bits Stored
    put_str(&mut obj, Tag(0x0028, 0x1050), dicom::core::VR::DS, "256"); // Window Width
    put_str(&mut obj, Tag(0x0028, 0x1051), dicom::core::VR::DS, "128"); // Window Center
    put_str(&mut obj, Tag(0x0028, 0x1053), dicom::core::VR::DS, "1"); // Rescale Slope
    put_str(&mut obj, Tag(0x0028, 0x1052), dicom::core::VR::DS, "0"); // Rescale Intercept
    obj.put(dicom::core::DataElement::new(
        Tag(0x7FE0, 0x0010),
        dicom::core::VR::OW,
        dicom::core::PrimitiveValue::from([0u16, 128, 255, 64]),
    ));
    with_meta(obj)
}

#[test]
fn window_level_extraction() {
    let obj = mono_2x2();
    let wl = window_level_of(&obj).unwrap().unwrap();
    assert_eq!(wl.width.raw, 256 * SCALE);
    assert_eq!(wl.center.raw, 128 * SCALE);
}

#[test]
fn window_level_absent_is_none_not_error() {
    let mut obj = InMemDicomObject::new_empty();
    put_str(&mut obj, Tag(0x0028, 0x0004), dicom::core::VR::CS, "MONOCHROME2");
    let obj = with_meta(obj);
    assert_eq!(window_level_of(&obj).unwrap(), None);
}

#[test]
fn window_level_malformed_is_error() {
    let mut obj = InMemDicomObject::new_empty();
    put_str(&mut obj, Tag(0x0028, 0x1050), dicom::core::VR::DS, "wide");
    put_str(&mut obj, Tag(0x0028, 0x1051), dicom::core::VR::DS, "128");
    let obj = with_meta(obj);
    assert_eq!(
        window_level_of(&obj),
        Err(Error::MalformedAttribute { group: 0x0028, element: 0x1050 })
    );
}

#[test]
fn lut_of_object_is_identity_here() {
    let obj = mono_2x2();
    let lut = simple_pixel_data_lut(&obj).unwrap();
    assert_eq!(lut.len(), 256);
    for (i, &b) in lut.iter().enumerate() {
        assert_eq!(b as usize, i);
    }
}

#[test]
fn missing_window_level_for_lut_is_missing_attribute() {
    let mut obj = InMemDicomObject::new_empty();
    put_u16(&mut obj, Tag(0x0028, 0x0101), 8);
    let obj = with_meta(obj);
    assert_eq!(
        simple_pixel_data_lut(&obj),
        Err(Error::MissingAttribute { group: 0x0028, element: 0x1050 })
    );
}

#[test]
fn unsupported_voi_function_is_error() {
    let mut obj = InMemDicomObject::new_empty();
    put_u16(&mut obj, Tag(0x0028, 0x0101), 8);
    put_str(&mut obj, Tag(0x0028, 0x1056), dicom::core::VR::CS, "PARABOLIC");
    let obj = with_meta(obj);
    let wl = WindowLevel { width: Fixed { raw: 256 * SCALE }, center: Fixed { raw: 0 } };
    assert_eq!(
        simple_pixel_data_lut_with(&obj, wl),
        Err(Error::UnsupportedTransferFunction)
    );
}

#[test]
fn update_refreshes_in_place_and_is_idempotent() {
    let obj = mono_2x2();
    let wl = WindowLevel { width: Fixed { raw: 100 * SCALE }, center: Fixed { raw: 50 * SCALE } };
    let mut a = simple_pixel_data_lut(&obj).unwrap();
    let cap = a.capacity();
    update_pixel_data_lut_with(&mut a, &obj, wl).unwrap();
    assert_eq!(a.capacity(), cap);
    let snapshot = a.clone();
    update_pixel_data_lut_with(&mut a, &obj, wl).unwrap();
    assert_eq!(a, snapshot);
}

#[test]
fn end_to_end_2x2_monochrome() {
    let obj = mono_2x2();
    let mut y: Vec<u8> = Vec::new();
    let mut lut: Option<Vec<u8>> = None;
    let dims = obj_to_imagedata(&obj, &mut y, &mut lut).unwrap();
    assert_eq!(dims, (2, 2));
    assert!(lut.is_some());
    assert_eq!(
        y,
        vec![
            0, 0, 0, 255, //
            128, 128, 128, 255, //
            255, 255, 255, 255, //
            64, 64, 64, 255,
        ]
    );
}

#[test]
fn monochrome1_output_inverts_monochrome2() {
    let obj = mono_2x2();
    let lut = simple_pixel_data_lut(&obj).unwrap();
    let mut y1: Vec<u8> = Vec::new();
    let mut y2: Vec<u8> = Vec::new();
    convert_monochrome_to_y_samples(&mut y1, &obj, Monochrome::Monochrome1, &lut).unwrap();
    convert_monochrome_to_y_samples(&mut y2, &obj, Monochrome::Monochrome2, &lut).unwrap();
    for k in 0..y1.len() {
        if k % 4 == 3 {
            assert_eq!(y1[k], 255);
        } else {
            assert_eq!(y1[k] as u16 + y2[k] as u16, 255);
        }
    }
}

#[test]
fn out_of_range_sample_is_rejected() {
    // bits stored 8 sizes the table to 256, but a raw sample of 300 arrives
    let mut obj = InMemDicomObject::new_empty();
    put_str(&mut obj, Tag(0x0028, 0x0004), dicom::core::VR::CS, "MONOCHROME2");
    put_u16(&mut obj, Tag(0x0028, 0x0010), 2);
    put_u16(&mut obj, Tag(0x0028, 0x0011), 2);
    put_u16(&mut obj, Tag(0x0028, 0x0100), 16);
    put_u16(&mut obj, Tag(0x0028, 0x0101), 8);
    put_str(&mut obj, Tag(0x0028, 0x1050), dicom::core::VR::DS, "256");
    put_str(&mut obj, Tag(0x0028, 0x1051), dicom::core::VR::DS, "128");
    obj.put(dicom::core::DataElement::new(
        Tag(0x7FE0, 0x0010),
        dicom::core::VR::OW,
        dicom::core::PrimitiveValue::from([0u16, 128, 255, 300]),
    ));
    let obj = with_meta(obj);
    let mut y: Vec<u8> = Vec::new();
    let mut lut: Option<Vec<u8>> = None;
    let r = obj_to_imagedata(&obj, &mut y, &mut lut);
    assert_eq!(r, Err(Error::DimensionMismatch));
    assert!(y.is_empty());
}

#[test]
fn unsupported_interpretation_writes_nothing() {
    let mut obj = InMemDicomObject::new_empty();
    put_str(&mut obj, Tag(0x0028, 0x0004), dicom::core::VR::CS, "YBR_FULL");
    put_u16(&mut obj, Tag(0x0028, 0x0010), 2);
    put_u16(&mut obj, Tag(0x0028, 0x0011), 2);
    let obj = with_meta(obj);
    let mut y = vec![3u8; 16];
    let mut lut: Option<Vec<u8>> = None;
    let r = obj_to_imagedata(&obj, &mut y, &mut lut);
    match r {
        Err(Error::UnsupportedPhotometricInterpretation { value }) => {
            assert_eq!(value, "YBR_FULL");
        }
        other => panic!("expected unsupported interpretation, got {:?}", other),
    }
    assert_eq!(y, vec![3u8; 16]);
    assert!(lut.is_none());
}

#[test]
fn unsupported_bits_allocated_is_rejected() {
    let mut obj = InMemDicomObject::new_empty();
    put_str(&mut obj, Tag(0x0028, 0x0004), dicom::core::VR::CS, "MONOCHROME2");
    put_u16(&mut obj, Tag(0x0028, 0x0010), 1);
    put_u16(&mut obj, Tag(0x0028, 0x0011), 1);
    put_u16(&mut obj, Tag(0x0028, 0x0100), 12);
    put_u16(&mut obj, Tag(0x0028, 0x0101), 8);
    put_str(&mut obj, Tag(0x0028, 0x1050), dicom::core::VR::DS, "256");
    put_str(&mut obj, Tag(0x0028, 0x1051), dicom::core::VR::DS, "128");
    obj.put(dicom::core::DataElement::new(
        Tag(0x7FE0, 0x0010),
        dicom::core::VR::OW,
        dicom::core::PrimitiveValue::from([0u16]),
    ));
    let obj = with_meta(obj);
    let mut y: Vec<u8> = Vec::new();
    let mut lut: Option<Vec<u8>> = None;
    assert_eq!(
        obj_to_imagedata(&obj, &mut y, &mut lut),
        Err(Error::UnsupportedBitsAllocated { bits_allocated: 12 })
    );
}

#[test]
fn encapsulated_pixel_data_is_rejected() {
    let mut obj = InMemDicomObject::new_empty();
    put_str(&mut obj, Tag(0x0028, 0x0004), dicom::core::VR::CS, "MONOCHROME2");
    put_u16(&mut obj, Tag(0x0028, 0x0100), 8);
    obj.put(dicom::core::DataElement::new(
        Tag(0x7FE0, 0x0010),
        dicom::core::VR::OB,
        dicom::core::DicomValue::from(dicom::core::value::PixelFragmentSequence::new(vec![0u32; 0], vec![vec![1u8, 2, 3]])),
    ));
    let obj = with_meta(obj);
    let lut = vec![0u8; 256];
    let mut y: Vec<u8> = Vec::new();
    assert_eq!(
        convert_monochrome_to_y_samples(&mut y, &obj, Monochrome::Monochrome2, &lut),
        Err(Error::UnsupportedEncoding)
    );
}

#[test]
fn rgb_object_end_to_end() {
    let mut obj = InMemDicomObject::new_empty();
    put_str(&mut obj, Tag(0x0028, 0x0004), dicom::core::VR::CS, "RGB");
    put_u16(&mut obj, Tag(0x0028, 0x0002), 3); // Samples per Pixel
    put_u16(&mut obj, Tag(0x0028, 0x0010), 1);
    put_u16(&mut obj, Tag(0x0028, 0x0011), 2);
    obj.put(dicom::core::DataElement::new(
        Tag(0x7FE0, 0x0010),
        dicom::core::VR::OB,
        dicom::core::PrimitiveValue::from(vec![10u8, 20, 30, 40, 50, 60]),
    ));
    let obj = with_meta(obj);
    let img = convert_rgb_to_imagedata(&obj, 2, 1).unwrap();
    assert_eq!((img.width, img.height), (2, 1));
    assert_eq!(img.data, vec![10, 20, 30, 255, 40, 50, 60, 255]);

    // through the dispatcher the buffer receives the same bytes, and a
    // window-level change plays no part
    let mut y: Vec<u8> = Vec::new();
    let mut lut: Option<Vec<u8>> = None;
    let dims = obj_to_imagedata(&obj, &mut y, &mut lut).unwrap();
    assert_eq!(dims, (2, 1));
    assert_eq!(y, vec![10, 20, 30, 255, 40, 50, 60, 255]);
}

#[test]
fn rgb_count_mismatch_is_rejected() {
    let mut obj = InMemDicomObject::new_empty();
    put_str(&mut obj, Tag(0x0028, 0x0004), dicom::core::VR::CS, "RGB");
    put_u16(&mut obj, Tag(0x0028, 0x0002), 3);
    put_u16(&mut obj, Tag(0x0028, 0x0010), 2);
    put_u16(&mut obj, Tag(0x0028, 0x0011), 2);
    obj.put(dicom::core::DataElement::new(
        Tag(0x7FE0, 0x0010),
        dicom::core::VR::OB,
        dicom::core::PrimitiveValue::from(vec![10u8, 20, 30]),
    ));
    let obj = with_meta(obj);
    assert_eq!(
        convert_rgb_to_imagedata(&obj, 2, 2),
        Err(Error::DimensionMismatch)
    );
}

#[test]
fn wrong_samples_per_pixel_is_rejected() {
    let mut obj = InMemDicomObject::new_empty();
    put_str(&mut obj, Tag(0x0028, 0x0004), dicom::core::VR::CS, "RGB");
    put_u16(&mut obj, Tag(0x0028, 0x0002), 1);
    let obj = with_meta(obj);
    assert_eq!(
        convert_rgb_to_imagedata(&obj, 1, 1),
        Err(Error::DimensionMismatch)
    );
}

#[test]
fn byte_stream_round_trip() {
    let obj = mono_2x2();
    let mut bytes: Vec<u8> = Vec::new();
    obj.write_all(&mut bytes).unwrap();
    let parsed = byte_data_to_dicom_obj(&bytes).unwrap();
    let wl = window_level_of(&parsed).unwrap().unwrap();
    assert_eq!(wl.width.raw, 256 * SCALE);
    let mut y: Vec<u8> = Vec::new();
    let mut lut: Option<Vec<u8>> = None;
    assert_eq!(obj_to_imagedata(&parsed, &mut y, &mut lut).unwrap(), (2, 2));
}

#[test]
fn garbage_bytes_are_not_an_object() {
    assert!(byte_data_to_dicom_obj(&[1u8, 2, 3, 4]).is_err());
}
