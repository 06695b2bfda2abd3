//! Trusted access to the DICOM object model of the `dicom` crate.
//!
//! A parsed data set is an opaque outside value; the declarations and
//! wrappers here are the only points where the library touches it, and
//! everything read flows out as plain values that the verified pipeline
//! consumes. Nothing is assumed about what a data set holds: every caller
//! handles every outcome of these lookups.

use dicom::object::mem::InMemElement;
use dicom::object::DefaultDicomObject;
use vstd::prelude::*;

verus! {

#[verifier::external_type_specification]
#[verifier::external_body]
#[verifier::reject_recursive_types(O)]
pub struct ExFileDicomObject<O>(dicom::object::FileDicomObject<O>);

#[verifier::external_type_specification]
#[verifier::external_body]
#[verifier::reject_recursive_types(D)]
pub struct ExInMemDicomObject<D>(dicom::object::InMemDicomObject<D>);

#[verifier::external_type_specification]
#[verifier::external_body]
pub struct ExStandardDataDictionary(dicom::dictionary_std::StandardDataDictionary);

#[verifier::external_type_specification]
#[verifier::external_body]
#[verifier::reject_recursive_types(I)]
#[verifier::reject_recursive_types(P)]
pub struct ExDataElement<I, P>(dicom::core::DataElement<I, P>);

/// Relies on dicom-object's OpenFileOptions::from_reader: parses a whole
/// DICOM object, preamble included, from an in-memory byte stream. A stream
/// that is not a DICOM object fails with the reader's message.
#[verifier::external_body]
pub fn byte_data_to_dicom_obj(byte_data: &[u8]) -> Result<DefaultDicomObject, String> {
    dicom::object::OpenFileOptions::new()
        .read_preamble(dicom::object::file::ReadPreamble::Always)
        .from_reader(byte_data)
        .map_err(|e| e.to_string())
}

/// Relies on dicom-object's InMemDicomObject::element: looks up a top-level
/// attribute by tag; its only failure is that the attribute is absent.
#[verifier::external_body]
pub(crate) fn find_element<'a>(obj: &'a DefaultDicomObject, group: u16, element: u16) -> Result<
    &'a InMemElement,
    (),
> {
    obj.element(dicom::core::Tag(group, element)).map_err(|_| ())
}

/// Relies on dicom-object's InMemDicomObject::element_opt: looks up a
/// top-level attribute by tag, telling an absent attribute (`None`) apart
/// from a failed lookup.
#[verifier::external_body]
pub(crate) fn find_element_opt<'a>(
    obj: &'a DefaultDicomObject,
    group: u16,
    element: u16,
) -> Result<Option<&'a InMemElement>, ()> {
    obj.element_opt(dicom::core::Tag(group, element)).map_err(|_| ())
}

/// Relies on dicom-core's DataElement::to_str: the value as a single clean
/// string, trailing padding removed, multiple values joined by backslashes;
/// `None` if the value is not primitive.
#[verifier::external_body]
pub(crate) fn elem_text(el: &InMemElement) -> Option<String> {
    el.to_str().ok().map(|s| s.into_owned())
}

/// Relies on dicom-core's DataElement::to_int: the value converted to an
/// unsigned 32-bit integer; `None` if it is not numeric or does not fit.
#[verifier::external_body]
pub(crate) fn elem_uint(el: &InMemElement) -> Option<u32> {
    el.to_int::<u32>().ok()
}

/// Relies on dicom-core's DataElement::to_bytes: the full primitive value
/// as raw bytes; `None` if the value is not primitive.
#[verifier::external_body]
pub(crate) fn elem_bytes(el: &InMemElement) -> Option<Vec<u8>> {
    el.to_bytes().ok().map(|b| b.into_owned())
}

/// Relies on dicom-core's Value::uint16_slice and DataElement::to_multi_int:
/// the value as unsigned 16-bit integers, read in place when stored as such
/// and converted number by number otherwise; `None` if neither reading works.
#[verifier::external_body]
pub(crate) fn elem_u16s(el: &InMemElement) -> Option<Vec<u16>> {
    el.value().uint16_slice().ok().map(|s| s.to_vec()).or_else(|| el.to_multi_int::<u16>().ok())
}

/// Relies on dicom-core's DataElement::value: whether the value is an
/// encapsulated pixel sequence rather than primitive sample data.
#[verifier::external_body]
pub(crate) fn elem_is_pixel_sequence(el: &InMemElement) -> bool {
    matches!(el.value(), dicom::core::DicomValue::PixelSequence(..))
}

} // verus!
