//! Trusted interface to the tagged-object decoder library.
//!
//! A decoded object is modelled by `object_fields`: a map from a tag (group,
//! element) to the text that looking the tag up and coercing its value to a
//! string yields. A tag whose element is absent, or whose value cannot be
//! coerced to text, is not in the map's domain. Decoding is a pure function
//! of the input bytes (`dicom_parse`), which is what the scan laws rest on.
use vstd::prelude::*;

verus! {

#[verifier::external_type_specification]
#[verifier::external_body]
pub struct ExStandardDataDictionary(dicom::object::StandardDataDictionary);

#[verifier::external_type_specification]
#[verifier::external_body]
#[verifier::reject_recursive_types(D)]
pub struct ExInMemDicomObject<D>(dicom::object::mem::InMemDicomObject<D>);

#[verifier::external_type_specification]
#[verifier::external_body]
#[verifier::reject_recursive_types(O)]
pub struct ExFileDicomObject<O>(dicom::object::FileDicomObject<O>);

/// The decoded object type that the whole library works with.
pub type DicomObj = dicom::object::FileDicomObject<
    dicom::object::mem::InMemDicomObject<dicom::object::StandardDataDictionary>,
>;

/// The text fields of a decoded object: for each (group, element) tag that is
/// present and whose value coerces to text, the text it coerces to.
pub uninterp spec fn object_fields(o: DicomObj) -> Map<(u16, u16), Seq<char>>;

/// The fields that decoding a byte buffer (up to, and not including, the bulk
/// pixel-data tag) yields, or `None` when the buffer does not decode as a
/// tagged object. Decoding is a pure function of the bytes.
pub uninterp spec fn dicom_parse(bytes: Seq<u8>) -> Option<Map<(u16, u16), Seq<char>>>;

/// Relies on dicom's `OpenFileOptions::from_reader` with a `read_until` bound
/// at the pixel-data tag: decoding an in-memory buffer is deterministic in its
/// bytes.
#[verifier::external_body]
pub(crate) fn dicom_from_bytes(bytes: &[u8]) -> (r: Option<DicomObj>)
    ensures
        (r is Some) == (dicom_parse(bytes@) is Some),
        r matches Some(o) ==> Some(object_fields(o)) == dicom_parse(bytes@),
{
    dicom::object::OpenFileOptions::new()
        .read_until(dicom::dictionary_std::tags::PIXEL_DATA)
        .from_reader(bytes)
        .ok()
}

/// Relies on dicom's element-by-tag lookup (`InMemDicomObject::element`) and
/// its value-to-text coercion (`to_str`): both are deterministic, and both
/// kinds of failure (absent tag, uncoercible value) are collapsed to `None`.
#[verifier::external_body]
pub(crate) fn get_element_value(obj: &DicomObj, group: u16, elem: u16) -> (r: Option<String>)
    ensures
        (r is Some) == object_fields(*obj).dom().contains((group, elem)),
        r matches Some(s) ==> s@ == object_fields(*obj)[(group, elem)],
{
    obj.element(dicom::core::Tag(group, elem)).ok().and_then(|e| e.to_str().ok()).map(
        |s| s.into_owned(),
    )
}

/// What extracting one optional field yields: the field's text when the tag
/// is present and coercible, and the "absent" sentinel otherwise.
pub open spec fn field_str(m: Map<(u16, u16), Seq<char>>, group: u16, elem: u16) -> Seq<char> {
    if m.dom().contains((group, elem)) {
        m[(group, elem)]
    } else {
        "N/A"@
    }
}

/// Extract one optional text field from a decoded object, substituting the
/// "absent" sentinel when the tag is missing or its value cannot be coerced
/// to text. This never fails: a degraded field is data, not an error.
pub fn extract_field(obj: &DicomObj, group: u16, elem: u16) -> (r: String)
    ensures
        r@ == field_str(object_fields(*obj), group, elem),
{
    match get_element_value(obj, group, elem) {
        Some(s) => s,
        None => "N/A".to_owned(),
    }
}

} // verus!
