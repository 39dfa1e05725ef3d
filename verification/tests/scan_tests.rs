use std::io::Write;

use dicom::object::Tag;
use dicom::object::meta::FileMetaTableBuilder;
use dicom::object::InMemDicomObject;

use dicomscan::aggregate::build_study_series_index;
use dicomscan::deep::deep_scan_dicom_candidates_parallel;
use dicomscan::deep::deep_scan_entry_reports;
use dicomscan::deep::scan_gems_parm_01;
use dicomscan::deep::ObjectClass;
use dicomscan::prefilter::scan_dicom_candidates_parallel;

/// A stored zip archive holding the given (name, bytes) entries.
fn zip_of(entries: &[(&str, Vec<u8>)]) -> Vec<u8> {
    let mut w = zip::ZipWriter::new(std::io::Cursor::new(Vec::new()));
    for (name, data) in entries {
        w.start_file(*name, zip::write::SimpleFileOptions::default())
            .unwrap();
        w.write_all(data).unwrap();
    }
    w.finish().unwrap().into_inner()
}

/// A DICOM file: 128-byte preamble, signature, meta group, and the given
/// text elements.
fn dicom_of(elements: &[(u16, u16, &str)]) -> Vec<u8> {
    let mut obj = InMemDicomObject::new_empty();
    for (group, elem, value) in elements {
        obj.put(dicom::core::DataElement::new(Tag(*group, *elem), dicom::core::VR::LO, *value));
    }
    let file_obj = obj
        .with_meta(
            FileMetaTableBuilder::new()
                .transfer_syntax("1.2.840.10008.1.2.1")
                .media_storage_sop_class_uid("1.2.840.10008.5.1.4.1.1.4")
                .media_storage_sop_instance_uid("2.25.4242"),
        )
        .unwrap();
    let mut out = Vec::new();
    file_obj.write_all(&mut out).unwrap();
    out
}

/// 132-plus bytes that carry the signature but decode as nothing.
fn fake_dicm_header(total: usize) -> Vec<u8> {
    let mut v = vec![0u8; total];
    v[128] = b'D';
    v[129] = b'I';
    v[130] = b'C';
    v[131] = b'M';
    v
}

#[test]
fn garbage_buffer_fails_both_scans() {
    let bytes = b"this is not an archive at all".to_vec();
    assert!(scan_dicom_candidates_parallel(&bytes).is_err());
    assert!(deep_scan_dicom_candidates_parallel(&bytes).is_err());
}

#[test]
fn small_entries_are_excluded_from_both_scans() {
    let zip = zip_of(&[("small.bin", fake_dicm_header(132)[..131].to_vec()), (
        "tiny.bin",
        vec![1u8; 10],
    )]);
    let shallow = scan_dicom_candidates_parallel(&zip).unwrap();
    assert!(shallow.is_empty());
    let deep = deep_scan_dicom_candidates_parallel(&zip).unwrap();
    assert!(deep.is_empty());
}

#[test]
fn signature_alone_decides_the_shallow_set() {
    let with_sig = fake_dicm_header(200);
    let mut without_sig = vec![0u8; 200];
    without_sig[128] = b'X';
    let zip = zip_of(&[("yes.dcm", with_sig), ("no.bin", without_sig)]);
    let shallow = scan_dicom_candidates_parallel(&zip).unwrap();
    assert_eq!(shallow.len(), 1);
    assert_eq!(shallow[0].index, 0);
    assert_eq!(shallow[0].name, "yes.dcm");
    assert_eq!(shallow[0].uncompressed_size, 200);
    assert!(shallow[0].compressed_size > 0);
}

#[test]
fn prefilter_is_idempotent() {
    let zip = zip_of(&[
        ("a.dcm", fake_dicm_header(200)),
        ("b.bin", vec![7u8; 300]),
        ("c.dcm", fake_dicm_header(133)),
    ]);
    let first = scan_dicom_candidates_parallel(&zip).unwrap();
    let second = scan_dicom_candidates_parallel(&zip).unwrap();
    assert_eq!(first, second);
    assert_eq!(first.len(), 2);
}

#[test]
fn undecodable_entry_is_shallow_but_not_deep() {
    let zip = zip_of(&[("fake.dcm", fake_dicm_header(200))]);
    let shallow = scan_dicom_candidates_parallel(&zip).unwrap();
    assert_eq!(shallow.len(), 1);
    let deep = deep_scan_dicom_candidates_parallel(&zip).unwrap();
    assert!(deep.is_empty());
}

#[test]
fn deep_scan_extracts_core_fields() {
    let data = dicom_of(&[
        (0x0008, 0x0016, "1.2.840.10008.5.1.4.1.1.4"),
        (0x0008, 0x0018, "2.25.4242"),
        (0x0020, 0x000D, "1.2.3.4"),
        (0x0020, 0x000E, "1.2.3.4.5"),
        (0x0008, 0x0060, "CT"),
        (0x0008, 0x0070, "ACME"),
        (0x0010, 0x0020, "MRN-77"),
    ]);
    let zip = zip_of(&[("scan.dcm", data)]);
    let deep = deep_scan_dicom_candidates_parallel(&zip).unwrap();
    assert_eq!(deep.len(), 1);
    let c = &deep[0];
    assert_eq!(c.index, 0);
    assert_eq!(c.name, "scan.dcm");
    assert_eq!(c.study_instance_uid, "1.2.3.4");
    assert_eq!(c.series_instance_uid, "1.2.3.4.5");
    assert_eq!(c.sop_instance_uid, "2.25.4242");
    assert_eq!(c.modality, "CT");
    assert_eq!(c.manufacturer, "ACME");
    assert_eq!(c.patient_id, "MRN-77");
}

#[test]
fn missing_optional_tag_degrades_to_sentinel() {
    // no patient identifier and no manufacturer: the entry is still included,
    // with the absent marker in those fields
    let data = dicom_of(&[
        (0x0008, 0x0016, "1.2.840.10008.5.1.4.1.1.4"),
        (0x0008, 0x0018, "2.25.4242"),
        (0x0020, 0x000D, "1.2.3.4"),
        (0x0020, 0x000E, "1.2.3.4.5"),
        (0x0008, 0x0060, "CT"),
    ]);
    let zip = zip_of(&[("scan.dcm", data)]);
    let deep = deep_scan_dicom_candidates_parallel(&zip).unwrap();
    assert_eq!(deep.len(), 1);
    assert_eq!(deep[0].patient_id, "N/A");
    assert_eq!(deep[0].manufacturer, "N/A");
    assert_eq!(deep[0].study_instance_uid, "1.2.3.4");
}

#[test]
fn deep_scan_is_idempotent() {
    let data = dicom_of(&[
        (0x0020, 0x000D, "1.2.3.4"),
        (0x0020, 0x000E, "1.2.3.4.5"),
        (0x0008, 0x0060, "MR"),
    ]);
    let zip = zip_of(&[("a.dcm", data), ("junk.bin", vec![0u8; 50])]);
    let first = deep_scan_dicom_candidates_parallel(&zip).unwrap();
    let second = deep_scan_dicom_candidates_parallel(&zip).unwrap();
    assert_eq!(first, second);
    assert_eq!(first.len(), 1);
}

#[test]
fn unrecognized_object_gets_no_branch_fields() {
    let data = dicom_of(&[(0x0008, 0x0060, "CT")]);
    let zip = zip_of(&[("ct.dcm", data)]);
    let reports = deep_scan_entry_reports(&zip).unwrap();
    assert_eq!(reports.len(), 1);
    assert!(matches!(reports[0].class, ObjectClass::Unrecognized));
    assert!(reports[0].enhanced.is_none());
    assert!(reports[0].mr.is_none());
    assert!(reports[0].vendor.is_none());
}

#[test]
fn enhanced_object_takes_the_enhanced_schema_only() {
    let data = dicom_of(&[
        (0x0008, 0x0016, "1.2.840.10008.5.1.4.1.1.4.1"),
        (0x0008, 0x0060, "MR"),
        (0x0018, 0x9100, "1H"),
        (0x0018, 0x0087, "3"),
    ]);
    let zip = zip_of(&[("enh.dcm", data)]);
    let reports = deep_scan_entry_reports(&zip).unwrap();
    assert_eq!(reports.len(), 1);
    let r = &reports[0];
    assert!(matches!(r.class, ObjectClass::EnhancedMrImage));
    assert!(r.mr.is_none());
    assert!(r.vendor.is_none());
    let enhanced = r.enhanced.as_ref().unwrap();
    let nucleus = enhanced
        .iter()
        .find(|t| t.group == 0x0018 && t.element == 0x9100)
        .unwrap();
    assert_eq!(nucleus.value, "1H");
    let field_strength = enhanced
        .iter()
        .find(|t| t.group == 0x0018 && t.element == 0x0087)
        .unwrap();
    assert_eq!(field_strength.value, "3");
    let absent = enhanced
        .iter()
        .find(|t| t.group == 0x0018 && t.element == 0x9064)
        .unwrap();
    assert_eq!(absent.value, "N/A");
}

#[test]
fn classic_mr_of_the_reserved_vendor_takes_both_schemas() {
    let data = dicom_of(&[
        (0x0008, 0x0016, "1.2.840.10008.5.1.4.1.1.4"),
        (0x0008, 0x0060, "MR"),
        (0x0008, 0x0070, "GE MEDICAL SYSTEMS"),
        (0x0018, 0x0081, "12.5"),
        (0x0018, 0x1310, "0\\256\\256\\0"),
        (0x0028, 0x0010, "256"),
        (0x0028, 0x0011, "256"),
        (0x0028, 0x0030, "0.9375\\0.9375"),
        (0x0019, 0x109E, "epi2"),
        (0x0043, 0x1006, "2"),
    ]);
    let zip = zip_of(&[("ge.dcm", data)]);
    let reports = deep_scan_entry_reports(&zip).unwrap();
    assert_eq!(reports.len(), 1);
    let r = &reports[0];
    assert!(matches!(r.class, ObjectClass::MrImage));
    assert!(r.enhanced.is_none());
    let mr = r.mr.as_ref().unwrap();
    assert_eq!(mr.resolution, "0.9375 x 0.9375 mm");
    let te = mr
        .fields
        .iter()
        .find(|t| t.group == 0x0018 && t.element == 0x0081)
        .unwrap();
    assert_eq!(te.value, "12.5");
    let vendor = r.vendor.as_ref().unwrap();
    let shots = vendor
        .iter()
        .find(|t| t.group == 0x0043 && t.element == 0x1006)
        .unwrap();
    assert_eq!(shots.value, "2");
    let seq_name = vendor
        .iter()
        .find(|t| t.group == 0x0019 && t.element == 0x109E)
        .unwrap();
    assert_eq!(seq_name.value, "epi2");
}

#[test]
fn non_vendor_classic_mr_takes_no_vendor_schema() {
    let data = dicom_of(&[
        (0x0008, 0x0016, "1.2.840.10008.5.1.4.1.1.4"),
        (0x0008, 0x0060, "MR"),
        (0x0008, 0x0070, "OTHER VENDOR"),
    ]);
    let zip = zip_of(&[("mr.dcm", data)]);
    let reports = deep_scan_entry_reports(&zip).unwrap();
    let r = &reports[0];
    assert!(matches!(r.class, ObjectClass::MrImage));
    assert!(r.mr.is_some());
    assert!(r.vendor.is_none());
    // a classic image with no acquisition fields still reports a resolution,
    // the sentinel for the unparseable matrix
    assert_eq!(r.mr.as_ref().unwrap().resolution, "N/A");
}

#[test]
fn gems_parameter_block_extracts_every_schema_tag() {
    let mut obj = InMemDicomObject::new_empty();
    obj.put(dicom::core::DataElement::new(Tag(0x0043, 0x0010), dicom::core::VR::LO, "GEMS_PARM_01"));
    obj.put(dicom::core::DataElement::new(Tag(0x0043, 0x1006), dicom::core::VR::LO, "2"));
    let file_obj = obj
        .with_meta(
            FileMetaTableBuilder::new()
                .transfer_syntax("1.2.840.10008.1.2.1")
                .media_storage_sop_class_uid("1.2.840.10008.5.1.4.1.1.4")
                .media_storage_sop_instance_uid("2.25.1"),
        )
        .unwrap();
    let fields = scan_gems_parm_01(&file_obj);
    assert_eq!(fields.len(), 117);
    assert_eq!(fields[0].group, 0x0043);
    assert_eq!(fields[0].element, 0x0010);
    assert_eq!(fields[0].value, "GEMS_PARM_01");
    let shots = fields
        .iter()
        .find(|t| t.group == 0x0043 && t.element == 0x1006)
        .unwrap();
    assert_eq!(shots.value, "2");
    let absent = fields
        .iter()
        .find(|t| t.group == 0x0043 && t.element == 0x100B)
        .unwrap();
    assert_eq!(absent.value, "N/A");
}

#[test]
fn scan_and_aggregate_end_to_end() {
    let a = dicom_of(&[(0x0020, 0x000D, "S1"), (0x0020, 0x000E, "A")]);
    let b = dicom_of(&[(0x0020, 0x000D, "S1"), (0x0020, 0x000E, "A")]);
    let c = dicom_of(&[(0x0020, 0x000D, "S1"), (0x0020, 0x000E, "B")]);
    let d = dicom_of(&[(0x0020, 0x000D, "S2"), (0x0020, 0x000E, "C")]);
    let zip = zip_of(&[
        ("a.dcm", a),
        ("b.dcm", b),
        ("c.dcm", c),
        ("d.dcm", d),
        ("junk.bin", vec![0u8; 16]),
    ]);
    let deep = deep_scan_dicom_candidates_parallel(&zip).unwrap();
    assert_eq!(deep.len(), 4);
    let index = build_study_series_index(&deep);
    assert_eq!(index.entries().len(), 2);
    assert_eq!(index.series_of(&"S1".to_string()).unwrap().len(), 2);
    assert_eq!(index.series_of(&"S2".to_string()).unwrap().len(), 1);
}
