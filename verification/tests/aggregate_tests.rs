use dicomscan::aggregate::{build_study_series_index, StudySeriesIndex};
use dicomscan::deep::DeepDicomCandidate;

fn cand(study: &str, series: &str) -> DeepDicomCandidate {
    DeepDicomCandidate {
        index: 0,
        name: "x.dcm".to_string(),
        compressed_size: 1,
        uncompressed_size: 1,
        study_instance_uid: study.to_string(),
        series_instance_uid: series.to_string(),
        sop_instance_uid: "N/A".to_string(),
        manufacturer: "N/A".to_string(),
        modality: "N/A".to_string(),
        patient_id: "N/A".to_string(),
    }
}

#[test]
fn grouping_collapses_duplicate_series() {
    let cands = vec![cand("S1", "A"), cand("S1", "A"), cand("S1", "B"), cand("S2", "C")];
    let index = build_study_series_index(&cands);
    let s1 = index.series_of(&"S1".to_string()).unwrap();
    assert_eq!(s1.len(), 2);
    assert!(s1.contains(&"A".to_string()));
    assert!(s1.contains(&"B".to_string()));
    let s2 = index.series_of(&"S2".to_string()).unwrap();
    assert_eq!(s2.len(), 1);
    assert!(s2.contains(&"C".to_string()));
    assert_eq!(index.entries().len(), 2);
}

#[test]
fn unknown_study_is_absent() {
    let cands = vec![cand("S1", "A")];
    let index = build_study_series_index(&cands);
    assert!(index.series_of(&"S2".to_string()).is_none());
}

#[test]
fn empty_candidate_list_gives_empty_index() {
    let index = build_study_series_index(&Vec::new());
    assert_eq!(index.entries().len(), 0);
    assert!(index.series_of(&"S1".to_string()).is_none());
}

#[test]
fn same_series_under_two_studies_is_kept_in_both() {
    let cands = vec![cand("S1", "A"), cand("S2", "A")];
    let index = build_study_series_index(&cands);
    assert_eq!(index.series_of(&"S1".to_string()).unwrap().len(), 1);
    assert_eq!(index.series_of(&"S2".to_string()).unwrap().len(), 1);
}

#[test]
fn insert_is_incremental() {
    let mut index = StudySeriesIndex::new();
    index.insert(&"S1".to_string(), &"A".to_string());
    index.insert(&"S1".to_string(), &"A".to_string());
    index.insert(&"S1".to_string(), &"B".to_string());
    assert_eq!(index.series_of(&"S1".to_string()).unwrap().len(), 2);
}
