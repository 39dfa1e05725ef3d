//! The prefilter scanner: classifies every archive entry as a candidate
//! object or not, purely from the 4-byte signature at offset 128 of its first
//! 132 bytes. No decoding happens here; a read failure skips the entry and
//! never fails the scan.
use crate::archive::{
    archive_len, archive_open, entry_meta, entry_read_prefix, zip_entries, zip_entries_of,
    EntryModel,
};
use vstd::prelude::*;

verus! {

/// Why a whole scan failed: the only hard failure is a buffer that does not
/// open as an archive.
#[derive(Clone, Copy, Debug, PartialEq, Eq, Structural)]
pub enum ScanError {
    ArchiveOpen,
}

/// An entry that passed the cheap signature check.
#[derive(Debug, Clone, PartialEq)]
pub struct DicomCandidate {
    pub index: usize,
    pub name: String,
    pub compressed_size: u64,
    pub uncompressed_size: u64,
}

/// The mathematical image of a candidate.
pub struct CandidateModel {
    pub index: int,
    pub name: Seq<char>,
    pub compressed_size: u64,
    pub uncompressed_size: u64,
}

impl View for DicomCandidate {
    type V = CandidateModel;

    open spec fn view(&self) -> CandidateModel {
        CandidateModel {
            index: self.index as int,
            name: self.name@,
            compressed_size: self.compressed_size,
            uncompressed_size: self.uncompressed_size,
        }
    }
}

impl DeepView for DicomCandidate {
    type V = CandidateModel;

    open spec fn deep_view(&self) -> CandidateModel {
        self.view()
    }
}

/// The fixed 4-byte signature ("DICM") at offset 128.
pub open spec fn dicm_signature() -> Seq<u8> {
    seq![68u8, 73u8, 67u8, 77u8]
}

/// Whether an entry belongs in the shallow candidate set: it is at least 132
/// bytes, its first 132 bytes can be read, and they end with the signature.
pub open spec fn shallow_included(e: EntryModel) -> bool {
    &&& e.uncompressed_size >= 132
    &&& e.accessible
    &&& e.data.len() >= 132
    &&& e.data.subrange(128, 132) == dicm_signature()
}

/// The candidate that an included entry at index `i` yields.
pub open spec fn shallow_model(e: EntryModel, i: int) -> CandidateModel {
    CandidateModel {
        index: i,
        name: e.name,
        compressed_size: e.compressed_size,
        uncompressed_size: e.uncompressed_size,
    }
}

/// The shallow candidates among the first `n` entries, in index order.
pub open spec fn shallow_scan(entries: Seq<EntryModel>, n: int) -> Seq<CandidateModel>
    decreases n,
{
    if n <= 0 {
        Seq::empty()
    } else {
        shallow_scan(entries, n - 1) + if shallow_included(entries[n - 1]) {
            seq![shallow_model(entries[n - 1], n - 1)]
        } else {
            Seq::empty()
        }
    }
}

/// What scanning a byte buffer yields (meaningful when the buffer opens as an
/// archive).
pub open spec fn spec_shallow_scan_of(bytes: Seq<u8>) -> Seq<CandidateModel> {
    let entries = zip_entries_of(bytes)->Some_0;
    shallow_scan(entries, entries.len() as int)
}

/// Scan every archive entry and keep those whose first 132 bytes end with the
/// 4-byte signature. An entry that is too small, cannot be handed out or
/// cannot be read is skipped silently; only a buffer that does not open as an
/// archive fails the scan.
pub fn scan_dicom_candidates_parallel(zip_bytes: &[u8]) -> (r: Result<
    Vec<DicomCandidate>,
    ScanError,
>)
    ensures
        (r is Err) == (zip_entries_of(zip_bytes@) is None),
        r matches Ok(v) ==> v.deep_view() == spec_shallow_scan_of(zip_bytes@),
{
    let mut archive = match archive_open(zip_bytes) {
        None => {
            return Err(ScanError::ArchiveOpen);
        },
        Some(a) => a,
    };
    let ghost entries = zip_entries(archive);
    let n = archive_len(&archive);
    let mut out: Vec<DicomCandidate> = Vec::new();
    proof {
        assert(out.deep_view() =~= shallow_scan(entries, 0));
    }
    let mut i: usize = 0;
    while i < n
        invariant
            i <= n,
            n == entries.len(),
            zip_entries(archive) == entries,
            zip_entries_of(zip_bytes@) == Some(entries),
            out.deep_view() == shallow_scan(entries, i as int),
        decreases n - i,
    {
        let ghost e = entries[i as int];
        let ghost old_out = out.deep_view();
        match entry_meta(&mut archive, i) {
            None => {
                proof {
                    assert(!shallow_included(e));
                    assert(shallow_scan(entries, i + 1) =~= old_out);
                }
            },
            Some((name, compressed_size, uncompressed_size)) => {
                if uncompressed_size < 132 {
                    proof {
                        assert(!shallow_included(e));
                        assert(shallow_scan(entries, i + 1) =~= old_out);
                    }
                } else {
                    match entry_read_prefix(&mut archive, i, 132) {
                        None => {
                            proof {
                                assert(!shallow_included(e));
                                assert(shallow_scan(entries, i + 1) =~= old_out);
                            }
                        },
                        Some(header) => {
                            proof {
                                assert(header@.len() == 132);
                                assert(forall|k: int|
                                    0 <= k < 132 ==> header@[k] == #[trigger] e.data[k]);
                                assert(e.data.subrange(128, 132) =~= seq![
                                    e.data[128],
                                    e.data[129],
                                    e.data[130],
                                    e.data[131],
                                ]);
                            }
                            if header[128] == 68 && header[129] == 73 && header[130] == 67
                                && header[131] == 77 {
                                let cand = DicomCandidate {
                                    index: i,
                                    name,
                                    compressed_size,
                                    uncompressed_size,
                                };
                                proof {
                                    assert(shallow_included(e));
                                    assert(cand@ == shallow_model(e, i as int));
                                }
                                out.push(cand);
                                proof {
                                    assert(out.deep_view() =~= old_out + seq![
                                        shallow_model(e, i as int),
                                    ]);
                                    assert(shallow_scan(entries, i + 1) =~= old_out + seq![
                                        shallow_model(e, i as int),
                                    ]);
                                }
                            } else {
                                proof {
                                    assert(e.data.subrange(128, 132) != dicm_signature());
                                    assert(!shallow_included(e));
                                    assert(shallow_scan(entries, i + 1) =~= old_out);
                                }
                            }
                        },
                    }
                }
            },
        }
        i = i + 1;
    }
    proof {
        assert(out.deep_view() == spec_shallow_scan_of(zip_bytes@));
    }
    Ok(out)
}

/// Every candidate comes from an in-range entry that passes the signature
/// check, and carries that entry's name and sizes unchanged.
pub proof fn lemma_shallow_scan_sound(entries: Seq<EntryModel>, n: int, j: int)
    requires
        n <= entries.len(),
        0 <= j < shallow_scan(entries, n).len(),
    ensures
        ({
            let c = shallow_scan(entries, n)[j];
            &&& 0 <= c.index < n
            &&& shallow_included(entries[c.index])
            &&& c == shallow_model(entries[c.index], c.index)
        }),
    decreases n,
{
    if n > 0 {
        let prev = shallow_scan(entries, n - 1);
        if j < prev.len() {
            lemma_shallow_scan_sound(entries, n - 1, j);
        }
    }
}

/// Every in-range entry that passes the signature check appears in the scan.
pub proof fn lemma_shallow_scan_complete(entries: Seq<EntryModel>, n: int, i: int)
    requires
        0 <= i < n <= entries.len(),
        shallow_included(entries[i]),
    ensures
        shallow_scan(entries, n).contains(shallow_model(entries[i], i)),
    decreases n,
{
    if i == n - 1 {
        assert(shallow_scan(entries, n)[shallow_scan(entries, n - 1).len() as int]
            == shallow_model(entries[i], i));
    } else {
        lemma_shallow_scan_complete(entries, n - 1, i);
        let prev = shallow_scan(entries, n - 1);
        let j = choose|j: int| 0 <= j < prev.len() && prev[j] == shallow_model(entries[i], i);
        assert(shallow_scan(entries, n)[j] == shallow_model(entries[i], i));
    }
}

/// An entry smaller than 132 bytes is never a shallow candidate.
pub proof fn lemma_small_entry_excluded_shallow(entries: Seq<EntryModel>, n: int, i: int)
    requires
        n <= entries.len(),
        0 <= i < entries.len(),
        entries[i].uncompressed_size < 132,
    ensures
        forall|j: int|
            0 <= j < shallow_scan(entries, n).len() ==> (#[trigger] shallow_scan(entries, n)[j]).index
                != i,
{
    assert forall|j: int|
        0 <= j < shallow_scan(entries, n).len() implies (#[trigger] shallow_scan(entries, n)[j]).index
        != i by {
        lemma_shallow_scan_sound(entries, n, j);
    }
}

/// An entry is in the shallow candidate set exactly when it is large enough,
/// readable, and its bytes at offsets 128 to 131 are the 4-byte signature.
pub proof fn lemma_shallow_scan_characterized(entries: Seq<EntryModel>, n: int, i: int)
    requires
        0 <= i < n <= entries.len(),
    ensures
        (exists|j: int|
            0 <= j < shallow_scan(entries, n).len() && (#[trigger] shallow_scan(entries, n)[j]).index
                == i) <==> shallow_included(entries[i]),
{
    if shallow_included(entries[i]) {
        lemma_shallow_scan_complete(entries, n, i);
        let m = shallow_model(entries[i], i);
        let j = choose|j: int|
            0 <= j < shallow_scan(entries, n).len() && shallow_scan(entries, n)[j] == m;
        assert(0 <= j < shallow_scan(entries, n).len() && (shallow_scan(entries, n)[j]).index == i);
    }
    if exists|j: int|
        0 <= j < shallow_scan(entries, n).len() && (#[trigger] shallow_scan(entries, n)[j]).index
            == i {
        let j = choose|j: int|
            0 <= j < shallow_scan(entries, n).len() && (#[trigger] shallow_scan(entries, n)[j]).index
                == i;
        lemma_shallow_scan_sound(entries, n, j);
    }
}

/// Re-running the scan on an unchanged byte buffer yields the same candidate
/// sequence: the result is a function of the buffer alone.
pub proof fn lemma_shallow_scan_idempotent(
    bytes: Seq<u8>,
    r1: Seq<CandidateModel>,
    r2: Seq<CandidateModel>,
)
    requires
        r1 == spec_shallow_scan_of(bytes),
        r2 == spec_shallow_scan_of(bytes),
    ensures
        r1 == r2,
{
}

} // verus!
