//! The aggregator: groups deep-extraction results by study identifier and
//! collects the set of distinct series identifiers under each study.
//!
//! The mapping is held as a vector of (study, series list) pairs with unique
//! keys and unique series per key; its mathematical image is a map from study
//! string to the set of series strings.
use crate::deep::{DeepCandidateModel, DeepDicomCandidate};
use crate::text::str_eq;
use vstd::prelude::*;

verus! {

/// Whether the string views of a series list are pairwise distinct.
pub open spec fn distinct_strs(v: Seq<String>) -> bool {
    forall|a: int, b: int| 0 <= a < b < v.len() ==> (#[trigger] v[a])@ != (#[trigger] v[b])@
}

/// The set of string views of a series list.
pub open spec fn series_set(v: Seq<String>) -> Set<Seq<char>> {
    Set::new(|x: Seq<char>| exists|i: int| 0 <= i < v.len() && (#[trigger] v[i])@ == x)
}

/// The well-formedness of the pair vector: study keys pairwise distinct, and
/// each series list pairwise distinct.
pub open spec fn wf_pairs(ps: Seq<(String, Vec<String>)>) -> bool {
    &&& forall|i: int, j: int|
        0 <= i < j < ps.len() ==> (#[trigger] ps[i]).0@ != (#[trigger] ps[j]).0@
    &&& forall|i: int| 0 <= i < ps.len() ==> distinct_strs((#[trigger] ps[i]).1@)
}

/// Whether some pair holds the study key `k`.
pub open spec fn pairs_contain(ps: Seq<(String, Vec<String>)>, k: Seq<char>) -> bool {
    exists|i: int| 0 <= i < ps.len() && (#[trigger] ps[i]).0@ == k
}

/// The position of the pair holding the study key `k`.
pub open spec fn pair_index(ps: Seq<(String, Vec<String>)>, k: Seq<char>) -> int {
    choose|i: int| 0 <= i < ps.len() && (#[trigger] ps[i]).0@ == k
}

/// The mathematical image of the pair vector: study key to series set.
pub open spec fn index_view(ps: Seq<(String, Vec<String>)>) -> Map<Seq<char>, Set<Seq<char>>> {
    Map::new(
        |k: Seq<char>| pairs_contain(ps, k),
        |k: Seq<char>| series_set(ps[pair_index(ps, k)].1@),
    )
}

/// In a well-formed pair vector the key at position `i` is found at exactly
/// that position.
pub proof fn lemma_pair_index_unique(ps: Seq<(String, Vec<String>)>, k: Seq<char>, i: int)
    requires
        wf_pairs(ps),
        0 <= i < ps.len(),
        ps[i].0@ == k,
    ensures
        pairs_contain(ps, k),
        pair_index(ps, k) == i,
{
    assert(pairs_contain(ps, k));
    let j = pair_index(ps, k);
    if j < i {
        assert(ps[j].0@ != ps[i].0@);
    } else if j > i {
        assert(ps[i].0@ != ps[j].0@);
    }
}

/// One aggregation step: add `series` to the set under `study`, creating the
/// set on first sight.
pub open spec fn step_insert(
    m: Map<Seq<char>, Set<Seq<char>>>,
    study: Seq<char>,
    series: Seq<char>,
) -> Map<Seq<char>, Set<Seq<char>>> {
    let prev = if m.dom().contains(study) {
        m[study]
    } else {
        Set::empty()
    };
    m.insert(study, prev.insert(series))
}

/// The study-to-series mapping of the first `n` deep candidates.
pub open spec fn study_series_prefix(cands: Seq<DeepCandidateModel>, n: int) -> Map<
    Seq<char>,
    Set<Seq<char>>,
>
    decreases n,
{
    if n <= 0 {
        Map::empty()
    } else {
        step_insert(
            study_series_prefix(cands, n - 1),
            cands[n - 1].study_instance_uid,
            cands[n - 1].series_instance_uid,
        )
    }
}

/// The mapping from each study identifier to the set of distinct series
/// identifiers observed under it. Built once from the full deep-candidate
/// list; read-only afterwards.
pub struct StudySeriesIndex {
    pairs: Vec<(String, Vec<String>)>,
}

impl View for StudySeriesIndex {
    type V = Map<Seq<char>, Set<Seq<char>>>;

    closed spec fn view(&self) -> Map<Seq<char>, Set<Seq<char>>> {
        index_view(self.pairs@)
    }
}

impl StudySeriesIndex {
    /// The held pairs are well-formed: no study twice, no series twice under
    /// one study.
    pub closed spec fn wf(&self) -> bool {
        wf_pairs(self.pairs@)
    }

    /// An empty index.
    pub fn new() -> (r: StudySeriesIndex)
        ensures
            r.wf(),
            r@ == Map::<Seq<char>, Set<Seq<char>>>::empty(),
    {
        let r = StudySeriesIndex { pairs: Vec::new() };
        proof {
            assert(r@ =~= Map::<Seq<char>, Set<Seq<char>>>::empty());
        }
        r
    }

    /// Insert one observation: `series` joins the set under `study`, which is
    /// created on first sight; a series already under the study changes
    /// nothing.
    pub fn insert(&mut self, study: &String, series: &String)
        requires
            old(self).wf(),
        ensures
            final(self).wf(),
            final(self)@ == step_insert(old(self)@, study@, series@),
    {
        let n = self.pairs.len();
        let mut i: usize = 0;
        while i < n
            invariant
                i <= n == self.pairs@.len(),
                *self == *old(self),
                old(self).wf(),
                forall|j: int| 0 <= j < i ==> (#[trigger] self.pairs@[j]).0@ != study@,
            decreases n - i,
        {
            if str_eq(self.pairs[i].0.as_str(), study.as_str()) {
                proof {
                    lemma_pair_index_unique(self.pairs@, study@, i as int);
                }
                let m = self.pairs[i].1.len();
                let mut j: usize = 0;
                while j < m
                    invariant
                        j <= m == self.pairs@[i as int].1@.len(),
                        i < self.pairs@.len(),
                        *self == *old(self),
                        old(self).wf(),
                        self.pairs@[i as int].0@ == study@,
                        forall|b: int|
                            0 <= b < j ==> (#[trigger] self.pairs@[i as int].1@[b])@ != series@,
                    decreases m - j,
                {
                    if str_eq(self.pairs[i].1[j].as_str(), series.as_str()) {
                        proof {
                            lemma_pair_index_unique(self.pairs@, study@, i as int);
                            let old_set = old(self)@[study@];
                            assert(self.pairs@[i as int].1@[j as int]@ == series@);
                            assert(old_set.contains(series@));
                            assert(old_set.insert(series@) =~= old_set);
                            assert(final(self)@ =~~= step_insert(old(self)@, study@, series@));
                        }
                        return ;
                    }
                    j = j + 1;
                }
                // series not present: append it to this study's list
                let ghost old_pairs = self.pairs@;
                proof {
                    lemma_pair_index_unique(old_pairs, study@, i as int);
                }
                let s2 = series.clone();
                let entry = &mut self.pairs[i];
                entry.1.push(s2);
                proof {
                    let new_pairs = self.pairs@;
                    assert(new_pairs =~= old_pairs.update(
                        i as int,
                        (old_pairs[i as int].0, new_pairs[i as int].1),
                    ));
                    assert(new_pairs[i as int].1@ == old_pairs[i as int].1@.push(*series));
                    assert forall|k: int| 0 <= k < new_pairs.len() implies (#[trigger] new_pairs[k]).0@
                        == old_pairs[k].0@ by {}
                    assert(wf_pairs(new_pairs));
                    let nl = new_pairs[i as int].1@;
                    let ol = old_pairs[i as int].1@;
                    assert forall|x: Seq<char>|
                        series_set(nl).contains(x) == series_set(ol).insert(series@).contains(
                            x,
                        ) by {
                        if series_set(nl).contains(x) {
                            let a = choose|a: int| 0 <= a < nl.len() && (#[trigger] nl[a])@ == x;
                            if a < ol.len() {
                                assert(ol[a]@ == x);
                            }
                        }
                        if series_set(ol).contains(x) {
                            let a = choose|a: int| 0 <= a < ol.len() && (#[trigger] ol[a])@ == x;
                            assert(nl[a]@ == x);
                        }
                        if x == series@ {
                            assert(nl[ol.len() as int]@ == x);
                        }
                    }
                    assert(series_set(nl) =~= series_set(ol).insert(series@));
                    assert forall|k: Seq<char>|
                        pairs_contain(new_pairs, k) == pairs_contain(old_pairs, k) by {
                        if pairs_contain(new_pairs, k) {
                            let a = choose|a: int|
                                0 <= a < new_pairs.len() && (#[trigger] new_pairs[a]).0@ == k;
                            assert(old_pairs[a].0@ == k);
                        }
                        if pairs_contain(old_pairs, k) {
                            let a = choose|a: int|
                                0 <= a < old_pairs.len() && (#[trigger] old_pairs[a]).0@ == k;
                            assert(new_pairs[a].0@ == k);
                        }
                    }
                    assert forall|k: Seq<char>| #[trigger]
                        pairs_contain(new_pairs, k) && k != study@ implies series_set(
                        new_pairs[pair_index(new_pairs, k)].1@,
                    ) == series_set(old_pairs[pair_index(old_pairs, k)].1@) by {
                        let a = pair_index(old_pairs, k);
                        lemma_pair_index_unique(old_pairs, k, a);
                        lemma_pair_index_unique(new_pairs, k, a);
                        assert(new_pairs[a].1@ == old_pairs[a].1@);
                    }
                    lemma_pair_index_unique(new_pairs, study@, i as int);
                    assert(final(self)@ =~~= step_insert(old(self)@, study@, series@));
                }
                return ;
            }
            i = i + 1;
        }
        // study not seen yet: append a new pair with a one-element list
        let ghost old_pairs = self.pairs@;
        let mut v: Vec<String> = Vec::new();
        v.push(series.clone());
        self.pairs.push((study.clone(), v));
        proof {
            let new_pairs = self.pairs@;
            assert(new_pairs[n as int].0@ == study@ && new_pairs[n as int].1@.len() == 1
                && new_pairs[n as int].1@[0]@ == series@);
            assert(wf_pairs(new_pairs));
            assert(!pairs_contain(old_pairs, study@));
            assert forall|k: Seq<char>| #[trigger]
                pairs_contain(new_pairs, k) && k != study@ implies pairs_contain(old_pairs, k)
                && series_set(new_pairs[pair_index(new_pairs, k)].1@) == series_set(
                old_pairs[pair_index(old_pairs, k)].1@,
            ) by {
                let a = choose|a: int| 0 <= a < new_pairs.len() && (#[trigger] new_pairs[a]).0@ == k;
                assert(a < n);
                assert(old_pairs[a].0@ == k);
                lemma_pair_index_unique(old_pairs, k, a);
                lemma_pair_index_unique(new_pairs, k, a);
            }
            assert forall|k: Seq<char>|
                pairs_contain(old_pairs, k) implies #[trigger] pairs_contain(new_pairs, k) by {
                let a = choose|a: int| 0 <= a < old_pairs.len() && (#[trigger] old_pairs[a]).0@ == k;
                assert(new_pairs[a].0@ == k);
            }
            lemma_pair_index_unique(new_pairs, study@, n as int);
            assert(series_set(new_pairs[n as int].1@) =~= Set::<Seq<char>>::empty().insert(
                series@,
            ));
            assert(final(self)@ =~~= step_insert(old(self)@, study@, series@));
        }
    }

    /// The series recorded under a study: `Some` exactly for the studies seen,
    /// with the list holding each distinct series once.
    pub fn series_of(&self, study: &String) -> (r: Option<&Vec<String>>)
        requires
            self.wf(),
        ensures
            (r is Some) == self@.dom().contains(study@),
            r matches Some(v) ==> series_set(v@) == self@[study@] && distinct_strs(v@),
    {
        let n = self.pairs.len();
        let mut i: usize = 0;
        while i < n
            invariant
                i <= n == self.pairs@.len(),
                self.wf(),
                forall|j: int| 0 <= j < i ==> (#[trigger] self.pairs@[j]).0@ != study@,
            decreases n - i,
        {
            if str_eq(self.pairs[i].0.as_str(), study.as_str()) {
                proof {
                    lemma_pair_index_unique(self.pairs@, study@, i as int);
                }
                return Some(&self.pairs[i].1);
            }
            i = i + 1;
        }
        proof {
            if pairs_contain(self.pairs@, study@) {
                let a = choose|a: int|
                    0 <= a < self.pairs@.len() && (#[trigger] self.pairs@[a]).0@ == study@;
            }
        }
        None
    }

    /// The recorded pairs, for reporting: one pair per study, the series
    /// distinct within each.
    pub fn entries(&self) -> (r: &Vec<(String, Vec<String>)>)
        requires
            self.wf(),
        ensures
            wf_pairs(r@),
            index_view(r@) == self@,
    {
        &self.pairs
    }
}

/// Group the full deep-candidate list: for each study identifier, the set of
/// distinct series identifiers observed under it. Pure grouping by string
/// equality; nothing is enforced across different studies.
pub fn build_study_series_index(cands: &Vec<DeepDicomCandidate>) -> (r: StudySeriesIndex)
    ensures
        r.wf(),
        r@ == study_series_prefix(cands.deep_view(), cands.deep_view().len() as int),
{
    let mut r = StudySeriesIndex::new();
    let n = cands.len();
    let mut i: usize = 0;
    proof {
        assert(r@ =~~= study_series_prefix(cands.deep_view(), 0));
    }
    while i < n
        invariant
            i <= n == cands@.len(),
            r.wf(),
            r@ == study_series_prefix(cands.deep_view(), i as int),
        decreases n - i,
    {
        let c = &cands[i];
        r.insert(&c.study_instance_uid, &c.series_instance_uid);
        proof {
            assert(cands.deep_view()[i as int] == cands@[i as int].deep_view());
            assert(r@ =~~= study_series_prefix(cands.deep_view(), i as int + 1));
        }
        i = i + 1;
    }
    r
}

} // verus!
