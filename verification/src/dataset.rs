//! The dataset index: the identifiers found on disk intersected with the
//! label mapping, ordered by a stable lexicographic sort of identifiers —
//! never by directory-listing order — with everything excluded on either
//! side counted.

use vstd::prelude::*;
use crate::errors::PipelineError;
use crate::labels::{has_key, label_of, LabelIndex};
use crate::text::{lex_lt, lex_lt_str, lemma_lex_irrefl, lemma_lex_total, lemma_lex_trans, str_eq};

verus! {

/// One resolved sample: an identifier present on disk and its label.
pub struct Sample {
    pub identifier: String,
    pub label: String,
}

impl Clone for Sample {
    /// A clone carries the same identifier and label text.
    fn clone(&self) -> (r: Sample)
        ensures
            r.identifier@ == self.identifier@,
            r.label@ == self.label@,
    {
        Sample { identifier: self.identifier.clone(), label: self.label.clone() }
    }
}

/// Adjacent samples are in strictly ascending identifier order.
pub open spec fn sorted_strict(samples: Seq<Sample>) -> bool {
    forall|i: int|
        #![trigger samples[i], samples[i + 1]]
        0 <= i < samples.len() - 1 ==> lex_lt(samples[i].identifier@, samples[i + 1].identifier@)
}

/// In a strictly sorted sequence every earlier identifier comes
/// lexicographically before every later one — in particular no two
/// samples share an identifier, so the ordered corpus is determined by
/// its identifier set alone, however the identifiers arrived.
pub proof fn lemma_sorted_strict_global(samples: Seq<Sample>, i: int, j: int)
    requires
        sorted_strict(samples),
        0 <= i < j < samples.len(),
    ensures
        lex_lt(samples[i].identifier@, samples[j].identifier@),
        samples[i].identifier@ != samples[j].identifier@,
    decreases j - i,
{
    if i + 1 == j {
        assert(lex_lt(samples[i].identifier@, samples[i + 1].identifier@));
    } else {
        lemma_sorted_strict_global(samples, i + 1, j);
        assert(lex_lt(samples[i].identifier@, samples[i + 1].identifier@));
        lemma_lex_trans(samples[i].identifier@, samples[i + 1].identifier@, samples[j].identifier@);
    }
    if samples[i].identifier@ == samples[j].identifier@ {
        lemma_lex_irrefl(samples[i].identifier@);
    }
}

/// Whether some sample carries the identifier `id`.
pub open spec fn id_in(samples: Seq<Sample>, id: Seq<char>) -> bool {
    exists|i: int| 0 <= i < samples.len() && samples[i].identifier@ == id
}

/// Whether `id` occurs in a sequence of identifiers.
pub open spec fn seq_has(ids: Seq<Seq<char>>, id: Seq<char>) -> bool {
    exists|i: int| 0 <= i < ids.len() && ids[i] == id
}

/// How many of the first `k` on-disk identifiers have no label.
pub open spec fn count_unlabelled(
    disk: Seq<Seq<char>>,
    entries: Seq<(Seq<char>, Seq<char>)>,
    k: int,
) -> int
    decreases k,
{
    if k <= 0 {
        0
    } else {
        count_unlabelled(disk, entries, k - 1) + if has_key(entries, disk[k - 1]) {
            0int
        } else {
            1int
        }
    }
}

/// How many of the first `k` labelled identifiers are absent from disk.
pub open spec fn count_unmatched(
    entries: Seq<(Seq<char>, Seq<char>)>,
    disk: Seq<Seq<char>>,
    k: int,
) -> int
    decreases k,
{
    if k <= 0 {
        0
    } else {
        count_unmatched(entries, disk, k - 1) + if seq_has(disk, entries[k - 1].0) {
            0int
        } else {
            1int
        }
    }
}

/// Reports whether `id` occurs among the given strings.
fn contains_str(v: &Vec<String>, id: &str) -> (b: bool)
    ensures
        b == seq_has(v@.map_values(|s: String| s@), id@),
{
    let ghost views = v@.map_values(|s: String| s@);
    let mut i: usize = 0;
    while i < v.len()
        invariant
            i <= v.len(),
            views == v@.map_values(|s: String| s@),
            forall|j: int| 0 <= j < i ==> #[trigger] views[j] != id@,
        decreases v.len() - i,
    {
        if str_eq(v[i].as_str(), id) {
            proof {
                assert(views[i as int] == id@);
            }
            return true;
        }
        i = i + 1;
    }
    proof {
        if seq_has(views, id@) {
            let w = choose|j: int| 0 <= j < views.len() && views[j] == id@;
            assert(views[w] == id@);
        }
    }
    false
}

/// Inserts a sample whose identifier is absent into a strictly sorted
/// sequence, at the position that keeps it strictly sorted; returns that
/// position.
fn insert_sorted(v: &mut Vec<Sample>, s: Sample) -> (p: usize)
    requires
        sorted_strict(old(v)@),
        forall|i: int| 0 <= i < old(v)@.len() ==> (#[trigger] old(v)@[i]).identifier@
            != s.identifier@,
    ensures
        p <= old(v)@.len(),
        final(v)@ == old(v)@.insert(p as int, s),
        sorted_strict(final(v)@),
{
    let mut p: usize = 0;
    while p < v.len() && lex_lt_str(v[p].identifier.as_str(), s.identifier.as_str())
        invariant
            p <= v.len(),
            v@ == old(v)@,
            forall|j: int| 0 <= j < p ==> lex_lt((#[trigger] v@[j]).identifier@, s.identifier@),
        decreases v.len() - p,
    {
        p = p + 1;
    }
    proof {
        if p < v@.len() {
            lemma_lex_total(v@[p as int].identifier@, s.identifier@);
            assert(lex_lt(s.identifier@, v@[p as int].identifier@));
        }
    }
    let ghost ov = old(v)@;
    let ghost gp = p as int;
    v.insert(p, s);
    proof {
        let nv = v@;
        ov.insert_ensures(gp, s);
        assert(nv == ov.insert(gp, s));
        assert forall|i: int|
            #![trigger nv[i], nv[i + 1]]
            0 <= i < nv.len() - 1 implies lex_lt(nv[i].identifier@, nv[i + 1].identifier@) by {
            if i + 1 < gp {
                assert(nv[i] == ov[i]);
                assert(nv[i + 1] == ov[i + 1]);
            } else if i + 1 == gp {
                assert(nv[i] == ov[i]);
                assert(nv[i + 1] == s);
            } else if i == gp {
                assert(nv[i] == s);
                assert(nv[i + 1] == ov[i]);
            } else {
                assert(nv[i] == ov[i - 1]);
                assert(nv[i + 1] == ov[i]);
            }
        }
    }
    p
}

/// The resolved corpus: the samples whose identifiers are both on disk and
/// labelled, in strictly ascending identifier order, with the count of
/// identifiers excluded on either side.
pub struct DatasetIndex {
    /// The ordered (identifier, label) samples.
    pub samples: Vec<Sample>,
    /// How many identifiers were excluded: on disk without a label, or
    /// labelled but absent from disk.
    pub excluded: usize,
}

impl DatasetIndex {
    /// Resolves the corpus: keeps exactly the on-disk identifiers that the
    /// label index maps, each with its label, in strictly ascending
    /// identifier order; everything on either side of the intersection is
    /// excluded and counted. Fails with `EmptyDataset` exactly when the
    /// intersection is empty. The on-disk identifiers come from a
    /// directory listing, so they are required pairwise distinct.
    pub fn build(labels: &LabelIndex, disk_ids: &Vec<String>) -> (r: Result<
        DatasetIndex,
        PipelineError,
    >)
        requires
            forall|i: int, j: int| 0 <= i < j < disk_ids@.len() ==> (#[trigger] disk_ids@[i])@
                != (#[trigger] disk_ids@[j])@,
            disk_ids@.len() + labels.entries@.len() <= usize::MAX,
        ensures
            ({
                let disk = disk_ids@.map_values(|s: String| s@);
                let entries = labels.entries_view();
                match r {
                    Err(e) => {
                        &&& e == PipelineError::EmptyDataset
                        &&& forall|i: int| 0 <= i < disk.len() ==> !has_key(
                            entries,
                            #[trigger] disk[i],
                        )
                    },
                    Ok(d) => {
                        &&& d.samples@.len() >= 1
                        &&& sorted_strict(d.samples@)
                        &&& forall|i: int| 0 <= i < d.samples@.len() ==> seq_has(
                            disk,
                            (#[trigger] d.samples@[i]).identifier@,
                        ) && has_key(entries, d.samples@[i].identifier@) && d.samples@[i].label@
                            == label_of(entries, d.samples@[i].identifier@)
                        &&& forall|j: int| 0 <= j < disk.len() && has_key(
                            entries,
                            #[trigger] disk[j],
                        ) ==> id_in(d.samples@, disk[j])
                        &&& d.excluded == count_unlabelled(disk, entries, disk.len() as int)
                            + count_unmatched(entries, disk, entries.len() as int)
                    },
                }
            }),
    {
        let ghost disk = disk_ids@.map_values(|s: String| s@);
        let ghost entries = labels.entries_view();
        let mut kept: Vec<Sample> = Vec::new();
        let mut unlabelled: usize = 0;
        let mut j: usize = 0;
        while j < disk_ids.len()
            invariant
                j <= disk_ids.len(),
                disk == disk_ids@.map_values(|s: String| s@),
                entries == labels.entries_view(),
                forall|a: int, b: int| 0 <= a < b < disk.len() ==> #[trigger] disk[a]
                    != #[trigger] disk[b],
                sorted_strict(kept@),
                kept@.len() <= j,
                unlabelled == count_unlabelled(disk, entries, j as int),
                unlabelled <= j,
                forall|i: int| 0 <= i < kept@.len() ==> exists|w: int| 0 <= w < j
                    && (#[trigger] kept@[i]).identifier@ == disk[w],
                forall|i: int| 0 <= i < kept@.len() ==> has_key(
                    entries,
                    (#[trigger] kept@[i]).identifier@,
                ) && kept@[i].label@ == label_of(entries, kept@[i].identifier@),
                forall|w: int| 0 <= w < j && has_key(entries, #[trigger] disk[w]) ==> id_in(
                    kept@,
                    disk[w],
                ),
            decreases disk_ids.len() - j,
        {
            let id = &disk_ids[j];
            proof {
                assert(disk[j as int] == id@);
            }
            match labels.get(id.as_str()) {
                Some(label) => {
                    let s = Sample { identifier: id.clone(), label: label.clone() };
                    let ghost ov = kept@;
                    proof {
                        assert forall|i: int| 0 <= i < ov.len() implies (#[trigger] ov[i]).identifier@
                            != s.identifier@ by {
                            let w = choose|w: int| 0 <= w < j && ov[i].identifier@ == disk[w];
                            assert(disk[w] != disk[j as int]);
                        }
                    }
                    let pos = insert_sorted(&mut kept, s);
                    let ghost p = pos as int;
                    proof {
                        let nv = kept@;
                        assert(nv == ov.insert(p, s));
                        assert forall|i: int| 0 <= i < nv.len() implies (exists|w: int| 0 <= w < j + 1
                            && (#[trigger] nv[i]).identifier@ == disk[w]) && has_key(
                            entries,
                            nv[i].identifier@,
                        ) && nv[i].label@ == label_of(entries, nv[i].identifier@) by {
                            if i < p {
                                assert(nv[i] == ov[i]);
                            } else if i == p {
                                assert(nv[i] == s);
                                assert(nv[i].identifier@ == disk[j as int]);
                            } else {
                                assert(nv[i] == ov[i - 1]);
                            }
                        }
                        assert forall|w: int| 0 <= w < j + 1 && has_key(
                            entries,
                            #[trigger] disk[w],
                        ) implies id_in(nv, disk[w]) by {
                            if w < j {
                                let wi = choose|wi: int| 0 <= wi < ov.len()
                                    && ov[wi].identifier@ == disk[w];
                                if wi < p {
                                    assert(nv[wi] == ov[wi]);
                                } else {
                                    assert(nv[wi + 1] == ov[wi]);
                                }
                            } else {
                                assert(nv[p] == s);
                            }
                        }
                    }
                },
                None => {
                    unlabelled = unlabelled + 1;
                },
            }
            j = j + 1;
        }
        if kept.len() == 0 {
            proof {
                assert forall|i: int| 0 <= i < disk.len() implies !has_key(
                    entries,
                    #[trigger] disk[i],
                ) by {
                    if has_key(entries, disk[i]) {
                        assert(id_in(kept@, disk[i]));
                    }
                }
            }
            return Err(PipelineError::EmptyDataset);
        }
        let mut unmatched: usize = 0;
        let mut t: usize = 0;
        while t < labels.entries.len()
            invariant
                t <= labels.entries.len(),
                disk == disk_ids@.map_values(|s: String| s@),
                entries == labels.entries_view(),
                unmatched == count_unmatched(entries, disk, t as int),
                unmatched <= t,
            decreases labels.entries.len() - t,
        {
            proof {
                assert(entries[t as int].0 == labels.entries@[t as int].0@);
            }
            if !contains_str(disk_ids, labels.entries[t].0.as_str()) {
                unmatched = unmatched + 1;
            }
            t = t + 1;
        }
        Ok(DatasetIndex { samples: kept, excluded: unlabelled + unmatched })
    }

    /// How many samples the corpus holds.
    pub fn len(&self) -> (n: usize)
        ensures
            n == self.samples@.len(),
    {
        self.samples.len()
    }
}

} // verus!
