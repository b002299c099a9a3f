//! Batch production: one epoch's ordered sample sequence partitioned into
//! consecutive fixed-size windows, each window's decoded images assembled
//! into a feature/label batch. The short final window is dropped, so every
//! emitted window is full; per-sample decode failures shrink the batch and
//! are reported by identifier, never aborting the epoch.

use vstd::prelude::*;
use crate::dataset::{DatasetIndex, Sample};

verus! {

/// The (identifier, label) text of each sample, in order.
pub open spec fn sample_views(samples: Seq<Sample>) -> Seq<(Seq<char>, Seq<char>)> {
    samples.map_values(|s: Sample| (s.identifier@, s.label@))
}

/// One assembled training batch: `features[i]` and `labels[i]` belong to
/// the same sample for every `i`, and `size` counts the pairs.
pub struct Batch {
    /// One decoded feature row per surviving sample.
    pub features: Vec<Vec<u8>>,
    /// The label of the sample each feature row came from, at the same
    /// position.
    pub labels: Vec<String>,
    /// How many samples survived into this batch.
    pub size: usize,
}

impl Batch {
    /// Feature rows and labels pair up one to one, `size` counts them, and
    /// every feature row has the declared length.
    pub open spec fn wf(self, feature_len: int) -> bool {
        &&& self.features@.len() == self.size
        &&& self.labels@.len() == self.size
        &&& forall|i: int| 0 <= i < self.features@.len() ==> (#[trigger] self.features@[i])@.len()
            == feature_len
    }
}

/// The fold of the first `k` window positions into (feature rows, labels,
/// failed identifiers): a sample whose decode produced an array of the
/// declared length contributes its feature/label pair, in window order;
/// every other sample's identifier is reported as failed, in window order.
pub open spec fn assembled(
    window: Seq<Sample>,
    decoded: Seq<Option<Vec<u8>>>,
    feature_len: int,
    k: int,
) -> (Seq<Seq<u8>>, Seq<Seq<char>>, Seq<Seq<char>>)
    decreases k,
{
    if k <= 0 {
        (Seq::empty(), Seq::empty(), Seq::empty())
    } else {
        let prev = assembled(window, decoded, feature_len, k - 1);
        match decoded[k - 1] {
            Some(v) => if v@.len() == feature_len {
                (prev.0.push(v@), prev.1.push(window[k - 1].label@), prev.2)
            } else {
                (prev.0, prev.1, prev.2.push(window[k - 1].identifier@))
            },
            None => (prev.0, prev.1, prev.2.push(window[k - 1].identifier@)),
        }
    }
}

/// Copies a byte row.
fn copy_bytes(v: &Vec<u8>) -> (r: Vec<u8>)
    ensures
        r@ == v@,
{
    let mut r: Vec<u8> = Vec::new();
    let mut i: usize = 0;
    while i < v.len()
        invariant
            i <= v.len(),
            r@ == v@.subrange(0, i as int),
        decreases v.len() - i,
    {
        r.push(v[i]);
        proof {
            assert(v@.subrange(0, i as int).push(v@[i as int]) =~= v@.subrange(0, i + 1));
        }
        i = i + 1;
    }
    proof {
        assert(v@.subrange(0, v@.len() as int) =~= v@);
    }
    r
}

/// Assembles one window into a batch. `decoded[i]` is what the injected
/// decode capability produced for `window[i]`: `None`, or an array whose
/// length may or may not match the declared feature length. Exactly the
/// samples with a well-shaped decode survive, in order and still paired
/// with their own labels; the rest are reported by identifier. A window
/// whose every sample failed yields no batch at all.
pub fn assemble_batch(window: &Vec<Sample>, decoded: &Vec<Option<Vec<u8>>>, feature_len: usize)
    -> (r: (Option<Batch>, Vec<String>))
    requires
        decoded@.len() == window@.len(),
    ensures
        ({
            let a = assembled(window@, decoded@, feature_len as int, window@.len() as int);
            &&& r.1@.map_values(|f: String| f@) == a.2
            &&& if a.0.len() == 0 {
                r.0 is None
            } else {
                r.0 matches Some(b) && b.wf(feature_len as int) && b.size == a.0.len()
                    && b.features@.map_values(|v: Vec<u8>| v@) == a.0 && b.labels@.map_values(
                    |l: String| l@,
                ) == a.1
            }
        }),
{
    let mut features: Vec<Vec<u8>> = Vec::new();
    let mut labels: Vec<String> = Vec::new();
    let mut failed: Vec<String> = Vec::new();
    let mut i: usize = 0;
    while i < window.len()
        invariant
            i <= window.len(),
            decoded@.len() == window@.len(),
            ({
                let a = assembled(window@, decoded@, feature_len as int, i as int);
                features@.map_values(|v: Vec<u8>| v@) == a.0 && labels@.map_values(|l: String| l@)
                    == a.1 && failed@.map_values(|f: String| f@) == a.2
                    && features@.len() == labels@.len()
            }),
        decreases window.len() - i,
    {
        let row: Option<Vec<u8>> = match &decoded[i] {
            Some(v) => if v.len() == feature_len {
                Some(copy_bytes(v))
            } else {
                None
            },
            None => None,
        };
        match row {
            Some(row) => {
                let lab = window[i].label.clone();
                proof {
                    assert(features@.push(row).map_values(|v: Vec<u8>| v@) =~= features@.map_values(
                        |v: Vec<u8>| v@,
                    ).push(row@));
                    assert(labels@.push(lab).map_values(|l: String| l@) =~= labels@.map_values(
                        |l: String| l@,
                    ).push(lab@));
                }
                features.push(row);
                labels.push(lab);
            },
            None => {
                let ident = window[i].identifier.clone();
                proof {
                    assert(failed@.push(ident).map_values(|f: String| f@) =~= failed@.map_values(
                        |f: String| f@,
                    ).push(ident@));
                }
                failed.push(ident);
            },
        }
        i = i + 1;
    }
    let size = features.len();
    if size == 0 {
        (None, failed)
    } else {
        proof {
            let a = assembled(window@, decoded@, feature_len as int, window@.len() as int);
            assert forall|j: int| 0 <= j < features@.len() implies (#[trigger] features@[j])@.len()
                == feature_len by {
                assert(a.0[j] == features@.map_values(|v: Vec<u8>| v@)[j]);
                lemma_assembled_rows(window@, decoded@, feature_len as int, window@.len() as int, j);
            }
        }
        (Some(Batch { features, labels, size }), failed)
    }
}

/// Every feature row the fold keeps has the declared length.
proof fn lemma_assembled_rows(
    window: Seq<Sample>,
    decoded: Seq<Option<Vec<u8>>>,
    feature_len: int,
    k: int,
    j: int,
)
    requires
        0 <= j < assembled(window, decoded, feature_len, k).0.len(),
    ensures
        assembled(window, decoded, feature_len, k).0[j].len() == feature_len,
    decreases k,
{
    if k > 0 {
        let prev = assembled(window, decoded, feature_len, k - 1);
        if j < prev.0.len() {
            lemma_assembled_rows(window, decoded, feature_len, k - 1, j);
        }
    }
}

/// A restartable, sequential producer of full windows over one epoch of a
/// dataset's ordered sample sequence.
pub struct BatchIterator {
    samples: Vec<Sample>,
    batch_size: usize,
    pos: usize,
}

impl BatchIterator {
    /// The ordered sample sequence this epoch walks.
    pub closed spec fn spec_samples(self) -> Seq<Sample> {
        self.samples@
    }

    /// The configured batch size.
    pub closed spec fn spec_batch_size(self) -> usize {
        self.batch_size
    }

    /// The position of the next window's first sample.
    pub closed spec fn spec_pos(self) -> usize {
        self.pos
    }

    /// A positive batch size, and a position inside the sequence.
    pub open spec fn wf(self) -> bool {
        self.spec_batch_size() >= 1 && self.spec_pos() <= self.spec_samples().len()
    }

    /// An iterator over one epoch of the dataset, from the start, with its
    /// own copy of the ordered sample sequence.
    pub fn new(index: &DatasetIndex, batch_size: usize) -> (it: BatchIterator)
        requires
            batch_size >= 1,
        ensures
            it.wf(),
            it.spec_pos() == 0,
            it.spec_batch_size() == batch_size,
            sample_views(it.spec_samples()) == sample_views(index.samples@),
    {
        let mut samples: Vec<Sample> = Vec::new();
        let mut i: usize = 0;
        while i < index.samples.len()
            invariant
                i <= index.samples.len(),
                samples@.len() == i,
                forall|j: int| 0 <= j < i ==> (#[trigger] samples@[j]).identifier@
                    == index.samples@[j].identifier@ && samples@[j].label@
                    == index.samples@[j].label@,
            decreases index.samples.len() - i,
        {
            samples.push(index.samples[i].clone());
            i = i + 1;
        }
        proof {
            assert(sample_views(samples@) =~= sample_views(index.samples@));
        }
        BatchIterator { samples, batch_size, pos: 0 }
    }

    /// The next full window: the samples at positions `pos` up to
    /// `pos + batch_size`, advancing past them; `None`, leaving the
    /// iterator where it stands, as soon as fewer than a full window
    /// remain — the short tail is dropped.
    pub fn next_window(&mut self) -> (w: Option<Vec<Sample>>)
        requires
            old(self).wf(),
        ensures
            final(self).wf(),
            final(self).spec_samples() == old(self).spec_samples(),
            final(self).spec_batch_size() == old(self).spec_batch_size(),
            if old(self).spec_pos() + old(self).spec_batch_size()
                <= old(self).spec_samples().len() {
                &&& w matches Some(win) && sample_views(win@) == sample_views(
                    old(self).spec_samples(),
                ).subrange(
                    old(self).spec_pos() as int,
                    old(self).spec_pos() + old(self).spec_batch_size(),
                )
                &&& final(self).spec_pos() == old(self).spec_pos() + old(self).spec_batch_size()
            } else {
                w is None && final(self).spec_pos() == old(self).spec_pos()
            },
    {
        if self.samples.len() - self.pos >= self.batch_size {
            let start = self.pos;
            let stop = self.pos + self.batch_size;
            let mut win: Vec<Sample> = Vec::new();
            let mut i: usize = start;
            while i < stop
                invariant
                    start <= i <= stop,
                    stop <= self.samples@.len(),
                    win@.len() == i - start,
                    forall|j: int| 0 <= j < win@.len() ==> (#[trigger] win@[j]).identifier@
                        == self.samples@[start + j].identifier@ && win@[j].label@
                        == self.samples@[start + j].label@,
                decreases stop - i,
            {
                win.push(self.samples[i].clone());
                i = i + 1;
            }
            proof {
                assert(sample_views(win@) =~= sample_views(self.samples@).subrange(
                    start as int,
                    stop as int,
                ));
            }
            self.pos = stop;
            Some(win)
        } else {
            None
        }
    }

    /// Re-partitions the same ordered sequence from its start: the next
    /// epoch yields the identical windows.
    pub fn restart(&mut self)
        ensures
            final(self).spec_pos() == 0,
            final(self).spec_samples() == old(self).spec_samples(),
            final(self).spec_batch_size() == old(self).spec_batch_size(),
    {
        self.pos = 0;
    }

    /// Replaces the ordered sequence — the caller's externally supplied
    /// reshuffle — and restarts from the front.
    pub fn reorder(&mut self, samples: Vec<Sample>)
        ensures
            final(self).spec_pos() == 0,
            final(self).spec_samples() == samples@,
            final(self).spec_batch_size() == old(self).spec_batch_size(),
    {
        self.samples = samples;
        self.pos = 0;
    }
}

/// One epoch yields exactly `len / batch_size` full windows and drops the
/// `len % batch_size` samples of the short tail: the window starting at
/// `k * batch_size` exists exactly when `k < len / batch_size`. Each
/// window is a subrange of the ordered sequence — a function of that
/// sequence and the batch size alone — so an iterator restarted over the
/// unchanged sequence reproduces the identical windows.
pub proof fn lemma_windows_of_epoch(len: int, batch_size: int, k: int)
    requires
        len >= 0,
        batch_size >= 1,
        k >= 0,
    ensures
        (k * batch_size + batch_size <= len) <==> (k < len / batch_size),
{
    vstd::arithmetic::div_mod::lemma_fundamental_div_mod(len, batch_size);
    let q = len / batch_size;
    let r = len % batch_size;
    vstd::arithmetic::div_mod::lemma_mod_bound(len, batch_size);
    assert((k + 1) * batch_size == k * batch_size + batch_size) by (nonlinear_arith);
    if k < q {
        vstd::arithmetic::mul::lemma_mul_inequality(k + 1, q, batch_size);
    }
    if k * batch_size + batch_size <= len {
        if k >= q {
            vstd::arithmetic::mul::lemma_mul_inequality(q, k, batch_size);
        }
    }
}

} // verus!
