//! The label index: parses a row-oriented tabular label source into a
//! mapping from sample identifier to label. A declared header names the
//! identifier and label columns; each malformed row is skipped and counted
//! rather than aborting the load.

use vstd::prelude::*;
use crate::errors::PipelineError;
use crate::text::{split_at_sep, split_str, str_eq};

verus! {

/// A line with its trailing carriage return stripped.
pub open spec fn strip_cr(line: Seq<char>) -> Seq<char> {
    if line.len() > 0 && line[line.len() - 1] == '\r' {
        line.drop_last()
    } else {
        line
    }
}

/// The first `k` raw lines, stripped of carriage returns, with empty lines
/// dropped.
pub open spec fn rows_from(parts: Seq<Seq<char>>, k: int) -> Seq<Seq<char>>
    decreases k,
{
    if k <= 0 {
        Seq::empty()
    } else {
        let prev = rows_from(parts, k - 1);
        let line = strip_cr(parts[k - 1]);
        if line.len() > 0 {
            prev.push(line)
        } else {
            prev
        }
    }
}

/// The non-empty rows of a label source: the text split on newlines,
/// carriage returns stripped, blank lines dropped.
pub open spec fn rows_of(text: Seq<char>) -> Seq<Seq<char>> {
    rows_from(split_at_sep(text, '\n'), split_at_sep(text, '\n').len() as int)
}

/// The index of the first field equal to `name`, or -1.
pub open spec fn find_name(fields: Seq<Seq<char>>, name: Seq<char>) -> int
    decreases fields.len(),
{
    if fields.len() == 0 {
        -1
    } else if fields[0] == name {
        0
    } else {
        let r = find_name(fields.skip(1), name);
        if r < 0 {
            -1
        } else {
            r + 1
        }
    }
}

/// `find_name` returns -1 exactly when `name` does not occur, and
/// otherwise the first index holding it.
pub proof fn lemma_find_name(fields: Seq<Seq<char>>, name: Seq<char>)
    ensures
        find_name(fields, name) == -1 || 0 <= find_name(fields, name) < fields.len(),
        find_name(fields, name) >= 0 ==> fields[find_name(fields, name)] == name,
        forall|j: int| 0 <= j < fields.len() && fields[j] == name ==> 0 <= find_name(fields, name)
            <= j,
    decreases fields.len(),
{
    if fields.len() > 0 && fields[0] != name {
        lemma_find_name(fields.skip(1), name);
        assert forall|j: int| 0 <= j < fields.len() && fields[j] == name implies 0 <= find_name(
            fields,
            name,
        ) <= j by {
            assert(fields.skip(1)[j - 1] == fields[j]);
        }
        if find_name(fields.skip(1), name) >= 0 {
            assert(fields.skip(1)[find_name(fields.skip(1), name)] == fields[find_name(
                fields,
                name,
            )]);
        }
    }
}

/// Whether some entry carries the identifier `id`.
pub open spec fn has_key(entries: Seq<(Seq<char>, Seq<char>)>, id: Seq<char>) -> bool {
    exists|i: int| 0 <= i < entries.len() && entries[i].0 == id
}

/// The identifiers of an entry sequence, in order.
pub open spec fn keys_of(entries: Seq<(Seq<char>, Seq<char>)>) -> Seq<Seq<char>> {
    entries.map_values(|e: (Seq<char>, Seq<char>)| e.0)
}

/// The label of the first entry carrying `id`.
pub open spec fn label_of(entries: Seq<(Seq<char>, Seq<char>)>, id: Seq<char>) -> Seq<char> {
    entries[find_name(keys_of(entries), id)].1
}

/// The fold of the first `k` data rows into (entries, skipped-row count):
/// a row whose comma-separated field count differs from the header's, or
/// whose identifier already has a label, is skipped and counted; every
/// other row appends its (identifier, label) pair.
pub open spec fn fold_rows(data: Seq<Seq<char>>, ncols: int, idi: int, li: int, k: int) -> (Seq<
    (Seq<char>, Seq<char>),
>, int)
    decreases k,
{
    if k <= 0 {
        (Seq::empty(), 0)
    } else {
        let prev = fold_rows(data, ncols, idi, li, k - 1);
        let fs = split_at_sep(data[k - 1], ',');
        if fs.len() == ncols && !has_key(prev.0, fs[idi]) {
            (prev.0.push((fs[idi], fs[li])), prev.1)
        } else {
            (prev.0, prev.1 + 1)
        }
    }
}

/// Reports whether some parsed entry carries the identifier `id`.
fn contains_key(entries: &Vec<(String, String)>, id: &str) -> (b: bool)
    ensures
        b == has_key(entries@.map_values(|e: (String, String)| (e.0@, e.1@)), id@),
{
    let ghost view = entries@.map_values(|e: (String, String)| (e.0@, e.1@));
    let mut i: usize = 0;
    while i < entries.len()
        invariant
            i <= entries.len(),
            view == entries@.map_values(|e: (String, String)| (e.0@, e.1@)),
            forall|j: int| 0 <= j < i ==> (#[trigger] view[j]).0 != id@,
        decreases entries.len() - i,
    {
        if str_eq(entries[i].0.as_str(), id) {
            proof {
                assert(view[i as int].0 == id@);
            }
            return true;
        }
        i = i + 1;
    }
    false
}

/// The index of the first header field equal to `name`, as `find_name`
/// describes it; `None` when no field matches.
fn find_column(fields: &Vec<String>, name: &str) -> (r: Option<usize>)
    ensures
        ({
            let views = fields@.map_values(|f: String| f@);
            match r {
                Some(i) => i == find_name(views, name@) && i < fields@.len(),
                None => find_name(views, name@) == -1,
            }
        }),
{
    let ghost views = fields@.map_values(|f: String| f@);
    let mut i: usize = 0;
    while i < fields.len()
        invariant
            i <= fields.len(),
            views == fields@.map_values(|f: String| f@),
            forall|j: int| 0 <= j < i ==> #[trigger] views[j] != name@,
        decreases fields.len() - i,
    {
        if str_eq(fields[i].as_str(), name) {
            proof {
                lemma_find_name(views, name@);
                assert(views[i as int] == name@);
                if find_name(views, name@) < i {
                    assert(views[find_name(views, name@)] == name@);
                }
            }
            return Some(i);
        }
        i = i + 1;
    }
    proof {
        lemma_find_name(views, name@);
        if find_name(views, name@) >= 0 {
            assert(views[find_name(views, name@)] == name@);
        }
    }
    None
}

/// A mapping from sample identifier to label, with the number of rows the
/// load had to skip. Identifiers are unique: the first well-formed row
/// wins, later rows with the same identifier are counted as skipped.
pub struct LabelIndex {
    /// The (identifier, label) pairs, in the order their rows appeared.
    pub entries: Vec<(String, String)>,
    /// How many rows were skipped: wrong field count, or a repeated
    /// identifier.
    pub skipped: usize,
}

impl LabelIndex {
    /// The entries as character sequences.
    pub open spec fn entries_view(self) -> Seq<(Seq<char>, Seq<char>)> {
        self.entries@.map_values(|e: (String, String)| (e.0@, e.1@))
    }

    /// Whether `id` is mapped.
    pub open spec fn spec_has(self, id: Seq<char>) -> bool {
        has_key(self.entries_view(), id)
    }

    /// Parses a label source already read into memory. The first non-empty
    /// line is the header; `id_column` and `label_column` name the two
    /// columns consumed, wherever they stand. Fails with
    /// `LabelSourceUnreadable` exactly when there is no header row or the
    /// header lacks one of the two columns; otherwise the result carries
    /// the fold of all data rows: malformed rows skipped and counted, every
    /// well-formed row's (identifier, label) pair recorded, first
    /// occurrence winning.
    pub fn load(text: &str, id_column: &str, label_column: &str) -> (r: Result<
        LabelIndex,
        PipelineError,
    >)
        ensures
            ({
                let rows = rows_of(text@);
                if rows.len() == 0 {
                    r == Err::<LabelIndex, PipelineError>(PipelineError::LabelSourceUnreadable)
                } else {
                    let header = split_at_sep(rows[0], ',');
                    let idi = find_name(header, id_column@);
                    let li = find_name(header, label_column@);
                    if idi < 0 || li < 0 {
                        r == Err::<LabelIndex, PipelineError>(PipelineError::LabelSourceUnreadable)
                    } else {
                        let folded = fold_rows(
                            rows.skip(1),
                            header.len() as int,
                            idi,
                            li,
                            rows.len() - 1,
                        );
                        r matches Ok(ix) && ix.entries_view() == folded.0 && ix.skipped == folded.1
                    }
                }
            }),
    {
        let parts = split_str(text, '\n');
        let ghost pviews = parts@.map_values(|p: String| p@);
        let mut rows: Vec<String> = Vec::new();
        let mut i: usize = 0;
        while i < parts.len()
            invariant
                i <= parts.len(),
                pviews == parts@.map_values(|p: String| p@),
                rows@.map_values(|r: String| r@) == rows_from(pviews, i as int),
            decreases parts.len() - i,
        {
            let line = &parts[i];
            let n = line.as_str().unicode_len();
            let stripped: String = if n > 0 && line.as_str().get_char(n - 1) == '\r' {
                line.as_str().substring_char(0, n - 1).to_owned()
            } else {
                line.clone()
            };
            proof {
                assert(pviews[i as int] == line@);
                assert(line@.drop_last() =~= line@.subrange(0, line@.len() - 1));
                assert(stripped@ == strip_cr(pviews[i as int]));
            }
            let m = stripped.as_str().unicode_len();
            if m > 0 {
                proof {
                    assert(rows@.push(stripped).map_values(|r: String| r@) =~= rows@.map_values(
                        |r: String| r@,
                    ).push(stripped@));
                }
                rows.push(stripped);
            }
            i = i + 1;
        }
        proof {
            assert(rows_of(text@) == rows_from(pviews, pviews.len() as int));
        }
        let ghost rviews = rows@.map_values(|r: String| r@);
        if rows.len() == 0 {
            return Err(PipelineError::LabelSourceUnreadable);
        }
        let header = split_str(rows[0].as_str(), ',');
        let ghost hviews = header@.map_values(|f: String| f@);
        proof {
            assert(hviews == split_at_sep(rviews[0], ','));
        }
        let idi = match find_column(&header, id_column) {
            Some(idx) => idx,
            None => {
                return Err(PipelineError::LabelSourceUnreadable);
            },
        };
        let li = match find_column(&header, label_column) {
            Some(idx) => idx,
            None => {
                return Err(PipelineError::LabelSourceUnreadable);
            },
        };
        let ncols = header.len();
        let ghost data = rviews.skip(1);
        let mut entries: Vec<(String, String)> = Vec::new();
        let mut skipped: usize = 0;
        let mut k: usize = 1;
        while k < rows.len()
            invariant
                1 <= k <= rows.len(),
                rows@.map_values(|r: String| r@) == rviews,
                data == rviews.skip(1),
                ncols == hviews.len(),
                0 <= idi < ncols,
                0 <= li < ncols,
                skipped <= k - 1,
                (
                    entries@.map_values(|e: (String, String)| (e.0@, e.1@)),
                    skipped as int,
                ) == fold_rows(data, ncols as int, idi as int, li as int, k - 1),
            decreases rows.len() - k,
        {
            let fields = split_str(rows[k].as_str(), ',');
            proof {
                assert(data[k - 1] == rviews[k as int]);
                assert(fields@.map_values(|f: String| f@) == split_at_sep(data[k - 1], ','));
            }
            if fields.len() == ncols && !contains_key(&entries, fields[idi].as_str()) {
                let pair = (fields[idi].clone(), fields[li].clone());
                proof {
                    let fviews = fields@.map_values(|f: String| f@);
                    assert(fviews[idi as int] == fields@[idi as int]@);
                    assert(fviews[li as int] == fields@[li as int]@);
                    assert(entries@.push(pair).map_values(|e: (String, String)| (e.0@, e.1@))
                        =~= entries@.map_values(|e: (String, String)| (e.0@, e.1@)).push(
                        (pair.0@, pair.1@),
                    ));
                }
                entries.push(pair);
            } else {
                skipped = skipped + 1;
            }
            k = k + 1;
        }
        Ok(LabelIndex { entries, skipped })
    }

    /// Looks an identifier up: the label of the first entry carrying it,
    /// or `None` when it is not mapped.
    pub fn get(&self, id: &str) -> (r: Option<&String>)
        ensures
            match r {
                Some(l) => self.spec_has(id@) && l@ == label_of(self.entries_view(), id@),
                None => !self.spec_has(id@),
            },
    {
        let ghost view = self.entries_view();
        let mut i: usize = 0;
        while i < self.entries.len()
            invariant
                i <= self.entries.len(),
                view == self.entries_view(),
                forall|j: int| 0 <= j < i ==> (#[trigger] view[j]).0 != id@,
            decreases self.entries.len() - i,
        {
            if str_eq(self.entries[i].0.as_str(), id) {
                proof {
                    assert(view[i as int].0 == id@);
                    let keys = keys_of(view);
                    lemma_find_name(keys, id@);
                    assert(keys[i as int] == id@);
                    if find_name(keys, id@) < i {
                        assert(view[find_name(keys, id@)].0 == keys[find_name(keys, id@)]);
                    }
                    assert(find_name(keys, id@) == i);
                }
                return Some(&self.entries[i].1);
            }
            i = i + 1;
        }
        proof {
            if self.spec_has(id@) {
                let w = choose|j: int| 0 <= j < view.len() && view[j].0 == id@;
                assert(view[w].0 == id@);
            }
        }
        None
    }

    /// How many identifiers are mapped.
    pub fn len(&self) -> (n: usize)
        ensures
            n == self.entries_view().len(),
    {
        self.entries.len()
    }

    /// How many rows the load skipped.
    pub fn skipped_rows(&self) -> (n: usize)
        ensures
            n == self.skipped,
    {
        self.skipped
    }
}

} // verus!
