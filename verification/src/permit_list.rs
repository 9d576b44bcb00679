//! Barcode permit-list canonicalization and reconciliation.
//!
//! A permit list is a newline-delimited text, optionally compressed,
//! holding either one barcode per line or a tab-separated barcode
//! followed by auxiliary columns. The mapper and quantifier need a
//! single-column file, so a multi-column list is rewritten to its first
//! columns; after quantification the auxiliary columns are threaded back
//! onto the quantifier's row-ordered output.

use vstd::prelude::*;
use vstd::string::StringSliceAdditionalSpecFns;
use std::io::Read;

use crate::errors::QuantError;
use crate::text::bytes_equal;
use crate::text::first_col;
use crate::text::first_column;
use crate::text::line_has_no_tab;
use crate::text::line_is_single_column;
use crate::text::path_join;
use crate::text::path_joined;
use crate::text::split_lines;
use crate::text::split_lines_vec;

verus! {

/// How many leading lines are sampled to decide whether a permit list is
/// single-column.
pub const NUM_SAMPLE_LINES: usize = 10;

/// Every line of the given ones lacks a tab separator.
pub open spec fn all_single_column(lines: Seq<Seq<u8>>) -> bool {
    forall|i: int| 0 <= i < lines.len() ==> line_has_no_tab(#[trigger] lines[i])
}

/// The lines inspected by classification: the first `NUM_SAMPLE_LINES`
/// ones, or all of them when there are fewer.
pub open spec fn sample(lines: Seq<Seq<u8>>) -> Seq<Seq<u8>> {
    if lines.len() <= NUM_SAMPLE_LINES as int {
        lines
    } else {
        lines.take(NUM_SAMPLE_LINES as int)
    }
}

/// Decide whether a permit list is single-column from its sampled lines.
pub fn classify_lines(lines: &Vec<Vec<u8>>) -> (r: bool)
    ensures
        r == all_single_column(sample(lines.deep_view())),
{
    let limit: usize = if lines.len() < NUM_SAMPLE_LINES {
        lines.len()
    } else {
        NUM_SAMPLE_LINES
    };
    proof {
        assert(sample(lines.deep_view()).len() == limit as int);
    }
    let mut i: usize = 0;
    while i < limit
        invariant
            i <= limit <= lines@.len(),
            sample(lines.deep_view()).len() == limit as int,
            forall|k: int|
                0 <= k < i ==> line_has_no_tab(#[trigger] sample(lines.deep_view())[k]),
        decreases limit - i,
    {
        let single = line_is_single_column(&lines[i]);
        proof {
            assert(lines.deep_view()[i as int] =~= lines@[i as int]@);
            assert(sample(lines.deep_view())[i as int] == lines.deep_view()[i as int]);
        }
        if !single {
            return false;
        }
        i = i + 1;
    }
    true
}

/// The first columns of the given lines, in order.
pub open spec fn derived_lines(lines: Seq<Seq<u8>>) -> Seq<Seq<u8>> {
    Seq::new(lines.len(), |i: int| first_col(lines[i]))
}

/// Rewrite lines to their first columns.
pub fn derive_first_columns(lines: &Vec<Vec<u8>>) -> (r: Vec<Vec<u8>>)
    ensures
        r.deep_view() == derived_lines(lines.deep_view()),
{
    let mut r: Vec<Vec<u8>> = Vec::new();
    let mut i: usize = 0;
    while i < lines.len()
        invariant
            i <= lines@.len(),
            r@.len() == i as int,
            forall|k: int| 0 <= k < i ==> (#[trigger] r@[k])@ == first_col(lines.deep_view()[k]),
        decreases lines@.len() - i,
    {
        let c = first_column(&lines[i]);
        proof {
            assert(lines.deep_view()[i as int] =~= lines@[i as int]@);
        }
        r.push(c);
        i = i + 1;
    }
    proof {
        assert(r.deep_view() =~~= derived_lines(lines.deep_view()));
    }
    r
}

/// A first column never holds a tab, so a derived file is single-column.
pub proof fn lemma_first_col_no_tab(line: Seq<u8>)
    ensures
        line_has_no_tab(first_col(line)),
{
    line.index_of_first_ensures(crate::text::TAB);
    match line.index_of_first(crate::text::TAB) {
        Some(w) => {
            let c = line.take(w);
            if c.contains(crate::text::TAB) {
                let k: int = choose|k: int|
                    0 <= k < c.len() && c[k] == crate::text::TAB;
                assert(line[k] == crate::text::TAB);
                assert(false);
            }
        },
        None => {
        },
    }
}

/// Rewriting a permit list to its first columns yields a single-column
/// list, so preparing the derived list again classifies it as
/// single-column and leaves it unchanged.
pub proof fn lemma_derived_lines_single_column(lines: Seq<Seq<u8>>)
    ensures
        all_single_column(derived_lines(lines)),
        all_single_column(sample(derived_lines(lines))),
{
    let d = derived_lines(lines);
    assert forall|i: int| 0 <= i < d.len() implies line_has_no_tab(#[trigger] d[i]) by {
        lemma_first_col_no_tab(lines[i]);
    }
    let s = sample(d);
    assert forall|i: int| 0 <= i < s.len() implies line_has_no_tab(#[trigger] s[i]) by {
        assert(s[i] == d[i]);
    }
}

/// Rewriting to first columns is idempotent: a line without a tab is its
/// own first column.
pub proof fn lemma_derive_idempotent(lines: Seq<Seq<u8>>)
    ensures
        derived_lines(derived_lines(lines)) == derived_lines(lines),
{
    let d = derived_lines(lines);
    assert forall|i: int| 0 <= i < d.len() implies first_col(#[trigger] d[i]) == d[i] by {
        lemma_first_col_no_tab(lines[i]);
        d[i].index_of_first_ensures(crate::text::TAB);
        match d[i].index_of_first(crate::text::TAB) {
            Some(w) => {
                assert(d[i][w] == crate::text::TAB);
                assert(false);
            },
            None => {
            },
        }
    }
    assert(derived_lines(d) =~= d);
}

/// Whether content begins with the magic number of a supported
/// compression format (gzip, bzip2, zstd, or xz).
pub open spec fn has_compression_magic(s: Seq<u8>) -> bool {
    s.len() >= 5 && ((s[0] == 0x1f && s[1] == 0x8b) || (s[0] == 0x42 && s[1] == 0x5a) || (s[0]
        == 0x28 && s[1] == 0xb5 && s[2] == 0x2f && s[3] == 0xfd) || (s[0] == 0xfd && s[1] == 0x37
        && s[2] == 0x7a && s[3] == 0x58 && s[4] == 0x5a))
}

/// The decompressed form of a byte stream, when it decodes cleanly.
pub uninterp spec fn decompressed_of(s: Seq<u8>) -> Option<Seq<u8>>;

/// Relies on niffler::get_reader: the compression format is sniffed from
/// the first five bytes of the content; content that starts with no known
/// magic number is passed through unchanged; content shorter than five
/// bytes is refused.
#[verifier::external_body]
fn decompress_bytes(raw: &Vec<u8>) -> (r: Option<Vec<u8>>)
    ensures
        match r {
            Some(d) => {
                &&& raw@.len() >= 5
                &&& decompressed_of(raw@) == Some(d@)
                &&& !has_compression_magic(raw@) ==> d@ == raw@
            },
            None => {
                &&& decompressed_of(raw@) is None
                &&& raw@.len() >= 5 ==> has_compression_magic(raw@)
            },
        },
{
    let mut out: Vec<u8> = Vec::new();
    match niffler::get_reader(Box::new(raw.as_slice())) {
        Ok((mut reader, _format)) => match reader.read_to_end(&mut out) {
            Ok(_) => Some(out),
            Err(_) => None,
        },
        Err(_) => None,
    }
}

/// State of one permit list's processing: the original file, the
/// canonical single-column file handed to the external stages, and
/// whether the two are the same file.
pub struct CBListInfo {
    pub init_file: Vec<u8>,
    pub final_file: Vec<u8>,
    pub is_single_column: bool,
}

impl CBListInfo {
    /// An empty record: no permit list seen yet, nothing to reconcile.
    pub fn new() -> (r: Self)
        ensures
            r.init_file@ == Seq::<u8>::empty(),
            r.final_file@ == Seq::<u8>::empty(),
            r.is_single_column,
    {
        CBListInfo { init_file: Vec::new(), final_file: Vec::new(), is_single_column: true }
    }

    /// Classify decompressed permit-list content and pick the canonical
    /// file: the original one when it is single-column, else a fresh
    /// `cb_list.txt` under the output directory, whose lines (the first
    /// columns of the original) are returned for the caller to write.
    pub fn init_from_text(&mut self, pl_file: &Vec<u8>, output: &Vec<u8>, text: &Vec<u8>) -> (r:
        Option<Vec<Vec<u8>>>)
        ensures
            final(self).init_file@ == pl_file@,
            final(self).is_single_column == all_single_column(sample(split_lines(text@))),
            final(self).is_single_column ==> final(self).final_file@ == pl_file@ && r is None,
            !final(self).is_single_column ==> final(self).final_file@ == path_joined(
                output@,
                "cb_list.txt".spec_bytes(),
            ) && (r matches Some(d) && d.deep_view() == derived_lines(split_lines(text@))),
    {
        let lines = split_lines_vec(text);
        let single = classify_lines(&lines);
        self.init_file = pl_file.clone();
        self.is_single_column = single;
        if single {
            self.final_file = pl_file.clone();
            None
        } else {
            self.final_file = path_join(output, "cb_list.txt");
            Some(derive_first_columns(&lines))
        }
    }

    /// Classify a raw (possibly compressed) permit list. An unreadable
    /// list is an input-validation error.
    pub fn init(&mut self, pl_file: &Vec<u8>, output: &Vec<u8>, raw: &Vec<u8>) -> (r: Result<
        Option<Vec<Vec<u8>>>,
        QuantError,
    >)
        ensures
            match r {
                Ok(derived) => decompressed_of(raw@) matches Some(text) && {
                    &&& final(self).init_file@ == pl_file@
                    &&& final(self).is_single_column == all_single_column(
                        sample(split_lines(text)),
                    )
                    &&& final(self).is_single_column ==> final(self).final_file@ == pl_file@
                        && derived is None
                    &&& !final(self).is_single_column ==> final(self).final_file@ == path_joined(
                        output@,
                        "cb_list.txt".spec_bytes(),
                    ) && (derived matches Some(d) && d.deep_view() == derived_lines(
                        split_lines(text),
                    ))
                },
                Err(e) => decompressed_of(raw@) is None && e is InputValidationError,
            },
    {
        match decompress_bytes(raw) {
            Some(text) => Ok(self.init_from_text(pl_file, output, &text)),
            None => Err(
                QuantError::InputValidationError(
                    crate::text::str_bytes("could not read the permit-list file"),
                ),
            ),
        }
    }

    /// Whether auxiliary columns must be threaded back after
    /// quantification.
    pub fn needs_reconciliation(&self) -> (r: bool)
        ensures
            r == !self.is_single_column,
    {
        !self.is_single_column
    }

    /// Thread the auxiliary columns of the original permit list back onto
    /// the quantifier's row file. A no-op for a single-column list.
    /// `rows_text` is the content of the quantifier's row file and
    /// `whitelist_raw` the raw content of the original permit list; either
    /// being absent (a missing file) is an input-validation error. On
    /// success the returned text replaces the row file.
    pub fn update_af_quant_barcodes_tsv(
        &self,
        rows_text: Option<&Vec<u8>>,
        whitelist_raw: Option<&Vec<u8>>,
    ) -> (r: Result<Option<Vec<u8>>, QuantError>)
        ensures
            match r {
                Ok(None) => self.is_single_column,
                Ok(Some(content)) => {
                    &&& !self.is_single_column
                    &&& rows_text matches Some(rt)
                    &&& whitelist_raw matches Some(w) && decompressed_of(w@) matches Some(wtext)
                        && {
                        let rows = split_lines(rt@);
                        let wl = split_lines(wtext);
                        placements(rows, wl) == rows.len() && content@ == crate::text::join_lines(
                            filled_slots(rows, wl),
                        )
                    }
                },
                Err(e) => !self.is_single_column && match (rows_text, whitelist_raw) {
                    (Some(rt), Some(w)) => match decompressed_of(w@) {
                        Some(wtext) => e is DataIntegrityError && placements(
                            split_lines(rt@),
                            split_lines(wtext),
                        ) != split_lines(rt@).len(),
                        None => e is InputValidationError,
                    },
                    _ => e is InputValidationError,
                },
            },
    {
        if self.is_single_column {
            return Ok(None);
        }
        let rt = match rows_text {
            Some(t) => t,
            None => {
                return Err(
                    QuantError::InputValidationError(
                        crate::text::str_bytes("the quantifier's barcode row file does not exist"),
                    ),
                );
            },
        };
        let wraw = match whitelist_raw {
            Some(w) => w,
            None => {
                return Err(
                    QuantError::InputValidationError(
                        crate::text::str_bytes("the original permit-list file does not exist"),
                    ),
                );
            },
        };
        let wtext = match decompress_bytes(wraw) {
            Some(t) => t,
            None => {
                return Err(
                    QuantError::InputValidationError(
                        crate::text::str_bytes("could not re-read the permit-list file"),
                    ),
                );
            },
        };
        let rows = split_lines_vec(rt);
        let wl = split_lines_vec(&wtext);
        match reconcile_rows(&rows, &wl) {
            Ok(out) => Ok(Some(crate::text::join_lines_vec(&out))),
            Err(e) => Err(e),
        }
    }
}

/// The last row whose barcode equals the given one, if any.
fn last_row_index(rows: &Vec<Vec<u8>>, cb: &Vec<u8>) -> (r: Option<usize>)
    ensures
        match r {
            Some(i) => rows.deep_view().index_of_last(cb@) == Some(i as int),
            None => rows.deep_view().index_of_last(cb@) is None,
        },
{
    let ghost dv = rows.deep_view();
    let mut i: usize = rows.len();
    while i > 0
        invariant
            i <= rows@.len(),
            dv == rows.deep_view(),
            dv.len() == rows@.len(),
            forall|j: int| i <= j < dv.len() ==> dv[j] != cb@,
        decreases i,
    {
        let hit = bytes_equal(&rows[i - 1], cb);
        proof {
            assert(dv[i - 1] =~= rows@[i - 1]@);
        }
        if hit {
            proof {
                assert(dv[i - 1] == cb@);
                assert(dv.contains(cb@));
                dv.index_of_last_ensures(cb@);
                match dv.index_of_last(cb@) {
                    Some(w) => {
                        if w < i - 1 {
                            assert(dv[i - 1] != cb@);
                            assert(false);
                        }
                        if w > i - 1 {
                            assert(dv[w] != cb@);
                            assert(false);
                        }
                    },
                    None => {
                        assert(false);
                    },
                }
            }
            return Some(i - 1);
        }
        proof {
            assert(dv[i - 1] != cb@);
        }
        i = i - 1;
    }
    proof {
        dv.index_of_last_ensures(cb@);
        if dv.contains(cb@) {
            let w: int = choose|w: int| 0 <= w < dv.len() && dv[w] == cb@;
            assert(dv[w] != cb@);
        }
    }
    None
}

/// How many whitelist lines find their barcode among the rows: each line
/// whose first column is some row's barcode counts as one placement.
pub open spec fn placements(rows: Seq<Seq<u8>>, wl: Seq<Seq<u8>>) -> nat
    decreases wl.len(),
{
    if wl.len() == 0 {
        0
    } else {
        placements(rows, wl.drop_last()) + if rows.contains(first_col(wl.last())) {
            1nat
        } else {
            0nat
        }
    }
}

/// The output slots after scanning the whitelist in order: one slot per
/// row, each matching whitelist line placed at the row of its barcode
/// (the last row with that barcode, a later line overwriting an earlier
/// one), unmatched slots left empty.
pub open spec fn filled_slots(rows: Seq<Seq<u8>>, wl: Seq<Seq<u8>>) -> Seq<Seq<u8>>
    decreases wl.len(),
{
    if wl.len() == 0 {
        Seq::new(rows.len(), |i: int| Seq::<u8>::empty())
    } else {
        let prev = filled_slots(rows, wl.drop_last());
        match rows.index_of_last(first_col(wl.last())) {
            Some(i) => prev.update(i, wl.last()),
            None => prev,
        }
    }
}

/// Place every whitelist line whose barcode is a row's barcode at that
/// row, and check that exactly one line was placed per row. A placement
/// count different from the row count is a data-integrity error: some
/// quantified barcode never appeared in the whitelist.
pub fn reconcile_rows(rows: &Vec<Vec<u8>>, whitelist: &Vec<Vec<u8>>) -> (r: Result<
    Vec<Vec<u8>>,
    QuantError,
>)
    ensures
        match r {
            Ok(out) => placements(rows.deep_view(), whitelist.deep_view())
                == rows.deep_view().len() && out.deep_view() == filled_slots(
                rows.deep_view(),
                whitelist.deep_view(),
            ),
            Err(e) => placements(rows.deep_view(), whitelist.deep_view())
                != rows.deep_view().len() && e is DataIntegrityError,
        },
{
    let ghost rv = rows.deep_view();
    let ghost wv = whitelist.deep_view();
    let mut out: Vec<Vec<u8>> = Vec::new();
    let mut k: usize = 0;
    while k < rows.len()
        invariant
            k <= rows@.len(),
            out@.len() == k as int,
            forall|i: int| 0 <= i < k ==> (#[trigger] out@[i])@ == Seq::<u8>::empty(),
        decreases rows@.len() - k,
    {
        out.push(Vec::new());
        k = k + 1;
    }
    proof {
        assert(rv.len() == rows@.len());
        assert(wv.len() == whitelist@.len());
        assert(wv.take(0) =~= Seq::<Seq<u8>>::empty());
        assert(out.deep_view() =~~= filled_slots(rv, wv.take(0)));
    }
    let mut placed: usize = 0;
    let mut j: usize = 0;
    while j < whitelist.len()
        invariant
            j <= whitelist@.len(),
            rv == rows.deep_view(),
            wv == whitelist.deep_view(),
            rv.len() == rows@.len(),
            wv.len() == whitelist@.len(),
            out@.len() == rv.len(),
            placed <= j,
            placed as nat == placements(rv, wv.take(j as int)),
            out.deep_view() == filled_slots(rv, wv.take(j as int)),
        decreases whitelist@.len() - j,
    {
        let cb = first_column(&whitelist[j]);
        proof {
            assert(whitelist@[j as int]@ =~= wv[j as int]);
            assert(cb@ == first_col(wv[j as int]));
        }
        let ghost pre = wv.take(j as int);
        let ghost post = wv.take(j + 1);
        proof {
            assert(post.drop_last() =~= pre);
            assert(post.last() == wv[j as int]);
            rv.index_of_last_ensures(cb@);
        }
        match last_row_index(rows, &cb) {
            Some(i) => {
                proof {
                    assert(rv.index_of_last(cb@) == Some(i as int));
                    assert((i as int) < rv.len());
                    assert(rv.contains(cb@));
                }
                let ghost old_dv = out.deep_view();
                let line = whitelist[j].clone();
                proof {
                    assert(line@ =~= wv[j as int]);
                }
                out[i] = line;
                placed = placed + 1;
                proof {
                    assert(out.deep_view() =~~= old_dv.update(i as int, wv[j as int]));
                    assert(filled_slots(rv, post) == filled_slots(rv, pre).update(
                        i as int,
                        post.last(),
                    ));
                    assert(out.deep_view() == filled_slots(rv, post));
                    assert(placed as nat == placements(rv, post));
                }
            },
            None => {
                proof {
                    assert(rv.index_of_last(cb@) is None);
                    assert(!rv.contains(cb@));
                    assert(filled_slots(rv, post) == filled_slots(rv, pre));
                    assert(placed as nat == placements(rv, post));
                }
            },
        }
        j = j + 1;
    }
    proof {
        assert(wv.take(whitelist@.len() as int) =~= wv);
    }
    if placed == rows.len() {
        Ok(out)
    } else {
        Err(
            QuantError::DataIntegrityError(
                crate::text::str_bytes(
                    "not every quantified barcode was found in the permit list",
                ),
            ),
        )
    }
}

/// No two entries are equal.
pub open spec fn distinct_seqs(s: Seq<Seq<u8>>) -> bool {
    forall|i: int, j: int| 0 <= i < j < s.len() ==> s[i] != s[j]
}

/// No two lines share a first column.
pub open spec fn distinct_first_cols(wl: Seq<Seq<u8>>) -> bool {
    forall|i: int, j: int|
        0 <= i < j < wl.len() ==> first_col(wl[i]) != first_col(wl[j])
}

/// The rows whose barcode appears as the first column of some whitelist
/// line.
pub open spec fn covered_rows(rows: Seq<Seq<u8>>, wl: Seq<Seq<u8>>) -> Set<int> {
    Set::new(
        |i: int|
            0 <= i < rows.len() && exists|j: int|
                0 <= j < wl.len() && #[trigger] first_col(wl[j]) == rows[i],
    )
}

/// With distinct rows and distinct whitelist barcodes, the placement
/// count is exactly the number of rows that some whitelist line covers.
pub proof fn lemma_placements_card(rows: Seq<Seq<u8>>, wl: Seq<Seq<u8>>)
    requires
        distinct_seqs(rows),
        distinct_first_cols(wl),
    ensures
        covered_rows(rows, wl).finite(),
        placements(rows, wl) == covered_rows(rows, wl).len(),
    decreases wl.len(),
{
    broadcast use vstd::set::group_set_axioms;

    if wl.len() == 0 {
        assert(covered_rows(rows, wl) =~= Set::<int>::empty());
    } else {
        let wl0 = wl.drop_last();
        let l = wl.last();
        let fc = first_col(l);
        assert(distinct_first_cols(wl0)) by {
            assert forall|i: int, j: int| 0 <= i < j < wl0.len() implies first_col(wl0[i])
                != first_col(wl0[j]) by {
                assert(wl0[i] == wl[i]);
                assert(wl0[j] == wl[j]);
            }
        }
        lemma_placements_card(rows, wl0);
        let c0 = covered_rows(rows, wl0);
        let c1 = covered_rows(rows, wl);
        if rows.contains(fc) {
            let i0: int = choose|i: int| 0 <= i < rows.len() && rows[i] == fc;
            assert(c1 =~= c0.insert(i0)) by {
                assert forall|x: int| c1.contains(x) implies c0.insert(i0).contains(x) by {
                    let j: int = choose|j: int|
                        0 <= j < wl.len() && #[trigger] first_col(wl[j]) == rows[x];
                    if j < wl.len() - 1 {
                        assert(wl0[j] == wl[j]);
                        assert(first_col(wl0[j]) == rows[x]);
                        assert(c0.contains(x));
                    } else {
                        assert(rows[x] == fc);
                        if x != i0 {
                            assert(rows[x] != rows[i0]);
                            assert(false);
                        }
                    }
                }
                assert forall|x: int| c0.insert(i0).contains(x) implies c1.contains(x) by {
                    if x == i0 {
                        assert(first_col(wl[wl.len() - 1]) == rows[i0]);
                    } else {
                        assert(c0.contains(x));
                        let j: int = choose|j: int|
                            0 <= j < wl0.len() && #[trigger] first_col(wl0[j]) == rows[x];
                        assert(wl0[j] == wl[j]);
                        assert(first_col(wl[j]) == rows[x]);
                    }
                }
            }
            assert(!c0.contains(i0)) by {
                if c0.contains(i0) {
                    let j: int = choose|j: int|
                        0 <= j < wl0.len() && #[trigger] first_col(wl0[j]) == rows[i0];
                    assert(wl0[j] == wl[j]);
                    assert(first_col(wl[j]) == fc);
                    assert(first_col(wl[j]) != first_col(wl[wl.len() - 1]));
                    assert(false);
                }
            }
            assert(placements(rows, wl) == placements(rows, wl0) + 1);
            assert(c1.len() == c0.len() + 1);
        } else {
            assert(c1 =~= c0) by {
                assert forall|x: int| c1.contains(x) implies c0.contains(x) by {
                    let j: int = choose|j: int|
                        0 <= j < wl.len() && #[trigger] first_col(wl[j]) == rows[x];
                    if j == wl.len() - 1 {
                        assert(rows[x] == fc);
                        assert(rows.contains(fc));
                        assert(false);
                    }
                    assert(wl0[j] == wl[j]);
                    assert(first_col(wl0[j]) == rows[x]);
                }
                assert forall|x: int| c0.contains(x) implies c1.contains(x) by {
                    let j: int = choose|j: int|
                        0 <= j < wl0.len() && #[trigger] first_col(wl0[j]) == rows[x];
                    assert(wl0[j] == wl[j]);
                    assert(first_col(wl[j]) == rows[x]);
                }
            }
        }
    }
}

/// With distinct rows, every covered row's slot ends up holding a
/// whitelist line whose first column is that row's barcode.
pub proof fn lemma_filled_slots_correct(rows: Seq<Seq<u8>>, wl: Seq<Seq<u8>>)
    requires
        distinct_seqs(rows),
    ensures
        filled_slots(rows, wl).len() == rows.len(),
        forall|i: int|
            covered_rows(rows, wl).contains(i) ==> exists|j: int|
                0 <= j < wl.len() && #[trigger] first_col(wl[j]) == rows[i] && filled_slots(
                    rows,
                    wl,
                )[i] == wl[j],
    decreases wl.len(),
{
    broadcast use vstd::set::group_set_axioms;

    if wl.len() == 0 {
        assert forall|i: int| covered_rows(rows, wl).contains(i) implies false by {
            let j: int = choose|j: int|
                0 <= j < wl.len() && #[trigger] first_col(wl[j]) == rows[i];
        }
    } else {
        let wl0 = wl.drop_last();
        let l = wl.last();
        let fc = first_col(l);
        lemma_filled_slots_correct(rows, wl0);
        let f0 = filled_slots(rows, wl0);
        let f1 = filled_slots(rows, wl);
        rows.index_of_last_ensures(fc);
        assert forall|i: int| covered_rows(rows, wl).contains(i) implies exists|j: int|
            0 <= j < wl.len() && #[trigger] first_col(wl[j]) == rows[i] && f1[i] == wl[j] by {
            match rows.index_of_last(fc) {
                Some(w) => {
                    assert(f1 == f0.update(w, l));
                    if i == w {
                        assert(first_col(wl[wl.len() - 1]) == rows[i]);
                        assert(f1[i] == wl[wl.len() - 1]);
                    } else {
                        let j0: int = choose|j: int|
                            0 <= j < wl.len() && #[trigger] first_col(wl[j]) == rows[i];
                        if j0 == wl.len() - 1 {
                            assert(rows[i] == fc);
                            assert(rows[w] == fc);
                            assert(rows[i] != rows[w]);
                            assert(false);
                        }
                        assert(wl0[j0] == wl[j0]);
                        assert(first_col(wl0[j0]) == rows[i]);
                        assert(covered_rows(rows, wl0).contains(i));
                        let j1: int = choose|j: int|
                            0 <= j < wl0.len() && #[trigger] first_col(wl0[j]) == rows[i]
                                && f0[i] == wl0[j];
                        assert(wl0[j1] == wl[j1]);
                        assert(f1[i] == f0[i]);
                        assert(first_col(wl[j1]) == rows[i] && f1[i] == wl[j1]);
                    }
                },
                None => {
                    assert(f1 == f0);
                    let j0: int = choose|j: int|
                        0 <= j < wl.len() && #[trigger] first_col(wl[j]) == rows[i];
                    if j0 == wl.len() - 1 {
                        assert(rows[i] == fc);
                        assert(rows.contains(fc));
                        assert(false);
                    }
                    assert(wl0[j0] == wl[j0]);
                    assert(covered_rows(rows, wl0).contains(i));
                    let j1: int = choose|j: int|
                        0 <= j < wl0.len() && #[trigger] first_col(wl0[j]) == rows[i] && f0[i]
                            == wl0[j];
                    assert(wl0[j1] == wl[j1]);
                    assert(first_col(wl[j1]) == rows[i] && f1[i] == wl[j1]);
                },
            }
        }
    }
}

/// Reconciliation correctness, success direction: when the rows are
/// distinct, the whitelist's barcodes are distinct, and every row's
/// barcode appears as the first column of some whitelist line, exactly
/// one line is placed per row, so `reconcile_rows` succeeds, and every
/// row's slot holds the whitelist line of that row's barcode.
pub proof fn lemma_reconcile_success(rows: Seq<Seq<u8>>, wl: Seq<Seq<u8>>)
    requires
        distinct_seqs(rows),
        distinct_first_cols(wl),
        forall|i: int|
            0 <= i < rows.len() ==> exists|j: int|
                0 <= j < wl.len() && #[trigger] first_col(wl[j]) == #[trigger] rows[i],
    ensures
        placements(rows, wl) == rows.len(),
        filled_slots(rows, wl).len() == rows.len(),
        forall|i: int|
            0 <= i < rows.len() ==> exists|j: int|
                0 <= j < wl.len() && #[trigger] first_col(wl[j]) == #[trigger] rows[i]
                    && filled_slots(rows, wl)[i] == wl[j],
{
    broadcast use vstd::set::group_set_axioms;

    lemma_placements_card(rows, wl);
    lemma_filled_slots_correct(rows, wl);
    let c = covered_rows(rows, wl);
    assert(c =~= vstd::set_lib::set_int_range(0, rows.len() as int));
    vstd::set_lib::lemma_int_range(0, rows.len() as int);
    assert forall|i: int| 0 <= i < rows.len() implies exists|j: int|
        0 <= j < wl.len() && #[trigger] first_col(wl[j]) == #[trigger] rows[i] && filled_slots(
            rows,
            wl,
        )[i] == wl[j] by {
        assert(c.contains(i));
    }
}

/// Reconciliation correctness, failure direction: when some row's
/// barcode appears in no whitelist line, fewer lines are placed than
/// there are rows, so `reconcile_rows` fails with a data-integrity
/// error.
pub proof fn lemma_reconcile_missing(rows: Seq<Seq<u8>>, wl: Seq<Seq<u8>>, i0: int)
    requires
        distinct_seqs(rows),
        distinct_first_cols(wl),
        0 <= i0 < rows.len(),
        forall|j: int| 0 <= j < wl.len() ==> first_col(#[trigger] wl[j]) != rows[i0],
    ensures
        placements(rows, wl) < rows.len(),
{
    broadcast use vstd::set::group_set_axioms;

    lemma_placements_card(rows, wl);
    let c = covered_rows(rows, wl);
    let full = vstd::set_lib::set_int_range(0, rows.len() as int);
    vstd::set_lib::lemma_int_range(0, rows.len() as int);
    assert(!c.contains(i0)) by {
        if c.contains(i0) {
            let j: int = choose|j: int|
                0 <= j < wl.len() && #[trigger] first_col(wl[j]) == rows[i0];
        }
    }
    assert(c.subset_of(full.remove(i0)));
    assert(full.remove(i0).len() == rows.len() - 1);
    vstd::set_lib::lemma_len_subset(c, full.remove(i0));
}

} // verus!
