//! The fragment-geometry descriptor language and the per-record rewrite.
//!
//! A descriptor lays out both reads of a pair as `1{...}2{...}`, each
//! braced part a run of segments: `b[n]`, `u[n]`, `r[n]` and `x[n]` take
//! the next `n` bases as barcode, UMI, sequence or nothing; `b:`, `u:`,
//! `r:` and `x:` take the whole rest of the read and close the run;
//! `f[SEQ]` anchors a fixed base sequence that must appear verbatim.
//! Segment lengths carry at most nine digits.
//!
//! The rewrite extracts the segments of both reads and emits the
//! mapper's native pair: the barcodes then the UMIs as the first read,
//! the sequence parts as the second. A read too short for its fixed
//! segments, or an anchor that does not match, fails to parse.

use vstd::prelude::*;

use crate::progs::lemma_parse_decimal_bound;
use crate::progs::lemma_pow10_le_9;
use crate::progs::parse_decimal;
use crate::progs::parse_decimal_range;
use crate::text::copy_range;
use crate::text::find_byte;
use crate::transform::FIXED_SEQ_MARKER;

verus! {

/// What a segment's bases become.
#[derive(Clone, Copy, PartialEq, Eq, Structural, Debug)]
pub enum SegKind {
    Barcode,
    Umi,
    ReadSeq,
    Discard,
}

/// One segment of a read's layout.
pub enum GeomSegment {
    Fixed(SegKind, usize),
    Tail(SegKind),
    Anchor(Vec<u8>),
}

/// The mathematical form of a segment.
pub enum SegModel {
    Fixed(SegKind, int),
    Tail(SegKind),
    Anchor(Seq<u8>),
}

impl GeomSegment {
    /// The segment as the specifications see it.
    pub open spec fn model(self) -> SegModel {
        match self {
            GeomSegment::Fixed(k, n) => SegModel::Fixed(k, n as int),
            GeomSegment::Tail(k) => SegModel::Tail(k),
            GeomSegment::Anchor(a) => SegModel::Anchor(a@),
        }
    }
}

/// The segments as the specifications see them.
pub open spec fn models_of(v: Seq<GeomSegment>) -> Seq<SegModel> {
    Seq::new(v.len(), |i: int| v[i].model())
}

/// The layout of one read pair.
pub struct GeomSpec {
    pub read1: Vec<GeomSegment>,
    pub read2: Vec<GeomSegment>,
}

/// The segment kind of a kind byte.
pub open spec fn kind_of(b: u8) -> Option<SegKind> {
    if b == 0x62 {
        Some(SegKind::Barcode)
    } else if b == 0x75 {
        Some(SegKind::Umi)
    } else if b == 0x72 {
        Some(SegKind::ReadSeq)
    } else if b == 0x78 {
        Some(SegKind::Discard)
    } else {
        None
    }
}

/// The kind byte of a segment.
fn kind_of_exec(b: u8) -> (r: Option<SegKind>)
    ensures
        r == kind_of(b),
{
    if b == 0x62 {
        Some(SegKind::Barcode)
    } else if b == 0x75 {
        Some(SegKind::Umi)
    } else if b == 0x72 {
        Some(SegKind::ReadSeq)
    } else if b == 0x78 {
        Some(SegKind::Discard)
    } else {
        None
    }
}

/// A base an anchor may hold.
pub open spec fn is_base(b: u8) -> bool {
    b == 0x41 || b == 0x43 || b == 0x47 || b == 0x54
}

/// All bytes are bases.
pub open spec fn all_bases(s: Seq<u8>) -> bool {
    forall|i: int| 0 <= i < s.len() ==> is_base(#[trigger] s[i])
}

/// The closing colon of a tail segment.
pub const COLON: u8 = 0x3a;

/// The brackets of a sized segment.
pub const LBRACKET: u8 = 0x5b;

/// The closing bracket of a sized segment.
pub const RBRACKET: u8 = 0x5d;

/// The braces of a read's part of the descriptor.
pub const LBRACE: u8 = 0x7b;

/// The closing brace of a read's part of the descriptor.
pub const RBRACE: u8 = 0x7d;

/// The segments of one braced run, or `None` when the text is not a
/// well-formed run.
pub open spec fn parse_segments(s: Seq<u8>) -> Option<Seq<SegModel>>
    decreases s.len(),
{
    if s.len() == 0 {
        Some(Seq::empty())
    } else if s.len() < 2 {
        None
    } else if s[1] == COLON {
        match kind_of(s[0]) {
            Some(k) => if s.len() == 2 {
                Some(seq![SegModel::Tail(k)])
            } else {
                None
            },
            None => None,
        }
    } else if s[1] == LBRACKET {
        match s.skip(2).index_of_first(RBRACKET) {
            Some(j) => if 0 <= j < s.len() - 2 {
                let body = s.skip(2).take(j);
                if s[0] == FIXED_SEQ_MARKER {
                    if body.len() > 0 && all_bases(body) {
                        match parse_segments(s.skip(j + 3)) {
                            Some(t) => Some(seq![SegModel::Anchor(body)] + t),
                            None => None,
                        }
                    } else {
                        None
                    }
                } else {
                    match kind_of(s[0]) {
                        Some(k) => if 0 < body.len() <= 9 {
                            match parse_decimal(body) {
                                Some(n) => if n > 0 {
                                    match parse_segments(s.skip(j + 3)) {
                                        Some(t) => Some(seq![SegModel::Fixed(k, n as int)] + t),
                                        None => None,
                                    }
                                } else {
                                    None
                                },
                                None => None,
                            }
                        } else {
                            None
                        },
                        None => None,
                    }
                }
            } else {
                None
            },
            None => None,
        }
    } else {
        None
    }
}

/// Check that a byte range holds only bases.
fn all_bases_range(s: &Vec<u8>, start: usize, end: usize) -> (r: bool)
    requires
        start <= end <= s@.len(),
    ensures
        r == all_bases(s@.subrange(start as int, end as int)),
{
    let ghost body = s@.subrange(start as int, end as int);
    let mut k: usize = start;
    while k < end
        invariant
            start <= k <= end <= s@.len(),
            body == s@.subrange(start as int, end as int),
            forall|i: int| 0 <= i < k - start ==> is_base(#[trigger] body[i]),
        decreases end - k,
    {
        let b = s[k];
        if !(b == 0x41 || b == 0x43 || b == 0x47 || b == 0x54) {
            proof {
                assert(body[k - start] == s@[k as int]);
            }
            return false;
        }
        k = k + 1;
    }
    true
}

/// Parse one braced run of segments, from the given position to the end
/// of the text.
pub fn parse_segments_exec(s: &Vec<u8>, from: usize) -> (r: Option<Vec<GeomSegment>>)
    requires
        from <= s@.len(),
    ensures
        match r {
            Some(v) => parse_segments(s@.skip(from as int)) == Some(models_of(v@)),
            None => parse_segments(s@.skip(from as int)) is None,
        },
    decreases s@.len() - from,
{
    let ghost t = s@.skip(from as int);
    proof {
        assert(s.len() == s@.len());
    }
    if s.len() - from == 0 {
        let v: Vec<GeomSegment> = Vec::new();
        proof {
            assert(models_of(v@) =~= Seq::<SegModel>::empty());
        }
        return Some(v);
    }
    if s.len() - from < 2 {
        return None;
    }
    let k0 = s[from];
    let k1 = s[from + 1];
    proof {
        assert(t[0] == s@[from as int]);
        assert(t[1] == s@[from as int + 1]);
    }
    if k1 == COLON {
        match kind_of_exec(k0) {
            Some(k) => {
                if s.len() - from == 2 {
                    let mut v: Vec<GeomSegment> = Vec::new();
                    v.push(GeomSegment::Tail(k));
                    proof {
                        assert(models_of(v@) =~= seq![SegModel::Tail(k)]);
                    }
                    Some(v)
                } else {
                    None
                }
            },
            None => None,
        }
    } else if k1 == LBRACKET {
        let j_abs = match find_byte(s, from + 2, RBRACKET) {
            Some(j) => j,
            None => {
                proof {
                    assert(t.skip(2) =~= s@.skip(from as int + 2));
                }
                return None;
            },
        };
        proof {
            assert(t.skip(2) =~= s@.skip(from as int + 2));
            assert(t.skip(2).index_of_first(RBRACKET) == Some(j_abs - from - 2));
            assert(t.skip(2).take(j_abs - from - 2) =~= s@.subrange(from as int + 2, j_abs as int));
            assert(t.skip(j_abs - from + 1) =~= s@.skip(j_abs as int + 1));
        }
        if k0 == FIXED_SEQ_MARKER {
            if j_abs - (from + 2) == 0 {
                return None;
            }
            if !all_bases_range(s, from + 2, j_abs) {
                return None;
            }
            let anchor = copy_range(s, from + 2, j_abs);
            let rest = match parse_segments_exec(s, j_abs + 1) {
                Some(v) => v,
                None => {
                    return None;
                },
            };
            let ghost rest_view = rest@;
            let mut v: Vec<GeomSegment> = Vec::new();
            v.push(GeomSegment::Anchor(anchor));
            let mut rest = rest;
            v.append(&mut rest);
            proof {
                assert(models_of(v@) =~= seq![
                    SegModel::Anchor(s@.subrange(from as int + 2, j_abs as int)),
                ] + models_of(rest_view));
            }
            Some(v)
        } else {
            let k = match kind_of_exec(k0) {
                Some(k) => k,
                None => {
                    return None;
                },
            };
            let body_len = j_abs - (from + 2);
            if body_len == 0 || body_len > 9 {
                return None;
            }
            let n = match parse_decimal_range(s, from + 2, j_abs) {
                Some(n) => n,
                None => {
                    return None;
                },
            };
            if n == 0 {
                return None;
            }
            proof {
                lemma_parse_decimal_bound(s@.subrange(from as int + 2, j_abs as int));
                lemma_pow10_le_9(body_len as nat);
            }
            let rest = match parse_segments_exec(s, j_abs + 1) {
                Some(v) => v,
                None => {
                    return None;
                },
            };
            let ghost rest_view = rest@;
            let mut v: Vec<GeomSegment> = Vec::new();
            v.push(GeomSegment::Fixed(k, n as usize));
            let mut rest = rest;
            v.append(&mut rest);
            proof {
                assert(models_of(v@) =~= seq![SegModel::Fixed(k, n as int)] + models_of(
                    rest_view,
                ));
            }
            Some(v)
        }
    } else {
        None
    }
}

/// The two braced segment runs of a descriptor, or `None` when the text
/// is not of the shape `1{...}2{...}`.
pub open spec fn spec_parse_geometry(s: Seq<u8>) -> Option<(Seq<SegModel>, Seq<SegModel>)> {
    if s.len() >= 4 && s[0] == 0x31 && s[1] == LBRACE {
        match s.index_of_first(RBRACE) {
            Some(i) => if 2 <= i && i + 3 < s.len() && s[i + 1] == 0x32 && s[i + 2] == LBRACE
                && s.last() == RBRACE && !s.subrange(i + 3, s.len() - 1).contains(RBRACE) {
                match (parse_segments(s.subrange(2, i)), parse_segments(
                    s.subrange(i + 3, s.len() - 1),
                )) {
                    (Some(a), Some(b)) => Some((a, b)),
                    _ => None,
                }
            } else {
                None
            },
            None => None,
        }
    } else {
        None
    }
}

/// Parse a whole descriptor.
pub fn parse_geometry(s: &Vec<u8>) -> (r: Option<GeomSpec>)
    ensures
        match r {
            Some(g) => spec_parse_geometry(s@) == Some(
                (models_of(g.read1@), models_of(g.read2@)),
            ),
            None => spec_parse_geometry(s@) is None,
        },
{
    proof {
        assert(s.len() == s@.len());
    }
    if s.len() < 4 {
        return None;
    }
    if !(s[0] == 0x31 && s[1] == LBRACE) {
        return None;
    }
    let i = match find_byte(s, 0, RBRACE) {
        Some(i) => i,
        None => {
            proof {
                assert(s@.skip(0) =~= s@);
            }
            return None;
        },
    };
    proof {
        assert(s@.skip(0) =~= s@);
    }
    if !(2 <= i && s.len() - i > 3 && s[i + 1] == 0x32 && s[i + 2] == LBRACE && s[s.len() - 1]
        == RBRACE) {
        return None;
    }
    match find_byte(s, i + 3, RBRACE) {
        Some(j) => {
            proof {
                let mid = s@.subrange(i + 3, s@.len() - 1);
                s@.skip(i + 3).index_of_first_ensures(RBRACE);
                assert(s@.skip(i + 3).index_of_first(RBRACE) == Some(j - i - 3));
                assert(s@.skip(i + 3)[j - i - 3] == RBRACE);
                if j < s.len() - 1 {
                    assert(mid[j - i - 3] == s@[j as int]);
                    assert(mid.contains(RBRACE));
                }
                if mid.contains(RBRACE) {
                    let w: int = choose|w: int| 0 <= w < mid.len() && mid[w] == RBRACE;
                    assert(mid[w] == s@[w + i + 3]);
                    assert(s@.skip(i + 3)[w] == s@[w + i + 3]);
                    s@.skip(i + 3).index_of_first_ensures(RBRACE);
                    assert(j - i - 3 <= w);
                }
            }
            if j != s.len() - 1 {
                return None;
            }
        },
        None => {
            proof {
                let mid = s@.subrange(i + 3, s@.len() - 1);
                assert(s@[s@.len() - 1] == RBRACE);
                assert(s@.skip(i + 3)[s@.len() - 1 - i - 3] == RBRACE);
                assert(s@.skip(i + 3).contains(RBRACE));
                s@.skip(i + 3).index_of_first_ensures(RBRACE);
            }
            return None;
        },
    }
    proof {
        let mid = s@.subrange(i + 3, s@.len() - 1);
        if mid.contains(RBRACE) {
            let w: int = choose|w: int| 0 <= w < mid.len() && mid[w] == RBRACE;
            assert(s@.skip(i + 3)[w] == RBRACE);
            s@.skip(i + 3).index_of_first_ensures(RBRACE);
            assert(mid[w] == s@[w + i + 3]);
        }
        assert(!s@.subrange(i + 3, s@.len() - 1).contains(RBRACE));
    }
    let read1 = match parse_segments_range(s, 2, i) {
        Some(v) => v,
        None => {
            return None;
        },
    };
    let read2 = match parse_segments_range(s, i + 3, s.len() - 1) {
        Some(v) => v,
        None => {
            return None;
        },
    };
    Some(GeomSpec { read1, read2 })
}

/// Extend one part of an extraction by a segment's bases.
pub open spec fn add_part(k: SegKind, piece: Seq<u8>, t: (Seq<u8>, Seq<u8>, Seq<u8>)) -> (
    Seq<u8>,
    Seq<u8>,
    Seq<u8>,
) {
    match k {
        SegKind::Barcode => (piece + t.0, t.1, t.2),
        SegKind::Umi => (t.0, piece + t.1, t.2),
        SegKind::ReadSeq => (t.0, t.1, piece + t.2),
        SegKind::Discard => t,
    }
}

/// Extract the barcode, UMI and sequence parts of one read, following
/// its segments in order. A read too short for a sized segment, or an
/// anchor that does not match, fails; bases past the last segment are
/// ignored.
pub open spec fn apply_segments(segs: Seq<SegModel>, read: Seq<u8>) -> Option<
    (Seq<u8>, Seq<u8>, Seq<u8>),
>
    decreases segs.len(),
{
    if segs.len() == 0 {
        Some((Seq::empty(), Seq::empty(), Seq::empty()))
    } else {
        match segs[0] {
            SegModel::Fixed(k, n) => if 0 <= n <= read.len() {
                match apply_segments(segs.skip(1), read.skip(n)) {
                    Some(t) => Some(add_part(k, read.take(n), t)),
                    None => None,
                }
            } else {
                None
            },
            SegModel::Tail(k) => if segs.len() == 1 {
                Some(add_part(k, read, (Seq::empty(), Seq::empty(), Seq::empty())))
            } else {
                None
            },
            SegModel::Anchor(a) => if a.len() <= read.len() && read.take(a.len() as int) == a {
                apply_segments(segs.skip(1), read.skip(a.len() as int))
            } else {
                None
            },
        }
    }
}

/// Extract a read's parts, from the given segment and position on.
fn apply_segments_exec(segs: &Vec<GeomSegment>, idx: usize, read: &Vec<u8>, pos: usize) -> (r:
    Option<(Vec<u8>, Vec<u8>, Vec<u8>)>)
    requires
        idx <= segs@.len(),
        pos <= read@.len(),
    ensures
        match r {
            Some(t) => apply_segments(models_of(segs@).skip(idx as int), read@.skip(pos as int))
                == Some((t.0@, t.1@, t.2@)),
            None => apply_segments(models_of(segs@).skip(idx as int), read@.skip(pos as int))
                is None,
        },
    decreases segs@.len() - idx,
{
    let ghost ms = models_of(segs@).skip(idx as int);
    let ghost rd = read@.skip(pos as int);
    proof {
        assert(segs.len() == segs@.len());
        assert(read.len() == read@.len());
    }
    if idx == segs.len() {
        proof {
            assert(ms =~= Seq::<SegModel>::empty());
        }
        let empty: (Vec<u8>, Vec<u8>, Vec<u8>) = (Vec::new(), Vec::new(), Vec::new());
        return Some(empty);
    }
    proof {
        assert(ms[0] == segs@[idx as int].model());
        assert(ms.skip(1) =~= models_of(segs@).skip(idx as int + 1));
    }
    match &segs[idx] {
        GeomSegment::Fixed(k, n) => {
            let n = *n;
            if read.len() - pos < n {
                return None;
            }
            proof {
                assert(rd.skip(n as int) =~= read@.skip(pos as int + n as int));
                assert(rd.take(n as int) =~= read@.subrange(pos as int, pos as int + n as int));
            }
            let rest = match apply_segments_exec(segs, idx + 1, read, pos + n) {
                Some(t) => t,
                None => {
                    return None;
                },
            };
            let piece = copy_range(read, pos, pos + n);
            Some(prepend_part(*k, piece, rest))
        },
        GeomSegment::Tail(k) => {
            if idx != segs.len() - 1 {
                return None;
            }
            proof {
                assert(rd =~= read@.subrange(pos as int, read@.len() as int));
            }
            let piece = copy_range(read, pos, read.len());
            let empty: (Vec<u8>, Vec<u8>, Vec<u8>) = (Vec::new(), Vec::new(), Vec::new());
            Some(prepend_part(*k, piece, empty))
        },
        GeomSegment::Anchor(a) => {
            if read.len() - pos < a.len() {
                return None;
            }
            let ahead = copy_range(read, pos, pos + a.len());
            proof {
                assert(rd.take(a@.len() as int) =~= read@.subrange(
                    pos as int,
                    pos as int + a@.len(),
                ));
            }
            if !crate::text::bytes_equal(&ahead, a) {
                return None;
            }
            proof {
                assert(rd.skip(a@.len() as int) =~= read@.skip(pos as int + a@.len()));
            }
            apply_segments_exec(segs, idx + 1, read, pos + a.len())
        },
    }
}

/// Prepend a segment's bases to the part its kind selects.
fn prepend_part(k: SegKind, piece: Vec<u8>, t: (Vec<u8>, Vec<u8>, Vec<u8>)) -> (r: (
    Vec<u8>,
    Vec<u8>,
    Vec<u8>,
))
    ensures
        (r.0@, r.1@, r.2@) == add_part(k, piece@, (t.0@, t.1@, t.2@)),
{
    let (mut bc, mut umi, mut rs) = t;
    match k {
        SegKind::Barcode => {
            let mut piece = piece;
            let ghost pv = piece@;
            let ghost bv = bc@;
            piece.append(&mut bc);
            proof {
                assert(piece@ == pv + bv);
            }
            (piece, umi, rs)
        },
        SegKind::Umi => {
            let mut piece = piece;
            piece.append(&mut umi);
            (bc, piece, rs)
        },
        SegKind::ReadSeq => {
            let mut piece = piece;
            piece.append(&mut rs);
            (bc, umi, piece)
        },
        SegKind::Discard => (bc, umi, rs),
    }
}

/// The rewritten pair: both reads' barcodes then both reads' UMIs as the
/// first read, both reads' sequence parts as the second; `None` when
/// either read fails its layout.
pub open spec fn spec_transform_record(
    m1: Seq<SegModel>,
    m2: Seq<SegModel>,
    r1: Seq<u8>,
    r2: Seq<u8>,
) -> Option<(Seq<u8>, Seq<u8>)> {
    match (apply_segments(m1, r1), apply_segments(m2, r2)) {
        (Some(a), Some(b)) => Some(((a.0 + b.0) + (a.1 + b.1), a.2 + b.2)),
        _ => None,
    }
}

/// Rewrite one read pair into the mapper's native layout.
pub fn transform_record(geom: &GeomSpec, r1: &Vec<u8>, r2: &Vec<u8>) -> (r: Option<
    (Vec<u8>, Vec<u8>),
>)
    ensures
        match r {
            Some(t) => spec_transform_record(
                models_of(geom.read1@),
                models_of(geom.read2@),
                r1@,
                r2@,
            ) == Some((t.0@, t.1@)),
            None => spec_transform_record(
                models_of(geom.read1@),
                models_of(geom.read2@),
                r1@,
                r2@,
            ) is None,
        },
{
    proof {
        assert(models_of(geom.read1@).skip(0) =~= models_of(geom.read1@));
        assert(models_of(geom.read2@).skip(0) =~= models_of(geom.read2@));
        assert(r1@.skip(0) =~= r1@);
        assert(r2@.skip(0) =~= r2@);
    }
    let a = match apply_segments_exec(&geom.read1, 0, r1, 0) {
        Some(t) => t,
        None => {
            return None;
        },
    };
    let b = match apply_segments_exec(&geom.read2, 0, r2, 0) {
        Some(t) => t,
        None => {
            return None;
        },
    };
    let (mut bc, mut umi, mut rs) = a;
    let (mut bc2, mut umi2, mut rs2) = b;
    bc.append(&mut bc2);
    umi.append(&mut umi2);
    rs.append(&mut rs2);
    let mut first = bc;
    first.append(&mut umi);
    Some((first, rs))
}

/// Parse one braced run lifted out of the descriptor.
fn parse_segments_range(s: &Vec<u8>, start: usize, end: usize) -> (r: Option<Vec<GeomSegment>>)
    requires
        start <= end <= s@.len(),
    ensures
        match r {
            Some(v) => parse_segments(s@.subrange(start as int, end as int)) == Some(
                models_of(v@),
            ),
            None => parse_segments(s@.subrange(start as int, end as int)) is None,
        },
{
    let part = copy_range(s, start, end);
    proof {
        assert(part@.skip(0) =~= part@);
    }
    parse_segments_exec(&part, 0)
}

} // verus!
