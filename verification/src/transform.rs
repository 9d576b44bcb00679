//! Fragment-library transformation: decide whether reads can be fed to
//! the mapper as they are, or must be rewritten through a concurrently
//! fed named pipe, and account for the rewrite's statistics.
//!
//! A geometry descriptor is directly expressible to the mappers when it
//! only lays out barcode, UMI and sequence segments of fixed length (with
//! an unbounded trailing segment). A fixed-sequence segment (marked `f`)
//! or a bounded length range (marked `-`) has no native mapper syntax:
//! such a geometry makes the library rewrite every read pair through the
//! pipe, in the mapper's native layout.

use vstd::prelude::*;
use vstd::string::StringSliceAdditionalSpecFns;

use crate::errors::QuantError;
use crate::text::join_with;
use crate::text::join_with_vec;
use crate::text::str_bytes;

verus! {

/// The mapper families reads can be fed to.
#[derive(Clone, Copy, PartialEq, Eq, Structural, Debug)]
pub enum MapperType {
    Piscem,
    Salmon,
}

/// The marker of a fixed-sequence segment in a geometry descriptor.
pub const FIXED_SEQ_MARKER: u8 = 0x66;

/// The marker of a bounded length range in a geometry descriptor.
pub const RANGE_MARKER: u8 = 0x2d;

/// A geometry that no mapper takes natively: it holds a fixed-sequence
/// segment or a bounded length range.
pub open spec fn geometry_is_complex(g: Seq<u8>) -> bool {
    g.contains(FIXED_SEQ_MARKER) || g.contains(RANGE_MARKER)
}

/// Whether the geometry must be rewritten before mapping.
pub fn geometry_requires_transform(g: &Vec<u8>) -> (r: bool)
    ensures
        r == geometry_is_complex(g@),
{
    let mut i: usize = 0;
    while i < g.len()
        invariant
            i <= g@.len(),
            forall|j: int| 0 <= j < i ==> g@[j] != FIXED_SEQ_MARKER && g@[j] != RANGE_MARKER,
        decreases g@.len() - i,
    {
        if g[i] == FIXED_SEQ_MARKER || g[i] == RANGE_MARKER {
            return true;
        }
        i = i + 1;
    }
    proof {
        if g@.contains(FIXED_SEQ_MARKER) {
            let w: int = choose|w: int| 0 <= w < g@.len() && g@[w] == FIXED_SEQ_MARKER;
            assert(g@[w] != FIXED_SEQ_MARKER);
        }
        if g@.contains(RANGE_MARKER) {
            let w: int = choose|w: int| 0 <= w < g@.len() && g@[w] == RANGE_MARKER;
            assert(g@[w] != RANGE_MARKER);
        }
    }
    false
}

/// An ordered read-pair set: equally many first and second read files.
pub struct FragmentLibrary {
    pub reads1: Vec<Vec<u8>>,
    pub reads2: Vec<Vec<u8>>,
}

impl FragmentLibrary {
    /// Pair up the read file lists; lists of different lengths are an
    /// input-validation error, raised before any external process runs.
    pub fn new(reads1: Vec<Vec<u8>>, reads2: Vec<Vec<u8>>) -> (r: Result<Self, QuantError>)
        ensures
            r is Ok <==> reads1@.len() == reads2@.len(),
            match r {
                Ok(lib) => lib.reads1.deep_view() == reads1.deep_view()
                    && lib.reads2.deep_view() == reads2.deep_view(),
                Err(e) => e is InputValidationError,
            },
    {
        if reads1.len() != reads2.len() {
            Err(
                QuantError::InputValidationError(
                    str_bytes("the read1 and read2 file lists differ in length"),
                ),
            )
        } else {
            Ok(FragmentLibrary { reads1, reads2 })
        }
    }
}

/// The state of a pipe-fed rewrite: where the pipe lives and the parsed
/// layout the worker rewrites by. The worker feeding the pipe is owned
/// by the caller and joined exactly once.
pub struct FifoXFormData {
    pub fifo_path: Vec<u8>,
    pub geom: crate::geometry::GeomSpec,
}

/// Whether the reads go to the mapper as they are, or rewritten through
/// a named pipe.
pub enum FragmentTransformationType {
    Identity,
    TransformedIntoFifo(FifoXFormData),
}

/// The comma of the piscem read-list syntax.
pub const COMMA: u8 = 0x2c;

/// The read and geometry arguments when the reads go in unchanged:
/// piscem takes comma-joined lists, salmon one file per argument.
pub open spec fn spec_direct_read_args(
    mapper: MapperType,
    geometry: Seq<u8>,
    reads1: Seq<Seq<u8>>,
    reads2: Seq<Seq<u8>>,
) -> Seq<Seq<u8>> {
    match mapper {
        MapperType::Piscem => seq![
            "--geometry".spec_bytes(),
            geometry,
            "-1".spec_bytes(),
            join_with(reads1, COMMA),
            "-2".spec_bytes(),
            join_with(reads2, COMMA),
        ],
        MapperType::Salmon => seq!["--read-geometry".spec_bytes(), geometry]
            + seq!["-1".spec_bytes()] + reads1 + seq!["-2".spec_bytes()] + reads2,
    }
}

/// The read and geometry arguments when the reads stream through the
/// pipe: the pipe stands in place of the read-file lists, carrying
/// records already in the mapper's native layout.
pub open spec fn spec_piped_read_args(
    mapper: MapperType,
    geometry: Seq<u8>,
    fifo: Seq<u8>,
) -> Seq<Seq<u8>> {
    match mapper {
        MapperType::Piscem => seq![
            "--geometry".spec_bytes(),
            geometry,
            "-1".spec_bytes(),
            fifo,
        ],
        MapperType::Salmon => seq![
            "--read-geometry".spec_bytes(),
            geometry,
            "-1".spec_bytes(),
            fifo,
        ],
    }
}

/// Decide how the fragment library reaches the mapper and build the read
/// and geometry arguments: unchanged file lists for a directly
/// expressible geometry, the named pipe at `fifo_path` otherwise. A
/// geometry that needs the rewrite but does not parse as a descriptor is
/// a configuration error.
pub fn add_or_transform_fragment_library(
    mapper: MapperType,
    geometry: &Vec<u8>,
    lib: &FragmentLibrary,
    fifo_path: &Vec<u8>,
) -> (res: Result<(FragmentTransformationType, Vec<Vec<u8>>), QuantError>)
    ensures
        match res {
            Ok(r) => {
                &&& !geometry_is_complex(geometry@) ==> r.0 is Identity && r.1.deep_view()
                    == spec_direct_read_args(
                    mapper,
                    geometry@,
                    lib.reads1.deep_view(),
                    lib.reads2.deep_view(),
                )
                &&& geometry_is_complex(geometry@) ==> (r.0 matches
                    FragmentTransformationType::TransformedIntoFifo(d) && d.fifo_path@
                    == fifo_path@ && crate::geometry::spec_parse_geometry(geometry@) == Some(
                    (
                        crate::geometry::models_of(d.geom.read1@),
                        crate::geometry::models_of(d.geom.read2@),
                    ),
                )) && r.1.deep_view() == spec_piped_read_args(mapper, geometry@, fifo_path@)
            },
            Err(e) => e is ConfigurationError && geometry_is_complex(geometry@)
                && crate::geometry::spec_parse_geometry(geometry@) is None,
        },
{
    let mut args: Vec<Vec<u8>> = Vec::new();
    match mapper {
        MapperType::Piscem => {
            args.push(str_bytes("--geometry"));
        },
        MapperType::Salmon => {
            args.push(str_bytes("--read-geometry"));
        },
    }
    args.push(geometry.clone());
    if geometry_requires_transform(geometry) {
        let geom = match crate::geometry::parse_geometry(geometry) {
            Some(g) => g,
            None => {
                return Err(
                    QuantError::ConfigurationError(
                        str_bytes("the fragment geometry descriptor could not be parsed"),
                    ),
                );
            },
        };
        args.push(str_bytes("-1"));
        args.push(fifo_path.clone());
        proof {
            assert(args.deep_view() =~~= spec_piped_read_args(mapper, geometry@, fifo_path@));
        }
        Ok(
            (
                FragmentTransformationType::TransformedIntoFifo(
                    FifoXFormData { fifo_path: fifo_path.clone(), geom },
                ),
                args,
            ),
        )
    } else {
        match mapper {
            MapperType::Piscem => {
                args.push(str_bytes("-1"));
                args.push(join_with_vec(&lib.reads1, COMMA));
                args.push(str_bytes("-2"));
                args.push(join_with_vec(&lib.reads2, COMMA));
                proof {
                    assert(args.deep_view() =~~= spec_direct_read_args(
                        mapper,
                        geometry@,
                        lib.reads1.deep_view(),
                        lib.reads2.deep_view(),
                    ));
                }
            },
            MapperType::Salmon => {
                proof {
                    assert(args.deep_view() =~~= seq![
                        "--read-geometry".spec_bytes(),
                        geometry@,
                    ]);
                }
                args.push(str_bytes("-1"));
                let ghost before_r1 = args.deep_view();
                push_all(&mut args, &lib.reads1);
                proof {
                    assert(before_r1 =~~= seq![
                        "--read-geometry".spec_bytes(),
                        geometry@,
                        "-1".spec_bytes(),
                    ]);
                }
                args.push(str_bytes("-2"));
                let ghost before_r2 = args.deep_view();
                push_all(&mut args, &lib.reads2);
                proof {
                    assert(before_r2 =~~= (before_r1 + lib.reads1.deep_view()).push(
                        "-2".spec_bytes(),
                    ));
                    assert(before_r2 =~~= seq!["--read-geometry".spec_bytes(), geometry@]
                        + seq!["-1".spec_bytes()] + lib.reads1.deep_view() + seq![
                        "-2".spec_bytes(),
                    ]);
                    assert(args.deep_view() =~~= spec_direct_read_args(
                        mapper,
                        geometry@,
                        lib.reads1.deep_view(),
                        lib.reads2.deep_view(),
                    ));
                }
            },
        }
        Ok((FragmentTransformationType::Identity, args))
    }
}

/// Append copies of all given byte strings.
pub fn push_all(args: &mut Vec<Vec<u8>>, items: &Vec<Vec<u8>>)
    ensures
        final(args).deep_view() == old(args).deep_view() + items.deep_view(),
{
    let ghost base = old(args).deep_view();
    proof {
        assert(base + items.deep_view().take(0) =~= base);
    }
    let mut i: usize = 0;
    while i < items.len()
        invariant
            i <= items@.len(),
            items@.len() == items.deep_view().len(),
            args.deep_view() == base + items.deep_view().take(i as int),
            base == old(args).deep_view(),
        decreases items@.len() - i,
    {
        let ghost prev = args.deep_view();
        args.push(items[i].clone());
        proof {
            assert(items.deep_view()[i as int] =~= items@[i as int]@);
            assert(args.deep_view() =~~= prev.push(items.deep_view()[i as int]));
            assert(items.deep_view().take(i + 1).drop_last() =~= items.deep_view().take(
                i as int,
            ));
            assert(items.deep_view().take(i + 1) =~= items.deep_view().take(i as int).push(
                items.deep_view()[i as int],
            ));
            assert(args.deep_view() =~= base + items.deep_view().take(i + 1));
        }
        i = i + 1;
    }
    proof {
        assert(items.deep_view().take(items@.len() as int) =~= items.deep_view());
    }
}

/// Aggregate statistics of one pipe-fed rewrite.
#[derive(Clone, Copy, PartialEq, Eq, Structural, Debug)]
pub struct FragmentTransformStats {
    pub total_fragments: u64,
    pub failed_parsing: u64,
}

/// The statistics invariant: fragments that failed to parse are among
/// the observed ones. A nonzero failure count never fails the pipeline
/// by itself; it is a warning-level statistic.
pub open spec fn stats_wf(s: FragmentTransformStats) -> bool {
    s.failed_parsing <= s.total_fragments
}

/// One observed fragment added to the statistics.
pub open spec fn spec_record(s: FragmentTransformStats, parsed_ok: bool) -> FragmentTransformStats {
    FragmentTransformStats {
        total_fragments: (s.total_fragments + 1) as u64,
        failed_parsing: if parsed_ok {
            s.failed_parsing
        } else {
            (s.failed_parsing + 1) as u64
        },
    }
}

/// Recording an outcome preserves the statistics invariant, so it holds
/// of every run of the transform worker.
pub proof fn lemma_stats_invariant_preserved(s: FragmentTransformStats, parsed_ok: bool)
    requires
        stats_wf(s),
        s.total_fragments < u64::MAX,
    ensures
        stats_wf(spec_record(s, parsed_ok)),
{
}

impl FragmentTransformStats {
    /// No fragments observed yet.
    pub fn new() -> (r: Self)
        ensures
            r.total_fragments == 0,
            r.failed_parsing == 0,
            stats_wf(r),
    {
        FragmentTransformStats { total_fragments: 0, failed_parsing: 0 }
    }

    /// Record one observed fragment and whether it parsed.
    pub fn record(&mut self, parsed_ok: bool)
        requires
            stats_wf(*old(self)),
            old(self).total_fragments < u64::MAX,
        ensures
            *final(self) == spec_record(*old(self), parsed_ok),
            stats_wf(*final(self)),
    {
        self.total_fragments = self.total_fragments + 1;
        if !parsed_ok {
            self.failed_parsing = self.failed_parsing + 1;
        }
    }
}

/// Interpret the worker's join outcome: statistics when it completed, a
/// concurrency failure when it panicked or aborted — never silently
/// swallowed, and distinct from a nonzero parse-failure count.
pub fn finish_transform(outcome: Option<FragmentTransformStats>) -> (r: Result<
    FragmentTransformStats,
    QuantError,
>)
    ensures
        match r {
            Ok(s) => outcome == Some(s),
            Err(e) => outcome is None && e is ConcurrencyFailure,
        },
{
    match outcome {
        Some(s) => Ok(s),
        None => Err(
            QuantError::ConcurrencyFailure(
                str_bytes("the fragment-transform worker panicked or aborted"),
            ),
        ),
    }
}

} // verus!
