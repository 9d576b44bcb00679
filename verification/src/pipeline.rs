//! The sequential pipeline: cell-filter selection, stage argument
//! construction, and the four-stage orchestration with precondition
//! checks, timing and failure propagation.

use vstd::prelude::*;
use vstd::string::StringSliceAdditionalSpecFns;

use crate::errors::QuantError;
use crate::errors::Stage;
use crate::opts::MapQuantOpts;
use crate::text::dec_repr;
use crate::text::fmt_u64;
use crate::text::join_with;
use crate::text::join_with_vec;
use crate::text::str_bytes;

verus! {

/// Clamp a requested thread count to the detected available parallelism.
///
/// Returns the effective thread count together with a flag that is true
/// exactly when the request exceeded the detected maximum (the caller is
/// expected to emit a warning in that case). When the available
/// parallelism could not be detected, the request is used as given.
/// The request is never failed for being too large.
pub fn clamp_threads(requested: u32, detected_max: Option<u32>) -> (r: (u32, bool))
    ensures
        match detected_max {
            Some(m) => r.0 == if requested > m {
                m
            } else {
                requested
            } && r.1 == (requested > m),
            None => r.0 == requested && !r.1,
        },
{
    match detected_max {
        Some(m) => {
            if requested > m {
                (m, true)
            } else {
                (requested, false)
            }
        },
        None => (requested, false),
    }
}

/// The cell-filtering policy handed to the permit-list generator.
pub enum CellFilterMethod {
    UnfilteredExternalList(Vec<u8>, usize),
    ExplicitList(Vec<u8>),
    ForceCells(usize),
    ExpectCells(usize),
    KneeFinding,
}

/// The arguments a filtering policy contributes to the permit-list
/// generator's command line.
pub open spec fn spec_filter_args(f: CellFilterMethod) -> Seq<Seq<u8>> {
    match f {
        CellFilterMethod::UnfilteredExternalList(p, n) => seq![
            "--unfiltered-pl".spec_bytes(),
            p@,
            "--min-reads".spec_bytes(),
            dec_repr(n as nat),
        ],
        CellFilterMethod::ExplicitList(p) => seq!["--valid-bc".spec_bytes(), p@],
        CellFilterMethod::ForceCells(n) => seq![
            "--force-cells".spec_bytes(),
            dec_repr(n as nat),
        ],
        CellFilterMethod::ExpectCells(n) => seq![
            "--expect-cells".spec_bytes(),
            dec_repr(n as nat),
        ],
        CellFilterMethod::KneeFinding => seq!["--knee-distance".spec_bytes()],
    }
}

impl CellFilterMethod {
    /// Build the policy's command-line arguments.
    pub fn filter_args(&self) -> (r: Vec<Vec<u8>>)
        ensures
            r.deep_view() == spec_filter_args(*self),
    {
        let mut r: Vec<Vec<u8>> = Vec::new();
        match self {
            CellFilterMethod::UnfilteredExternalList(p, n) => {
                r.push(str_bytes("--unfiltered-pl"));
                r.push(p.clone());
                r.push(str_bytes("--min-reads"));
                r.push(fmt_u64(*n as u64));
            },
            CellFilterMethod::ExplicitList(p) => {
                r.push(str_bytes("--valid-bc"));
                r.push(p.clone());
            },
            CellFilterMethod::ForceCells(n) => {
                r.push(str_bytes("--force-cells"));
                r.push(fmt_u64(*n as u64));
            },
            CellFilterMethod::ExpectCells(n) => {
                r.push(str_bytes("--expect-cells"));
                r.push(fmt_u64(*n as u64));
            },
            CellFilterMethod::KneeFinding => {
                r.push(str_bytes("--knee-distance"));
            },
        }
        proof {
            assert(r.deep_view() =~~= spec_filter_args(*self));
        }
        r
    }
}

/// Which permit list, if any, feeds the canonicalization step.
pub enum PermitListSource {
    Unfiltered(Vec<u8>),
    UnfilteredBuiltin,
    Explicit(Vec<u8>),
}

/// Which filtering policy the permit-list generator runs with; the list
/// paths are filled in after canonicalization.
#[derive(Clone, Copy, PartialEq, Eq, Structural, Debug)]
pub enum FilterSelection {
    UnfilteredList,
    ExplicitList,
    ForceCells(usize),
    ExpectCells(usize),
    KneeFinding,
}

/// The decided filtering strategy of one run.
pub struct FilterPlan {
    pub permit_source: Option<PermitListSource>,
    pub selection: FilterSelection,
}

/// Two of the explicit-list and cell-count options at once contradict
/// each other; rejecting the combination is safer than letting one
/// silently win.
pub open spec fn filter_conflict(opts: MapQuantOpts) -> bool {
    opts.unfiltered_pl is None && (if opts.explicit_pl is Some {
        1int
    } else {
        0int
    }) + (if opts.forced_cells is Some {
        1int
    } else {
        0int
    }) + (if opts.expect_cells is Some {
        1int
    } else {
        0int
    }) >= 2
}

/// At least one filtering strategy was requested.
pub open spec fn some_filter_given(opts: MapQuantOpts) -> bool {
    opts.knee || opts.unfiltered_pl is Some || opts.explicit_pl is Some || opts.forced_cells
        is Some || opts.expect_cells is Some
}

/// The selected policy: knee finding overrides everything; an
/// unfiltered list wins over the explicit-list and cell-count options.
pub open spec fn spec_selection(opts: MapQuantOpts) -> FilterSelection {
    if opts.knee {
        FilterSelection::KneeFinding
    } else if opts.unfiltered_pl is Some {
        FilterSelection::UnfilteredList
    } else if opts.explicit_pl is Some {
        FilterSelection::ExplicitList
    } else if opts.forced_cells is Some {
        FilterSelection::ForceCells(opts.forced_cells.unwrap())
    } else {
        FilterSelection::ExpectCells(opts.expect_cells.unwrap())
    }
}

/// Decide the filtering strategy from the options.
///
/// A conflict among the explicit-list and cell-count options, or the
/// absence of any strategy, is a configuration error.
pub fn cell_filter_plan(opts: &MapQuantOpts) -> (r: Result<FilterPlan, QuantError>)
    ensures
        r is Ok <==> !filter_conflict(*opts) && some_filter_given(*opts),
        match r {
            Ok(plan) => {
                &&& plan.selection == spec_selection(*opts)
                &&& match opts.unfiltered_pl {
                    Some(inner) => match inner {
                        Some(p) => plan.permit_source matches Some(
                            PermitListSource::Unfiltered(q),
                        ) && q@ == p@,
                        None => plan.permit_source matches Some(
                            PermitListSource::UnfilteredBuiltin,
                        ),
                    },
                    None => match opts.explicit_pl {
                        Some(p) => plan.permit_source matches Some(PermitListSource::Explicit(q))
                            && q@ == p@,
                        None => plan.permit_source is None,
                    },
                }
            },
            Err(e) => e is ConfigurationError,
        },
{
    let permit_source = match &opts.unfiltered_pl {
        Some(inner) => match inner {
            Some(p) => Some(PermitListSource::Unfiltered(p.clone())),
            None => Some(PermitListSource::UnfilteredBuiltin),
        },
        None => {
            let mut given: u32 = 0;
            if opts.explicit_pl.is_some() {
                given = given + 1;
            }
            if opts.forced_cells.is_some() {
                given = given + 1;
            }
            if opts.expect_cells.is_some() {
                given = given + 1;
            }
            if given >= 2 {
                return Err(
                    QuantError::ConfigurationError(
                        str_bytes(
                            "an explicit permit list and a cell-count policy cannot be combined",
                        ),
                    ),
                );
            }
            match &opts.explicit_pl {
                Some(p) => Some(PermitListSource::Explicit(p.clone())),
                None => None,
            }
        },
    };
    let selection = if opts.knee {
        FilterSelection::KneeFinding
    } else if opts.unfiltered_pl.is_some() {
        FilterSelection::UnfilteredList
    } else if opts.explicit_pl.is_some() {
        FilterSelection::ExplicitList
    } else if let Some(n) = opts.forced_cells {
        FilterSelection::ForceCells(n)
    } else if let Some(n) = opts.expect_cells {
        FilterSelection::ExpectCells(n)
    } else {
        return Err(
            QuantError::ConfigurationError(str_bytes("no valid filtering strategy was provided")),
        );
    };
    Ok(FilterPlan { permit_source, selection })
}

/// The advanced mapping options of the piscem mapper, in the order they
/// are passed.
pub open spec fn spec_advanced_args(o: MapQuantOpts) -> Seq<Seq<u8>> {
    (if o.ignore_ambig_hits {
        seq!["--ignore-ambig-hits".spec_bytes()]
    } else {
        seq!["--max-ec-card".spec_bytes(), dec_repr(o.max_ec_card as nat)]
    }) + (if o.no_poison {
        seq!["--no-poison".spec_bytes()]
    } else {
        Seq::empty()
    }) + seq!["--skipping-strategy".spec_bytes(), o.skipping_strategy@] + (if o.struct_constraints {
        seq!["--struct-constraints".spec_bytes()]
    } else {
        Seq::empty()
    }) + seq![
        "--max-hit-occ".spec_bytes(),
        dec_repr(o.max_hit_occ as nat),
        "--max-hit-occ-recover".spec_bytes(),
        dec_repr(o.max_hit_occ_recover as nat),
        "--max-read-occ".spec_bytes(),
        dec_repr(o.max_read_occ as nat),
    ]
}

/// Append the advanced piscem mapping options to an argument list.
pub fn push_advanced_piscem_options(args: &mut Vec<Vec<u8>>, opts: &MapQuantOpts)
    ensures
        final(args).deep_view() == old(args).deep_view() + spec_advanced_args(*opts),
{
    if opts.ignore_ambig_hits {
        args.push(str_bytes("--ignore-ambig-hits"));
    } else {
        args.push(str_bytes("--max-ec-card"));
        args.push(fmt_u64(opts.max_ec_card as u64));
    }
    if opts.no_poison {
        args.push(str_bytes("--no-poison"));
    }
    args.push(str_bytes("--skipping-strategy"));
    args.push(opts.skipping_strategy.clone());
    if opts.struct_constraints {
        args.push(str_bytes("--struct-constraints"));
    }
    args.push(str_bytes("--max-hit-occ"));
    args.push(fmt_u64(opts.max_hit_occ as u64));
    args.push(str_bytes("--max-hit-occ-recover"));
    args.push(fmt_u64(opts.max_hit_occ_recover as u64));
    args.push(str_bytes("--max-read-occ"));
    args.push(fmt_u64(opts.max_read_occ as u64));
    proof {
        assert(args.deep_view() =~~= old(args).deep_view() + spec_advanced_args(*opts));
    }
}

/// One external invocation: its stage, executable, argument list, and
/// the files that must exist before it runs.
pub struct StageCommand {
    pub stage: Stage,
    pub exe: Vec<u8>,
    pub args: Vec<Vec<u8>>,
    pub required_inputs: Vec<Vec<u8>>,
}

/// The literal command line: the executable and its arguments joined by
/// spaces.
pub open spec fn spec_cmd_string(exe: Seq<u8>, args: Seq<Seq<u8>>) -> Seq<u8> {
    join_with(seq![exe] + args, crate::text::SPACE)
}

impl StageCommand {
    /// Render the command line as reported in logs and the run manifest.
    pub fn cmd_string(&self) -> (r: Vec<u8>)
        ensures
            r@ == spec_cmd_string(self.exe@, self.args.deep_view()),
    {
        let mut parts: Vec<Vec<u8>> = Vec::new();
        parts.push(self.exe.clone());
        crate::transform::push_all(&mut parts, &self.args);
        proof {
            assert(parts.deep_view() =~~= seq![self.exe@] + self.args.deep_view());
        }
        join_with_vec(&parts, crate::text::SPACE)
    }
}

/// The permit-list generator's arguments: mapped records in, orientation
/// and filtering policy, output directory out. It runs with at most
/// eight threads.
pub open spec fn spec_gpl_args(
    map_out: Seq<u8>,
    ori: crate::chemistry::ExpectedOri,
    threads: u32,
    filter: CellFilterMethod,
    gpl_out: Seq<u8>,
) -> Seq<Seq<u8>> {
    seq![
        "generate-permit-list".spec_bytes(),
        "-i".spec_bytes(),
        map_out,
        "-d".spec_bytes(),
        crate::chemistry::spec_ori_bytes(ori),
        "-t".spec_bytes(),
        dec_repr((if threads < 8 { threads } else { 8 }) as nat),
    ] + spec_filter_args(filter) + seq!["-o".spec_bytes(), gpl_out]
}

/// Build the permit-list generation command.
pub fn build_gpl_command(
    exe: &Vec<u8>,
    map_out: &Vec<u8>,
    ori: crate::chemistry::ExpectedOri,
    threads: u32,
    filter: &CellFilterMethod,
    gpl_out: &Vec<u8>,
) -> (r: StageCommand)
    ensures
        r.stage == Stage::GeneratePermitList,
        r.exe@ == exe@,
        r.args.deep_view() == spec_gpl_args(map_out@, ori, threads, *filter, gpl_out@),
        r.required_inputs.deep_view() == seq![map_out@],
{
    let gpl_threads: u32 = if threads < 8 {
        threads
    } else {
        8
    };
    let mut args: Vec<Vec<u8>> = Vec::new();
    args.push(str_bytes("generate-permit-list"));
    args.push(str_bytes("-i"));
    args.push(map_out.clone());
    args.push(str_bytes("-d"));
    args.push(ori.as_bytes());
    args.push(str_bytes("-t"));
    args.push(fmt_u64(gpl_threads as u64));
    let mut filter_part = filter.filter_args();
    args.append(&mut filter_part);
    args.push(str_bytes("-o"));
    args.push(gpl_out.clone());
    proof {
        assert(args.deep_view() =~~= spec_gpl_args(map_out@, ori, threads, *filter, gpl_out@));
    }
    let mut required_inputs: Vec<Vec<u8>> = Vec::new();
    required_inputs.push(map_out.clone());
    proof {
        assert(required_inputs.deep_view() =~~= seq![map_out@]);
    }
    StageCommand { stage: Stage::GeneratePermitList, exe: exe.clone(), args, required_inputs }
}

/// The collator's arguments: the generator's output and the mapped
/// records in.
pub open spec fn spec_collate_args(gpl_out: Seq<u8>, map_out: Seq<u8>, threads: u32) -> Seq<
    Seq<u8>,
> {
    seq![
        "collate".spec_bytes(),
        "-i".spec_bytes(),
        gpl_out,
        "-r".spec_bytes(),
        map_out,
        "-t".spec_bytes(),
        dec_repr(threads as nat),
    ]
}

/// Build the collation command.
pub fn build_collate_command(exe: &Vec<u8>, gpl_out: &Vec<u8>, map_out: &Vec<u8>, threads: u32) -> (r:
    StageCommand)
    ensures
        r.stage == Stage::Collate,
        r.exe@ == exe@,
        r.args.deep_view() == spec_collate_args(gpl_out@, map_out@, threads),
        r.required_inputs.deep_view() == seq![gpl_out@, map_out@],
{
    let mut args: Vec<Vec<u8>> = Vec::new();
    args.push(str_bytes("collate"));
    args.push(str_bytes("-i"));
    args.push(gpl_out.clone());
    args.push(str_bytes("-r"));
    args.push(map_out.clone());
    args.push(str_bytes("-t"));
    args.push(fmt_u64(threads as u64));
    proof {
        assert(args.deep_view() =~~= spec_collate_args(gpl_out@, map_out@, threads));
    }
    let mut required_inputs: Vec<Vec<u8>> = Vec::new();
    required_inputs.push(gpl_out.clone());
    required_inputs.push(map_out.clone());
    proof {
        assert(required_inputs.deep_view() =~~= seq![gpl_out@, map_out@]);
    }
    StageCommand { stage: Stage::Collate, exe: exe.clone(), args, required_inputs }
}

/// The quantifier's arguments: collated records in and out of the same
/// directory, the transcript-to-gene map, and the resolution strategy.
pub open spec fn spec_quant_args(
    gpl_out: Seq<u8>,
    threads: u32,
    t2g: Seq<u8>,
    resolution: Seq<u8>,
) -> Seq<Seq<u8>> {
    seq![
        "quant".spec_bytes(),
        "-i".spec_bytes(),
        gpl_out,
        "-o".spec_bytes(),
        gpl_out,
        "-t".spec_bytes(),
        dec_repr(threads as nat),
        "-m".spec_bytes(),
        t2g,
        "-r".spec_bytes(),
        resolution,
    ]
}

/// Build the quantification command.
pub fn build_quant_command(
    exe: &Vec<u8>,
    gpl_out: &Vec<u8>,
    threads: u32,
    t2g: &Vec<u8>,
    resolution: &Vec<u8>,
) -> (r: StageCommand)
    ensures
        r.stage == Stage::Quant,
        r.exe@ == exe@,
        r.args.deep_view() == spec_quant_args(gpl_out@, threads, t2g@, resolution@),
        r.required_inputs.deep_view() == seq![gpl_out@, t2g@],
{
    let mut args: Vec<Vec<u8>> = Vec::new();
    args.push(str_bytes("quant"));
    args.push(str_bytes("-i"));
    args.push(gpl_out.clone());
    args.push(str_bytes("-o"));
    args.push(gpl_out.clone());
    args.push(str_bytes("-t"));
    args.push(fmt_u64(threads as u64));
    args.push(str_bytes("-m"));
    args.push(t2g.clone());
    args.push(str_bytes("-r"));
    args.push(resolution.clone());
    proof {
        assert(args.deep_view() =~~= spec_quant_args(gpl_out@, threads, t2g@, resolution@));
    }
    let mut required_inputs: Vec<Vec<u8>> = Vec::new();
    required_inputs.push(gpl_out.clone());
    required_inputs.push(t2g.clone());
    proof {
        assert(required_inputs.deep_view() =~~= seq![gpl_out@, t2g@]);
    }
    StageCommand { stage: Stage::Quant, exe: exe.clone(), args, required_inputs }
}

/// The piscem mapping arguments: the index stem, threads and output
/// directory, the advanced options when the version accepts them, then
/// the geometry and read arguments.
pub open spec fn spec_piscem_map_args(
    stem: Seq<u8>,
    threads: u32,
    map_out: Seq<u8>,
    o: MapQuantOpts,
    advanced: bool,
    frag_args: Seq<Seq<u8>>,
) -> Seq<Seq<u8>> {
    seq![
        "map-sc".spec_bytes(),
        "--index".spec_bytes(),
        stem,
        "--threads".spec_bytes(),
        dec_repr(threads as nat),
        "-o".spec_bytes(),
        map_out,
    ] + (if advanced {
        spec_advanced_args(o)
    } else {
        Seq::empty()
    }) + frag_args
}

/// The files a piscem index consists of.
pub open spec fn spec_piscem_index_files(stem: Seq<u8>) -> Seq<Seq<u8>> {
    seq![
        stem + ".ctab".spec_bytes(),
        stem + ".refinfo".spec_bytes(),
        stem + ".sshash".spec_bytes(),
    ]
}

/// Build the piscem mapping command. The advanced options are passed
/// exactly when the registered piscem version accepts them.
pub fn build_piscem_map_command(
    prog: &crate::progs::ProgInfo,
    stem: &Vec<u8>,
    threads: u32,
    map_out: &Vec<u8>,
    opts: &MapQuantOpts,
    frag_args: &Vec<Vec<u8>>,
    lib: &crate::transform::FragmentLibrary,
) -> (r: StageCommand)
    ensures
        r.stage == Stage::MapReads,
        r.exe@ == prog.exe_path@,
        r.args.deep_view() == spec_piscem_map_args(
            stem@,
            threads,
            map_out@,
            *opts,
            crate::progs::spec_supports_advanced(prog.version@),
            frag_args.deep_view(),
        ),
        r.required_inputs.deep_view() == spec_piscem_index_files(stem@)
            + lib.reads1.deep_view() + lib.reads2.deep_view(),
{
    let mut args: Vec<Vec<u8>> = Vec::new();
    args.push(str_bytes("map-sc"));
    args.push(str_bytes("--index"));
    args.push(stem.clone());
    args.push(str_bytes("--threads"));
    args.push(fmt_u64(threads as u64));
    args.push(str_bytes("-o"));
    args.push(map_out.clone());
    let ghost head = args.deep_view();
    if crate::progs::piscem_supports_advanced_options(&prog.version) {
        push_advanced_piscem_options(&mut args, opts);
    }
    let ghost mid = args.deep_view();
    crate::transform::push_all(&mut args, frag_args);
    proof {
        assert(head =~~= seq![
            "map-sc".spec_bytes(),
            "--index".spec_bytes(),
            stem@,
            "--threads".spec_bytes(),
            dec_repr(threads as nat),
            "-o".spec_bytes(),
            map_out@,
        ]);
        assert(args.deep_view() =~~= spec_piscem_map_args(
            stem@,
            threads,
            map_out@,
            *opts,
            crate::progs::spec_supports_advanced(prog.version@),
            frag_args.deep_view(),
        ));
    }
    let mut required_inputs: Vec<Vec<u8>> = Vec::new();
    required_inputs.push(crate::text::bytes_concat_str(stem, ".ctab"));
    required_inputs.push(crate::text::bytes_concat_str(stem, ".refinfo"));
    required_inputs.push(crate::text::bytes_concat_str(stem, ".sshash"));
    let ghost idx_files = required_inputs.deep_view();
    crate::transform::push_all(&mut required_inputs, &lib.reads1);
    crate::transform::push_all(&mut required_inputs, &lib.reads2);
    proof {
        assert(idx_files =~~= spec_piscem_index_files(stem@));
        assert(required_inputs.deep_view() =~~= spec_piscem_index_files(stem@)
            + lib.reads1.deep_view() + lib.reads2.deep_view());
    }
    StageCommand { stage: Stage::MapReads, exe: prog.exe_path.clone(), args, required_inputs }
}

/// The salmon mapping arguments: the index and library type, the
/// geometry and read arguments, threads and output directory, and the
/// alignment mode (selective alignment when requested, sketch mode
/// otherwise).
pub open spec fn spec_salmon_map_args(
    index_path: Seq<u8>,
    frag_args: Seq<Seq<u8>>,
    threads: u32,
    map_out: Seq<u8>,
    use_selective_alignment: bool,
) -> Seq<Seq<u8>> {
    seq![
        "alevin".spec_bytes(),
        "--index".spec_bytes(),
        index_path,
        "-l".spec_bytes(),
        "A".spec_bytes(),
    ] + frag_args + seq![
        "--threads".spec_bytes(),
        dec_repr(threads as nat),
        "-o".spec_bytes(),
        map_out,
        if use_selective_alignment {
            "--rad".spec_bytes()
        } else {
            "--sketch".spec_bytes()
        },
    ]
}

/// Build the salmon mapping command.
pub fn build_salmon_map_command(
    prog: &crate::progs::ProgInfo,
    index_path: &Vec<u8>,
    threads: u32,
    map_out: &Vec<u8>,
    use_selective_alignment: bool,
    frag_args: &Vec<Vec<u8>>,
    lib: &crate::transform::FragmentLibrary,
) -> (r: StageCommand)
    ensures
        r.stage == Stage::MapReads,
        r.exe@ == prog.exe_path@,
        r.args.deep_view() == spec_salmon_map_args(
            index_path@,
            frag_args.deep_view(),
            threads,
            map_out@,
            use_selective_alignment,
        ),
        r.required_inputs.deep_view() == seq![index_path@] + lib.reads1.deep_view()
            + lib.reads2.deep_view(),
{
    let mut args: Vec<Vec<u8>> = Vec::new();
    args.push(str_bytes("alevin"));
    args.push(str_bytes("--index"));
    args.push(index_path.clone());
    args.push(str_bytes("-l"));
    args.push(str_bytes("A"));
    let ghost head = args.deep_view();
    crate::transform::push_all(&mut args, frag_args);
    args.push(str_bytes("--threads"));
    args.push(fmt_u64(threads as u64));
    args.push(str_bytes("-o"));
    args.push(map_out.clone());
    if use_selective_alignment {
        args.push(str_bytes("--rad"));
    } else {
        args.push(str_bytes("--sketch"));
    }
    proof {
        assert(head =~~= seq![
            "alevin".spec_bytes(),
            "--index".spec_bytes(),
            index_path@,
            "-l".spec_bytes(),
            "A".spec_bytes(),
        ]);
        assert(args.deep_view() =~~= spec_salmon_map_args(
            index_path@,
            frag_args.deep_view(),
            threads,
            map_out@,
            use_selective_alignment,
        ));
    }
    let mut required_inputs: Vec<Vec<u8>> = Vec::new();
    required_inputs.push(index_path.clone());
    let ghost idx_only = required_inputs.deep_view();
    crate::transform::push_all(&mut required_inputs, &lib.reads1);
    crate::transform::push_all(&mut required_inputs, &lib.reads2);
    proof {
        assert(idx_only =~~= seq![index_path@]);
        assert(required_inputs.deep_view() =~~= seq![index_path@] + lib.reads1.deep_view()
            + lib.reads2.deep_view());
    }
    StageCommand { stage: Stage::MapReads, exe: prog.exe_path.clone(), args, required_inputs }
}

/// Where one run stands: at a stage, finished, or aborted. A failed run
/// never resumes: no transition leaves the failed state.
#[derive(Clone, Copy, PartialEq, Eq, Structural, Debug)]
pub enum PipelineStatus {
    Pending(Stage),
    Succeeded,
    Failed,
}

/// The status after one stage succeeds.
pub open spec fn spec_after_success(s: Stage) -> PipelineStatus {
    match s {
        Stage::MapReads => PipelineStatus::Pending(Stage::GeneratePermitList),
        Stage::GeneratePermitList => PipelineStatus::Pending(Stage::Collate),
        Stage::Collate => PipelineStatus::Pending(Stage::Quant),
        Stage::Quant => PipelineStatus::Succeeded,
    }
}

/// The persisted record of one run: per-stage durations and command
/// strings, the mapper's identity, and its output directory. Written
/// exactly once, after every stage and the reconciliation epilogue
/// complete.
pub struct RunManifest {
    pub map_time_ms: u64,
    pub gpl_time_ms: u64,
    pub collate_time_ms: u64,
    pub quant_time_ms: u64,
    pub conversion_time_ms: Option<u64>,
    pub map_cmd: Vec<u8>,
    pub gpl_cmd: Vec<u8>,
    pub collate_cmd: Vec<u8>,
    pub quant_cmd: Vec<u8>,
    pub mapper: Vec<u8>,
    pub map_outdir: Vec<u8>,
}

/// The sequencer of the four external stages. Stage N+1 only begins
/// after stage N reports success; the first failure aborts the run for
/// good.
pub struct PipelineRunner {
    pub map_cmd: Option<StageCommand>,
    pub gpl_cmd: StageCommand,
    pub collate_cmd: StageCommand,
    pub quant_cmd: StageCommand,
    pub mapper_name: Vec<u8>,
    pub map_outdir: Vec<u8>,
    pub status: PipelineStatus,
    pub map_ms: Option<u64>,
    pub gpl_ms: Option<u64>,
    pub collate_ms: Option<u64>,
    pub quant_ms: Option<u64>,
    pub conversion_ms: Option<u64>,
}

impl PipelineRunner {
    /// Each command belongs to its stage; a pending stage has its command
    /// ready and every earlier stage has its duration on record; a
    /// succeeded run has all four durations.
    pub open spec fn wf(self) -> bool {
        &&& match self.map_cmd {
            Some(c) => c.stage == Stage::MapReads,
            None => true,
        }
        &&& self.gpl_cmd.stage == Stage::GeneratePermitList
        &&& self.collate_cmd.stage == Stage::Collate
        &&& self.quant_cmd.stage == Stage::Quant
        &&& match self.status {
            PipelineStatus::Pending(Stage::MapReads) => self.map_cmd is Some,
            PipelineStatus::Pending(Stage::GeneratePermitList) => self.map_ms is Some,
            PipelineStatus::Pending(Stage::Collate) => self.map_ms is Some && self.gpl_ms
                is Some,
            PipelineStatus::Pending(Stage::Quant) => self.map_ms is Some && self.gpl_ms is Some
                && self.collate_ms is Some,
            PipelineStatus::Succeeded => self.map_ms is Some && self.gpl_ms is Some
                && self.collate_ms is Some && self.quant_ms is Some,
            PipelineStatus::Failed => true,
        }
    }

    /// Set up a run from its prepared stage commands. A run without a
    /// mapping command (mapped records supplied directly) starts at
    /// permit-list generation with a zero mapping duration on record.
    pub fn new(
        map_cmd: Option<StageCommand>,
        gpl_cmd: StageCommand,
        collate_cmd: StageCommand,
        quant_cmd: StageCommand,
        mapper_name: Vec<u8>,
        map_outdir: Vec<u8>,
    ) -> (r: Self)
        requires
            match map_cmd {
                Some(c) => c.stage == Stage::MapReads,
                None => true,
            },
            gpl_cmd.stage == Stage::GeneratePermitList,
            collate_cmd.stage == Stage::Collate,
            quant_cmd.stage == Stage::Quant,
        ensures
            r.wf(),
            r.status == if map_cmd is Some {
                PipelineStatus::Pending(Stage::MapReads)
            } else {
                PipelineStatus::Pending(Stage::GeneratePermitList)
            },
            r.map_cmd == map_cmd,
            r.gpl_cmd == gpl_cmd,
            r.collate_cmd == collate_cmd,
            r.quant_cmd == quant_cmd,
            r.mapper_name == mapper_name,
            r.map_outdir == map_outdir,
            r.map_ms == if map_cmd is Some {
                None::<u64>
            } else {
                Some(0u64)
            },
            r.gpl_ms is None && r.collate_ms is None && r.quant_ms is None && r.conversion_ms
                is None,
    {
        let has_map = map_cmd.is_some();
        PipelineRunner {
            map_cmd,
            gpl_cmd,
            collate_cmd,
            quant_cmd,
            mapper_name,
            map_outdir,
            status: if has_map {
                PipelineStatus::Pending(Stage::MapReads)
            } else {
                PipelineStatus::Pending(Stage::GeneratePermitList)
            },
            map_ms: if has_map {
                None
            } else {
                Some(0)
            },
            gpl_ms: None,
            collate_ms: None,
            quant_ms: None,
            conversion_ms: None,
        }
    }

    /// The command of the pending stage, if any.
    pub fn next_command(&self) -> (r: Option<&StageCommand>)
        requires
            self.wf(),
        ensures
            match self.status {
                PipelineStatus::Pending(s) => r matches Some(c) && c.stage == s && *c == match s {
                    Stage::MapReads => self.map_cmd.unwrap(),
                    Stage::GeneratePermitList => self.gpl_cmd,
                    Stage::Collate => self.collate_cmd,
                    Stage::Quant => self.quant_cmd,
                },
                _ => r is None,
            },
    {
        match self.status {
            PipelineStatus::Pending(Stage::MapReads) => match &self.map_cmd {
                Some(c) => Some(c),
                None => None,
            },
            PipelineStatus::Pending(Stage::GeneratePermitList) => Some(&self.gpl_cmd),
            PipelineStatus::Pending(Stage::Collate) => Some(&self.collate_cmd),
            PipelineStatus::Pending(Stage::Quant) => Some(&self.quant_cmd),
            _ => None,
        }
    }

    /// Abort the run: a required input file of the pending stage is
    /// missing. The stage's external process must not have been started.
    pub fn fail_missing_inputs(&mut self, missing: &Vec<Vec<u8>>) -> (e: QuantError)
        requires
            old(self).wf(),
            old(self).status matches PipelineStatus::Pending(_),
            missing@.len() > 0,
        ensures
            final(self).wf(),
            final(self).status is Failed,
            e is InputValidationError,
            final(self).map_cmd == old(self).map_cmd && final(self).gpl_cmd == old(self).gpl_cmd
                && final(self).collate_cmd == old(self).collate_cmd && final(self).quant_cmd
                == old(self).quant_cmd,
    {
        self.status = PipelineStatus::Failed;
        let mut msg = str_bytes("required input files are missing: ");
        let mut listed = join_with_vec(missing, crate::text::SPACE);
        msg.append(&mut listed);
        QuantError::InputValidationError(msg)
    }

    /// The recorded duration of a stage.
    pub open spec fn time_of(self, s: Stage) -> Option<u64> {
        match s {
            Stage::MapReads => self.map_ms,
            Stage::GeneratePermitList => self.gpl_ms,
            Stage::Collate => self.collate_ms,
            Stage::Quant => self.quant_ms,
        }
    }

    /// Record the pending stage's exit: a zero status advances to the
    /// next stage (or finishes the run after quantification) with the
    /// stage's duration on record; any other status aborts the run with
    /// an external-tool failure naming the stage and the status code.
    /// No stage is retried.
    pub fn on_stage_finished(&mut self, exit_code: i32, duration_ms: u64) -> (r: Result<
        (),
        QuantError,
    >)
        requires
            old(self).wf(),
            old(self).status matches PipelineStatus::Pending(_),
        ensures
            final(self).wf(),
            final(self).map_cmd == old(self).map_cmd && final(self).gpl_cmd == old(self).gpl_cmd
                && final(self).collate_cmd == old(self).collate_cmd && final(self).quant_cmd
                == old(self).quant_cmd && final(self).mapper_name == old(self).mapper_name
                && final(self).map_outdir == old(self).map_outdir && final(self).conversion_ms
                == old(self).conversion_ms,
            match old(self).status {
                PipelineStatus::Pending(s) => {
                    &&& final(self).time_of(s) == Some(duration_ms)
                    &&& forall|s2: Stage|
                        s2 != s ==> #[trigger] final(self).time_of(s2) == old(self).time_of(s2)
                    &&& if exit_code == 0 {
                        r is Ok && final(self).status == spec_after_success(s)
                    } else {
                        (r matches Err(QuantError::ExternalToolFailure { stage, status })
                            && stage == s && status == exit_code) && final(self).status is Failed
                    }
                },
                _ => false,
            },
    {
        let s = match self.status {
            PipelineStatus::Pending(s) => s,
            _ => {
                proof {
                    assert(false);
                }
                Stage::MapReads
            },
        };
        match s {
            Stage::MapReads => {
                self.map_ms = Some(duration_ms);
            },
            Stage::GeneratePermitList => {
                self.gpl_ms = Some(duration_ms);
            },
            Stage::Collate => {
                self.collate_ms = Some(duration_ms);
            },
            Stage::Quant => {
                self.quant_ms = Some(duration_ms);
            },
        }
        if exit_code == 0 {
            self.status = match s {
                Stage::MapReads => PipelineStatus::Pending(Stage::GeneratePermitList),
                Stage::GeneratePermitList => PipelineStatus::Pending(Stage::Collate),
                Stage::Collate => PipelineStatus::Pending(Stage::Quant),
                Stage::Quant => PipelineStatus::Succeeded,
            };
            Ok(())
        } else {
            self.status = PipelineStatus::Failed;
            Err(QuantError::ExternalToolFailure { stage: s, status: exit_code })
        }
    }

    /// Record the optional matrix-format conversion's duration.
    pub fn set_conversion_time(&mut self, ms: u64)
        requires
            old(self).wf(),
        ensures
            final(self).wf(),
            final(self).conversion_ms == Some(ms),
            final(self).status == old(self).status,
            final(self).map_cmd == old(self).map_cmd && final(self).gpl_cmd == old(self).gpl_cmd
                && final(self).collate_cmd == old(self).collate_cmd && final(self).quant_cmd
                == old(self).quant_cmd,
            forall|s2: Stage| #[trigger] final(self).time_of(s2) == old(self).time_of(s2),
    {
        self.conversion_ms = Some(ms);
    }

    /// The run manifest, available exactly when every stage succeeded.
    /// A mapping command that never ran is recorded as an empty command
    /// string.
    pub fn manifest(&self) -> (r: Option<RunManifest>)
        requires
            self.wf(),
        ensures
            r is Some <==> self.status is Succeeded,
            match r {
                Some(m) => {
                    &&& Some(m.map_time_ms) == self.map_ms
                    &&& Some(m.gpl_time_ms) == self.gpl_ms
                    &&& Some(m.collate_time_ms) == self.collate_ms
                    &&& Some(m.quant_time_ms) == self.quant_ms
                    &&& m.conversion_time_ms == self.conversion_ms
                    &&& m.map_cmd@ == match self.map_cmd {
                        Some(c) => spec_cmd_string(c.exe@, c.args.deep_view()),
                        None => Seq::<u8>::empty(),
                    }
                    &&& m.gpl_cmd@ == spec_cmd_string(
                        self.gpl_cmd.exe@,
                        self.gpl_cmd.args.deep_view(),
                    )
                    &&& m.collate_cmd@ == spec_cmd_string(
                        self.collate_cmd.exe@,
                        self.collate_cmd.args.deep_view(),
                    )
                    &&& m.quant_cmd@ == spec_cmd_string(
                        self.quant_cmd.exe@,
                        self.quant_cmd.args.deep_view(),
                    )
                    &&& m.mapper@ == self.mapper_name@
                    &&& m.map_outdir@ == self.map_outdir@
                },
                None => true,
            },
    {
        match self.status {
            PipelineStatus::Succeeded => {
                let map_cmd = match &self.map_cmd {
                    Some(c) => c.cmd_string(),
                    None => Vec::new(),
                };
                Some(
                    RunManifest {
                        map_time_ms: self.map_ms.unwrap(),
                        gpl_time_ms: self.gpl_ms.unwrap(),
                        collate_time_ms: self.collate_ms.unwrap(),
                        quant_time_ms: self.quant_ms.unwrap(),
                        conversion_time_ms: self.conversion_ms,
                        map_cmd,
                        gpl_cmd: self.gpl_cmd.cmd_string(),
                        collate_cmd: self.collate_cmd.cmd_string(),
                        quant_cmd: self.quant_cmd.cmd_string(),
                        mapper: self.mapper_name.clone(),
                        map_outdir: self.map_outdir.clone(),
                    },
                )
            },
            _ => None,
        }
    }
}

} // verus!
