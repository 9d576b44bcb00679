use simpleaf_quant::chemistry::ExpectedOri;
use simpleaf_quant::chemistry::parse_chem_registry;
use simpleaf_quant::chemistry::resolve_chemistry;
use simpleaf_quant::chemistry::resolve_orientation;
use simpleaf_quant::errors::QuantError;
use simpleaf_quant::errors::Stage;
use simpleaf_quant::index::IndexType;
use simpleaf_quant::index::candidate_dir;
use simpleaf_quant::index::resolve_index;
use simpleaf_quant::opts::MapQuantOpts;
use simpleaf_quant::opts::validate_map_and_quant_opts;
use simpleaf_quant::pipeline::CellFilterMethod;
use simpleaf_quant::pipeline::FilterSelection;
use simpleaf_quant::pipeline::PermitListSource;
use simpleaf_quant::pipeline::PipelineRunner;
use simpleaf_quant::pipeline::build_collate_command;
use simpleaf_quant::pipeline::build_gpl_command;
use simpleaf_quant::pipeline::build_piscem_map_command;
use simpleaf_quant::pipeline::build_quant_command;
use simpleaf_quant::pipeline::cell_filter_plan;
use simpleaf_quant::pipeline::clamp_threads;
use simpleaf_quant::pipeline::push_advanced_piscem_options;
use simpleaf_quant::progs::ProgInfo;
use simpleaf_quant::progs::parse_prog_registry;
use simpleaf_quant::progs::piscem_supports_advanced_options;
use simpleaf_quant::text::fmt_u64;
use simpleaf_quant::text::join_with_vec;
use simpleaf_quant::transform::FragmentLibrary;
use simpleaf_quant::transform::FragmentTransformStats;
use simpleaf_quant::transform::FragmentTransformationType;
use simpleaf_quant::transform::MapperType;
use simpleaf_quant::transform::add_or_transform_fragment_library;
use simpleaf_quant::transform::finish_transform;
use simpleaf_quant::transform::geometry_requires_transform;

fn b(s: &str) -> Vec<u8> {
    s.as_bytes().to_vec()
}

fn bl(ls: &[&str]) -> Vec<Vec<u8>> {
    ls.iter().map(|l| l.as_bytes().to_vec()).collect()
}

fn base_opts() -> MapQuantOpts {
    MapQuantOpts {
        index: Some(b("/idx")),
        reads1: Some(bl(&["/r1.fq"])),
        reads2: Some(bl(&["/r2.fq"])),
        threads: 16,
        use_piscem: true,
        use_selective_alignment: false,
        ignore_ambig_hits: false,
        max_ec_card: 4096,
        no_poison: false,
        skipping_strategy: b("permissive"),
        struct_constraints: false,
        max_hit_occ: 256,
        max_hit_occ_recover: 1024,
        max_read_occ: 2500,
        chemistry: b("10xv3"),
        expected_ori: None,
        output: b("/out"),
        t2g_map: None,
        unfiltered_pl: None,
        explicit_pl: None,
        forced_cells: None,
        expect_cells: None,
        knee: false,
        min_reads: 10,
        resolution: b("cr-like"),
        map_dir: None,
        anndata_out: false,
    }
}

#[test]
fn conflicting_mappers_are_rejected() {
    let mut opts = base_opts();
    opts.use_selective_alignment = true;
    let r = validate_map_and_quant_opts(&opts);
    assert!(matches!(r, Err(QuantError::ConfigurationError(_))));
    opts.use_piscem = false;
    assert!(validate_map_and_quant_opts(&opts).is_ok());
}

// Thread clamp: effective threads = min(T, M), warning exactly when
// T > M.
#[test]
fn thread_clamp_takes_the_minimum() {
    assert_eq!(clamp_threads(32, Some(8)), (8, true));
    assert_eq!(clamp_threads(4, Some(8)), (4, false));
    assert_eq!(clamp_threads(8, Some(8)), (8, false));
    assert_eq!(clamp_threads(64, None), (64, false));
}

#[test]
fn decimal_formatting() {
    assert_eq!(fmt_u64(0), b("0"));
    assert_eq!(fmt_u64(8), b("8"));
    assert_eq!(fmt_u64(1234), b("1234"));
    assert_eq!(fmt_u64(u64::MAX), b("18446744073709551615"));
}

#[test]
fn version_gate_for_advanced_options() {
    assert!(piscem_supports_advanced_options(&b("0.7.0")));
    assert!(piscem_supports_advanced_options(&b("0.11.3")));
    assert!(!piscem_supports_advanced_options(&b("0.6.9")));
    assert!(!piscem_supports_advanced_options(&b("1.0.0")));
    assert!(!piscem_supports_advanced_options(&b("0.7.0-alpha")));
    assert!(!piscem_supports_advanced_options(&b("nonsense")));
}

// Scenario: an index directory carrying a descriptor with
// index_type piscem and a recorded t2g file resolves to the piscem
// family with the t2g path inside the index directory.
#[test]
fn descriptor_resolves_piscem_index_and_t2g() {
    let index = b("/data/index");
    let (candidate, stripped) = candidate_dir(&index, true);
    assert_eq!(candidate, b("/data/index"));
    assert!(!stripped);
    let descriptor = b("{\"index_type\":\"piscem\",\"t2g_file\":\"t2g.tsv\"}");
    let res = resolve_index(
        Some(&index),
        true,
        &candidate,
        stripped,
        Some(&descriptor),
        false,
        None,
        false,
        false,
        true,
        true,
    )
    .unwrap();
    match res.index_type {
        IndexType::Piscem(p) => assert_eq!(p, b("/data/index/piscem_idx")),
        _ => panic!("expected a piscem index"),
    }
    assert_eq!(res.t2g_map, b("/data/index/t2g.tsv"));
}

#[test]
fn stripped_piscem_suffix_probes_the_parent() {
    let index = b("/data/index/piscem_idx");
    let (candidate, stripped) = candidate_dir(&index, false);
    assert_eq!(candidate, b("/data/index"));
    assert!(stripped);
}

#[test]
fn unknown_index_type_is_a_configuration_error() {
    let index = b("/data/index");
    let descriptor = b("{\"index_type\":\"bowtie\"}");
    let r = resolve_index(
        Some(&index),
        true,
        &index,
        false,
        Some(&descriptor),
        false,
        Some(&b("/t2g.tsv")),
        false,
        false,
        true,
        true,
    );
    assert!(matches!(r, Err(QuantError::ConfigurationError(_))));
}

#[test]
fn missing_t2g_is_a_configuration_error() {
    let index = b("/data/index");
    let descriptor = b("{\"index_type\":\"salmon\"}");
    let r = resolve_index(
        Some(&index),
        true,
        &index,
        false,
        Some(&descriptor),
        false,
        None,
        false,
        false,
        true,
        true,
    );
    assert!(matches!(r, Err(QuantError::ConfigurationError(_))));
}

#[test]
fn missing_executable_is_a_configuration_error() {
    let index = b("/data/index");
    let r = resolve_index(
        Some(&index),
        true,
        &index,
        false,
        None,
        true,
        Some(&b("/t2g.tsv")),
        false,
        false,
        false,
        true,
    );
    assert!(matches!(r, Err(QuantError::ConfigurationError(_))));
}

#[test]
fn chemistry_builtins_are_known() {
    let g = resolve_chemistry(&b("10xv2"), &Vec::new()).unwrap();
    assert_eq!(g.geometry, b("1{b[16]u[10]x:}2{r:}"));
    assert_eq!(g.expected_ori, ExpectedOri::Forward);
    let r = resolve_chemistry(&b("unheard-of"), &Vec::new());
    assert!(matches!(r, Err(QuantError::ConfigurationError(_))));
}

#[test]
fn chemistry_registry_is_consulted() {
    let registry = parse_chem_registry(
        &b("{\"sci-rna\":{\"geometry\":\"1{b[8]f[CAGAGC]u[8]x:}2{r:}\",\"expected_ori\":\"rc\"}}"),
    )
    .unwrap();
    let g = resolve_chemistry(&b("sci-rna"), &registry).unwrap();
    assert_eq!(g.geometry, b("1{b[8]f[CAGAGC]u[8]x:}2{r:}"));
    assert_eq!(g.expected_ori, ExpectedOri::Reverse);
}

#[test]
fn orientation_override_wins() {
    assert_eq!(resolve_orientation(Some(&b("rc")), ExpectedOri::Forward).unwrap(), ExpectedOri::Reverse);
    assert_eq!(resolve_orientation(None, ExpectedOri::Forward).unwrap(), ExpectedOri::Forward);
    let r = resolve_orientation(Some(&b("sideways")), ExpectedOri::Forward);
    assert!(matches!(r, Err(QuantError::ConfigurationError(_))));
}

#[test]
fn tool_registry_is_parsed() {
    let reg = parse_prog_registry(
        &b(
            "{\"prog_info\":{\"piscem\":{\"exe_path\":\"/bin/piscem\",\"version\":\"0.7.3\"},\
            \"salmon\":null,\"alevin_fry\":{\"exe_path\":\"/bin/alevin-fry\",\"version\":\"0.8.2\"}}}",
        ),
    )
    .unwrap();
    assert_eq!(reg.piscem.as_ref().unwrap().exe_path, b("/bin/piscem"));
    assert!(reg.salmon.is_none());
    assert_eq!(reg.alevin_fry.as_ref().unwrap().version, b("0.8.2"));
}

// Scenario: read lists of different lengths are rejected before any
// external process is spawned.
#[test]
fn mismatched_read_lists_are_rejected() {
    let r = FragmentLibrary::new(bl(&["/a1.fq", "/a2.fq"]), bl(&["/b1.fq", "/b2.fq", "/b3.fq"]));
    assert!(matches!(r, Err(QuantError::InputValidationError(_))));
}

#[test]
fn simple_geometry_is_fed_directly() {
    let lib = FragmentLibrary::new(bl(&["/a.fq", "/b.fq"]), bl(&["/c.fq", "/d.fq"])).unwrap();
    let geom = b("1{b[16]u[12]x:}2{r:}");
    assert!(!geometry_requires_transform(&geom));
    let (plan, args) =
        add_or_transform_fragment_library(MapperType::Piscem, &geom, &lib, &b("/tmp/fifo")).unwrap();
    assert!(matches!(plan, FragmentTransformationType::Identity));
    assert_eq!(
        args,
        bl(&["--geometry", "1{b[16]u[12]x:}2{r:}", "-1", "/a.fq,/b.fq", "-2", "/c.fq,/d.fq"])
    );
}

#[test]
fn complex_geometry_streams_through_the_pipe() {
    let lib = FragmentLibrary::new(bl(&["/a.fq"]), bl(&["/c.fq"])).unwrap();
    let geom = b("1{b[8]f[CAGAGC]u[8]x:}2{r:}");
    assert!(geometry_requires_transform(&geom));
    let (plan, args) =
        add_or_transform_fragment_library(MapperType::Piscem, &geom, &lib, &b("/tmp/fifo")).unwrap();
    match plan {
        FragmentTransformationType::TransformedIntoFifo(d) => {
            assert_eq!(d.fifo_path, b("/tmp/fifo"));
            assert_eq!(d.geom.read1.len(), 4);
            assert_eq!(d.geom.read2.len(), 1);
        },
        _ => panic!("a complex geometry must be transformed"),
    }
    assert_eq!(args, bl(&["--geometry", "1{b[8]f[CAGAGC]u[8]x:}2{r:}", "-1", "/tmp/fifo"]));
}

#[test]
fn unparsable_complex_geometry_is_a_configuration_error() {
    let lib = FragmentLibrary::new(bl(&["/a.fq"]), bl(&["/c.fq"])).unwrap();
    let geom = b("1{b[8]f[CAGAGC]u[8}2{r:}");
    let r = add_or_transform_fragment_library(MapperType::Piscem, &geom, &lib, &b("/tmp/fifo"));
    assert!(matches!(r, Err(QuantError::ConfigurationError(_))));
}

// Transform statistics invariant: failures never exceed the total, and
// a worker failure surfaces as a concurrency failure.
#[test]
fn transform_statistics_stay_consistent() {
    let mut stats = FragmentTransformStats::new();
    stats.record(true);
    stats.record(false);
    stats.record(true);
    assert_eq!(stats.total_fragments, 3);
    assert_eq!(stats.failed_parsing, 1);
    assert!(stats.failed_parsing <= stats.total_fragments);
    let joined = finish_transform(Some(stats)).unwrap();
    assert_eq!(joined, stats);
    let r = finish_transform(None);
    assert!(matches!(r, Err(QuantError::ConcurrencyFailure(_))));
}

#[test]
fn filter_plan_conflicts_are_rejected() {
    let mut opts = base_opts();
    opts.explicit_pl = Some(b("/pl.tsv"));
    opts.forced_cells = Some(5000);
    let r = cell_filter_plan(&opts);
    assert!(matches!(r, Err(QuantError::ConfigurationError(_))));
}

#[test]
fn filter_plan_requires_some_strategy() {
    let opts = base_opts();
    let r = cell_filter_plan(&opts);
    assert!(matches!(r, Err(QuantError::ConfigurationError(_))));
}

#[test]
fn filter_plan_knee_overrides_unfiltered() {
    let mut opts = base_opts();
    opts.unfiltered_pl = Some(Some(b("/pl.tsv")));
    opts.knee = true;
    let plan = cell_filter_plan(&opts).unwrap();
    assert_eq!(plan.selection, FilterSelection::KneeFinding);
    assert!(matches!(plan.permit_source, Some(PermitListSource::Unfiltered(ref p)) if *p == b("/pl.tsv")));
}

#[test]
fn filter_plan_expect_cells() {
    let mut opts = base_opts();
    opts.expect_cells = Some(3000);
    let plan = cell_filter_plan(&opts).unwrap();
    assert_eq!(plan.selection, FilterSelection::ExpectCells(3000));
    assert!(plan.permit_source.is_none());
}

#[test]
fn advanced_options_follow_the_flags() {
    let mut opts = base_opts();
    opts.no_poison = true;
    let mut args: Vec<Vec<u8>> = Vec::new();
    push_advanced_piscem_options(&mut args, &opts);
    assert_eq!(
        args,
        bl(&[
            "--max-ec-card",
            "4096",
            "--no-poison",
            "--skipping-strategy",
            "permissive",
            "--max-hit-occ",
            "256",
            "--max-hit-occ-recover",
            "1024",
            "--max-read-occ",
            "2500",
        ])
    );
}

#[test]
fn gpl_command_caps_its_threads() {
    let filter = CellFilterMethod::UnfilteredExternalList(b("/out/cb_list.txt"), 10);
    let cmd = build_gpl_command(
        &b("/bin/alevin-fry"),
        &b("/out/af_map"),
        ExpectedOri::Forward,
        16,
        &filter,
        &b("/out/af_quant"),
    );
    assert_eq!(cmd.stage, Stage::GeneratePermitList);
    assert_eq!(
        cmd.args,
        bl(&[
            "generate-permit-list",
            "-i",
            "/out/af_map",
            "-d",
            "fw",
            "-t",
            "8",
            "--unfiltered-pl",
            "/out/cb_list.txt",
            "--min-reads",
            "10",
            "-o",
            "/out/af_quant",
        ])
    );
    assert_eq!(cmd.required_inputs, bl(&["/out/af_map"]));
}

fn runner_for_test() -> PipelineRunner {
    let prog = ProgInfo { exe_path: b("/bin/piscem"), version: b("0.7.3") };
    let lib = FragmentLibrary::new(bl(&["/r1.fq"]), bl(&["/r2.fq"])).unwrap();
    let (_, frag_args) = add_or_transform_fragment_library(
        MapperType::Piscem,
        &b("1{b[16]u[12]x:}2{r:}"),
        &lib,
        &b("/tmp/fifo"),
    )
    .unwrap();
    let map_cmd = build_piscem_map_command(
        &prog,
        &b("/idx/piscem_idx"),
        16,
        &b("/out/af_map"),
        &base_opts(),
        &frag_args,
        &lib,
    );
    let filter = CellFilterMethod::KneeFinding;
    let gpl = build_gpl_command(
        &b("/bin/alevin-fry"),
        &b("/out/af_map"),
        ExpectedOri::Forward,
        16,
        &filter,
        &b("/out/af_quant"),
    );
    let collate = build_collate_command(&b("/bin/alevin-fry"), &b("/out/af_quant"), &b("/out/af_map"), 16);
    let quant = build_quant_command(
        &b("/bin/alevin-fry"),
        &b("/out/af_quant"),
        16,
        &b("/t2g.tsv"),
        &b("cr-like"),
    );
    PipelineRunner::new(Some(map_cmd), gpl, collate, quant, b("piscem"), b("/out/af_map"))
}

// Scenario: the permit-list generator exits with status 1, so collation
// and quantification never run, the failure names the stage and status,
// and no manifest is written.
#[test]
fn failed_stage_aborts_the_run() {
    let mut runner = runner_for_test();
    assert_eq!(runner.next_command().unwrap().stage, Stage::MapReads);
    runner.on_stage_finished(0, 120).unwrap();
    assert_eq!(runner.next_command().unwrap().stage, Stage::GeneratePermitList);
    let r = runner.on_stage_finished(1, 30);
    match r {
        Err(QuantError::ExternalToolFailure { stage, status }) => {
            assert_eq!(stage, Stage::GeneratePermitList);
            assert_eq!(status, 1);
        },
        _ => panic!("a nonzero exit status must abort the run"),
    }
    assert!(runner.next_command().is_none());
    assert!(runner.manifest().is_none());
}

#[test]
fn missing_inputs_abort_before_the_process_starts() {
    let mut runner = runner_for_test();
    let e = runner.fail_missing_inputs(&bl(&["/idx/piscem_idx.ctab"]));
    assert!(matches!(e, QuantError::InputValidationError(_)));
    assert!(runner.next_command().is_none());
    assert!(runner.manifest().is_none());
}

#[test]
fn completed_run_writes_one_manifest() {
    let mut runner = runner_for_test();
    runner.on_stage_finished(0, 100).unwrap();
    runner.on_stage_finished(0, 20).unwrap();
    runner.on_stage_finished(0, 30).unwrap();
    assert!(runner.manifest().is_none());
    runner.on_stage_finished(0, 40).unwrap();
    let m = runner.manifest().unwrap();
    assert_eq!(m.map_time_ms, 100);
    assert_eq!(m.gpl_time_ms, 20);
    assert_eq!(m.collate_time_ms, 30);
    assert_eq!(m.quant_time_ms, 40);
    assert!(m.conversion_time_ms.is_none());
    assert_eq!(m.mapper, b("piscem"));
    assert_eq!(m.map_outdir, b("/out/af_map"));
    assert_eq!(
        m.collate_cmd,
        b("/bin/alevin-fry collate -i /out/af_quant -r /out/af_map -t 16")
    );
    assert!(m.map_cmd.starts_with(b"/bin/piscem map-sc --index /idx/piscem_idx"));
}

#[test]
fn command_strings_join_with_spaces() {
    let parts = bl(&["a", "bc", "d"]);
    assert_eq!(join_with_vec(&parts, 0x20), b("a bc d"));
}

#[test]
fn supplied_map_directory_skips_the_mapping_stage() {
    let filter = CellFilterMethod::KneeFinding;
    let gpl = build_gpl_command(
        &b("/bin/alevin-fry"),
        &b("/maps/af_map"),
        ExpectedOri::Forward,
        4,
        &filter,
        &b("/out/af_quant"),
    );
    let collate = build_collate_command(&b("/bin/alevin-fry"), &b("/out/af_quant"), &b("/maps/af_map"), 4);
    let quant = build_quant_command(&b("/bin/alevin-fry"), &b("/out/af_quant"), 4, &b("/t2g.tsv"), &b("cr-like"));
    let mut runner = PipelineRunner::new(None, gpl, collate, quant, Vec::new(), b("/maps/af_map"));
    assert_eq!(runner.next_command().unwrap().stage, Stage::GeneratePermitList);
    runner.on_stage_finished(0, 1).unwrap();
    runner.on_stage_finished(0, 2).unwrap();
    runner.on_stage_finished(0, 3).unwrap();
    runner.set_conversion_time(9);
    let m = runner.manifest().unwrap();
    assert_eq!(m.map_time_ms, 0);
    assert_eq!(m.map_cmd, Vec::<u8>::new());
    assert_eq!(m.conversion_time_ms, Some(9));
}
