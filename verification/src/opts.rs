//! The resolved options of one mapping-and-quantification run.
//!
//! Every field is a typed value: stage argument lists are built from
//! these fields, never from raw user strings.

use vstd::prelude::*;

use crate::errors::QuantError;
use crate::text::str_bytes;

verus! {

/// Options of one run, as handed in by the caller.
pub struct MapQuantOpts {
    pub index: Option<Vec<u8>>,
    pub reads1: Option<Vec<Vec<u8>>>,
    pub reads2: Option<Vec<Vec<u8>>>,
    pub threads: u32,
    pub use_piscem: bool,
    pub use_selective_alignment: bool,
    pub ignore_ambig_hits: bool,
    pub max_ec_card: u32,
    pub no_poison: bool,
    pub skipping_strategy: Vec<u8>,
    pub struct_constraints: bool,
    pub max_hit_occ: u32,
    pub max_hit_occ_recover: u32,
    pub max_read_occ: u32,
    pub chemistry: Vec<u8>,
    pub expected_ori: Option<Vec<u8>>,
    pub output: Vec<u8>,
    pub t2g_map: Option<Vec<u8>>,
    pub unfiltered_pl: Option<Option<Vec<u8>>>,
    pub explicit_pl: Option<Vec<u8>>,
    pub forced_cells: Option<usize>,
    pub expect_cells: Option<usize>,
    pub knee: bool,
    pub min_reads: usize,
    pub resolution: Vec<u8>,
    pub map_dir: Option<Vec<u8>>,
    pub anndata_out: bool,
}

/// Reject option combinations that contradict each other: selective
/// alignment belongs to the salmon mapper and cannot be combined with the
/// default piscem mapper.
pub fn validate_map_and_quant_opts(opts: &MapQuantOpts) -> (r: Result<(), QuantError>)
    ensures
        r is Ok <==> !(opts.use_piscem && opts.use_selective_alignment),
        r matches Err(e) ==> e is ConfigurationError,
{
    if opts.use_piscem && opts.use_selective_alignment {
        Err(
            QuantError::ConfigurationError(
                str_bytes(
                    "selective alignment requires the salmon mapper; it cannot be used with piscem",
                ),
            ),
        )
    } else {
        Ok(())
    }
}

} // verus!
