//! Error taxonomy of the pipeline.
//!
//! Every error aborts the whole pipeline: there is no partial-success
//! continuation and no automatic retry of any external invocation.

use vstd::prelude::*;
use vstd::string::StrSliceExecFns;

verus! {

/// The four ordered external stages of one pipeline run.
#[derive(Clone, Copy, Debug, PartialEq, Eq, Structural)]
pub enum Stage {
    MapReads,
    GeneratePermitList,
    Collate,
    Quant,
}

impl Stage {
    /// The stage's name, as reported in failures and logs.
    pub fn name(&self) -> (r: &'static str)
        ensures
            r@ == self.spec_name(),
    {
        match self {
            Stage::MapReads => "Map",
            Stage::GeneratePermitList => "GeneratePermitList",
            Stage::Collate => "Collate",
            Stage::Quant => "Quant",
        }
    }

    pub open spec fn spec_name(self) -> Seq<char> {
        match self {
            Stage::MapReads => "Map"@,
            Stage::GeneratePermitList => "GeneratePermitList"@,
            Stage::Collate => "Collate"@,
            Stage::Quant => "Quant"@,
        }
    }
}

/// One failure class per way the pipeline can abort.
///
/// - `ConfigurationError`: an unknown index family, an unregistered
///   chemistry, a missing registered executable, or a transcript-to-gene
///   map that could be neither given nor inferred.
/// - `InputValidationError`: a required file is missing, the read file
///   lists disagree in length, or a permit list is unreadable.
/// - `ExternalToolFailure`: an external stage exited with nonzero status;
///   tagged with the stage and the status code.
/// - `DataIntegrityError`: reconciliation placed a different number of
///   lines than the quantifier produced rows.
/// - `ConcurrencyFailure`: the fragment-transform worker panicked or
///   aborted instead of reporting its statistics.
#[derive(Debug)]
pub enum QuantError {
    ConfigurationError(Vec<u8>),
    InputValidationError(Vec<u8>),
    ExternalToolFailure { stage: Stage, status: i32 },
    DataIntegrityError(Vec<u8>),
    ConcurrencyFailure(Vec<u8>),
}

impl QuantError {
    /// Human-readable description of the failure, for the caller to report.
    pub fn message(&self) -> (r: Vec<u8>)
        ensures
            match self {
                QuantError::ConfigurationError(m) => r@ == m@,
                QuantError::InputValidationError(m) => r@ == m@,
                QuantError::DataIntegrityError(m) => r@ == m@,
                QuantError::ConcurrencyFailure(m) => r@ == m@,
                QuantError::ExternalToolFailure { .. } => true,
            },
    {
        match self {
            QuantError::ConfigurationError(m) => m.clone(),
            QuantError::InputValidationError(m) => m.clone(),
            QuantError::DataIntegrityError(m) => m.clone(),
            QuantError::ConcurrencyFailure(m) => m.clone(),
            QuantError::ExternalToolFailure { stage, status: _ } => {
                let mut r = Vec::<u8>::new();
                let mut name = stage.name().as_bytes_vec();
                r.append(&mut name);
                let mut tail = " failed with nonzero exit status".as_bytes_vec();
                r.append(&mut tail);
                r
            },
        }
    }
}

} // verus!
