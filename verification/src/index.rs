//! Index resolution: which mapper family an index belongs to, and where
//! its auxiliary artifacts (transcript-to-gene map, gene-name table)
//! live.
//!
//! An index built by this tool family carries a descriptor file
//! `simpleaf_index.json` in its directory: a JSON object with an
//! `index_type` field naming the family and an optional `t2g_file` path.
//! Without a descriptor, the family is decided by the caller's flag.

use vstd::prelude::*;
use vstd::string::StringSliceAdditionalSpecFns;

use crate::errors::QuantError;
use crate::text::path_file_name_of;
use crate::text::path_join;
use crate::text::path_join_bytes;
use crate::text::path_joined;
use crate::text::path_parent;
use crate::text::path_parent_of;
use crate::text::path_ends_with_component;
use crate::text::str_bytes;

verus! {

/// The resolved index family, each carrying the path handed to its
/// mapper: for piscem the prefix stem of the index files, for salmon the
/// index directory.
pub enum IndexType {
    Piscem(Vec<u8>),
    Salmon(Vec<u8>),
    NoIndex,
}

/// What the index descriptor file holds.
pub struct IndexDescriptorContents {
    pub index_type: Vec<u8>,
    pub t2g_file: Option<Vec<u8>>,
}

/// The parsed form of an index descriptor file: its `index_type` string
/// and its optional `t2g_file` string, when the content is a JSON object
/// holding them.
pub uninterp spec fn index_descriptor_of(s: Seq<u8>) -> Option<(Seq<u8>, Option<Seq<u8>>)>;

/// Relies on serde_json::from_slice: parses the descriptor JSON object,
/// reading its `index_type` string and its optional `t2g_file` string.
#[verifier::external_body]
fn parse_index_descriptor(bytes: &Vec<u8>) -> (r: Option<IndexDescriptorContents>)
    ensures
        match r {
            Some(d) => index_descriptor_of(bytes@) == Some(
                (
                    d.index_type@,
                    match d.t2g_file {
                        Some(t) => Some(t@),
                        None => None::<Seq<u8>>,
                    },
                ),
            ),
            None => index_descriptor_of(bytes@) is None,
        },
{
    let v: serde_json::Value = serde_json::from_slice(bytes.as_slice()).ok()?;
    let index_type = v.get("index_type")?.as_str()?.as_bytes().to_vec();
    let t2g_file = match v.get("t2g_file") {
        None | Some(serde_json::Value::Null) => None,
        Some(serde_json::Value::String(s)) => Some(s.as_bytes().to_vec()),
        Some(_) => {
            return None;
        },
    };
    Some(IndexDescriptorContents { index_type, t2g_file })
}

/// The name of the piscem index prefix that an index built by this tool
/// family uses.
pub open spec fn piscem_suffix() -> Seq<u8> {
    "piscem_idx".spec_bytes()
}

/// Where the descriptor file is looked for: when the given index path is
/// not a directory and its final component is the piscem prefix, the
/// prefix is stripped and the parent directory is the candidate (the
/// second component of the result records the strip); otherwise the path
/// itself is.
pub open spec fn spec_candidate(index: Seq<u8>, index_is_dir: bool) -> (Seq<u8>, bool) {
    if !index_is_dir && path_file_name_of(index) == piscem_suffix() {
        (path_parent_of(index), true)
    } else {
        (index, false)
    }
}

/// Compute the candidate index directory, in which the caller probes for
/// the descriptor file and the gene-name table.
pub fn candidate_dir(index: &Vec<u8>, index_is_dir: bool) -> (r: (Vec<u8>, bool))
    ensures
        (r.0@, r.1) == spec_candidate(index@, index_is_dir),
{
    if !index_is_dir && path_ends_with_component(index, "piscem_idx") {
        (path_parent(index), true)
    } else {
        (index.clone(), false)
    }
}

/// A family name the descriptor may carry.
pub open spec fn known_family(t: Seq<u8>) -> bool {
    t == "salmon".spec_bytes() || t == "piscem".spec_bytes()
}

/// When resolution succeeds: the descriptor, if present, parses to a
/// known family and a transcript-to-gene map is available (given or
/// recorded), and an executable is registered for the resolved family.
pub open spec fn resolvable(
    index: Option<Seq<u8>>,
    descriptor: Option<Seq<u8>>,
    use_piscem: bool,
    t2g_override: Option<Seq<u8>>,
    has_piscem_exe: bool,
    has_salmon_exe: bool,
) -> bool {
    match index {
        Some(_) => match descriptor {
            Some(db) => match index_descriptor_of(db) {
                Some(d) => known_family(d.0) && (t2g_override is Some || d.1 is Some) && (d.0
                    == "piscem".spec_bytes() ==> has_piscem_exe) && (d.0 == "salmon".spec_bytes()
                    ==> has_salmon_exe),
                None => false,
            },
            None => t2g_override is Some && (if use_piscem {
                has_piscem_exe
            } else {
                has_salmon_exe
            }),
        },
        None => t2g_override is Some,
    }
}

/// The outcome of index resolution, read-only afterwards and shared by
/// value across the stages.
pub struct ResolvedIndex {
    pub index_type: IndexType,
    pub t2g_map: Vec<u8>,
    pub gene_id_to_name: Option<Vec<u8>>,
}

/// Resolve the index family and auxiliary artifact paths.
///
/// `candidate` and `stripped` must come from `candidate_dir`;
/// `descriptor` is the content of `simpleaf_index.json` in the candidate
/// directory when that file exists; `gene_name_in_index` and
/// `gene_name_in_ref` report whether a `gene_id_to_name.tsv` exists in
/// the candidate directory or in a sibling `ref` directory one level up.
///
/// With a descriptor, the family comes from its `index_type` (any other
/// value is a configuration error) and the piscem prefix is re-appended
/// for that family; without one, the family follows `use_piscem` and the
/// original path is used as given. The transcript-to-gene map is the
/// override when given, else the descriptor's, resolved relative to the
/// candidate directory; having neither is a configuration error, as is a
/// resolved family without a registered executable.
pub fn resolve_index(
    index: Option<&Vec<u8>>,
    index_is_dir: bool,
    candidate: &Vec<u8>,
    stripped: bool,
    descriptor: Option<&Vec<u8>>,
    use_piscem: bool,
    t2g_override: Option<&Vec<u8>>,
    gene_name_in_index: bool,
    gene_name_in_ref: bool,
    has_piscem_exe: bool,
    has_salmon_exe: bool,
) -> (r: Result<ResolvedIndex, QuantError>)
    requires
        match index {
            Some(idx) => (candidate@, stripped) == spec_candidate(idx@, index_is_dir),
            None => true,
        },
    ensures
        r is Ok <==> resolvable(
            match index {
                Some(idx) => Some(idx@),
                None => None::<Seq<u8>>,
            },
            match descriptor {
                Some(db) => Some(db@),
                None => None::<Seq<u8>>,
            },
            use_piscem,
            match t2g_override {
                Some(o) => Some(o@),
                None => None::<Seq<u8>>,
            },
            has_piscem_exe,
            has_salmon_exe,
        ),
        match r {
            Ok(res) => match index {
                Some(idx) => match descriptor {
                    Some(db) => index_descriptor_of(db@) matches Some(d) && {
                        &&& known_family(d.0)
                        &&& match res.index_type {
                            IndexType::Salmon(p) => d.0 == "salmon".spec_bytes() && p@
                                == candidate@,
                            IndexType::Piscem(p) => d.0 == "piscem".spec_bytes() && p@
                                == path_joined(candidate@, piscem_suffix()),
                            IndexType::NoIndex => false,
                        }
                        &&& match t2g_override {
                            Some(o) => res.t2g_map@ == o@,
                            None => d.1 matches Some(dt) && res.t2g_map@ == path_joined(
                                candidate@,
                                dt,
                            ),
                        }
                        &&& if gene_name_in_index {
                            res.gene_id_to_name matches Some(g) && g@ == path_joined(
                                candidate@,
                                "gene_id_to_name.tsv".spec_bytes(),
                            )
                        } else if gene_name_in_ref {
                            res.gene_id_to_name matches Some(g) && g@ == path_joined(
                                path_joined(path_parent_of(candidate@), "ref".spec_bytes()),
                                "gene_id_to_name.tsv".spec_bytes(),
                            )
                        } else {
                            res.gene_id_to_name is None
                        }
                    },
                    None => {
                        &&& if use_piscem {
                            res.index_type matches IndexType::Piscem(p) && p@ == idx@
                        } else {
                            res.index_type matches IndexType::Salmon(p) && p@ == idx@
                        }
                        &&& t2g_override matches Some(o) && res.t2g_map@ == o@
                        &&& res.gene_id_to_name is None
                    },
                },
                None => {
                    &&& res.index_type is NoIndex
                    &&& t2g_override matches Some(o) && res.t2g_map@ == o@
                    &&& res.gene_id_to_name is None
                },
            },
            Err(e) => e is ConfigurationError,
        },
{
    let idx = match index {
        Some(idx) => idx,
        None => {
            let t2g = match t2g_override {
                Some(o) => o.clone(),
                None => {
                    return Err(
                        QuantError::ConfigurationError(
                            str_bytes(
                                "a transcript-to-gene map was neither provided nor inferable",
                            ),
                        ),
                    );
                },
            };
            return Ok(
                ResolvedIndex { index_type: IndexType::NoIndex, t2g_map: t2g, gene_id_to_name: None },
            );
        },
    };
    match descriptor {
        Some(db) => {
            let d = match parse_index_descriptor(db) {
                Some(d) => d,
                None => {
                    return Err(
                        QuantError::ConfigurationError(
                            str_bytes("could not parse the index descriptor file"),
                        ),
                    );
                },
            };
            let is_salmon = crate::text::bytes_equal(&d.index_type, &str_bytes("salmon"));
            let is_piscem = crate::text::bytes_equal(&d.index_type, &str_bytes("piscem"));
            if !is_salmon && !is_piscem {
                return Err(
                    QuantError::ConfigurationError(
                        str_bytes("unknown index type in the index descriptor file"),
                    ),
                );
            }
            if is_piscem && !has_piscem_exe {
                return Err(
                    QuantError::ConfigurationError(
                        str_bytes(
                            "a piscem index is being used, but no piscem executable is registered",
                        ),
                    ),
                );
            }
            if is_salmon && !has_salmon_exe {
                return Err(
                    QuantError::ConfigurationError(
                        str_bytes(
                            "a salmon index is being used, but no salmon executable is registered",
                        ),
                    ),
                );
            }
            let t2g = match t2g_override {
                Some(o) => o.clone(),
                None => match &d.t2g_file {
                    Some(dt) => path_join_bytes(candidate, dt),
                    None => {
                        return Err(
                            QuantError::ConfigurationError(
                                str_bytes(
                                    "a transcript-to-gene map was neither provided nor inferable",
                                ),
                            ),
                        );
                    },
                },
            };
            let gene_id_to_name = if gene_name_in_index {
                Some(path_join(candidate, "gene_id_to_name.tsv"))
            } else if gene_name_in_ref {
                let parent = path_parent(candidate);
                let ref_dir = path_join(&parent, "ref");
                Some(path_join(&ref_dir, "gene_id_to_name.tsv"))
            } else {
                None
            };
            let index_type = if is_salmon {
                IndexType::Salmon(candidate.clone())
            } else {
                IndexType::Piscem(path_join(candidate, "piscem_idx"))
            };
            Ok(ResolvedIndex { index_type, t2g_map: t2g, gene_id_to_name })
        },
        None => {
            let t2g = match t2g_override {
                Some(o) => o.clone(),
                None => {
                    return Err(
                        QuantError::ConfigurationError(
                            str_bytes(
                                "a transcript-to-gene map was neither provided nor inferable",
                            ),
                        ),
                    );
                },
            };
            if use_piscem && !has_piscem_exe {
                return Err(
                    QuantError::ConfigurationError(
                        str_bytes(
                            "a piscem index is being used, but no piscem executable is registered",
                        ),
                    ),
                );
            }
            if !use_piscem && !has_salmon_exe {
                return Err(
                    QuantError::ConfigurationError(
                        str_bytes(
                            "a salmon index is being used, but no salmon executable is registered",
                        ),
                    ),
                );
            }
            let index_type = if use_piscem {
                IndexType::Piscem(idx.clone())
            } else {
                IndexType::Salmon(idx.clone())
            };
            Ok(ResolvedIndex { index_type, t2g_map: t2g, gene_id_to_name: None })
        },
    }
}

} // verus!
