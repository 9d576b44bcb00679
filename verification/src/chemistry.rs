//! Chemistry resolution: from a chemistry name to the fragment geometry
//! descriptor and the expected read orientation.
//!
//! Built-in chemistries are looked up by name first, then a
//! user-extensible registry keyed by name; an unregistered name is a
//! fatal configuration error.

use vstd::prelude::*;
use vstd::string::StringSliceAdditionalSpecFns;

use crate::errors::QuantError;
use crate::text::bytes_equal;
use crate::text::str_bytes;

verus! {

/// The read orientation a mapper expects for a chemistry.
#[derive(Clone, Copy, PartialEq, Eq, Structural, Debug)]
pub enum ExpectedOri {
    Forward,
    Reverse,
    Both,
}

/// The string form of an orientation.
pub open spec fn spec_ori_bytes(o: ExpectedOri) -> Seq<u8> {
    match o {
        ExpectedOri::Forward => "fw".spec_bytes(),
        ExpectedOri::Reverse => "rc".spec_bytes(),
        ExpectedOri::Both => "both".spec_bytes(),
    }
}

impl ExpectedOri {
    /// The orientation as the external tools spell it.
    pub fn as_bytes(&self) -> (r: Vec<u8>)
        ensures
            r@ == spec_ori_bytes(*self),
    {
        match self {
            ExpectedOri::Forward => str_bytes("fw"),
            ExpectedOri::Reverse => str_bytes("rc"),
            ExpectedOri::Both => str_bytes("both"),
        }
    }

    /// Parse an orientation name; an unknown one is a configuration
    /// error.
    pub fn from_str(s: &Vec<u8>) -> (r: Result<ExpectedOri, QuantError>)
        ensures
            match r {
                Ok(o) => s@ == spec_ori_bytes(o),
                Err(e) => e is ConfigurationError && s@ != "fw".spec_bytes() && s@
                    != "rc".spec_bytes() && s@ != "both".spec_bytes(),
            },
    {
        if bytes_equal(s, &str_bytes("fw")) {
            Ok(ExpectedOri::Forward)
        } else if bytes_equal(s, &str_bytes("rc")) {
            Ok(ExpectedOri::Reverse)
        } else if bytes_equal(s, &str_bytes("both")) {
            Ok(ExpectedOri::Both)
        } else {
            Err(
                QuantError::ConfigurationError(
                    str_bytes("unknown orientation; it must be one of: fw, rc, both"),
                ),
            )
        }
    }
}

/// One chemistry of the user-extensible registry.
pub struct ChemRecord {
    pub name: Vec<u8>,
    pub geometry: Vec<u8>,
    pub expected_ori: Option<Vec<u8>>,
}

/// The registry file's entries, in the order the parse yields them:
/// for each chemistry its name, geometry string, and optional
/// orientation string; `None` when the content is not an object of such
/// entries.
pub uninterp spec fn chem_registry_of(s: Seq<u8>) -> Option<
    Seq<(Seq<u8>, Seq<u8>, Option<Seq<u8>>)>,
>;

/// Relies on serde_json::from_slice: parses the registry JSON object
/// mapping each chemistry name to an object with a `geometry` string and
/// an optional `expected_ori` string.
#[verifier::external_body]
pub fn parse_chem_registry(bytes: &Vec<u8>) -> (r: Option<Vec<ChemRecord>>)
    ensures
        match r {
            Some(recs) => chem_registry_of(bytes@) == Some(
                Seq::new(
                    recs@.len(),
                    |i: int|
                        (
                            recs@[i].name@,
                            recs@[i].geometry@,
                            match recs@[i].expected_ori {
                                Some(o) => Some(o@),
                                None => None::<Seq<u8>>,
                            },
                        ),
                ),
            ),
            None => chem_registry_of(bytes@) is None,
        },
{
    let v: serde_json::Value = serde_json::from_slice(bytes.as_slice()).ok()?;
    let mut out: Vec<ChemRecord> = Vec::new();
    for (name, val) in v.as_object()? {
        let expected_ori = match val.get("expected_ori") {
            None | Some(serde_json::Value::Null) => None,
            Some(serde_json::Value::String(s)) => Some(s.as_bytes().to_vec()),
            Some(_) => return None,
        };
        let geometry = val.get("geometry")?.as_str()?.as_bytes().to_vec();
        out.push(ChemRecord { name: name.as_bytes().to_vec(), geometry, expected_ori });
    }
    Some(out)
}

/// A resolved chemistry: its fragment geometry descriptor and default
/// orientation.
pub struct GeometryDescriptor {
    pub geometry: Vec<u8>,
    pub expected_ori: ExpectedOri,
}

/// An orientation string the registry may carry.
pub open spec fn valid_ori_bytes(s: Seq<u8>) -> bool {
    s == "fw".spec_bytes() || s == "rc".spec_bytes() || s == "both".spec_bytes()
}

/// The registry entry at `j` is the first one carrying the name.
pub open spec fn first_chem_match(reg: Seq<ChemRecord>, name: Seq<u8>, j: int) -> bool {
    &&& 0 <= j < reg.len()
    &&& reg[j].name@ == name
    &&& forall|k: int| 0 <= k < j ==> (#[trigger] reg[k]).name@ != name
}

/// The entry's orientation, if it has one, is a known orientation name.
pub open spec fn ori_acceptable(rec: ChemRecord) -> bool {
    match rec.expected_ori {
        Some(o) => valid_ori_bytes(o@),
        None => true,
    }
}

/// Whether the name is one of the built-in chemistries.
pub open spec fn is_builtin_chemistry(name: Seq<u8>) -> bool {
    name == "10xv2".spec_bytes() || name == "10xv3".spec_bytes() || name == "10xv4".spec_bytes()
}

/// The geometry of a built-in chemistry.
pub open spec fn spec_builtin_geometry(name: Seq<u8>) -> Seq<u8> {
    if name == "10xv2".spec_bytes() {
        "1{b[16]u[10]x:}2{r:}".spec_bytes()
    } else {
        "1{b[16]u[12]x:}2{r:}".spec_bytes()
    }
}

/// Resolve a chemistry name: built-ins first, then the registry in
/// order; an unregistered name is a configuration error. Built-in
/// chemistries expect forward orientation; a registry chemistry without
/// an orientation of its own expects both.
pub fn resolve_chemistry(name: &Vec<u8>, registry: &Vec<ChemRecord>) -> (r: Result<
    GeometryDescriptor,
    QuantError,
>)
    ensures
        r is Ok <==> is_builtin_chemistry(name@) || (exists|j: int|
            #[trigger] first_chem_match(registry@, name@, j) && ori_acceptable(registry@[j])),
        match r {
            Ok(g) => if is_builtin_chemistry(name@) {
                g.geometry@ == spec_builtin_geometry(name@) && g.expected_ori
                    == ExpectedOri::Forward
            } else {
                exists|j: int|
                    #[trigger] first_chem_match(registry@, name@, j) && g.geometry@
                        == registry@[j].geometry@ && match registry@[j].expected_ori {
                        Some(o) => o@ == spec_ori_bytes(g.expected_ori),
                        None => g.expected_ori == ExpectedOri::Both,
                    }
            },
            Err(e) => e is ConfigurationError,
        },
{
    let v2 = bytes_equal(name, &str_bytes("10xv2"));
    let v3 = bytes_equal(name, &str_bytes("10xv3"));
    let v4 = bytes_equal(name, &str_bytes("10xv4"));
    if v2 {
        return Ok(
            GeometryDescriptor {
                geometry: str_bytes("1{b[16]u[10]x:}2{r:}"),
                expected_ori: ExpectedOri::Forward,
            },
        );
    }
    if v3 || v4 {
        return Ok(
            GeometryDescriptor {
                geometry: str_bytes("1{b[16]u[12]x:}2{r:}"),
                expected_ori: ExpectedOri::Forward,
            },
        );
    }
    let mut j: usize = 0;
    while j < registry.len()
        invariant
            j <= registry@.len(),
            !is_builtin_chemistry(name@),
            forall|k: int| 0 <= k < j ==> (#[trigger] registry@[k]).name@ != name@,
        decreases registry@.len() - j,
    {
        if bytes_equal(&registry[j].name, name) {
            proof {
                assert(first_chem_match(registry@, name@, j as int));
            }
            let ori = match &registry[j].expected_ori {
                Some(o) => match ExpectedOri::from_str(o) {
                    Ok(parsed) => parsed,
                    Err(e) => {
                        proof {
                            lemma_first_chem_match_unique(registry@, name@, j as int);
                        }
                        return Err(e);
                    },
                },
                None => ExpectedOri::Both,
            };
            return Ok(
                GeometryDescriptor { geometry: registry[j].geometry.clone(), expected_ori: ori },
            );
        }
        j = j + 1;
    }
    proof {
        if exists|j2: int|
            #[trigger] first_chem_match(registry@, name@, j2) && ori_acceptable(registry@[j2]) {
            let j2: int = choose|j2: int|
                #[trigger] first_chem_match(registry@, name@, j2) && ori_acceptable(
                    registry@[j2],
                );
            assert(registry@[j2].name@ != name@);
        }
    }
    Err(
        QuantError::ConfigurationError(
            str_bytes("unregistered chemistry; register it or use one of: 10xv2, 10xv3, 10xv4"),
        ),
    )
}

/// At most one registry entry is the first match of a name.
proof fn lemma_first_chem_match_unique(reg: Seq<ChemRecord>, name: Seq<u8>, j: int)
    requires
        first_chem_match(reg, name, j),
    ensures
        forall|j2: int| #[trigger] first_chem_match(reg, name, j2) ==> j2 == j,
{
    assert forall|j2: int| #[trigger] first_chem_match(reg, name, j2) implies j2 == j by {
        if j2 < j {
            assert(reg[j2].name@ != name);
        }
        if j2 > j {
            assert(reg[j].name@ != name);
        }
    }
}

/// The orientation of a run: an explicit override wins over the
/// chemistry's default; an unparsable override is a configuration error.
pub fn resolve_orientation(override_ori: Option<&Vec<u8>>, chem_default: ExpectedOri) -> (r:
    Result<ExpectedOri, QuantError>)
    ensures
        match r {
            Ok(o) => match override_ori {
                Some(s) => s@ == spec_ori_bytes(o),
                None => o == chem_default,
            },
            Err(e) => e is ConfigurationError && override_ori is Some,
        },
{
    match override_ori {
        Some(s) => ExpectedOri::from_str(s),
        None => Ok(chem_default),
    }
}

} // verus!
