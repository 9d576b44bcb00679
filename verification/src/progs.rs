//! The registered external tools: which executables are available and
//! which versions they carry.
//!
//! The registry is populated elsewhere; this module only reads it and
//! fails fast when a required entry is absent.

use vstd::prelude::*;

use crate::text::find_byte;

verus! {

/// One registered tool: where its executable lives and its version.
pub struct ProgInfo {
    pub exe_path: Vec<u8>,
    pub version: Vec<u8>,
}

/// The tools a run may need, each absent when unregistered.
pub struct ReqProgs {
    pub piscem: Option<ProgInfo>,
    pub salmon: Option<ProgInfo>,
    pub alevin_fry: Option<ProgInfo>,
}

/// One tool's entry in the registry file: its executable path and
/// version strings when registered, `Some(None)` when absent or null,
/// `None` when the registry content or the entry is malformed.
pub uninterp spec fn tool_entry_of(s: Seq<u8>, name: Seq<char>) -> Option<
    Option<(Seq<u8>, Seq<u8>)>,
>;

/// Relies on serde_json::from_slice: parses the registry JSON object and
/// reads `prog_info.<name>`, either null/absent or an object with
/// `exe_path` and `version` strings.
#[verifier::external_body]
fn parse_tool_entry(bytes: &Vec<u8>, name: &str) -> (r: Option<Option<ProgInfo>>)
    ensures
        match r {
            Some(None) => tool_entry_of(bytes@, name@) == Some(None::<(Seq<u8>, Seq<u8>)>),
            Some(Some(p)) => tool_entry_of(bytes@, name@) == Some(Some((p.exe_path@, p.version@))),
            None => tool_entry_of(bytes@, name@) is None,
        },
{
    let v: serde_json::Value = serde_json::from_slice(bytes.as_slice()).ok()?;
    match v.get("prog_info")?.get(name) {
        None | Some(serde_json::Value::Null) => Some(None),
        Some(t) => Some(Some(ProgInfo {
            exe_path: t.get("exe_path")?.as_str()?.as_bytes().to_vec(),
            version: t.get("version")?.as_str()?.as_bytes().to_vec(),
        })),
    }
}

/// One tool entry as the registry records it.
pub open spec fn spec_prog(p: Option<ProgInfo>) -> Option<(Seq<u8>, Seq<u8>)> {
    match p {
        Some(q) => Some((q.exe_path@, q.version@)),
        None => None,
    }
}

/// Read the three tool entries out of the registry file content. `None`
/// when the registry or any entry is malformed.
pub fn parse_prog_registry(bytes: &Vec<u8>) -> (r: Option<ReqProgs>)
    ensures
        match r {
            Some(p) => {
                &&& tool_entry_of(bytes@, "piscem"@) == Some(spec_prog(p.piscem))
                &&& tool_entry_of(bytes@, "salmon"@) == Some(spec_prog(p.salmon))
                &&& tool_entry_of(bytes@, "alevin_fry"@) == Some(spec_prog(p.alevin_fry))
            },
            None => tool_entry_of(bytes@, "piscem"@) is None || tool_entry_of(bytes@, "salmon"@)
                is None || tool_entry_of(bytes@, "alevin_fry"@) is None,
        },
{
    let piscem = match parse_tool_entry(bytes, "piscem") {
        Some(e) => e,
        None => {
            return None;
        },
    };
    let salmon = match parse_tool_entry(bytes, "salmon") {
        Some(e) => e,
        None => {
            return None;
        },
    };
    let alevin_fry = match parse_tool_entry(bytes, "alevin_fry") {
        Some(e) => e,
        None => {
            return None;
        },
    };
    Some(ReqProgs { piscem, salmon, alevin_fry })
}

/// A decimal digit.
pub open spec fn is_digit(b: u8) -> bool {
    0x30 <= b <= 0x39
}

/// The value of a nonempty all-digit string.
pub open spec fn parse_decimal(s: Seq<u8>) -> Option<nat>
    decreases s.len(),
{
    if s.len() == 0 {
        None
    } else if !is_digit(s.last()) {
        None
    } else if s.len() == 1 {
        Some((s.last() - 0x30) as nat)
    } else {
        match parse_decimal(s.drop_last()) {
            Some(h) => Some(h * 10 + (s.last() - 0x30) as nat),
            None => None,
        }
    }
}

/// Ten to the given power.
pub open spec fn pow10(n: nat) -> nat
    decreases n,
{
    if n == 0 {
        1
    } else {
        10 * pow10((n - 1) as nat)
    }
}

/// A parsed decimal is bounded by ten to its digit count.
pub proof fn lemma_parse_decimal_bound(s: Seq<u8>)
    ensures
        parse_decimal(s) matches Some(v) ==> v < pow10(s.len() as nat),
    decreases s.len(),
{
    assert(pow10(0) == 1);
    if s.len() == 1 {
        assert(pow10(1) == 10 * pow10(0));
    }
    if s.len() > 1 {
        lemma_parse_decimal_bound(s.drop_last());
        assert(pow10(s.len() as nat) == 10 * pow10((s.len() - 1) as nat));
    }
}

/// The numeric triple of a version string `major.minor.patch`. `None`
/// when the string is not three dot-separated all-digit numbers of at
/// most eighteen digits each (a pre-release or build marker makes the
/// patch component non-numeric, so such versions carry no triple).
pub open spec fn spec_version_triple(s: Seq<u8>) -> Option<(nat, nat, nat)> {
    match split_two_dots(s) {
        Some((a, b, c)) => if a.len() <= 18 && b.len() <= 18 && c.len() <= 18 {
            match (parse_decimal(a), parse_decimal(b), parse_decimal(c)) {
                (Some(x), Some(y), Some(z)) => Some((x, y, z)),
                _ => None,
            }
        } else {
            None
        },
        None => None,
    }
}

/// The dot of version strings.
pub const DOT: u8 = 0x2e;

/// Split on exactly two dots.
pub open spec fn split_two_dots(s: Seq<u8>) -> Option<(Seq<u8>, Seq<u8>, Seq<u8>)> {
    match s.index_of_first(DOT) {
        Some(i) => if 0 <= i < s.len() {
            let rest = s.skip(i + 1);
            match rest.index_of_first(DOT) {
                Some(j) => if 0 <= j < rest.len() && !rest.skip(j + 1).contains(DOT) {
                    Some((s.take(i), rest.take(j), rest.skip(j + 1)))
                } else {
                    None
                },
                None => None,
            }
        } else {
            None
        },
        None => None,
    }
}

/// Whether the advanced mapper options may be passed: piscem from 0.7.0
/// (inclusive) up to 1.0.0 (exclusive) accepts them.
pub open spec fn spec_supports_advanced(v: Seq<u8>) -> bool {
    match spec_version_triple(v) {
        Some(t) => t.0 == 0 && t.1 >= 7,
        None => false,
    }
}

/// Parse an all-digit range of at most eighteen digits.
pub fn parse_decimal_range(s: &Vec<u8>, start: usize, end: usize) -> (r: Option<u64>)
    requires
        start <= end <= s@.len(),
        end - start <= 18,
    ensures
        match r {
            Some(v) => parse_decimal(s@.subrange(start as int, end as int)) == Some(v as nat),
            None => parse_decimal(s@.subrange(start as int, end as int)) is None,
        },
{
    let ghost digits = s@.subrange(start as int, end as int);
    if start == end {
        return None;
    }
    let mut acc: u64 = 0;
    let mut k: usize = start;
    while k < end
        invariant
            start <= k <= end <= s@.len(),
            end - start <= 18,
            digits == s@.subrange(start as int, end as int),
            k > start ==> parse_decimal(digits.take(k - start)) == Some(acc as nat),
            k == start ==> acc == 0,
        decreases end - k,
    {
        let b = s[k];
        if b < 0x30 || b > 0x39 {
            proof {
                let pre = digits.take(k - start + 1);
                assert(pre.last() == digits[k - start]);
                assert(digits[k - start] == s@[k as int]);
                assert(parse_decimal(pre) is None);
                lemma_parse_prefix_none(digits, k - start + 1);
            }
            return None;
        }
        proof {
            let pre = digits.take(k - start + 1);
            assert(pre.last() == s@[k as int]);
            assert(pre.drop_last() =~= digits.take(k - start));
            lemma_parse_decimal_bound(digits.take(k - start));
            lemma_pow10_le_18((k - start) as nat);
        }
        let d: u64 = (b - 0x30) as u64;
        acc = acc * 10 + d;
        k = k + 1;
    }
    proof {
        assert(digits.take(end - start) =~= digits);
    }
    Some(acc)
}

/// Ten to a power never shrinks as the power grows.
proof fn lemma_pow10_mono(n: nat, m: nat)
    requires
        n <= m,
    ensures
        pow10(n) <= pow10(m),
    decreases m,
{
    if n < m {
        lemma_pow10_mono(n, (m - 1) as nat);
    }
}

/// Ten to at most the eighteenth power is at most ten to the
/// eighteenth, a value a 64-bit accumulator can hold through one more
/// digit.
pub proof fn lemma_pow10_le_18(n: nat)
    requires
        n <= 18,
    ensures
        pow10(n) <= 1000000000000000000,
{
    lemma_pow10_mono(n, 18);
    reveal_with_fuel(pow10, 20);
    assert(pow10(18) == 1000000000000000000);
}

/// Ten to at most the ninth power is at most ten to the ninth, a value
/// every machine word holds.
pub proof fn lemma_pow10_le_9(n: nat)
    requires
        n <= 9,
    ensures
        pow10(n) <= 1000000000,
{
    lemma_pow10_mono(n, 9);
    reveal_with_fuel(pow10, 11);
    assert(pow10(9) == 1000000000);
}

/// A prefix that fails to parse poisons every longer prefix.
proof fn lemma_parse_prefix_none(s: Seq<u8>, from: int)
    requires
        0 < from <= s.len(),
        parse_decimal(s.take(from)) is None,
    ensures
        parse_decimal(s) is None,
    decreases s.len() - from,
{
    if from < s.len() {
        assert(s.take(from + 1).drop_last() =~= s.take(from));
        lemma_parse_prefix_none(s, from + 1);
    } else {
        assert(s.take(from) =~= s);
    }
}

/// Whether the given piscem version accepts the advanced mapping
/// options.
pub fn piscem_supports_advanced_options(version: &Vec<u8>) -> (r: bool)
    ensures
        r == spec_supports_advanced(version@),
{
    let first_dot = match find_byte(version, 0, DOT) {
        Some(i) => i,
        None => {
            proof {
                assert(version@.skip(0) =~= version@);
            }
            return false;
        },
    };
    proof {
        assert(version@.skip(0) =~= version@);
        assert(version.len() == version@.len());
    }
    let second_dot = match find_byte(version, first_dot + 1, DOT) {
        Some(i) => i,
        None => {
            return false;
        },
    };
    proof {
        assert(version.len() == version@.len());
    }
    if let Some(_) = find_byte(version, second_dot + 1, DOT) {
        proof {
            let rest = version@.skip(first_dot + 1);
            rest.index_of_first_ensures(DOT);
            let tail2 = version@.skip(second_dot + 1);
            tail2.index_of_first_ensures(DOT);
            assert(rest.skip(second_dot - first_dot) =~= tail2);
        }
        return false;
    }
    proof {
        let rest = version@.skip(first_dot + 1);
        let tail2 = version@.skip(second_dot + 1);
        tail2.index_of_first_ensures(DOT);
        assert(rest.skip(second_dot - first_dot) =~= tail2);
        if tail2.contains(DOT) {
            let w: int = choose|w: int| 0 <= w < tail2.len() && tail2[w] == DOT;
            assert(tail2.index_of_first(DOT) is Some);
        }
        assert(!rest.skip(second_dot - first_dot).contains(DOT));
        assert(rest.take(second_dot - first_dot - 1) =~= version@.subrange(
            first_dot + 1,
            second_dot as int,
        ));
        assert(rest.skip(second_dot - first_dot) =~= version@.subrange(
            second_dot + 1,
            version@.len() as int,
        ));
        assert(version@.take(first_dot as int) =~= version@.subrange(0, first_dot as int));
    }
    if first_dot > 18 || second_dot - (first_dot + 1) > 18 || version.len() - (second_dot + 1)
        > 18 {
        return false;
    }
    let major = match parse_decimal_range(version, 0, first_dot) {
        Some(v) => v,
        None => {
            return false;
        },
    };
    let minor = match parse_decimal_range(version, first_dot + 1, second_dot) {
        Some(v) => v,
        None => {
            return false;
        },
    };
    let patch = parse_decimal_range(version, second_dot + 1, version.len());
    if patch.is_none() {
        return false;
    }
    major == 0 && minor >= 7
}

} // verus!
