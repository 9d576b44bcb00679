//! Byte-level text utilities.
//!
//! All textual values the pipeline computes with (paths, command
//! arguments, permit-list lines) are byte strings, so that every
//! operation on them can be stated over `Seq<u8>` and proved.

use vstd::prelude::*;
use vstd::string::StrSliceExecFns;
use vstd::string::StringSliceAdditionalSpecFns;

verus! {

/// The column separator of multi-column permit lists.
pub const TAB: u8 = 9;

/// The line separator of all newline-delimited text files handled here.
pub const NEWLINE: u8 = 10;

/// A carriage return immediately before a newline is not part of a line.
pub const CARRIAGE_RETURN: u8 = 13;

/// The path component separator.
pub const SLASH: u8 = 47;

/// The separator of a rendered command line.
pub const SPACE: u8 = 32;

/// Extend a byte string by a literal suffix.
pub fn bytes_concat_str(p: &Vec<u8>, suffix: &str) -> (r: Vec<u8>)
    ensures
        r@ == p@ + suffix.spec_bytes(),
{
    let mut r = p.clone();
    let mut s = suffix.as_bytes_vec();
    r.append(&mut s);
    proof {
        assert(r@ =~= p@ + suffix.spec_bytes());
    }
    r
}

/// The first column of a line: everything before the first tab, or the
/// whole line when it has no tab.
pub open spec fn first_col(line: Seq<u8>) -> Seq<u8> {
    match line.index_of_first(TAB) {
        Some(i) => line.take(i),
        None => line,
    }
}

/// A line is single-column when it holds no tab separator.
pub open spec fn line_has_no_tab(line: Seq<u8>) -> bool {
    !line.contains(TAB)
}

/// Extract the first tab-separated column of a line.
pub fn first_column(line: &Vec<u8>) -> (r: Vec<u8>)
    ensures
        r@ == first_col(line@),
{
    proof {
        line@.index_of_first_ensures(TAB);
    }
    let mut r: Vec<u8> = Vec::new();
    let mut i: usize = 0;
    while i < line.len()
        invariant
            i <= line@.len(),
            r@ == line@.take(i as int),
            forall|j: int| 0 <= j < i ==> line@[j] != TAB,
        decreases line@.len() - i,
    {
        if line[i] == TAB {
            proof {
                line@.index_of_first_ensures(TAB);
                assert(line@.contains(TAB));
                match line@.index_of_first(TAB) {
                    Some(w) => {
                        if w < i {
                            assert(line@[w] != TAB);
                        }
                        if w > i {
                            assert(line@[i as int] != TAB);
                        }
                        assert(w == i);
                    },
                    None => {
                        assert(false);
                    },
                }
            }
            return r;
        }
        r.push(line[i]);
        proof {
            assert(r@ =~= line@.take(i + 1));
        }
        i = i + 1;
    }
    proof {
        line@.index_of_first_ensures(TAB);
        if line@.contains(TAB) {
            let w: int = choose|w: int| 0 <= w < line@.len() && line@[w] == TAB;
            assert(line@[w] != TAB);
        }
        assert(r@ =~= line@);
    }
    r
}

/// Whether a line holds no tab separator.
pub fn line_is_single_column(line: &Vec<u8>) -> (r: bool)
    ensures
        r == line_has_no_tab(line@),
{
    let mut i: usize = 0;
    while i < line.len()
        invariant
            i <= line@.len(),
            forall|j: int| 0 <= j < i ==> line@[j] != TAB,
        decreases line@.len() - i,
    {
        if line[i] == TAB {
            return false;
        }
        i = i + 1;
    }
    proof {
        if line@.contains(TAB) {
            let w: int = choose|w: int| 0 <= w < line@.len() && line@[w] == TAB;
            assert(line@[w] != TAB);
        }
    }
    true
}

/// A line as read from a file: the trailing carriage return, if any, is
/// not part of it.
pub open spec fn strip_cr(s: Seq<u8>) -> Seq<u8> {
    if s.len() > 0 && s.last() == CARRIAGE_RETURN {
        s.drop_last()
    } else {
        s
    }
}

/// The lines of a text: the segments between newlines, each stripped of a
/// trailing carriage return. Text after the final newline forms a last
/// line of its own; a final newline does not open an empty line.
pub open spec fn split_lines(s: Seq<u8>) -> Seq<Seq<u8>>
    decreases s.len(),
{
    if s.len() == 0 {
        Seq::empty()
    } else {
        match s.index_of_first(NEWLINE) {
            Some(i) => if 0 <= i < s.len() {
                seq![strip_cr(s.take(i))] + split_lines(s.skip(i + 1))
            } else {
                seq![s]
            },
            None => seq![s],
        }
    }
}

/// Strip one trailing carriage return, if present.
pub fn strip_cr_vec(line: Vec<u8>) -> (r: Vec<u8>)
    ensures
        r@ == strip_cr(line@),
{
    let mut line = line;
    let ghost orig = line@;
    if line.len() > 0 && line[line.len() - 1] == CARRIAGE_RETURN {
        line.pop();
        proof {
            assert(line@ =~= strip_cr(orig));
        }
    }
    line
}

/// Split a text into its lines.
pub fn split_lines_vec(text: &Vec<u8>) -> (r: Vec<Vec<u8>>)
    ensures
        r.deep_view() == split_lines(text@),
{
    let mut r: Vec<Vec<u8>> = Vec::new();
    let mut cur: Vec<u8> = Vec::new();
    let mut start: usize = 0;
    let mut i: usize = 0;
    proof {
        assert(text@.skip(0) =~= text@);
        assert(r.deep_view() =~= Seq::<Seq<u8>>::empty());
        assert(r.deep_view() + split_lines(text@.skip(0)) =~= split_lines(text@));
        assert(cur@ =~= text@.subrange(0, 0));
    }
    while i < text.len()
        invariant
            start <= i <= text@.len(),
            cur@ == text@.subrange(start as int, i as int),
            forall|j: int| start <= j < i ==> text@[j] != NEWLINE,
            split_lines(text@) == r.deep_view() + split_lines(text@.skip(start as int)),
        decreases text@.len() - i,
    {
        let b = text[i];
        if b == NEWLINE {
            proof {
                let rest = text@.skip(start as int);
                rest.index_of_first_ensures(NEWLINE);
                assert(rest[i - start] == NEWLINE);
                assert(rest.contains(NEWLINE));
                match rest.index_of_first(NEWLINE) {
                    Some(w) => {
                        if w < i - start {
                            assert(text@[w + start] != NEWLINE);
                            assert(rest[w] == NEWLINE);
                            assert(false);
                        }
                        if w > i - start {
                            assert(rest[i - start] != NEWLINE);
                            assert(false);
                        }
                        assert(rest.take(w) =~= cur@);
                        assert(rest.skip(w + 1) =~= text@.skip(i + 1));
                    },
                    None => {
                        assert(false);
                    },
                }
                assert(split_lines(rest) =~= seq![strip_cr(cur@)] + split_lines(
                    text@.skip(i + 1),
                ));
            }
            let ghost cur_view = cur@;
            let ghost r_view = r.deep_view();
            let line = strip_cr_vec(cur);
            proof {
                assert(line.deep_view() =~= line@);
            }
            r.push(line);
            proof {
                assert(r.deep_view() =~~= r_view.push(strip_cr(cur_view)));
                assert(r.deep_view() + split_lines(text@.skip(i + 1)) =~= split_lines(text@));
            }
            cur = Vec::new();
            start = i + 1;
            proof {
                assert(cur@ =~= text@.subrange(start as int, start as int));
            }
        } else {
            cur.push(b);
            proof {
                assert(cur@ =~= text@.subrange(start as int, i + 1));
            }
        }
        i = i + 1;
    }
    proof {
        let rest = text@.skip(start as int);
        assert(cur@ =~= rest);
        if rest.contains(NEWLINE) {
            let w: int = choose|w: int| 0 <= w < rest.len() && rest[w] == NEWLINE;
            assert(text@[w + start] != NEWLINE);
            assert(rest[w] == NEWLINE);
        }
        rest.index_of_first_ensures(NEWLINE);
    }
    if cur.len() > 0 {
        let ghost r_view = r.deep_view();
        let ghost cur_view = cur@;
        r.push(cur);
        proof {
            assert(split_lines(text@.skip(start as int)) =~= seq![cur_view]);
            assert(r.deep_view() =~~= r_view.push(cur_view));
            assert(r.deep_view() =~= split_lines(text@));
        }
    } else {
        proof {
            assert(split_lines(text@.skip(start as int)) =~= Seq::<Seq<u8>>::empty());
            assert(r.deep_view() =~= split_lines(text@));
        }
    }
    r
}

/// The text whose lines are the given ones, each closed by a newline.
pub open spec fn join_lines(lines: Seq<Seq<u8>>) -> Seq<u8>
    decreases lines.len(),
{
    if lines.len() == 0 {
        Seq::empty()
    } else {
        join_lines(lines.drop_last()) + lines.last() + seq![NEWLINE]
    }
}

/// Serialize lines back into a newline-terminated text.
pub fn join_lines_vec(lines: &Vec<Vec<u8>>) -> (r: Vec<u8>)
    ensures
        r@ == join_lines(lines.deep_view()),
{
    let mut r: Vec<u8> = Vec::new();
    let mut i: usize = 0;
    proof {
        assert(lines.deep_view().take(0) =~= Seq::<Seq<u8>>::empty());
        assert(r@ =~= join_lines(lines.deep_view().take(0)));
    }
    while i < lines.len()
        invariant
            i <= lines@.len(),
            lines@.len() == lines.deep_view().len(),
            r@ == join_lines(lines.deep_view().take(i as int)),
        decreases lines@.len() - i,
    {
        let mut line = lines[i].clone();
        proof {
            assert(line@ =~= lines.deep_view()[i as int]);
        }
        r.append(&mut line);
        r.push(NEWLINE);
        proof {
            let prefix = lines.deep_view().take(i + 1);
            assert(prefix.drop_last() =~= lines.deep_view().take(i as int));
            assert(prefix.last() == lines.deep_view()[i as int]);
            assert(r@ =~= join_lines(prefix));
        }
        i = i + 1;
    }
    proof {
        assert(lines.deep_view().take(lines@.len() as int) =~= lines.deep_view());
    }
    r
}

/// The parts joined by a single separator byte, in order.
pub open spec fn join_with(parts: Seq<Seq<u8>>, sep: u8) -> Seq<u8>
    decreases parts.len(),
{
    if parts.len() == 0 {
        Seq::empty()
    } else if parts.len() == 1 {
        parts[0]
    } else {
        join_with(parts.drop_last(), sep) + seq![sep] + parts.last()
    }
}

/// Join byte strings with a separator byte.
pub fn join_with_vec(parts: &Vec<Vec<u8>>, sep: u8) -> (r: Vec<u8>)
    ensures
        r@ == join_with(parts.deep_view(), sep),
{
    let mut r: Vec<u8> = Vec::new();
    let mut i: usize = 0;
    proof {
        assert(parts.deep_view().take(0) =~= Seq::<Seq<u8>>::empty());
        assert(r@ =~= join_with(parts.deep_view().take(0), sep));
    }
    while i < parts.len()
        invariant
            i <= parts@.len(),
            parts@.len() == parts.deep_view().len(),
            r@ == join_with(parts.deep_view().take(i as int), sep),
        decreases parts@.len() - i,
    {
        if i > 0 {
            r.push(sep);
        }
        let mut part = parts[i].clone();
        proof {
            assert(part@ =~= parts.deep_view()[i as int]);
        }
        r.append(&mut part);
        proof {
            let prefix = parts.deep_view().take(i + 1);
            assert(prefix.drop_last() =~= parts.deep_view().take(i as int));
            assert(prefix.last() == parts.deep_view()[i as int]);
            assert(r@ =~= join_with(prefix, sep));
        }
        i = i + 1;
    }
    proof {
        assert(parts.deep_view().take(parts@.len() as int) =~= parts.deep_view());
    }
    r
}

/// The decimal digits of a number, most significant first.
pub open spec fn dec_repr(n: nat) -> Seq<u8>
    decreases n,
{
    if n < 10 {
        seq![(0x30 + n) as u8]
    } else {
        dec_repr(n / 10).push((0x30 + n % 10) as u8)
    }
}

/// Format a number in decimal.
pub fn fmt_u64(n: u64) -> (r: Vec<u8>)
    ensures
        r@ == dec_repr(n as nat),
    decreases n,
{
    if n < 10 {
        let mut r: Vec<u8> = Vec::new();
        r.push(0x30 + (n as u8));
        proof {
            assert(r@ =~= dec_repr(n as nat));
        }
        r
    } else {
        let mut r = fmt_u64(n / 10);
        r.push(0x30 + ((n % 10) as u8));
        proof {
            assert(r@ =~= dec_repr(n as nat));
        }
        r
    }
}

/// Compare two byte strings.
pub fn bytes_equal(a: &Vec<u8>, b: &Vec<u8>) -> (r: bool)
    ensures
        r == (a@ == b@),
{
    if a.len() != b.len() {
        return false;
    }
    let mut i: usize = 0;
    while i < a.len()
        invariant
            i <= a@.len(),
            a@.len() == b@.len(),
            forall|j: int| 0 <= j < i ==> a@[j] == b@[j],
        decreases a@.len() - i,
    {
        if a[i] != b[i] {
            return false;
        }
        i = i + 1;
    }
    proof {
        assert(a@ =~= b@);
    }
    true
}

/// Find the first occurrence of a byte at or after a position.
pub fn find_byte(s: &Vec<u8>, from: usize, b: u8) -> (r: Option<usize>)
    requires
        from <= s@.len(),
    ensures
        match r {
            Some(i) => s@.skip(from as int).index_of_first(b) == Some(i as int - from as int)
                && from <= i < s@.len(),
            None => s@.skip(from as int).index_of_first(b) is None,
        },
{
    let ghost tail = s@.skip(from as int);
    let mut i: usize = from;
    while i < s.len()
        invariant
            from <= i <= s@.len(),
            tail == s@.skip(from as int),
            forall|j: int| from <= j < i ==> s@[j] != b,
        decreases s@.len() - i,
    {
        if s[i] == b {
            proof {
                tail.index_of_first_ensures(b);
                assert(tail[i - from] == b);
                assert(tail.contains(b));
                match tail.index_of_first(b) {
                    Some(w) => {
                        if w < i - from {
                            assert(s@[w + from] != b);
                            assert(tail[w] == b);
                            assert(false);
                        }
                        if w > i - from {
                            assert(tail[i - from] != b);
                            assert(false);
                        }
                    },
                    None => {
                        assert(false);
                    },
                }
            }
            return Some(i);
        }
        i = i + 1;
    }
    proof {
        tail.index_of_first_ensures(b);
        if tail.contains(b) {
            let w: int = choose|w: int| 0 <= w < tail.len() && tail[w] == b;
            assert(s@[w + from] != b);
            assert(tail[w] == b);
        }
    }
    None
}

/// Copy a byte range out of a string.
pub fn copy_range(s: &Vec<u8>, start: usize, end: usize) -> (r: Vec<u8>)
    requires
        start <= end <= s@.len(),
    ensures
        r@ == s@.subrange(start as int, end as int),
{
    let mut r: Vec<u8> = Vec::new();
    let mut k: usize = start;
    while k < end
        invariant
            start <= k <= end <= s@.len(),
            r@ == s@.subrange(start as int, k as int),
        decreases end - k,
    {
        r.push(s[k]);
        proof {
            assert(r@ =~= s@.subrange(start as int, k + 1));
        }
        k = k + 1;
    }
    r
}

/// The bytes of a string literal, for building messages and arguments.
pub fn str_bytes(s: &str) -> (r: Vec<u8>)
    ensures
        r@ == s.spec_bytes(),
{
    s.as_bytes_vec()
}

/// The bytes of a path extended by one more component.
pub open spec fn path_joined(dir: Seq<u8>, component: Seq<u8>) -> Seq<u8> {
    dir + seq![SLASH] + component
}

/// Append one component to a directory path.
pub fn path_join(dir: &Vec<u8>, component: &str) -> (r: Vec<u8>)
    ensures
        r@ == path_joined(dir@, component.spec_bytes()),
{
    let mut r = dir.clone();
    r.push(SLASH);
    let mut c = component.as_bytes_vec();
    r.append(&mut c);
    proof {
        assert(r@ =~= path_joined(dir@, component.spec_bytes()));
    }
    r
}

/// Append one component, given as bytes, to a directory path.
pub fn path_join_bytes(dir: &Vec<u8>, component: &Vec<u8>) -> (r: Vec<u8>)
    ensures
        r@ == path_joined(dir@, component@),
{
    let mut r = dir.clone();
    r.push(SLASH);
    let mut c = component.clone();
    r.append(&mut c);
    proof {
        assert(r@ =~= path_joined(dir@, component@));
    }
    r
}

/// Index of the last path separator, if any.
fn last_slash_index(p: &Vec<u8>) -> (r: Option<usize>)
    ensures
        match r {
            Some(i) => p@.index_of_last(SLASH) == Some(i as int),
            None => p@.index_of_last(SLASH) is None,
        },
{
    proof {
        p@.index_of_last_ensures(SLASH);
    }
    let mut i: usize = p.len();
    while i > 0
        invariant
            i <= p@.len(),
            forall|j: int| i <= j < p@.len() ==> p@[j] != SLASH,
        decreases i,
    {
        if p[i - 1] == SLASH {
            proof {
                p@.index_of_last_ensures(SLASH);
                assert(p@[i - 1] == SLASH);
                assert(p@.contains(SLASH));
                match p@.index_of_last(SLASH) {
                    Some(w) => {
                        if w < i - 1 {
                            assert(p@[i - 1] != SLASH);
                            assert(false);
                        }
                        if w > i - 1 {
                            assert(p@[w] != SLASH);
                            assert(false);
                        }
                    },
                    None => {
                        assert(false);
                    },
                }
            }
            return Some(i - 1);
        }
        i = i - 1;
    }
    proof {
        p@.index_of_last_ensures(SLASH);
        if p@.contains(SLASH) {
            let w: int = choose|w: int| 0 <= w < p@.len() && p@[w] == SLASH;
            assert(p@[w] != SLASH);
        }
    }
    None
}

/// The directory part of a path: everything before the last separator,
/// or the empty path when the path is a single component.
pub open spec fn path_parent_of(p: Seq<u8>) -> Seq<u8> {
    match p.index_of_last(SLASH) {
        Some(i) => p.take(i),
        None => Seq::empty(),
    }
}

/// Drop the last component of a path.
pub fn path_parent(p: &Vec<u8>) -> (r: Vec<u8>)
    ensures
        r@ == path_parent_of(p@),
{
    match last_slash_index(p) {
        Some(i) => {
            proof {
                p@.index_of_last_ensures(SLASH);
                assert(i < p@.len());
            }
            let mut r: Vec<u8> = Vec::new();
            let mut k: usize = 0;
            while k < i
                invariant
                    k <= i < p@.len(),
                    r@ == p@.take(k as int),
                decreases i - k,
            {
                r.push(p[k]);
                proof {
                    assert(r@ =~= p@.take(k + 1));
                }
                k = k + 1;
            }
            proof {
                p@.index_of_last_ensures(SLASH);
            }
            r
        },
        None => {
            let r: Vec<u8> = Vec::new();
            proof {
                assert(r@ =~= path_parent_of(p@));
            }
            r
        },
    }
}

/// The final component of a path: everything after the last separator.
pub open spec fn path_file_name_of(p: Seq<u8>) -> Seq<u8> {
    match p.index_of_last(SLASH) {
        Some(i) => p.skip(i + 1),
        None => p,
    }
}

/// Whether the path's final component equals the given name.
pub fn path_ends_with_component(p: &Vec<u8>, name: &str) -> (r: bool)
    ensures
        r == (path_file_name_of(p@) == name.spec_bytes()),
{
    proof {
        p@.index_of_last_ensures(SLASH);
    }
    match last_slash_index(p) {
        Some(i) => {
            proof {
                p@.index_of_last_ensures(SLASH);
                assert(p.len() == p@.len());
                assert(i + 1 <= p@.len());
            }
            tail_equals(p, i + 1, name)
        },
        None => {
            proof {
                assert(p@.skip(0) =~= p@);
            }
            tail_equals(p, 0, name)
        },
    }
}

/// Whether the path's suffix starting at `from` equals the given name.
fn tail_equals(p: &Vec<u8>, from: usize, name: &str) -> (r: bool)
    requires
        from <= p@.len(),
    ensures
        r == (p@.skip(from as int) == name.spec_bytes()),
{
    let name_bytes = name.as_bytes_vec();
    if p.len() - from != name_bytes.len() {
        proof {
            assert(p@.skip(from as int).len() != name.spec_bytes().len());
        }
        return false;
    }
    let mut k: usize = 0;
    while k < name_bytes.len()
        invariant
            k <= name_bytes@.len(),
            from + name_bytes@.len() == p@.len(),
            p@.len() <= usize::MAX,
            name_bytes@ == name.spec_bytes(),
            forall|j: int| 0 <= j < k ==> p@[from + j] == name_bytes@[j],
        decreases name_bytes@.len() - k,
    {
        if p[from + k] != name_bytes[k] {
            proof {
                assert(p@.skip(from as int)[k as int] != name.spec_bytes()[k as int]);
            }
            return false;
        }
        k = k + 1;
    }
    proof {
        assert(p@.skip(from as int) =~= name.spec_bytes());
    }
    true
}

} // verus!
