//! Reading what the operating system reports: the live mount table and the
//! output of a device probe.

use vstd::prelude::*;

use crate::text::chars_of;

verus! {

/// A white-space character in the sense of Unicode's `White_Space` property.
pub open spec fn is_white(c: char) -> bool {
    let v = c as u32;
    (9 <= v <= 13) || v == 32 || v == 0x85 || v == 0xa0 || v == 0x1680 || (0x2000 <= v <= 0x200a)
        || v == 0x2028 || v == 0x2029 || v == 0x202f || v == 0x205f || v == 0x3000
}

/// `r` is `s` without its leading and trailing white space.
pub open spec fn is_trim_of(r: Seq<char>, s: Seq<char>) -> bool {
    exists|a: int, b: int|
        0 <= a <= b <= s.len() && r == s.subrange(a, b) && (forall|k: int|
            0 <= k < a ==> is_white(#[trigger] s[k])) && (forall|k: int|
            b <= k < s.len() ==> is_white(#[trigger] s[k])) && (a < b ==> !is_white(s[a]) && !is_white(
            s[b - 1],
        ))
}

/// There is one way to trim a string.
pub proof fn lemma_trim_unique(r1: Seq<char>, r2: Seq<char>, s: Seq<char>)
    requires
        is_trim_of(r1, s),
        is_trim_of(r2, s),
    ensures
        r1 == r2,
{
    let (a1, b1) = choose|a: int, b: int|
        0 <= a <= b <= s.len() && r1 == s.subrange(a, b) && (forall|k: int|
            0 <= k < a ==> is_white(#[trigger] s[k])) && (forall|k: int|
            b <= k < s.len() ==> is_white(#[trigger] s[k])) && (a < b ==> !is_white(s[a]) && !is_white(
            s[b - 1],
        ));
    let (a2, b2) = choose|a: int, b: int|
        0 <= a <= b <= s.len() && r2 == s.subrange(a, b) && (forall|k: int|
            0 <= k < a ==> is_white(#[trigger] s[k])) && (forall|k: int|
            b <= k < s.len() ==> is_white(#[trigger] s[k])) && (a < b ==> !is_white(s[a]) && !is_white(
            s[b - 1],
        ));
    if a1 < b1 && a2 < b2 {
        assert(a1 == a2);
        assert(b1 == b2);
    } else if a1 < b1 {
        assert(!is_white(s[a1]));
        if a1 < a2 {
        } else {
            assert(is_white(s[a1]));
        }
    } else if a2 < b2 {
        assert(!is_white(s[a2]));
        if a2 < a1 {
        } else {
            assert(is_white(s[a2]));
        }
    } else {
        assert(r1 =~= r2);
    }
}

fn white(c: char) -> (r: bool)
    ensures
        r == is_white(c),
{
    let v = c as u32;
    (9 <= v && v <= 13) || v == 32 || v == 0x85 || v == 0xa0 || v == 0x1680 || (0x2000 <= v && v
        <= 0x200a) || v == 0x2028 || v == 0x2029 || v == 0x202f || v == 0x205f || v == 0x3000
}

/// `s` without its leading and trailing white space.
pub fn trim_white(s: &str) -> (r: String)
    ensures
        is_trim_of(r@, s@),
{
    let cs = chars_of(s);
    let n = cs.len();
    let mut a: usize = 0;
    while a < n && white(cs[a])
        invariant
            cs@ == s@,
            n == s@.len(),
            0 <= a <= n,
            forall|k: int| 0 <= k < a ==> is_white(#[trigger] s@[k]),
        decreases n - a,
    {
        a += 1;
    }
    let mut b: usize = n;
    while b > a && white(cs[b - 1])
        invariant
            cs@ == s@,
            n == s@.len(),
            0 <= a <= b <= n,
            forall|k: int| b <= k < n ==> is_white(#[trigger] s@[k]),
            a < n ==> !is_white(s@[a as int]),
        decreases b,
    {
        b -= 1;
    }
    let r = s.substring_char(a, b).to_owned();
    assert(is_trim_of(r@, s@)) by {
        assert(r@ == s@.subrange(a as int, b as int));
    }
    r
}

/// The UUID a probe reported: its output without surrounding white space,
/// provided the probe succeeded and printed something.
pub open spec fn probe_uuid_spec(success: bool, stdout: Seq<char>, r: Option<Seq<char>>) -> bool {
    match r {
        Some(u) => success && is_trim_of(u, stdout) && u.len() > 0,
        None => !success || is_trim_of(Seq::<char>::empty(), stdout),
    }
}

/// Reads the filesystem UUID out of a probe's exit status and output.
pub fn parse_probe_output(success: bool, stdout: &str) -> (r: Option<String>)
    ensures
        probe_uuid_spec(success, stdout@, match r {
            Some(u) => Some(u@),
            None => None,
        }),
{
    if !success {
        return None;
    }
    let t = trim_white(stdout);
    if t.as_str().unicode_len() == 0 {
        assert(t@ =~= Seq::<char>::empty());
        None
    } else {
        Some(t)
    }
}

/// Position `i` of `s` begins a line.
pub open spec fn line_start(s: Seq<char>, i: int) -> bool {
    0 <= i < s.len() && (i == 0 || s[i - 1] == '\n')
}

/// A character that ends a field of a mount table line.
pub open spec fn is_field_end(c: char) -> bool {
    c == ' ' || c == '\t' || c == '\n'
}

/// `d` can be a whole field: it is not empty and holds no separator.
pub open spec fn is_field(d: Seq<char>) -> bool {
    d.len() > 0 && forall|k: int| 0 <= k < d.len() ==> !is_field_end(#[trigger] d[k])
}

/// The first field of the line of `s` that begins at `i` is `d`.
pub open spec fn first_field_is(s: Seq<char>, i: int, d: Seq<char>) -> bool {
    &&& line_start(s, i)
    &&& i + d.len() <= s.len()
    &&& s.subrange(i, i + d.len()) == d
    &&& (i + d.len() == s.len() || is_field_end(s[i + d.len()]))
}

/// The mount table `s` has a line whose first field, the mounted device, is `d`.
pub open spec fn mount_table_lists(s: Seq<char>, d: Seq<char>) -> bool {
    is_field(d) && exists|i: int| first_field_is(s, i, d)
}

fn field_end(c: char) -> (r: bool)
    ensures
        r == is_field_end(c),
{
    c == ' ' || c == '\t' || c == '\n'
}

/// Whether the mount table text `mounts` lists `devnode` as a mounted
/// device: some line's first field, up to a space, tab or line end, is
/// exactly `devnode`. A partition such as `/dev/sdb1` does not count for
/// the disk `/dev/sdb`.
pub fn is_listed_mounted(mounts: &str, devnode: &str) -> (r: bool)
    ensures
        r == mount_table_lists(mounts@, devnode@),
{
    let s = chars_of(mounts);
    let d = chars_of(devnode);
    let n = s.len();
    let m = d.len();
    if m == 0 {
        return false;
    }
    let mut k: usize = 0;
    while k < m
        invariant
            d@ == devnode@,
            m == d@.len(),
            0 <= k <= m,
            forall|j: int| 0 <= j < k ==> !is_field_end(#[trigger] d@[j]),
        decreases m - k,
    {
        if field_end(d[k]) {
            return false;
        }
        k += 1;
    }
    let mut i: usize = 0;
    while i < n
        invariant
            s@ == mounts@,
            d@ == devnode@,
            n == s@.len(),
            m == d@.len(),
            is_field(d@),
            0 <= i <= n,
            forall|j: int| 0 <= j < i ==> !first_field_is(s@, j, d@),
        decreases n - i,
    {
        if (i == 0 || s[i - 1] == '\n') && m <= n - i {
            let mut k: usize = 0;
            while k < m && s[i + k] == d[k]
                invariant
                    s@ == mounts@,
                    d@ == devnode@,
                    n == s@.len(),
                    m == d@.len(),
                    i + m <= n,
                    0 <= k <= m,
                    forall|j: int| 0 <= j < k ==> s@[i + j] == d@[j],
                decreases m - k,
            {
                k += 1;
            }
            if k == m && (i + m == n || field_end(s[i + m])) {
                assert(s@.subrange(i as int, i + m) =~= d@);
                assert(first_field_is(s@, i as int, d@));
                return true;
            }
            assert(!first_field_is(s@, i as int, d@)) by {
                if s@.subrange(i as int, i + m) == d@ && k < m {
                    assert(s@.subrange(i as int, i + m)[k as int] == s@[i + k]);
                }
            }
        }
        i += 1;
    }
    false
}

} // verus!
