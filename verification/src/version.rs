//! Dotted numeric versions and their order.

use vstd::prelude::*;
use crate::text::{run_len, scan_until};

verus! {

/// The decimal digits `0` to `9`.
pub open spec fn is_digit(c: char) -> bool {
    0x30 <= c as u32 <= 0x39
}

/// The number that a decimal digit stands for.
pub open spec fn digit_value(c: char) -> nat {
    (c as u32 - 0x30) as nat
}

/// Every character of `s` is a decimal digit.
pub open spec fn all_digits(s: Seq<char>) -> bool {
    forall|i: int| 0 <= i < s.len() ==> is_digit(#[trigger] s[i])
}

/// The number that a string of decimal digits writes.
pub open spec fn decimal_value(s: Seq<char>) -> nat
    decreases s.len(),
{
    if s.len() == 0 {
        0
    } else {
        decimal_value(s.drop_last()) * 10 + digit_value(s.last())
    }
}

/// `s` without one leading plus sign.
pub open spec fn unsigned_digits(s: Seq<char>) -> Seq<char> {
    if s.len() > 0 && s[0] == '+' {
        s.drop_first()
    } else {
        s
    }
}

/// The value of one component of a version: the number it writes in decimal
/// digits, after an optional plus sign, where it writes one that fits in 64
/// bits; zero for anything else.
pub open spec fn component_value(s: Seq<char>) -> u64 {
    let d = unsigned_digits(s);
    if d.len() > 0 && all_digits(d) && decimal_value(d) <= u64::MAX {
        decimal_value(d) as u64
    } else {
        0
    }
}

/// `s` without one leading `v`.
pub open spec fn without_v(s: Seq<char>) -> Seq<char> {
    if s.len() > 0 && s[0] == 'v' {
        s.drop_first()
    } else {
        s
    }
}

/// The values of the components of `s`, which are separated by dots. A string
/// without a dot is one component, the empty string too.
pub open spec fn dotted_values(s: Seq<char>) -> Seq<u64>
    decreases s.len(),
{
    let e = run_len(s, set!['.']);
    if e >= s.len() {
        seq![component_value(s)]
    } else {
        seq![component_value(s.take(e as int))] + dotted_values(s.skip(e as int + 1))
    }
}

/// The tuple that a version string stands for.
pub open spec fn version_parts(s: Seq<char>) -> Seq<u64> {
    dotted_values(without_v(s))
}

/// Component `i` of a tuple, zero beyond its end.
pub open spec fn part_at(v: Seq<u64>, i: int) -> u64 {
    if 0 <= i < v.len() {
        v[i]
    } else {
        0
    }
}

/// `a` is newer than `b`: at the first component where they differ, `a` has
/// the larger number.
pub open spec fn newer(a: Seq<u64>, b: Seq<u64>) -> bool {
    exists|i: int|
        0 <= i && #[trigger] part_at(a, i) > part_at(b, i) && forall|j: int|
            0 <= j < i ==> #[trigger] part_at(a, j) == part_at(b, j)
}

proof fn lemma_decimal_value_grows(s: Seq<char>, k: int)
    requires
        0 <= k <= s.len(),
    ensures
        decimal_value(s.take(k)) <= decimal_value(s),
    decreases s.len() - k,
{
    if k == s.len() {
        assert(s.take(k) =~= s);
    } else {
        lemma_decimal_value_grows(s, k + 1);
        assert(s.take(k + 1).drop_last() =~= s.take(k));
    }
}

/// The value of the component that stands in `s` from `from` up to `to`.
pub fn parse_component(s: &str, from: usize, to: usize) -> (r: u64)
    requires
        from <= to <= s@.len(),
    ensures
        r == component_value(s@.subrange(from as int, to as int)),
{
    let ghost part = s@.subrange(from as int, to as int);
    let mut start: usize = from;
    if from < to && s.get_char(from) == '+' {
        start = from + 1;
    }
    let ghost d = unsigned_digits(part);
    proof {
        if from < to {
            assert(part[0] == s@[from as int]);
        }
        assert(d =~= s@.subrange(start as int, to as int));
    }
    if start == to {
        return 0;
    }
    let mut acc: u64 = 0;
    let mut i: usize = start;
    while i < to
        invariant
            from <= start <= i <= to <= s@.len(),
            start < to,
            part == s@.subrange(from as int, to as int),
            d == unsigned_digits(part),
            d == s@.subrange(start as int, to as int),
            all_digits(d.take(i - start)),
            acc == decimal_value(d.take(i - start)),
        decreases to - i,
    {
        let c: char = s.get_char(i);
        let u: u32 = c as u32;
        assert(d[i - start] == c);
        if u < 0x30 || u > 0x39 {
            assert(!is_digit(d[i - start]));
            return 0;
        }
        let v: u64 = (u - 0x30) as u64;
        proof {
            let next = d.take(i - start + 1);
            assert(next.drop_last() =~= d.take(i - start));
            assert(next.last() == c);
            assert(decimal_value(next) == acc * 10 + v);
            assert forall|j: int| 0 <= j < next.len() implies is_digit(#[trigger] next[j]) by {
                if j < i - start {
                    assert(next[j] == d.take(i - start)[j]);
                }
            }
            lemma_decimal_value_grows(d, i - start + 1);
        }
        if acc > (u64::MAX - v) / 10 {
            return 0;
        }
        acc = acc * 10 + v;
        i = i + 1;
    }
    proof {
        assert(d.take(to - start) =~= d);
    }
    acc
}

/// Splits a version string into its components and reads each as a number.
/// One leading `v` is skipped. A component that is no number counts as zero.
pub fn parse_version_parts(version: &str) -> (parts: Vec<u64>)
    ensures
        parts@ == version_parts(version@),
        parts@.len() >= 1,
{
    let n: usize = version.unicode_len();
    let mut pos: usize = 0;
    if n > 0 && version.get_char(0) == 'v' {
        pos = 1;
    }
    let ghost body = without_v(version@);
    let ghost start = pos;
    assert(body =~= version@.skip(pos as int));
    let mut parts: Vec<u64> = Vec::new();
    loop
        invariant_except_break
            start <= pos <= n,
            n == version@.len(),
            parts@ + dotted_values(version@.skip(pos as int)) == version_parts(version@),
        ensures
            parts@ == version_parts(version@),
            parts@.len() >= 1,
        decreases n - pos,
    {
        assert(set!['.', '.', '.'] =~= set!['.']);
        let end: usize = scan_until(version, pos, '.', '.', '.');
        let value: u64 = parse_component(version, pos, end);
        let ghost rest = version@.skip(pos as int);
        let ghost before = parts@;
        parts.push(value);
        proof {
            assert(rest.take(end - pos) =~= version@.subrange(pos as int, end as int));
        }
        if end >= n {
            proof {
                assert(rest.take(end - pos) =~= rest);
                assert(before + seq![value] =~= parts@);
            }
            break ;
        }
        proof {
            assert(rest.skip(end - pos + 1) =~= version@.skip(end + 1));
            assert(before + (seq![value] + dotted_values(version@.skip(end + 1))) =~= parts@
                + dotted_values(version@.skip(end + 1)));
        }
        pos = end + 1;
    }
    parts
}

fn part_or_zero(v: &Vec<u64>, i: usize) -> (r: u64)
    ensures
        r == part_at(v@, i as int),
{
    if i < v.len() {
        v[i]
    } else {
        0
    }
}

/// Whether the tuple `latest` is newer than the tuple `current`.
pub fn newer_parts(latest: &Vec<u64>, current: &Vec<u64>) -> (r: bool)
    ensures
        r == newer(latest@, current@),
{
    let max_len: usize = if latest.len() > current.len() {
        latest.len()
    } else {
        current.len()
    };
    let mut idx: usize = 0;
    while idx < max_len
        invariant
            idx <= max_len,
            max_len >= latest@.len(),
            max_len >= current@.len(),
            forall|j: int| 0 <= j < idx ==> #[trigger] part_at(latest@, j) == part_at(current@, j),
        decreases max_len - idx,
    {
        let left: u64 = part_or_zero(latest, idx);
        let right: u64 = part_or_zero(current, idx);
        if left > right {
            assert(part_at(latest@, idx as int) > part_at(current@, idx as int));
            return true;
        }
        if left < right {
            assert(!newer(latest@, current@)) by {
                if newer(latest@, current@) {
                    let i = choose|i: int|
                        0 <= i && #[trigger] part_at(latest@, i) > part_at(current@, i)
                            && forall|j: int|
                            0 <= j < i ==> #[trigger] part_at(latest@, j) == part_at(current@, j);
                    if i > idx {
                        assert(part_at(latest@, idx as int) == part_at(current@, idx as int));
                    }
                }
            }
            return false;
        }
        idx = idx + 1;
    }
    assert(!newer(latest@, current@)) by {
        if newer(latest@, current@) {
            let i = choose|i: int|
                0 <= i && #[trigger] part_at(latest@, i) > part_at(current@, i) && forall|j: int|
                    0 <= j < i ==> #[trigger] part_at(latest@, j) == part_at(current@, j);
            assert(i < idx || i >= max_len);
        }
    }
    false
}

/// Whether the version `latest` is newer than the version `current`.
pub fn is_newer_version(latest: &str, current: &str) -> (r: bool)
    ensures
        r == newer(version_parts(latest@), version_parts(current@)),
{
    let latest_parts = parse_version_parts(latest);
    let current_parts = parse_version_parts(current);
    newer_parts(&latest_parts, &current_parts)
}

/// No version is newer than itself, and of two versions at most one is newer
/// than the other.
pub proof fn lemma_newer_is_strict(a: Seq<u64>, b: Seq<u64>)
    ensures
        !newer(a, a),
        newer(a, b) ==> !newer(b, a),
{
    if newer(a, b) && newer(b, a) {
        let i = choose|i: int|
            0 <= i && #[trigger] part_at(a, i) > part_at(b, i) && forall|j: int|
                0 <= j < i ==> #[trigger] part_at(a, j) == part_at(b, j);
        let k = choose|k: int|
            0 <= k && #[trigger] part_at(b, k) > part_at(a, k) && forall|j: int|
                0 <= j < k ==> #[trigger] part_at(b, j) == part_at(a, j);
        if i < k {
            assert(part_at(b, i) == part_at(a, i));
        } else if k < i {
            assert(part_at(a, k) == part_at(b, k));
        }
    }
}

proof fn lemma_newer_by_parts(a: Seq<u64>, b: Seq<u64>, c: Seq<u64>, d: Seq<u64>)
    requires
        forall|i: int| part_at(a, i) == part_at(c, i),
        forall|i: int| part_at(b, i) == part_at(d, i),
        newer(a, b),
    ensures
        newer(c, d),
{
    let i = choose|i: int|
        0 <= i && #[trigger] part_at(a, i) > part_at(b, i) && forall|j: int|
            0 <= j < i ==> #[trigger] part_at(a, j) == part_at(b, j);
    assert(part_at(a, i) == part_at(c, i));
    assert(part_at(b, i) == part_at(d, i));
    assert forall|j: int| 0 <= j < i implies #[trigger] part_at(c, j) == part_at(d, j) by {
        assert(part_at(a, j) == part_at(b, j));
        assert(part_at(a, j) == part_at(c, j));
        assert(part_at(b, j) == part_at(d, j));
    }
    assert(part_at(c, i) > part_at(d, i));
}

/// For versions of three components the order is that of major, then minor,
/// then patch.
pub proof fn lemma_newer_of_triples(a: Seq<u64>, b: Seq<u64>)
    requires
        a.len() == 3,
        b.len() == 3,
    ensures
        newer(a, b) <==> a[0] > b[0] || (a[0] == b[0] && a[1] > b[1]) || (a[0] == b[0] && a[1]
            == b[1] && a[2] > b[2]),
{
    if newer(a, b) {
        let i = choose|i: int|
            0 <= i && #[trigger] part_at(a, i) > part_at(b, i) && forall|j: int|
                0 <= j < i ==> #[trigger] part_at(a, j) == part_at(b, j);
        if i >= 1 {
            assert(part_at(a, 0) == part_at(b, 0));
        }
        if i >= 2 {
            assert(part_at(a, 1) == part_at(b, 1));
        }
    }
    if a[0] > b[0] {
        assert(part_at(a, 0) > part_at(b, 0));
    } else if a[0] == b[0] && a[1] > b[1] {
        assert(part_at(a, 0) == part_at(b, 0));
        assert(part_at(a, 1) > part_at(b, 1));
    } else if a[0] == b[0] && a[1] == b[1] && a[2] > b[2] {
        assert(part_at(a, 0) == part_at(b, 0));
        assert(part_at(a, 1) == part_at(b, 1));
        assert(part_at(a, 2) > part_at(b, 2));
    }
}

/// Trailing zero components do not change how a version compares.
pub proof fn lemma_newer_ignores_trailing_zero(a: Seq<u64>, b: Seq<u64>)
    ensures
        newer(a.push(0), b) == newer(a, b),
        newer(a, b.push(0)) == newer(a, b),
{
    assert forall|i: int| part_at(a.push(0), i) == part_at(a, i) by {}
    assert forall|i: int| part_at(b.push(0), i) == part_at(b, i) by {}
    if newer(a, b) {
        lemma_newer_by_parts(a, b, a.push(0), b);
        lemma_newer_by_parts(a, b, a, b.push(0));
    }
    if newer(a.push(0), b) {
        lemma_newer_by_parts(a.push(0), b, a, b);
    }
    if newer(a, b.push(0)) {
        lemma_newer_by_parts(a, b.push(0), a, b);
    }
}

} // verus!
