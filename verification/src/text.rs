//! Character and string primitives shared by the parsers of this library.

use vstd::prelude::*;

verus! {

/// The code points with the Unicode property `White_Space`.
pub open spec fn is_space(c: char) -> bool {
    let u = c as u32;
    ||| 0x09 <= u <= 0x0D
    ||| u == 0x20
    ||| u == 0x85
    ||| u == 0xA0
    ||| u == 0x1680
    ||| 0x2000 <= u <= 0x200A
    ||| u == 0x2028
    ||| u == 0x2029
    ||| u == 0x202F
    ||| u == 0x205F
    ||| u == 0x3000
}

/// The characters of each string of a list.
pub open spec fn texts(list: Seq<String>) -> Seq<Seq<char>> {
    Seq::new(list.len(), |i: int| list[i]@)
}

/// `a` stands before `b`, or is `b`, in the order of strings: at the first
/// place where they differ `a` has the smaller code point, or `a` ends
/// there.
pub open spec fn text_le(a: Seq<char>, b: Seq<char>) -> bool
    decreases a.len(),
{
    if a.len() == 0 {
        true
    } else if b.len() == 0 {
        false
    } else if a[0] != b[0] {
        (a[0] as u32) < (b[0] as u32)
    } else {
        text_le(a.drop_first(), b.drop_first())
    }
}

/// `s` without its leading white space.
pub open spec fn skip_spaces(s: Seq<char>) -> Seq<char>
    decreases s.len(),
{
    if s.len() > 0 && is_space(s[0]) {
        skip_spaces(s.drop_first())
    } else {
        s
    }
}

/// `s` without its trailing white space.
pub open spec fn drop_trailing_spaces(s: Seq<char>) -> Seq<char>
    decreases s.len(),
{
    if s.len() > 0 && is_space(s.last()) {
        drop_trailing_spaces(s.drop_last())
    } else {
        s
    }
}

/// `s` without leading and trailing white space.
pub open spec fn trimmed(s: Seq<char>) -> Seq<char> {
    drop_trailing_spaces(skip_spaces(s))
}

/// `s` with every leading copy of `prefix` removed.
pub open spec fn strip_repeated(s: Seq<char>, prefix: Seq<char>) -> Seq<char>
    decreases s.len(),
{
    if prefix.len() > 0 && prefix.is_prefix_of(s) {
        strip_repeated(s.skip(prefix.len() as int), prefix)
    } else {
        s
    }
}

/// Number of characters of `s` before the first one that is in `stop`,
/// or the length of `s` where none is.
pub open spec fn run_len(s: Seq<char>, stop: Set<char>) -> nat
    decreases s.len(),
{
    if s.len() == 0 || stop.contains(s[0]) {
        0
    } else {
        1 + run_len(s.drop_first(), stop)
    }
}

/// Whether a character is white space.
pub fn char_is_space(c: char) -> (r: bool)
    ensures
        r == is_space(c),
{
    let u: u32 = c as u32;
    (0x09 <= u && u <= 0x0D) || u == 0x20 || u == 0x85 || u == 0xA0 || u == 0x1680 || (0x2000 <= u
        && u <= 0x200A) || u == 0x2028 || u == 0x2029 || u == 0x202F || u == 0x205F || u == 0x3000
}

/// What `run_len` counts: a stretch free of stopping characters that ends
/// at the first stopping character or at the end of `s`.
pub proof fn lemma_run_len(s: Seq<char>, stop: Set<char>)
    ensures
        run_len(s, stop) <= s.len(),
        forall|i: int| 0 <= i < run_len(s, stop) ==> !stop.contains(#[trigger] s[i]),
        run_len(s, stop) < s.len() ==> stop.contains(s[run_len(s, stop) as int]),
    decreases s.len(),
{
    if s.len() == 0 || stop.contains(s[0]) {
    } else {
        let t = s.drop_first();
        lemma_run_len(t, stop);
        assert forall|i: int| 0 <= i < run_len(s, stop) implies !stop.contains(#[trigger] s[i]) by {
            if i > 0 {
                assert(s[i] == t[i - 1]);
            }
        }
        if run_len(s, stop) < s.len() {
            assert(t[run_len(t, stop) as int] == s[run_len(s, stop) as int]);
        }
    }
}

/// A stretch of `s` from `from` that is free of stopping characters and ends
/// at one, or at the end of `s`, is the run that `run_len` counts.
pub proof fn lemma_run_len_found(s: Seq<char>, stop: Set<char>, from: int, to: int)
    requires
        0 <= from <= to <= s.len(),
        forall|i: int| from <= i < to ==> !stop.contains(#[trigger] s[i]),
        to < s.len() ==> stop.contains(s[to]),
    ensures
        run_len(s.skip(from), stop) == to - from,
    decreases to - from,
{
    let t = s.skip(from);
    if from == to {
        if to < s.len() {
            assert(t[0] == s[to]);
        }
    } else {
        assert(t[0] == s[from]);
        assert(t.drop_first() =~= s.skip(from + 1));
        lemma_run_len_found(s, stop, from + 1, to);
    }
}

/// The part of `s` between its leading and its trailing white space.
pub fn trim(s: &str) -> (r: &str)
    ensures
        r@ == trimmed(s@),
{
    let n: usize = s.unicode_len();
    let mut a: usize = 0;
    assert(s@.subrange(0, n as int) =~= s@);
    while a < n && char_is_space(s.get_char(a))
        invariant
            a <= n,
            n == s@.len(),
            skip_spaces(s@) == skip_spaces(s@.subrange(a as int, n as int)),
        decreases n - a,
    {
        proof {
            let cur = s@.subrange(a as int, n as int);
            assert(cur[0] == s@[a as int]);
            assert(cur.drop_first() =~= s@.subrange(a + 1, n as int));
        }
        a = a + 1;
    }
    proof {
        let cur = s@.subrange(a as int, n as int);
        if a < n {
            assert(cur[0] == s@[a as int]);
        }
        assert(skip_spaces(cur) == cur);
    }
    let mut b: usize = n;
    while b > a && char_is_space(s.get_char(b - 1))
        invariant
            a <= b <= n,
            n == s@.len(),
            trimmed(s@) == drop_trailing_spaces(s@.subrange(a as int, b as int)),
        decreases b - a,
    {
        proof {
            let cur = s@.subrange(a as int, b as int);
            assert(cur.last() == s@[b - 1]);
            assert(cur.drop_last() =~= s@.subrange(a as int, b - 1));
        }
        b = b - 1;
    }
    proof {
        let cur = s@.subrange(a as int, b as int);
        if b > a {
            assert(cur.last() == s@[b - 1]);
        }
        assert(drop_trailing_spaces(cur) == cur);
    }
    s.substring_char(a, b)
}

/// Whether `prefix` stands in `s` at position `from`.
pub fn has_prefix_at(s: &str, from: usize, prefix: &str) -> (r: bool)
    requires
        from <= s@.len(),
    ensures
        r == prefix@.is_prefix_of(s@.skip(from as int)),
{
    let n: usize = s.unicode_len();
    let m: usize = prefix.unicode_len();
    if m > n - from {
        return false;
    }
    let mut i: usize = 0;
    while i < m
        invariant
            i <= m,
            m == prefix@.len(),
            n == s@.len(),
            from <= n,
            m <= n - from,
            forall|j: int| 0 <= j < i ==> prefix@[j] == s@[from + j],
        decreases m - i,
    {
        if prefix.get_char(i) != s.get_char(from + i) {
            proof {
                let t = s@.skip(from as int);
                assert(t[i as int] == s@[from + i]);
                if prefix@.is_prefix_of(t) {
                    assert(t.subrange(0, m as int)[i as int] == prefix@[i as int]);
                }
            }
            return false;
        }
        i = i + 1;
    }
    proof {
        let t = s@.skip(from as int);
        assert(t.subrange(0, m as int) =~= prefix@);
    }
    true
}

/// Number of white space characters at the start of `s`.
pub open spec fn leading_spaces(s: Seq<char>) -> nat
    decreases s.len(),
{
    if s.len() > 0 && is_space(s[0]) {
        1 + leading_spaces(s.drop_first())
    } else {
        0
    }
}

/// Number of white space characters at the end of `s`.
pub open spec fn trailing_spaces(s: Seq<char>) -> nat
    decreases s.len(),
{
    if s.len() > 0 && is_space(s.last()) {
        1 + trailing_spaces(s.drop_last())
    } else {
        0
    }
}

proof fn lemma_skip_spaces(s: Seq<char>)
    ensures
        leading_spaces(s) <= s.len(),
        skip_spaces(s) == s.skip(leading_spaces(s) as int),
        forall|i: int| 0 <= i < leading_spaces(s) ==> is_space(#[trigger] s[i]),
        leading_spaces(s) < s.len() ==> !is_space(s[leading_spaces(s) as int]),
    decreases s.len(),
{
    if s.len() > 0 && is_space(s[0]) {
        let t = s.drop_first();
        lemma_skip_spaces(t);
        assert(t.skip(leading_spaces(t) as int) =~= s.skip(leading_spaces(s) as int));
        assert forall|i: int| 0 <= i < leading_spaces(s) implies is_space(#[trigger] s[i]) by {
            if i > 0 {
                assert(s[i] == t[i - 1]);
            }
        }
        if leading_spaces(s) < s.len() {
            assert(s[leading_spaces(s) as int] == t[leading_spaces(t) as int]);
        }
    } else {
        assert(s.skip(0) =~= s);
    }
}

proof fn lemma_drop_trailing_spaces(s: Seq<char>)
    ensures
        trailing_spaces(s) <= s.len(),
        drop_trailing_spaces(s) == s.take(s.len() - trailing_spaces(s)),
        forall|i: int| s.len() - trailing_spaces(s) <= i < s.len() ==> is_space(#[trigger] s[i]),
        trailing_spaces(s) < s.len() ==> !is_space(s[s.len() - trailing_spaces(s) - 1]),
    decreases s.len(),
{
    if s.len() > 0 && is_space(s.last()) {
        let t = s.drop_last();
        lemma_drop_trailing_spaces(t);
        assert(t.take(t.len() - trailing_spaces(t)) =~= s.take(s.len() - trailing_spaces(s)));
        assert forall|i: int| s.len() - trailing_spaces(s) <= i < s.len() implies is_space(
            #[trigger] s[i],
        ) by {
            if i < t.len() {
                assert(s[i] == t[i]);
            }
        }
        if trailing_spaces(s) < s.len() {
            assert(s[s.len() - trailing_spaces(s) - 1] == t[t.len() - trailing_spaces(t) - 1]);
        }
    } else {
        assert(s.take(s.len() as int) =~= s);
    }
}

/// The trimmed text is a stretch of the text; what is cut off at either end
/// is white space only; and what is left neither begins nor ends with white
/// space.
pub proof fn lemma_trimmed(s: Seq<char>)
    ensures
        exists|a: int, b: int|
            {
                &&& 0 <= a <= b <= s.len()
                &&& trimmed(s) == #[trigger] s.subrange(a, b)
                &&& forall|i: int| 0 <= i < a ==> is_space(#[trigger] s[i])
                &&& forall|i: int| b <= i < s.len() ==> is_space(#[trigger] s[i])
            },
        trimmed(s).len() > 0 ==> !is_space(trimmed(s)[0]) && !is_space(trimmed(s).last()),
{
    lemma_skip_spaces(s);
    let a = leading_spaces(s) as int;
    let rest = s.skip(a);
    lemma_drop_trailing_spaces(rest);
    let b = s.len() - trailing_spaces(rest);
    assert(rest.take(rest.len() - trailing_spaces(rest)) =~= s.subrange(a, b));
    assert forall|i: int| b <= i < s.len() implies is_space(#[trigger] s[i]) by {
        assert(s[i] == rest[i - a]);
    }
    if trimmed(s).len() > 0 {
        assert(trimmed(s)[0] == s[a]);
        assert(trimmed(s).last() == rest[rest.len() - trailing_spaces(rest) - 1]);
    }
}

/// Of two strings one stands before the other, or they are the same.
pub proof fn lemma_text_le_total(a: Seq<char>, b: Seq<char>)
    ensures
        text_le(a, b) || text_le(b, a),
    decreases a.len(),
{
    if a.len() > 0 && b.len() > 0 {
        if a[0] == b[0] {
            lemma_text_le_total(a.drop_first(), b.drop_first());
        } else {
            vstd::utf8::char_u32_cast(a[0], a[0] as u32);
            vstd::utf8::char_u32_cast(b[0], b[0] as u32);
        }
    }
}

/// The order of strings is transitive.
pub proof fn lemma_text_le_transitive(a: Seq<char>, b: Seq<char>, c: Seq<char>)
    requires
        text_le(a, b),
        text_le(b, c),
    ensures
        text_le(a, c),
    decreases a.len(),
{
    if a.len() > 0 && b.len() > 0 && c.len() > 0 && a[0] == b[0] && b[0] == c[0] {
        lemma_text_le_transitive(a.drop_first(), b.drop_first(), c.drop_first());
    }
}

/// The end of the stretch of `s` from `from` that holds none of the three
/// stopping characters.
pub fn scan_until(s: &str, from: usize, a: char, b: char, c: char) -> (to: usize)
    requires
        from <= s@.len(),
    ensures
        from <= to <= s@.len(),
        to - from == run_len(s@.skip(from as int), set![a, b, c]),
{
    let n: usize = s.unicode_len();
    let mut to: usize = from;
    while to < n
        invariant
            from <= to <= n,
            n == s@.len(),
            forall|i: int| from <= i < to ==> !set![a, b, c].contains(#[trigger] s@[i]),
        ensures
            from <= to <= n,
            forall|i: int| from <= i < to ==> !set![a, b, c].contains(#[trigger] s@[i]),
            to < n ==> set![a, b, c].contains(s@[to as int]),
        decreases n - to,
    {
        let ch: char = s.get_char(to);
        if ch == a || ch == b || ch == c {
            break ;
        }
        to = to + 1;
    }
    proof {
        lemma_run_len_found(s@, set![a, b, c], from as int, to as int);
    }
    to
}

/// Whether two strings hold the same characters.
pub fn same_text(a: &str, b: &str) -> (r: bool)
    ensures
        r == (a@ == b@),
{
    if a.unicode_len() != b.unicode_len() {
        return false;
    }
    let r = has_prefix_at(a, 0, b);
    proof {
        assert(a@.skip(0) =~= a@);
        if r {
            assert(a@.subrange(0, b@.len() as int) =~= a@);
        }
        if a@ == b@ {
            assert(b@.is_prefix_of(a@));
        }
    }
    r
}

/// The position in `s` behind every copy of `prefix` that stands at `from`.
pub fn skip_repeated(s: &str, from: usize, prefix: &str) -> (to: usize)
    requires
        from <= s@.len(),
    ensures
        from <= to <= s@.len(),
        s@.skip(to as int) == strip_repeated(s@.skip(from as int), prefix@),
{
    let m: usize = prefix.unicode_len();
    let n: usize = s.unicode_len();
    let mut to: usize = from;
    if m == 0 {
        return to;
    }
    while has_prefix_at(s, to, prefix)
        invariant
            from <= to <= s@.len(),
            n == s@.len(),
            m == prefix@.len(),
            m > 0,
            strip_repeated(s@.skip(to as int), prefix@) == strip_repeated(
                s@.skip(from as int),
                prefix@,
            ),
        decreases s@.len() - to,
    {
        proof {
            assert(prefix@.len() <= s@.skip(to as int).len());
            assert(s@.skip(to as int).skip(m as int) =~= s@.skip(to + m));
        }
        to = to + m;
    }
    to
}

/// Whether `a` stands before `b`, or is `b`, in the order of strings.
pub fn text_before_or_same(a: &str, b: &str) -> (r: bool)
    ensures
        r == text_le(a@, b@),
{
    let la: usize = a.unicode_len();
    let lb: usize = b.unicode_len();
    let mut i: usize = 0;
    assert(a@.skip(0) =~= a@);
    assert(b@.skip(0) =~= b@);
    while i < la && i < lb
        invariant
            i <= la,
            i <= lb,
            la == a@.len(),
            lb == b@.len(),
            text_le(a@, b@) == text_le(a@.skip(i as int), b@.skip(i as int)),
        decreases la - i,
    {
        let x: u32 = a.get_char(i) as u32;
        let y: u32 = b.get_char(i) as u32;
        proof {
            assert(a@.skip(i as int)[0] == a@[i as int]);
            assert(b@.skip(i as int)[0] == b@[i as int]);
            assert(a@.skip(i as int).drop_first() =~= a@.skip(i + 1));
            assert(b@.skip(i as int).drop_first() =~= b@.skip(i + 1));
        }
        if x != y {
            return x < y;
        }
        i = i + 1;
    }
    i == la
}

} // verus!
