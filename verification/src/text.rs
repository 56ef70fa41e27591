//! Character-level helpers for boot command lines and device names.
use vstd::prelude::*;
use vstd::string::StrSliceExecFns;

verus! {

/// Index of the first occurrence of `c` in `s`, or `s.len()` when `c` does not occur.
pub open spec fn first_index_of(s: Seq<char>, c: char) -> int
    decreases s.len(),
{
    if s.len() == 0 {
        0
    } else if s[0] == c {
        0
    } else {
        1 + first_index_of(s.skip(1), c)
    }
}

/// `first_index_of` is the index of the first `c`, and `s.len()` if there is none.
pub proof fn lemma_first_index_of(s: Seq<char>, c: char)
    ensures
        0 <= first_index_of(s, c) <= s.len(),
        first_index_of(s, c) < s.len() ==> s[first_index_of(s, c)] == c,
        forall|j: int| 0 <= j < first_index_of(s, c) ==> s[j] != c,
        s.contains(c) <==> first_index_of(s, c) < s.len(),
    decreases s.len(),
{
    if s.len() > 0 && s[0] != c {
        lemma_first_index_of(s.skip(1), c);
        assert forall|j: int| 0 <= j < first_index_of(s, c) implies s[j] != c by {
            if j > 0 {
                assert(s[j] == s.skip(1)[j - 1]);
            }
        }
        if s.contains(c) {
            let k = choose|k: int| 0 <= k < s.len() && s[k] == c;
            assert(s.skip(1)[k - 1] == c);
        }
        if first_index_of(s, c) < s.len() {
            assert(s[first_index_of(s, c)] == s.skip(1)[first_index_of(s.skip(1), c)]);
        }
    }
}

/// Returns the index of the first `c` in `v`, or `v.len()` when there is none.
pub fn find_char(v: &Vec<char>, c: char) -> (k: usize)
    ensures
        k == first_index_of(v@, c),
{
    proof {
        lemma_first_index_of(v@, c);
    }
    let mut k: usize = 0;
    while k < v.len() && v[k] != c
        invariant
            0 <= k <= v@.len(),
            k <= first_index_of(v@, c),
            0 <= first_index_of(v@, c) <= v@.len(),
            first_index_of(v@, c) < v@.len() ==> v@[first_index_of(v@, c)] == c,
            forall|j: int| 0 <= j < first_index_of(v@, c) ==> v@[j] != c,
        decreases v@.len() - k,
    {
        k = k + 1;
    }
    k
}

/// The number of bytes of the UTF-8 encoding of `c`.
pub open spec fn char_utf8_width(c: char) -> nat {
    let u = c as u32;
    if u < 0x80 {
        1
    } else if u < 0x800 {
        2
    } else if u < 0x10000 {
        3
    } else {
        4
    }
}

/// The number of bytes of the UTF-8 encoding of `s`, which is what `str::len` counts.
pub open spec fn utf8_len(s: Seq<char>) -> nat
    decreases s.len(),
{
    if s.len() == 0 {
        0
    } else {
        utf8_len(s.drop_last()) + char_utf8_width(s.last())
    }
}

/// Returns the UTF-8 length of the first `k` characters of `v` when it is at most
/// `limit`, and `None` when it is larger.
pub fn utf8_len_upto(v: &Vec<char>, k: usize, limit: usize) -> (r: Option<usize>)
    requires
        k <= v@.len(),
    ensures
        match r {
            Some(n) => n == utf8_len(v@.take(k as int)) && n <= limit,
            None => utf8_len(v@.take(k as int)) > limit,
        },
{
    let mut acc: usize = 0;
    let mut i: usize = 0;
    assert(v@.take(0) =~= Seq::<char>::empty());
    while i < k
        invariant
            k <= v@.len(),
            0 <= i <= k,
            acc == utf8_len(v@.take(i as int)),
            acc <= limit,
        decreases k - i,
    {
        let u = v[i] as u32;
        let w: usize = if u < 0x80 {
            1
        } else if u < 0x800 {
            2
        } else if u < 0x10000 {
            3
        } else {
            4
        };
        assert(v@.take(i + 1).drop_last() =~= v@.take(i as int));
        assert(utf8_len(v@.take(i + 1)) == acc + w);
        if w > limit - acc {
            proof {
                lemma_utf8_len_take_monotone(v@, i + 1, k as int);
            }
            return None;
        }
        acc = acc + w;
        i = i + 1;
    }
    Some(acc)
}

/// A longer prefix is no shorter in UTF-8.
pub proof fn lemma_utf8_len_take_monotone(s: Seq<char>, i: int, j: int)
    requires
        0 <= i <= j <= s.len(),
    ensures
        utf8_len(s.take(i)) <= utf8_len(s.take(j)),
    decreases j - i,
{
    if i < j {
        lemma_utf8_len_take_monotone(s, i, j - 1);
        assert(s.take(j).drop_last() =~= s.take(j - 1));
    }
}

/// Whether `c` is white space in the sense of Unicode's `White_Space` property,
/// which is what `char::is_whitespace` tests.
pub open spec fn is_unicode_whitespace(c: char) -> bool {
    let u = c as u32;
    ||| 0x09 <= u <= 0x0D
    ||| u == 0x20
    ||| u == 0x85
    ||| u == 0xA0
    ||| u == 0x1680
    ||| 0x2000 <= u <= 0x200A
    ||| u == 0x2028
    ||| u == 0x2029
    ||| u == 0x202F
    ||| u == 0x205F
    ||| u == 0x3000
}

/// Tests whether `c` is Unicode white space.
pub fn is_whitespace(c: char) -> (r: bool)
    ensures
        r == is_unicode_whitespace(c),
{
    let u = c as u32;
    (0x09 <= u && u <= 0x0D) || u == 0x20 || u == 0x85 || u == 0xA0 || u == 0x1680 || (0x2000
        <= u && u <= 0x200A) || u == 0x2028 || u == 0x2029 || u == 0x202F || u == 0x205F || u
        == 0x3000
}

/// The ASCII lower-case form of `c`; any other character stays as it is.
pub open spec fn ascii_lower(c: char) -> char {
    if 'A' <= c <= 'Z' {
        ((c as u32) + 32) as char
    } else {
        c
    }
}

/// Whether `a` and `b` are equal when ASCII letters are compared without case.
pub open spec fn eq_ignore_ascii_case(a: Seq<char>, b: Seq<char>) -> bool {
    &&& a.len() == b.len()
    &&& forall|i: int| 0 <= i < a.len() ==> ascii_lower(a[i]) == ascii_lower(b[i])
}

/// Returns the characters of `s`.
pub fn chars_of(s: &str) -> (v: Vec<char>)
    ensures
        v@ == s@,
{
    let n = s.unicode_len();
    let mut v: Vec<char> = Vec::new();
    for i in 0..n
        invariant
            n == s@.len(),
            v@ == s@.subrange(0, i as int),
    {
        let c = s.get_char(i);
        v.push(c);
    }
    v
}

/// Tests whether two character sequences are equal.
pub fn chars_equal(a: &Vec<char>, b: &Vec<char>) -> (r: bool)
    ensures
        r == (a@ == b@),
{
    if a.len() != b.len() {
        return false;
    }
    for i in 0..a.len()
        invariant
            a@.len() == b@.len(),
            forall|j: int| 0 <= j < i ==> a@[j] == b@[j],
    {
        if a[i] != b[i] {
            return false;
        }
    }
    assert(a@ =~= b@);
    true
}

/// Tests whether `p` is a prefix of `s`.
pub fn has_prefix(s: &str, p: &str) -> (r: bool)
    ensures
        r == p@.is_prefix_of(s@),
{
    let sv = chars_of(s);
    let pv = chars_of(p);
    if pv.len() > sv.len() {
        return false;
    }
    for i in 0..pv.len()
        invariant
            sv@ == s@,
            pv@ == p@,
            pv@.len() <= sv@.len(),
            forall|j: int| 0 <= j < i ==> pv@[j] == sv@[j],
    {
        if pv[i] != sv[i] {
            return false;
        }
    }
    assert(pv@ =~= sv@.subrange(0, pv@.len() as int));
    true
}

/// Tests whether `s` equals `t` when ASCII letters are compared without case.
pub fn equals_ignore_ascii_case(s: &str, t: &str) -> (r: bool)
    ensures
        r == eq_ignore_ascii_case(s@, t@),
{
    let sv = chars_of(s);
    let tv = chars_of(t);
    if sv.len() != tv.len() {
        return false;
    }
    for i in 0..sv.len()
        invariant
            sv@ == s@,
            tv@ == t@,
            sv@.len() == tv@.len(),
            forall|j: int| 0 <= j < i ==> ascii_lower(sv@[j]) == ascii_lower(tv@[j]),
    {
        let a = sv[i];
        let b = tv[i];
        let la = if 'A' <= a && a <= 'Z' {
            ((a as u32) + 32) as u8 as char
        } else {
            a
        };
        let lb = if 'A' <= b && b <= 'Z' {
            ((b as u32) + 32) as u8 as char
        } else {
            b
        };
        assert(la == ascii_lower(a)) by {
            if 'A' <= a <= 'Z' {
                assert((((a as u32) + 32) as u8 as char) == (((a as u32) + 32) as char));
            }
        }
        assert(lb == ascii_lower(b)) by {
            if 'A' <= b <= 'Z' {
                assert((((b as u32) + 32) as u8 as char) == (((b as u32) + 32) as char));
            }
        }
        if la != lb {
            return false;
        }
    }
    true
}

/// Whether `d` is a non-empty run of ASCII decimal digits.
pub open spec fn all_decimal_digits(d: Seq<char>) -> bool {
    &&& d.len() > 0
    &&& forall|i: int| 0 <= i < d.len() ==> '0' <= #[trigger] d[i] <= '9'
}

/// The number that the decimal digits `d` spell.
pub open spec fn decimal_value(d: Seq<char>) -> int
    decreases d.len(),
{
    if d.len() == 0 {
        0
    } else {
        decimal_value(d.drop_last()) * 10 + ((d.last() as u32) - 48)
    }
}

/// What `str::parse::<u32>` gives for `s`: an optional `+` sign, then one or more ASCII
/// digits whose value fits in a `u32`; anything else is an error.
pub open spec fn u32_from_decimal(s: Seq<char>) -> Option<u32> {
    let d = if s.len() > 0 && s[0] == '+' {
        s.skip(1)
    } else {
        s
    };
    if all_decimal_digits(d) && decimal_value(d) <= u32::MAX {
        Some(decimal_value(d) as u32)
    } else {
        None
    }
}

proof fn lemma_decimal_value_prefix(d: Seq<char>, i: int)
    requires
        0 <= i <= d.len(),
        forall|k: int| 0 <= k < d.len() ==> '0' <= #[trigger] d[k] <= '9',
    ensures
        decimal_value(d.take(i)) <= decimal_value(d),
        0 <= decimal_value(d.take(i)),
    decreases d.len() - i,
{
    if i < d.len() {
        lemma_decimal_value_prefix(d, i + 1);
        assert(d.take(i + 1).drop_last() =~= d.take(i));
        lemma_decimal_value_nonneg(d.take(i));
    } else {
        assert(d.take(i) =~= d);
        lemma_decimal_value_nonneg(d);
    }
}

proof fn lemma_decimal_value_nonneg(d: Seq<char>)
    requires
        forall|k: int| 0 <= k < d.len() ==> '0' <= #[trigger] d[k] <= '9',
    ensures
        0 <= decimal_value(d),
    decreases d.len(),
{
    if d.len() > 0 {
        lemma_decimal_value_nonneg(d.drop_last());
    }
}

/// Parses `s` as `str::parse::<u32>` does, giving `None` where it gives an error.
pub fn parse_u32(s: &str) -> (r: Option<u32>)
    ensures
        r == u32_from_decimal(s@),
{
    let v = chars_of(s);
    let start: usize = if v.len() > 0 && v[0] == '+' {
        1
    } else {
        0
    };
    let ghost d = if s@.len() > 0 && s@[0] == '+' {
        s@.skip(1)
    } else {
        s@
    };
    assert(d =~= v@.skip(start as int));
    if start >= v.len() {
        return None;
    }
    let mut value: u64 = 0;
    let mut i = start;
    while i < v.len()
        invariant
            v@ == s@,
            d =~= v@.skip(start as int),
            d == (if s@.len() > 0 && s@[0] == '+' {
                s@.skip(1)
            } else {
                s@
            }),
            start <= i <= v@.len(),
            start < v@.len(),
            forall|k: int| start <= k < i ==> '0' <= #[trigger] v@[k] <= '9',
            value == decimal_value(d.take(i - start)),
            value <= u32::MAX,
        decreases v@.len() - i,
    {
        let c = v[i];
        if c < '0' || c > '9' {
            assert(d[i - start] == c);
            assert(!all_decimal_digits(d));
            return None;
        }
        assert(d.take(i + 1 - start).drop_last() =~= d.take(i - start));
        assert(d.take(i + 1 - start).last() == c);
        assert(decimal_value(d.take(i + 1 - start)) == value * 10 + ((c as u32) - 48));
        let next = value * 10 + ((c as u32) - 48) as u64;
        if next > 0xFFFF_FFFF {
            proof {
                if all_decimal_digits(d) {
                    lemma_decimal_value_prefix(d, i + 1 - start);
                }
            }
            return None;
        }
        value = next;
        i = i + 1;
    }
    assert(d.take(i - start) =~= d);
    Some(value as u32)
}

} // verus!
