//! Verified helpers for working with strings as sequences of characters:
//! conversion to character vectors, equality, lexicographic order, decimal
//! rendering and padding.

use vstd::prelude::*;
use vstd::string::*;

verus! {

/// Collects the characters of a string slice into a vector.
pub fn chars_vec(s: &str) -> (v: Vec<char>)
    ensures
        v@ == s@,
{
    let n = s.unicode_len();
    let mut v: Vec<char> = Vec::new();
    let mut i: usize = 0;
    while i < n
        invariant
            i <= n,
            n == s@.len(),
            v@ == s@.subrange(0, i as int),
        decreases n - i,
    {
        v.push(s.get_char(i));
        i = i + 1;
        proof {
            assert(v@ =~= s@.subrange(0, i as int));
        }
    }
    proof {
        assert(v@ =~= s@);
    }
    v
}

/// Character-wise equality of two string slices.
pub fn str_eq(a: &str, b: &str) -> (r: bool)
    ensures
        r == (a@ == b@),
{
    let an = a.unicode_len();
    let bn = b.unicode_len();
    if an != bn {
        return false;
    }
    let mut i: usize = 0;
    while i < an
        invariant
            i <= an,
            an == a@.len(),
            an == b@.len(),
            forall|j: int| 0 <= j < i ==> a@[j] == b@[j],
        decreases an - i,
    {
        if a.get_char(i) != b.get_char(i) {
            return false;
        }
        i = i + 1;
    }
    proof {
        assert(a@ =~= b@);
    }
    true
}

/// Relies on `String`'s `FromIterator<char>` impl: collecting a sequence of
/// characters yields the string of exactly those characters, in order.
#[verifier::external_body]
pub fn string_from_chars(v: &Vec<char>) -> (s: String)
    ensures
        s@ == v@,
{
    v.iter().collect()
}

pub uninterp spec fn char_is_alnum(c: char) -> bool;

/// Relies on `char::is_alphanumeric`: whether a character counts as
/// alphanumeric is a property of the character alone.
pub assume_specification[ char::is_alphanumeric ](c: char) -> (r: bool)
    ensures
        r == char_is_alnum(c),
;

/// Lexicographic order on character sequences, by Unicode scalar value.
/// This matches the order `str::cmp` induces, since UTF-8 byte order agrees
/// with scalar-value order.
pub open spec fn lex_le(a: Seq<char>, b: Seq<char>) -> bool
    decreases a.len(),
{
    if a.len() == 0 {
        true
    } else if b.len() == 0 {
        false
    } else if (a[0] as u32) < (b[0] as u32) {
        true
    } else if (a[0] as u32) > (b[0] as u32) {
        false
    } else {
        lex_le(a.drop_first(), b.drop_first())
    }
}

/// The lexicographic order relates every pair of sequences one way or the
/// other.
pub proof fn lemma_lex_total(a: Seq<char>, b: Seq<char>)
    ensures
        lex_le(a, b) || lex_le(b, a),
    decreases a.len(),
{
    if a.len() == 0 || b.len() == 0 {
    } else if (a[0] as u32) == (b[0] as u32) {
        lemma_lex_total(a.drop_first(), b.drop_first());
    }
}

/// The lexicographic order is transitive.
pub proof fn lemma_lex_trans(a: Seq<char>, b: Seq<char>, c: Seq<char>)
    requires
        lex_le(a, b),
        lex_le(b, c),
    ensures
        lex_le(a, c),
    decreases a.len(),
{
    if a.len() == 0 || b.len() == 0 || c.len() == 0 {
    } else if (a[0] as u32) == (b[0] as u32) && (b[0] as u32) == (c[0] as u32) {
        lemma_lex_trans(a.drop_first(), b.drop_first(), c.drop_first());
    }
}

/// Dropping a common prefix does not change how two sequences compare.
proof fn lemma_lex_step(a: Seq<char>, b: Seq<char>)
    requires
        a.len() > 0,
        b.len() > 0,
        a[0] == b[0],
    ensures
        lex_le(a, b) == lex_le(a.drop_first(), b.drop_first()),
{
}

/// Compares two string slices in the order of `lex_le`.
pub fn str_le(a: &str, b: &str) -> (r: bool)
    ensures
        r == lex_le(a@, b@),
{
    let an = a.unicode_len();
    let bn = b.unicode_len();
    let min: usize = if an < bn {
        an
    } else {
        bn
    };
    let mut i: usize = 0;
    proof {
        assert(a@.skip(0) =~= a@);
        assert(b@.skip(0) =~= b@);
    }
    while i < min
        invariant
            i <= min,
            an == a@.len(),
            bn == b@.len(),
            min == if an < bn {
                an
            } else {
                bn
            },
            lex_le(a@, b@) == lex_le(a@.skip(i as int), b@.skip(i as int)),
        decreases min - i,
    {
        let ca = a.get_char(i);
        let cb = b.get_char(i);
        if (ca as u32) < (cb as u32) {
            proof {
                assert(a@.skip(i as int)[0] == ca);
                assert(b@.skip(i as int)[0] == cb);
            }
            return true;
        }
        if (ca as u32) > (cb as u32) {
            proof {
                assert(a@.skip(i as int)[0] == ca);
                assert(b@.skip(i as int)[0] == cb);
            }
            return false;
        }
        proof {
            broadcast use vstd::utf8::char_u32_cast;

            assert(a@.skip(i as int)[0] == ca);
            assert(b@.skip(i as int)[0] == cb);
            assert(ca == cb);
            lemma_lex_step(a@.skip(i as int), b@.skip(i as int));
            assert(a@.skip(i as int).drop_first() =~= a@.skip(i as int + 1));
            assert(b@.skip(i as int).drop_first() =~= b@.skip(i as int + 1));
        }
        i = i + 1;
    }
    proof {
        if an <= bn {
            assert(a@.skip(i as int).len() == 0);
        } else {
            assert(b@.skip(i as int).len() == 0);
            assert(a@.skip(i as int).len() > 0);
        }
    }
    an <= bn
}

/// The index of the first occurrence of `c` in `s`, or `s.len()` when `c`
/// does not occur.
pub open spec fn find_index(s: Seq<char>, c: char) -> int
    decreases s.len(),
{
    if s.len() == 0 {
        0
    } else if s[0] == c {
        0
    } else {
        1 + find_index(s.drop_first(), c)
    }
}

pub proof fn lemma_find_index(s: Seq<char>, c: char)
    ensures
        0 <= find_index(s, c) <= s.len(),
        find_index(s, c) < s.len() ==> s[find_index(s, c)] == c,
        forall|j: int| 0 <= j < find_index(s, c) ==> s[j] != c,
    decreases s.len(),
{
    if s.len() > 0 && s[0] != c {
        lemma_find_index(s.drop_first(), c);
        assert forall|j: int| 0 <= j < find_index(s, c) implies s[j] != c by {
            if j > 0 {
                assert(s.drop_first()[j - 1] != c);
            }
        }
        if find_index(s, c) < s.len() {
            assert(s.drop_first()[find_index(s.drop_first(), c)] == c);
        }
    }
}

/// The number of copies of `c` at the start of `s`.
pub open spec fn count_leading(s: Seq<char>, c: char) -> int
    decreases s.len(),
{
    if s.len() == 0 || s[0] != c {
        0
    } else {
        1 + count_leading(s.drop_first(), c)
    }
}

pub proof fn lemma_count_leading(s: Seq<char>, c: char)
    ensures
        0 <= count_leading(s, c) <= s.len(),
        forall|j: int| 0 <= j < count_leading(s, c) ==> s[j] == c,
        count_leading(s, c) < s.len() ==> s[count_leading(s, c)] != c,
    decreases s.len(),
{
    if s.len() > 0 && s[0] == c {
        lemma_count_leading(s.drop_first(), c);
        assert forall|j: int| 0 <= j < count_leading(s, c) implies s[j] == c by {
            if j > 0 {
                assert(s.drop_first()[j - 1] == c);
            }
        }
        if count_leading(s, c) < s.len() {
            assert(s.drop_first()[count_leading(s.drop_first(), c)] != c);
        }
    }
}

/// The number of copies of `c` at the end of `s`.
pub open spec fn count_trailing(s: Seq<char>, c: char) -> int
    decreases s.len(),
{
    if s.len() == 0 || s.last() != c {
        0
    } else {
        1 + count_trailing(s.drop_last(), c)
    }
}

pub proof fn lemma_count_trailing(s: Seq<char>, c: char)
    ensures
        0 <= count_trailing(s, c) <= s.len(),
        forall|j: int| s.len() - count_trailing(s, c) <= j < s.len() ==> s[j] == c,
        count_trailing(s, c) < s.len() ==> s[s.len() - 1 - count_trailing(s, c)] != c,
    decreases s.len(),
{
    if s.len() > 0 && s.last() == c {
        lemma_count_trailing(s.drop_last(), c);
        assert forall|j: int| s.len() - count_trailing(s, c) <= j < s.len() implies s[j] == c by {
            if j < s.len() - 1 {
                assert(s.drop_last()[j] == c);
            }
        }
        if count_trailing(s, c) < s.len() {
            assert(s.drop_last()[s.drop_last().len() - 1 - count_trailing(s.drop_last(), c)]
                != c);
        }
    }
}

/// The index of the last occurrence of `c` in `s`, or `-1` when `c` does not
/// occur.
pub open spec fn last_index_of(s: Seq<char>, c: char) -> int
    decreases s.len(),
{
    if s.len() == 0 {
        -1
    } else if s.last() == c {
        s.len() - 1
    } else {
        last_index_of(s.drop_last(), c)
    }
}

pub proof fn lemma_last_index_of(s: Seq<char>, c: char)
    ensures
        -1 <= last_index_of(s, c) < s.len(),
        last_index_of(s, c) >= 0 ==> s[last_index_of(s, c)] == c,
        forall|j: int| last_index_of(s, c) < j < s.len() ==> s[j] != c,
    decreases s.len(),
{
    if s.len() > 0 && s.last() != c {
        lemma_last_index_of(s.drop_last(), c);
        assert forall|j: int| last_index_of(s, c) < j < s.len() implies s[j] != c by {
            if j < s.len() - 1 {
                assert(s.drop_last()[j] != c);
            }
        }
        if last_index_of(s, c) >= 0 {
            assert(s.drop_last()[last_index_of(s.drop_last(), c)] == c);
        }
    }
}

/// The first occurrence of `c` in `v`, scanning forward.
pub fn first_index(v: &Vec<char>, c: char) -> (r: usize)
    ensures
        r == find_index(v@, c),
{
    proof {
        lemma_find_index(v@, c);
    }
    let n = v.len();
    let mut i: usize = 0;
    while i < n
        invariant
            0 <= i <= n,
            n == v@.len(),
            forall|j: int| 0 <= j < i ==> v@[j] != c,
            0 <= find_index(v@, c) <= n,
            find_index(v@, c) < n ==> v@[find_index(v@, c)] == c,
            forall|j: int| 0 <= j < find_index(v@, c) ==> v@[j] != c,
        decreases n - i,
    {
        if v[i] == c {
            proof {
                assert(find_index(v@, c) <= i);
                assert(find_index(v@, c) >= i);
            }
            return i;
        }
        i = i + 1;
    }
    proof {
        assert(find_index(v@, c) == n);
    }
    n
}

/// How many copies of `c` end `v`.
pub fn trailing_count(v: &Vec<char>, c: char) -> (r: usize)
    ensures
        r == count_trailing(v@, c),
{
    proof {
        lemma_count_trailing(v@, c);
    }
    let n = v.len();
    let mut k: usize = 0;
    while k < n
        invariant
            0 <= k <= n,
            n == v@.len(),
            forall|j: int| n - k <= j < n ==> v@[j] == c,
            0 <= count_trailing(v@, c) <= n,
            forall|j: int| n - count_trailing(v@, c) <= j < n ==> v@[j] == c,
            count_trailing(v@, c) < n ==> v@[n - 1 - count_trailing(v@, c)] != c,
        decreases n - k,
    {
        if v[n - 1 - k] != c {
            proof {
                assert(count_trailing(v@, c) <= k);
                assert(count_trailing(v@, c) >= k);
            }
            return k;
        }
        k = k + 1;
    }
    proof {
        assert(count_trailing(v@, c) == n);
    }
    n
}

/// How many copies of `c` begin `v`.
pub fn leading_count(v: &Vec<char>, c: char) -> (r: usize)
    ensures
        r == count_leading(v@, c),
{
    proof {
        lemma_count_leading(v@, c);
    }
    let n = v.len();
    let mut k: usize = 0;
    while k < n
        invariant
            0 <= k <= n,
            n == v@.len(),
            forall|j: int| 0 <= j < k ==> v@[j] == c,
            0 <= count_leading(v@, c) <= n,
            forall|j: int| 0 <= j < count_leading(v@, c) ==> v@[j] == c,
            count_leading(v@, c) < n ==> v@[count_leading(v@, c)] != c,
        decreases n - k,
    {
        if v[k] != c {
            proof {
                assert(count_leading(v@, c) <= k);
                assert(count_leading(v@, c) >= k);
            }
            return k;
        }
        k = k + 1;
    }
    proof {
        assert(count_leading(v@, c) == n);
    }
    n
}

/// The last occurrence of `c` in `v`, or `None` when `c` does not occur.
pub fn rfind_index(v: &Vec<char>, c: char) -> (r: Option<usize>)
    ensures
        match r {
            Some(i) => i == last_index_of(v@, c),
            None => last_index_of(v@, c) == -1,
        },
{
    proof {
        lemma_last_index_of(v@, c);
    }
    let n = v.len();
    let mut k: usize = 0;
    while k < n
        invariant
            0 <= k <= n,
            n == v@.len(),
            forall|j: int| n - k <= j < n ==> v@[j] != c,
            -1 <= last_index_of(v@, c) < n,
            last_index_of(v@, c) >= 0 ==> v@[last_index_of(v@, c)] == c,
            forall|j: int| last_index_of(v@, c) < j < n ==> v@[j] != c,
        decreases n - k,
    {
        if v[n - 1 - k] == c {
            proof {
                assert(last_index_of(v@, c) >= n - 1 - k);
                assert(last_index_of(v@, c) <= n - 1 - k);
            }
            return Some(n - 1 - k);
        }
        k = k + 1;
    }
    None
}

/// Copies the range `[from, to)` of `v`.
pub fn subvec(v: &Vec<char>, from: usize, to: usize) -> (r: Vec<char>)
    requires
        from <= to <= v@.len(),
    ensures
        r@ == v@.subrange(from as int, to as int),
{
    let mut r: Vec<char> = Vec::new();
    let mut i: usize = from;
    while i < to
        invariant
            from <= i <= to <= v@.len(),
            r@ == v@.subrange(from as int, i as int),
        decreases to - i,
    {
        r.push(v[i]);
        i = i + 1;
        proof {
            assert(r@ =~= v@.subrange(from as int, i as int));
        }
    }
    r
}

/// Whether the range `[from, to)` of `v` spells exactly `s`.
pub fn range_eq_str(v: &Vec<char>, from: usize, to: usize, s: &str) -> (r: bool)
    requires
        from <= to <= v@.len(),
    ensures
        r == (v@.subrange(from as int, to as int) == s@),
{
    let n = s.unicode_len();
    if n != to - from {
        return false;
    }
    let mut i: usize = 0;
    while i < n
        invariant
            0 <= i <= n,
            n == s@.len(),
            n == to - from,
            from <= to <= v@.len(),
            forall|j: int| 0 <= j < i ==> v@[from + j] == s@[j],
        decreases n - i,
    {
        if v[from + i] != s.get_char(i) {
            proof {
                assert(v@.subrange(from as int, to as int)[i as int] != s@[i as int]);
            }
            return false;
        }
        i = i + 1;
    }
    proof {
        assert(v@.subrange(from as int, to as int) =~= s@);
    }
    true
}

/// The character for a single decimal digit.
pub open spec fn digit_char(d: int) -> char {
    if d == 0 {
        '0'
    } else if d == 1 {
        '1'
    } else if d == 2 {
        '2'
    } else if d == 3 {
        '3'
    } else if d == 4 {
        '4'
    } else if d == 5 {
        '5'
    } else if d == 6 {
        '6'
    } else if d == 7 {
        '7'
    } else if d == 8 {
        '8'
    } else {
        '9'
    }
}

/// The usual decimal rendering of a natural number, without leading zeros
/// (except for the number zero itself).
pub open spec fn spec_decimal(n: nat) -> Seq<char>
    decreases n,
{
    if n < 10 {
        seq![digit_char(n as int)]
    } else {
        spec_decimal(n / 10).push(digit_char((n % 10) as int))
    }
}

fn digit_exec(d: usize) -> (c: char)
    requires
        d < 10,
    ensures
        c == digit_char(d as int),
{
    if d == 0 {
        '0'
    } else if d == 1 {
        '1'
    } else if d == 2 {
        '2'
    } else if d == 3 {
        '3'
    } else if d == 4 {
        '4'
    } else if d == 5 {
        '5'
    } else if d == 6 {
        '6'
    } else if d == 7 {
        '7'
    } else if d == 8 {
        '8'
    } else {
        '9'
    }
}

fn push_decimal(n: usize, out: &mut Vec<char>)
    ensures
        final(out)@ == old(out)@ + spec_decimal(n as nat),
    decreases n,
{
    if n < 10 {
        out.push(digit_exec(n));
        proof {
            assert(final(out)@ =~= old(out)@ + spec_decimal(n as nat));
        }
    } else {
        push_decimal(n / 10, out);
        out.push(digit_exec(n % 10));
        proof {
            assert(final(out)@ =~= old(out)@ + spec_decimal(n as nat));
        }
    }
}

/// Renders a number in decimal.
pub fn usize_to_string(n: usize) -> (s: String)
    ensures
        s@ == spec_decimal(n as nat),
{
    let mut v: Vec<char> = Vec::new();
    push_decimal(n, &mut v);
    string_from_chars(&v)
}

/// A run of spaces.
pub open spec fn spec_spaces(n: nat) -> Seq<char> {
    Seq::new(n, |i: int| ' ')
}

fn spaces(n: usize) -> (v: Vec<char>)
    ensures
        v@ == spec_spaces(n as nat),
{
    let mut v: Vec<char> = Vec::new();
    let mut i: usize = 0;
    while i < n
        invariant
            i <= n,
            v@ == spec_spaces(i as nat),
        decreases n - i,
    {
        v.push(' ');
        i = i + 1;
        proof {
            assert(v@ =~= spec_spaces(i as nat));
        }
    }
    v
}

/// `s`, right-aligned in a field of `width` characters.
pub open spec fn spec_pad_left(s: Seq<char>, width: nat) -> Seq<char> {
    if s.len() >= width {
        s
    } else {
        spec_spaces((width - s.len()) as nat) + s
    }
}

/// `s`, left-aligned in a field of `width` characters.
pub open spec fn spec_pad_right(s: Seq<char>, width: nat) -> Seq<char> {
    if s.len() >= width {
        s
    } else {
        s + spec_spaces((width - s.len()) as nat)
    }
}

/// Right-aligns `s` in a field of `width` characters, as `{:>w}` does.
pub fn pad_left(s: &str, width: usize) -> (r: String)
    ensures
        r@ == spec_pad_left(s@, width as nat),
{
    let n = s.unicode_len();
    if n >= width {
        let mut r = String::new();
        r.append(s);
        r
    } else {
        let pad = spaces(width - n);
        let mut r = string_from_chars(&pad);
        r.append(s);
        r
    }
}

/// Left-aligns `s` in a field of `width` characters, as `{:<w}` does.
pub fn pad_right(s: &str, width: usize) -> (r: String)
    ensures
        r@ == spec_pad_right(s@, width as nat),
{
    let n = s.unicode_len();
    let mut r = String::new();
    r.append(s);
    if n < width {
        let pad = spaces(width - n);
        let pad_s = string_from_chars(&pad);
        r.append(pad_s.as_str());
    }
    r
}

} // verus!
