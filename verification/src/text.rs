//! Character-level string helpers shared by the parsers of this crate:
//! whitespace trimming, splitting on a separator, decimal numbers.

use std::hash::{Hash, Hasher};
use vstd::prelude::*;

verus! {

// ---------------------------------------------------------------------------
// Specifications
// ---------------------------------------------------------------------------

/// Unicode `White_Space`, the set of characters that `char::is_whitespace`
/// accepts.
pub open spec fn is_space(c: char) -> bool {
    ||| ('\u{09}' <= c && c <= '\u{0D}')
    ||| c == ' '
    ||| c == '\u{85}'
    ||| c == '\u{A0}'
    ||| c == '\u{1680}'
    ||| ('\u{2000}' <= c && c <= '\u{200A}')
    ||| c == '\u{2028}'
    ||| c == '\u{2029}'
    ||| c == '\u{202F}'
    ||| c == '\u{205F}'
    ||| c == '\u{3000}'
}

/// `s` without its leading whitespace.
pub open spec fn trim_start(s: Seq<char>) -> Seq<char>
    decreases s.len(),
{
    if s.len() > 0 && is_space(s[0]) {
        trim_start(s.drop_first())
    } else {
        s
    }
}

/// `s` without its trailing whitespace.
pub open spec fn trim_end(s: Seq<char>) -> Seq<char>
    decreases s.len(),
{
    if s.len() > 0 && is_space(s.last()) {
        trim_end(s.drop_last())
    } else {
        s
    }
}

/// `s` without leading and trailing whitespace (`str::trim`).
pub open spec fn trim(s: Seq<char>) -> Seq<char> {
    trim_end(trim_start(s))
}

/// The pieces of `s` between occurrences of `sep` (`str::split` on one
/// character): always at least one piece, one more than `sep` occurs.
pub open spec fn split_on(s: Seq<char>, sep: char) -> Seq<Seq<char>>
    decreases s.len(),
{
    if s.len() == 0 {
        seq![Seq::<char>::empty()]
    } else {
        let pieces = split_on(s.drop_last(), sep);
        if s.last() == sep {
            pieces.push(Seq::<char>::empty())
        } else {
            pieces.update(pieces.len() - 1, pieces.last().push(s.last()))
        }
    }
}

/// An ASCII decimal digit.
pub open spec fn is_digit(c: char) -> bool {
    '0' <= c && c <= '9'
}

/// The value of an ASCII decimal digit.
pub open spec fn digit_value(c: char) -> nat {
    (c as u32 - '0' as u32) as nat
}

/// Every character of `s` is a decimal digit.
pub open spec fn all_digits(s: Seq<char>) -> bool {
    forall|i: int| 0 <= i < s.len() ==> #[trigger] is_digit(s[i])
}

/// The number that the decimal digits `s` denote (leading zeros allowed).
pub open spec fn digits_value(s: Seq<char>) -> nat
    decreases s.len(),
{
    if s.len() == 0 {
        0
    } else {
        digits_value(s.drop_last()) * 10 + digit_value(s.last())
    }
}

/// The digits of an unsigned number after an optional leading `+`.
pub open spec fn unsigned_digits(s: Seq<char>) -> Seq<char> {
    if s.len() > 0 && s[0] == '+' {
        s.drop_first()
    } else {
        s
    }
}

/// `u32::from_str`: an optional `+`, then one or more decimal digits whose
/// value fits in 32 bits.
pub open spec fn parse_u32(s: Seq<char>) -> Option<u32> {
    let d = unsigned_digits(s);
    if d.len() > 0 && all_digits(d) && digits_value(d) <= u32::MAX {
        Some(digits_value(d) as u32)
    } else {
        None
    }
}

/// `i32::from_str`: an optional `+` or `-`, then one or more decimal digits
/// whose signed value lies in the range of `i32`.
pub open spec fn parse_i32(s: Seq<char>) -> Option<i32> {
    if s.len() > 0 && s[0] == '-' {
        let d = s.drop_first();
        if d.len() > 0 && all_digits(d) && digits_value(d) <= 0x8000_0000 {
            Some((0 - digits_value(d)) as i32)
        } else {
            None
        }
    } else {
        let d = unsigned_digits(s);
        if d.len() > 0 && all_digits(d) && digits_value(d) <= 0x7fff_ffff {
            Some(digits_value(d) as i32)
        } else {
            None
        }
    }
}

/// The decimal digit character for `d < 10`.
pub open spec fn digit_char(d: nat) -> char {
    if d == 0 { '0' }
    else if d == 1 { '1' }
    else if d == 2 { '2' }
    else if d == 3 { '3' }
    else if d == 4 { '4' }
    else if d == 5 { '5' }
    else if d == 6 { '6' }
    else if d == 7 { '7' }
    else if d == 8 { '8' }
    else { '9' }
}

/// The decimal representation of `n`, without leading zeros (`Display` of
/// an unsigned integer).
pub open spec fn decimal(n: nat) -> Seq<char>
    decreases n,
{
    if n < 10 {
        seq![digit_char(n)]
    } else {
        decimal(n / 10).push(digit_char(n % 10))
    }
}

// ---------------------------------------------------------------------------
// Executable helpers
// ---------------------------------------------------------------------------

/// Appends one character to a `String` (`String::push`).
#[verifier::external_body]
pub(crate) fn push_char(s: &mut String, c: char)
    ensures
        final(s)@ == old(s)@.push(c),
{
    s.push(c)
}

/// Feeds a string to a hasher (`<String as Hash>::hash`); nothing is
/// stated of the hasher's state.
#[verifier::external_body]
pub(crate) fn hash_string<H: Hasher>(s: &String, state: &mut H) {
    s.hash(state)
}

/// `a == b` on strings.
pub fn str_equal(a: &str, b: &str) -> (res: bool)
    ensures
        res == (a@ == b@),
{
    a.to_owned() == b.to_owned()
}

/// Appends `b` to `a`.
pub fn append_str(a: &mut String, b: &str)
    ensures
        final(a)@ == old(a)@ + b@,
{
    a.append(b);
}

/// The characters of `s`, in order.
pub fn chars_of(s: &str) -> (res: Vec<char>)
    ensures
        res@ == s@,
{
    let mut res: Vec<char> = Vec::new();
    for c in it: s.chars()
        invariant
            res@ == it.seq().take(it.index() as int),
            it.seq() == s@,
    {
        res.push(c);
    }
    res
}

/// Appends the characters of `cs[from..to]` to `s`.
pub fn push_chars(s: &mut String, cs: &Vec<char>, from: usize, to: usize)
    requires
        from <= to <= cs.len(),
    ensures
        final(s)@ == old(s)@ + cs@.subrange(from as int, to as int),
{
    let mut i: usize = from;
    while i < to
        invariant
            from <= i <= to <= cs.len(),
            s@ == old(s)@ + cs@.subrange(from as int, i as int),
        decreases to - i,
    {
        push_char(s, cs[i]);
        assert(cs@.subrange(from as int, i + 1) == cs@.subrange(from as int, i as int).push(cs@[i as int]));
        i = i + 1;
    }
}

/// A `String` holding the given characters.
pub fn string_of(cs: &Vec<char>) -> (res: String)
    ensures
        res@ == cs@,
{
    let mut res = String::new();
    push_chars(&mut res, cs, 0, cs.len());
    assert(cs@.subrange(0, cs.len() as int) == cs@);
    res
}

/// `char::is_whitespace`.
pub fn is_whitespace(c: char) -> (res: bool)
    ensures
        res == is_space(c),
{
    ('\u{09}' <= c && c <= '\u{0D}') || c == ' ' || c == '\u{85}' || c == '\u{A0}'
        || c == '\u{1680}' || ('\u{2000}' <= c && c <= '\u{200A}') || c == '\u{2028}'
        || c == '\u{2029}' || c == '\u{202F}' || c == '\u{205F}' || c == '\u{3000}'
}


// ---------------------------------------------------------------------------
// Lemmas
// ---------------------------------------------------------------------------

/// Dropping `k` leading whitespace characters, up to a non-space one, is
/// what `trim_start` does.
pub proof fn lemma_trim_start_at(s: Seq<char>, k: int)
    requires
        0 <= k <= s.len(),
        forall|i: int| 0 <= i < k ==> is_space(#[trigger] s[i]),
        k == s.len() || !is_space(s[k]),
    ensures
        trim_start(s) == s.subrange(k, s.len() as int),
    decreases k,
{
    if k == 0 {
        assert(s.subrange(0, s.len() as int) == s);
    } else {
        let t = s.drop_first();
        assert forall|i: int| 0 <= i < k - 1 implies is_space(#[trigger] t[i]) by {
            assert(t[i] == s[i + 1]);
        }
        lemma_trim_start_at(t, k - 1);
        assert(t.subrange(k - 1, t.len() as int) == s.subrange(k, s.len() as int));
    }
}

/// Dropping trailing whitespace from position `e` on, down to a non-space
/// character, is what `trim_end` does.
pub proof fn lemma_trim_end_at(s: Seq<char>, e: int)
    requires
        0 <= e <= s.len(),
        forall|i: int| e <= i < s.len() ==> is_space(#[trigger] s[i]),
        e == 0 || !is_space(s[e - 1]),
    ensures
        trim_end(s) == s.subrange(0, e),
    decreases s.len() - e,
{
    if e == s.len() {
        assert(s.subrange(0, s.len() as int) == s);
    } else {
        let t = s.drop_last();
        assert forall|i: int| e <= i < t.len() implies is_space(#[trigger] t[i]) by {
            assert(t[i] == s[i]);
        }
        lemma_trim_end_at(t, e);
        assert(t.subrange(0, e) == s.subrange(0, e));
    }
}

/// What `trim_start` leaves starts with no whitespace.
pub proof fn lemma_trim_start_shape(s: Seq<char>)
    ensures
        trim_start(s).len() == 0 || !is_space(trim_start(s)[0]),
    decreases s.len(),
{
    if s.len() > 0 && is_space(s[0]) {
        lemma_trim_start_shape(s.drop_first());
    }
}

/// What `trim_end` leaves is a prefix that ends with no whitespace.
pub proof fn lemma_trim_end_shape(s: Seq<char>)
    ensures
        trim_end(s).len() <= s.len(),
        trim_end(s) == s.subrange(0, trim_end(s).len() as int),
        trim_end(s).len() == 0 || !is_space(trim_end(s).last()),
    decreases s.len(),
{
    if s.len() > 0 && is_space(s.last()) {
        lemma_trim_end_shape(s.drop_last());
        assert(s.drop_last().subrange(0, trim_end(s).len() as int) == s.subrange(
            0,
            trim_end(s).len() as int,
        ));
    } else {
        assert(s.subrange(0, s.len() as int) == s);
    }
}

/// Trimming twice is trimming once.
pub proof fn lemma_trim_idempotent(s: Seq<char>)
    ensures
        trim(trim(s)) == trim(s),
{
    let x = trim_start(s);
    let y = trim_end(x);
    lemma_trim_start_shape(s);
    lemma_trim_end_shape(x);
    if y.len() > 0 {
        assert(y[0] == x[0]);
    }
    assert(trim_start(y) == y);
    assert(trim_end(y) == y);
}

/// Splitting always gives at least one piece.
pub proof fn lemma_split_len(s: Seq<char>, sep: char)
    ensures
        split_on(s, sep).len() >= 1,
    decreases s.len(),
{
    if s.len() > 0 {
        lemma_split_len(s.drop_last(), sep);
    }
}

/// Appending text without the separator extends the last piece.
pub proof fn lemma_split_no_sep(p: Seq<char>, b: Seq<char>, sep: char)
    requires
        !b.contains(sep),
    ensures
        ({
            let pieces = split_on(p, sep);
            split_on(p + b, sep) == pieces.update(pieces.len() - 1, pieces.last() + b)
        }),
    decreases b.len(),
{
    lemma_split_len(p, sep);
    let pieces = split_on(p, sep);
    if b.len() == 0 {
        assert(p + b == p);
        assert(pieces.last() + b == pieces.last());
        assert(pieces.update(pieces.len() - 1, pieces.last()) == pieces);
    } else {
        let b1 = b.drop_last();
        assert(!b1.contains(sep)) by {
            if b1.contains(sep) {
                let i = choose|i: int| 0 <= i < b1.len() && b1[i] == sep;
                assert(b[i] == sep);
            }
        }
        lemma_split_no_sep(p, b1, sep);
        assert((p + b).drop_last() == p + b1);
        assert((p + b).last() == b.last());
        assert(b.last() != sep) by {
            assert(b[b.len() - 1] == b.last());
        }
        lemma_split_len(p + b1, sep);
        assert((pieces.last() + b1).push(b.last()) == pieces.last() + b);
        assert(split_on(p + b, sep) =~= pieces.update(pieces.len() - 1, pieces.last() + b));
    }
}

/// The index of the first `c` in `s`, or the length of `s` where there is
/// none.
pub open spec fn first_index(s: Seq<char>, c: char) -> int
    decreases s.len(),
{
    if s.len() == 0 {
        0
    } else if s[0] == c {
        0
    } else {
        1 + first_index(s.drop_first(), c)
    }
}

/// `first_index` is the position before which `c` does not occur.
pub proof fn lemma_first_index(s: Seq<char>, c: char, k: int)
    requires
        0 <= k <= s.len(),
        forall|i: int| 0 <= i < k ==> #[trigger] s[i] != c,
        k == s.len() || s[k] == c,
    ensures
        first_index(s, c) == k,
    decreases k,
{
    if k > 0 {
        let t = s.drop_first();
        assert forall|i: int| 0 <= i < k - 1 implies #[trigger] t[i] != c by {
            assert(t[i] == s[i + 1]);
        }
        assert(s[0] != c);
        lemma_first_index(t, c, k - 1);
    }
}

/// A prefix of a digit string never denotes more than the whole string.
pub proof fn lemma_digits_value_prefix(s: Seq<char>, k: int)
    requires
        0 <= k <= s.len(),
    ensures
        digits_value(s.take(k)) <= digits_value(s),
    decreases s.len(),
{
    if k < s.len() {
        lemma_digits_value_prefix(s.drop_last(), k);
        assert(s.drop_last().take(k) == s.take(k));
        assert(digits_value(s.drop_last()) * 10 >= digits_value(s.drop_last())) by (nonlinear_arith);
    } else {
        assert(s.take(k) == s);
    }
}

/// A digit character has the value it stands for.
pub proof fn lemma_digit_char(d: nat)
    requires
        d < 10,
    ensures
        is_digit(digit_char(d)),
        digit_value(digit_char(d)) == d,
{
}

/// The digits of `decimal(n)` denote `n`.
pub proof fn lemma_decimal_digits(n: nat)
    ensures
        decimal(n).len() > 0,
        all_digits(decimal(n)),
        digits_value(decimal(n)) == n,
        decimal(n)[0] != '+',
        decimal(n)[0] != '-',
    decreases n,
{
    lemma_digit_char(n % 10);
    if n < 10 {
        assert(decimal(n).drop_last() =~= Seq::<char>::empty());
        assert(n % 10 == n);
        assert(decimal(n).last() == digit_char(n));
        assert(digits_value(decimal(n)) == digits_value(Seq::<char>::empty()) * 10 + digit_value(digit_char(n)));
    } else {
        lemma_digit_char(n % 10);
        lemma_decimal_digits(n / 10);
        let d = decimal(n);
        assert(d.drop_last() == decimal(n / 10));
        assert(d.last() == digit_char(n % 10));
        assert(digits_value(d) == digits_value(decimal(n / 10)) * 10 + digit_value(digit_char(n % 10)));
        assert((n / 10) * 10 + n % 10 == n);
        assert forall|i: int| 0 <= i < d.len() implies #[trigger] is_digit(d[i]) by {
            if i < d.len() - 1 {
                assert(d[i] == decimal(n / 10)[i]);
            }
        }
    }
}

/// `decimal(n)` has no character `c` other than digits.
pub proof fn lemma_decimal_has_no(n: nat, c: char)
    requires
        !is_digit(c),
    ensures
        !decimal(n).contains(c),
{
    lemma_decimal_digits(n);
    if decimal(n).contains(c) {
        let i = choose|i: int| 0 <= i < decimal(n).len() && decimal(n)[i] == c;
        assert(is_digit(decimal(n)[i]));
    }
}

/// Unsigned parsing reads back a decimal representation.
pub proof fn lemma_parse_u32_decimal(n: u32)
    ensures
        parse_u32(decimal(n as nat)) == Some(n),
{
    lemma_decimal_digits(n as nat);
}

// ---------------------------------------------------------------------------
// Executable helpers
// ---------------------------------------------------------------------------

/// The bounds `(start, end)` of `cs` without leading and trailing
/// whitespace.
pub fn trim_bounds(cs: &Vec<char>) -> (res: (usize, usize))
    ensures
        res.0 <= res.1 <= cs.len(),
        cs@.subrange(res.0 as int, res.1 as int) == trim(cs@),
{
    let mut start: usize = 0;
    while start < cs.len() && is_whitespace(cs[start])
        invariant
            start <= cs.len(),
            forall|i: int| 0 <= i < start ==> is_space(#[trigger] cs@[i]),
        decreases cs.len() - start,
    {
        start = start + 1;
    }
    proof {
        lemma_trim_start_at(cs@, start as int);
    }
    let mut end: usize = cs.len();
    while end > start && is_whitespace(cs[end - 1])
        invariant
            start <= end <= cs.len(),
            forall|i: int| end <= i < cs.len() ==> is_space(#[trigger] cs@[i]),
        decreases end - start,
    {
        end = end - 1;
    }
    proof {
        let t = cs@.subrange(start as int, cs.len() as int);
        assert forall|i: int| end - start <= i < t.len() implies is_space(#[trigger] t[i]) by {
            assert(t[i] == cs@[start + i]);
        }
        lemma_trim_end_at(t, end - start);
        assert(t.subrange(0, end - start) == cs@.subrange(start as int, end as int));
    }
    (start, end)
}

/// The characters of `cs` without leading and trailing whitespace.
pub fn trimmed(cs: &Vec<char>) -> (res: Vec<char>)
    ensures
        res@ == trim(cs@),
{
    let (start, end) = trim_bounds(cs);
    let mut res: Vec<char> = Vec::new();
    let mut i: usize = start;
    while i < end
        invariant
            start <= i <= end <= cs.len(),
            res@ == cs@.subrange(start as int, i as int),
        decreases end - i,
    {
        res.push(cs[i]);
        assert(cs@.subrange(start as int, i + 1) == cs@.subrange(start as int, i as int).push(cs@[i as int]));
        i = i + 1;
    }
    res
}

/// The position of the first `c` in `cs`, or its length.
pub fn find_char(cs: &Vec<char>, c: char) -> (res: usize)
    ensures
        res == first_index(cs@, c),
        res <= cs.len(),
{
    let mut i: usize = 0;
    while i < cs.len() && cs[i] != c
        invariant
            i <= cs.len(),
            forall|j: int| 0 <= j < i ==> #[trigger] cs@[j] != c,
        decreases cs.len() - i,
    {
        i = i + 1;
    }
    proof {
        lemma_first_index(cs@, c, i as int);
    }
    i
}

/// The characters `cs[from..to]`.
pub fn sub_chars(cs: &Vec<char>, from: usize, to: usize) -> (res: Vec<char>)
    requires
        from <= to <= cs.len(),
    ensures
        res@ == cs@.subrange(from as int, to as int),
{
    let mut res: Vec<char> = Vec::new();
    let mut i: usize = from;
    while i < to
        invariant
            from <= i <= to <= cs.len(),
            res@ == cs@.subrange(from as int, i as int),
        decreases to - i,
    {
        res.push(cs[i]);
        assert(cs@.subrange(from as int, i + 1) == cs@.subrange(from as int, i as int).push(cs@[i as int]));
        i = i + 1;
    }
    res
}

/// Whether two character vectors hold the same characters.
pub fn chars_equal(a: &Vec<char>, b: &Vec<char>) -> (res: bool)
    ensures
        res == (a@ == b@),
{
    if a.len() != b.len() {
        return false;
    }
    let mut i: usize = 0;
    while i < a.len()
        invariant
            i <= a.len() == b.len(),
            forall|j: int| 0 <= j < i ==> #[trigger] a@[j] == b@[j],
        decreases a.len() - i,
    {
        if a[i] != b[i] {
            return false;
        }
        i = i + 1;
    }
    assert(a@ =~= b@);
    true
}

/// The views of a sequence of character vectors.
pub open spec fn views(v: Seq<Vec<char>>) -> Seq<Seq<char>> {
    v.map_values(|x: Vec<char>| x@)
}

/// The pieces of `cs` between occurrences of `sep` (`str::split`).
pub fn split_chars(cs: &Vec<char>, sep: char) -> (res: Vec<Vec<char>>)
    ensures
        views(res@) == split_on(cs@, sep),
{
    let mut done: Vec<Vec<char>> = Vec::new();
    let mut cur: Vec<char> = Vec::new();
    let mut i: usize = 0;
    assert(cs@.take(0) =~= Seq::<char>::empty());
    assert(views(done@).push(cur@) =~= split_on(cs@.take(0), sep));
    while i < cs.len()
        invariant
            i <= cs.len(),
            views(done@).push(cur@) == split_on(cs@.take(i as int), sep),
        decreases cs.len() - i,
    {
        let c = cs[i];
        let ghost before = views(done@).push(cur@);
        assert(cs@.take(i + 1).drop_last() == cs@.take(i as int));
        assert(cs@.take(i + 1).last() == c);
        if c == sep {
            done.push(cur);
            cur = Vec::new();
            assert(views(done@).push(cur@) =~= before.push(Seq::<char>::empty()));
        } else {
            cur.push(c);
            assert(views(done@).push(cur@) =~= before.update(before.len() - 1, before.last().push(c)));
        }
        i = i + 1;
    }
    assert(cs@.take(cs.len() as int) == cs@);
    done.push(cur);
    assert(views(done@) =~= split_on(cs@, sep));
    done
}

/// The value of a decimal digit character.
fn digit_of(c: char) -> (res: u32)
    requires
        is_digit(c),
    ensures
        res == digit_value(c),
        res < 10,
{
    (c as u32) - ('0' as u32)
}

/// Reads the decimal digits `s[from..]` as a number no greater than
/// `limit`, or `None` where a character is no digit or the value exceeds
/// `limit`.
fn read_digits(s: &Vec<char>, from: usize, limit: u64) -> (res: Option<u64>)
    requires
        from <= s.len(),
        limit <= 0x1_0000_0000,
    ensures
        ({
            let d = s@.subrange(from as int, s.len() as int);
            match res {
                Some(v) => all_digits(d) && v == digits_value(d) && v <= limit,
                None => !all_digits(d) || digits_value(d) > limit,
            }
        }),
{
    let ghost d = s@.subrange(from as int, s.len() as int);
    let mut v: u64 = 0;
    let mut i: usize = from;
    assert(d.take(0) =~= Seq::<char>::empty());
    while i < s.len()
        invariant
            from <= i <= s.len(),
            limit <= 0x1_0000_0000,
            d == s@.subrange(from as int, s.len() as int),
            all_digits(d.take(i - from)),
            v == digits_value(d.take(i - from)),
            v <= limit,
        decreases s.len() - i,
    {
        let c = s[i];
        assert(d[i - from] == c);
        if !('0' <= c && c <= '9') {
            assert(!is_digit(d[i - from]));
            return None;
        }
        let k = digit_of(c);
        assert(d.take(i + 1 - from).drop_last() == d.take(i - from));
        assert(v * 10 + k <= 0x1_0000_0000 * 10 + 10) by (nonlinear_arith)
            requires v <= 0x1_0000_0000, k < 10;
        v = v * 10 + k as u64;
        i = i + 1;
        assert(all_digits(d.take(i - from))) by {
            assert forall|j: int| 0 <= j < i - from implies #[trigger] is_digit(d.take(i - from)[j]) by {
                if j < i - 1 - from {
                    assert(d.take(i - from)[j] == d.take(i - 1 - from)[j]);
                }
            }
        }
        if v > limit {
            proof {
                lemma_digits_value_prefix(d, i - from);
            }
            return None;
        }
    }
    assert(d.take(i - from) == d);
    Some(v)
}

/// `u32::from_str` on the characters `s`.
pub fn parse_u32_chars(s: &Vec<char>) -> (res: Option<u32>)
    ensures
        res == parse_u32(s@),
{
    let from: usize = if s.len() > 0 && s[0] == '+' { 1 } else { 0 };
    assert(unsigned_digits(s@) == s@.subrange(from as int, s.len() as int));
    if from == s.len() {
        return None;
    }
    match read_digits(s, from, 0xffff_ffff) {
        Some(v) => Some(v as u32),
        None => None,
    }
}

/// `i32::from_str` on the characters `s`.
pub fn parse_i32_chars(s: &Vec<char>) -> (res: Option<i32>)
    ensures
        res == parse_i32(s@),
{
    if s.len() > 0 && s[0] == '-' {
        assert(s@.drop_first() == s@.subrange(1, s.len() as int));
        if s.len() == 1 {
            return None;
        }
        match read_digits(s, 1, 0x8000_0000) {
            Some(v) => {
                let neg: i64 = 0 - (v as i64);
                Some(neg as i32)
            },
            None => None,
        }
    } else {
        let from: usize = if s.len() > 0 && s[0] == '+' { 1 } else { 0 };
        assert(unsigned_digits(s@) == s@.subrange(from as int, s.len() as int));
        if from == s.len() {
            return None;
        }
        match read_digits(s, from, 0x7fff_ffff) {
            Some(v) => Some(v as i32),
            None => None,
        }
    }
}

/// The digit character for `d < 10`.
fn digit_char_of(d: u32) -> (c: char)
    requires
        d < 10,
    ensures
        c == digit_char(d as nat),
{
    if d == 0 { '0' }
    else if d == 1 { '1' }
    else if d == 2 { '2' }
    else if d == 3 { '3' }
    else if d == 4 { '4' }
    else if d == 5 { '5' }
    else if d == 6 { '6' }
    else if d == 7 { '7' }
    else if d == 8 { '8' }
    else { '9' }
}

/// Appends the decimal representation of `n` to `s`.
pub fn push_decimal(s: &mut String, n: u32)
    ensures
        final(s)@ == old(s)@ + decimal(n as nat),
    decreases n,
{
    if n >= 10 {
        push_decimal(s, n / 10);
    }
    push_char(s, digit_char_of(n % 10));
    assert(old(s)@ + decimal(n as nat) =~= if n >= 10 {
        (old(s)@ + decimal((n / 10) as nat)).push(digit_char((n % 10) as nat))
    } else {
        old(s)@.push(digit_char((n % 10) as nat))
    });
}

} // verus!
