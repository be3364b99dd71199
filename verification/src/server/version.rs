//! Application versions such as `1.0.0` or `1.0.0-BETA`: dot-separated
//! numbers, optionally followed by `-` and a release qualifier.

use std::cmp::Ordering;
use vstd::prelude::*;
use vstd::std_specs::cmp::{PartialEqSpecImpl, PartialOrdSpecImpl};
use crate::text::{
    chars_of, parse_i32, parse_i32_chars, split_chars, split_on, str_equal, string_of, views,
};

verus! {

/// An application version, kept as the text it was given.
pub struct Version {
    value: String,
}

impl View for Version {
    type V = Seq<char>;

    closed spec fn view(&self) -> Seq<char> {
        self.value@
    }
}

/// The weight of a release qualifier: `SNAPSHOT` < `ALPHA` < `BETA` < `RC`
/// < `PRERELEASE` < `RELEASE`; `None` for any other text.
pub open spec fn qualifier_weight(q: Seq<char>) -> Option<i32> {
    if q == "SNAPSHOT"@ {
        Some(0)
    } else if q == "ALPHA"@ {
        Some(1)
    } else if q == "BETA"@ {
        Some(2)
    } else if q == "RC"@ {
        Some(3)
    } else if q == "PRERELEASE"@ {
        Some(4)
    } else if q == "RELEASE"@ {
        Some(5)
    } else {
        None
    }
}

/// The weight of a version text: that of the piece after the first `-`,
/// and that of `RELEASE` where there is no such piece or it is no known
/// qualifier.
pub open spec fn release_weight(s: Seq<char>) -> i32 {
    let halves = split_on(s, '-');
    if halves.len() > 1 && qualifier_weight(halves[1]) is Some {
        qualifier_weight(halves[1]).unwrap()
    } else {
        5
    }
}

/// The numeric parts of a version text: the piece before the first `-`,
/// split on `.`.
pub open spec fn numeric_parts(s: Seq<char>) -> Seq<Seq<char>> {
    split_on(split_on(s, '-')[0], '.')
}

/// The three-way comparison of two integers.
pub open spec fn int_order(a: int, b: int) -> Ordering {
    if a < b {
        Ordering::Less
    } else if a > b {
        Ordering::Greater
    } else {
        Ordering::Equal
    }
}

/// The outcome of comparing the numeric parts `a` and `b` from index `i`
/// on, up to the shorter length: `Some(true)` where the left side is the
/// smaller, `Some(false)` where it is the greater, `None` where all compared
/// parts are equal numbers. The first pair of numbers that differ decides;
/// a part that is no number makes its side the smaller, the left side's
/// first.
pub open spec fn parts_decision(a: Seq<Seq<char>>, b: Seq<Seq<char>>, i: int) -> Option<bool>
    decreases a.len() - i,
{
    if i < 0 || i >= a.len() || i >= b.len() {
        None
    } else {
        match (parse_i32(a[i]), parse_i32(b[i])) {
            (Some(x), Some(y)) => if x < y {
                Some(true)
            } else if x > y {
                Some(false)
            } else {
                parts_decision(a, b, i + 1)
            },
            (None, _) => Some(true),
            (_, None) => Some(false),
        }
    }
}

/// The weight of a qualifier, that of `RELEASE` for an unknown one.
pub open spec fn tag_weight(q: Seq<char>) -> int {
    if qualifier_weight(q) is Some {
        qualifier_weight(q).unwrap() as int
    } else {
        5
    }
}

/// The release weight of a text, as an integer.
pub open spec fn weight_value(s: Seq<char>) -> int {
    release_weight(s) as int
}

/// The number of numeric parts of a text.
pub open spec fn part_count(s: Seq<char>) -> int {
    numeric_parts(s).len() as int
}

/// The order of two version texts: equal texts are equal; otherwise the
/// numeric parts decide, then, where there are as many parts on both
/// sides, the release weights, else the number of parts.
pub open spec fn release_order(a: Seq<char>, b: Seq<char>) -> Ordering {
    if a == b {
        Ordering::Equal
    } else {
        match parts_decision(numeric_parts(a), numeric_parts(b), 0) {
            Some(true) => Ordering::Less,
            Some(false) => Ordering::Greater,
            None => if part_count(a) == part_count(b) {
                int_order(weight_value(a), weight_value(b))
            } else {
                int_order(part_count(a), part_count(b))
            },
        }
    }
}

/// Compares the numeric parts `a` and `b` by `parts_decision`.
fn decide_parts(a: &Vec<Vec<char>>, b: &Vec<Vec<char>>) -> (res: Option<bool>)
    ensures
        res == parts_decision(views(a@), views(b@), 0),
{
    let ghost pa = views(a@);
    let ghost pb = views(b@);
    let length = if a.len() < b.len() { a.len() } else { b.len() };
    let mut i: usize = 0;
    while i < length
        invariant
            i <= length,
            length <= a.len(),
            length <= b.len(),
            length == a.len() || length == b.len(),
            pa == views(a@),
            pb == views(b@),
            parts_decision(pa, pb, 0) == parts_decision(pa, pb, i as int),
        decreases length - i,
    {
        assert(pa[i as int] == a@[i as int]@);
        assert(pb[i as int] == b@[i as int]@);
        let this_part = parse_i32_chars(&a[i]);
        let that_part = parse_i32_chars(&b[i]);
        match (this_part, that_part) {
            (Some(this_num), Some(that_num)) => {
                if this_num < that_num {
                    return Some(true);
                }
                if this_num > that_num {
                    return Some(false);
                }
            },
            (None, _) => return Some(true),
            (_, None) => return Some(false),
        }
        i = i + 1;
    }
    None
}

/// The halves of a version text split on `-`, and the numeric parts of
/// its first half.
fn pieces_of(v: &String) -> (res: (Vec<Vec<char>>, Vec<Vec<char>>))
    ensures
        views(res.0@) == split_on(v@, '-'),
        views(res.1@) == numeric_parts(v@),
        res.0.len() >= 1,
{
    let chars = chars_of(v.as_str());
    let halves = split_chars(&chars, '-');
    proof {
        crate::text::lemma_split_len(v@, '-');
    }
    assert(views(halves@)[0] == halves@[0]@);
    let parts = split_chars(&halves[0], '.');
    (halves, parts)
}

/// The weight of a release qualifier, `None` for an unknown one.
pub fn version_weight(version: &str) -> (res: Option<i32>)
    ensures
        res == qualifier_weight(version@),
{
    if str_equal(version, "SNAPSHOT") {
        Some(0)
    } else if str_equal(version, "ALPHA") {
        Some(1)
    } else if str_equal(version, "BETA") {
        Some(2)
    } else if str_equal(version, "RC") {
        Some(3)
    } else if str_equal(version, "PRERELEASE") {
        Some(4)
    } else if str_equal(version, "RELEASE") {
        Some(5)
    } else {
        None
    }
}

/// The release weight of the pieces of a version text split on `-`.
fn weight_of(halves: &Vec<Vec<char>>) -> (res: i32)
    requires
        halves.len() >= 1,
    ensures
        ({
            let h = views(halves@);
            res == if h.len() > 1 && qualifier_weight(h[1]) is Some {
                qualifier_weight(h[1]).unwrap()
            } else {
                5
            }
        }),
{
    if halves.len() > 1 {
        let q = string_of(&halves[1]);
        assert(views(halves@)[1] == halves@[1]@);
        match version_weight(q.as_str()) {
            Some(w) => w,
            None => 5,
        }
    } else {
        5
    }
}

impl Version {
    /// A version holding the given text.
    pub fn new(value: String) -> (res: Version)
        ensures
            res@ == value@,
    {
        Version { value }
    }

    /// The text of this version.
    pub fn as_str(&self) -> (res: &str)
        ensures
            res@ == self@,
    {
        self.value.as_str()
    }

    /// Compares two versions by `release_order`.
    pub fn cmp(&self, other: &Self) -> (res: Ordering)
        ensures
            res == release_order(self@, other@),
    {
        if self.value == other.value {
            return Ordering::Equal;
        }
        let (this_halves, this_parts) = pieces_of(&self.value);
        let (that_halves, that_parts) = pieces_of(&other.value);
        match decide_parts(&this_parts, &that_parts) {
            Some(true) => Ordering::Less,
            Some(false) => Ordering::Greater,
            None => {
                if this_parts.len() == that_parts.len() {
                    let this_weight = weight_of(&this_halves);
                    let that_weight = weight_of(&that_halves);
                    if this_weight < that_weight {
                        Ordering::Less
                    } else if this_weight > that_weight {
                        Ordering::Greater
                    } else {
                        Ordering::Equal
                    }
                } else if this_parts.len() < that_parts.len() {
                    Ordering::Less
                } else {
                    Ordering::Greater
                }
            },
        }
    }
}

impl PartialEq for Version {
    fn eq(&self, other: &Self) -> (res: bool) {
        self.value == other.value
    }
}

impl PartialEqSpecImpl for Version {
    open spec fn obeys_eq_spec() -> bool {
        true
    }

    open spec fn eq_spec(&self, other: &Self) -> bool {
        self@ == other@
    }
}

impl Eq for Version {}

impl PartialOrd for Version {
    fn partial_cmp(&self, other: &Self) -> (res: Option<Ordering>) {
        Some(self.cmp(other))
    }
}

impl PartialOrdSpecImpl for Version {
    open spec fn obeys_partial_cmp_spec() -> bool {
        true
    }

    open spec fn partial_cmp_spec(&self, other: &Self) -> Option<Ordering> {
        Some(release_order(self@, other@))
    }
}


/// Whether comparing the numeric parts `a` and `b` from index `i` on
/// reaches a position where neither part is a number before any decision.
pub open spec fn parts_clash(a: Seq<Seq<char>>, b: Seq<Seq<char>>, i: int) -> bool
    decreases a.len() - i,
{
    if i < 0 || i >= a.len() || i >= b.len() {
        false
    } else {
        match (parse_i32(a[i]), parse_i32(b[i])) {
            (Some(x), Some(y)) => x == y && parts_clash(a, b, i + 1),
            (None, None) => true,
            _ => false,
        }
    }
}

/// The reverse of an order.
pub open spec fn reversed(o: Ordering) -> Ordering {
    match o {
        Ordering::Less => Ordering::Greater,
        Ordering::Equal => Ordering::Equal,
        Ordering::Greater => Ordering::Less,
    }
}

/// Swapping the sides of a decision on numeric parts negates it, unless
/// both sides meet a part that is no number at the same position.
pub proof fn lemma_parts_decision_swap(a: Seq<Seq<char>>, b: Seq<Seq<char>>, i: int)
    requires
        !parts_clash(a, b, i),
    ensures
        parts_decision(b, a, i) == match parts_decision(a, b, i) {
            Some(l) => Some(!l),
            None => None,
        },
    decreases a.len() - i,
{
    if !(i < 0 || i >= a.len() || i >= b.len()) {
        if parse_i32(a[i]) is Some && parse_i32(b[i]) is Some
            && parse_i32(a[i]) == parse_i32(b[i]) {
            lemma_parts_decision_swap(a, b, i + 1);
        }
    }
}

/// Every version is equal to itself.
pub proof fn lemma_release_order_reflexive(a: Seq<char>)
    ensures
        release_order(a, a) == Ordering::Equal,
{
}

/// Swapping two versions reverses their order, unless at the first
/// position that the comparison looks at where the numbers do not settle
/// it, neither side holds a number.
pub proof fn lemma_release_order_antisymmetric(a: Seq<char>, b: Seq<char>)
    requires
        !parts_clash(numeric_parts(a), numeric_parts(b), 0),
    ensures
        release_order(b, a) == reversed(release_order(a, b)),
{
    lemma_parts_decision_swap(numeric_parts(a), numeric_parts(b), 0);
}

/// Where both sides meet a part that is no number before any decision,
/// the left side is decided the smaller.
proof fn lemma_clash_decides_left(a: Seq<Seq<char>>, b: Seq<Seq<char>>, i: int)
    requires
        parts_clash(a, b, i),
    ensures
        parts_decision(a, b, i) == Some(true),
    decreases a.len() - i,
{
    if parse_i32(a[i]) is Some {
        lemma_clash_decides_left(a, b, i + 1);
    }
}

/// Any two versions are ordered one way or the other: where one comes
/// after the other, the other comes before it.
pub proof fn lemma_release_order_total(a: Seq<char>, b: Seq<char>)
    ensures
        release_order(a, b) == Ordering::Greater ==> release_order(b, a) == Ordering::Less,
{
    if parts_clash(numeric_parts(a), numeric_parts(b), 0) {
        lemma_clash_decides_left(numeric_parts(a), numeric_parts(b), 0);
    } else {
        lemma_release_order_antisymmetric(a, b);
    }
}

/// All numeric parts from index `i` on are numbers.
pub open spec fn all_numbers(p: Seq<Seq<char>>, i: int) -> bool {
    forall|j: int| i <= j < p.len() ==> #[trigger] parse_i32(p[j]) is Some
}

/// Numeric parts that are all numbers leave the comparison with themselves
/// undecided.
pub proof fn lemma_parts_decision_same(p: Seq<Seq<char>>, q: Seq<Seq<char>>, i: int)
    requires
        0 <= i,
        p.len() <= q.len(),
        forall|j: int| 0 <= j < p.len() ==> #[trigger] p[j] == q[j],
        all_numbers(p, i),
    ensures
        parts_decision(p, q, i) is None,
        parts_decision(q, p, i) is None,
    decreases p.len() - i,
{
    if i < p.len() {
        assert(parse_i32(p[i]) is Some);
        assert(p[i] == q[i]);
        lemma_parts_decision_same(p, q, i + 1);
    }
}

/// Splitting a text without `-` on `-` gives the text; splitting it
/// followed by `-` and a qualifier without `-` gives the two.
proof fn lemma_split_qualified(n: Seq<char>, q: Seq<char>)
    requires
        !n.contains('-'),
        !q.contains('-'),
    ensures
        split_on(n, '-') == seq![n],
        split_on(n + seq!['-'] + q, '-') == seq![n, q],
        numeric_parts(n) == split_on(n, '.'),
        numeric_parts(n + seq!['-'] + q) == split_on(n, '.'),
{
    let e = Seq::<char>::empty();
    let np = n.push('-');
    crate::text::lemma_split_no_sep(e, n, '-');
    assert(e + n == n);
    assert(split_on(n, '-') =~= seq![n]);
    assert(np.drop_last() == n);
    assert(split_on(np, '-') =~= seq![n, e]);
    crate::text::lemma_split_no_sep(np, q, '-');
    assert(n + seq!['-'] + q =~= np + q);
    assert(split_on(n + seq!['-'] + q, '-') =~= seq![n, q]);
}

/// A version text without a release qualifier compares with the same text
/// followed by `-` and a qualifier as `RELEASE` compares with that
/// qualifier, where all numeric parts are numbers.
pub proof fn lemma_release_order_qualifier(n: Seq<char>, q: Seq<char>)
    requires
        !n.contains('-'),
        !q.contains('-'),
        all_numbers(split_on(n, '.'), 0),
    ensures
        release_order(n, n + seq!['-'] + q) == int_order(5, tag_weight(q)),
{
    let m = n + seq!['-'] + q;
    lemma_split_qualified(n, q);
    lemma_parts_decision_same(split_on(n, '.'), split_on(n, '.'), 0);
    if n == m {
        assert(n.len() == m.len());
    }
}

/// Two texts with the same numeric parts, all numbers, followed by `-` and
/// qualifiers `q1` and `q2`, are ordered by the weights of the qualifiers
/// (an unknown qualifier weighing as `RELEASE`).
pub proof fn lemma_release_order_qualifiers(n: Seq<char>, q1: Seq<char>, q2: Seq<char>)
    requires
        !n.contains('-'),
        !q1.contains('-'),
        !q2.contains('-'),
        all_numbers(split_on(n, '.'), 0),
    ensures
        release_order(n + seq!['-'] + q1, n + seq!['-'] + q2) == int_order(
            tag_weight(q1),
            tag_weight(q2),
        ),
{
    let m1 = n + seq!['-'] + q1;
    let m2 = n + seq!['-'] + q2;
    lemma_split_qualified(n, q1);
    lemma_split_qualified(n, q2);
    lemma_parts_decision_same(split_on(n, '.'), split_on(n, '.'), 0);
    assert(weight_value(m1) == tag_weight(q1));
    assert(weight_value(m2) == tag_weight(q2));
    if m1 == m2 {
        let k: int = n.len() + 1int;
        assert(q1 =~= m1.skip(k));
        assert(q2 =~= m2.skip(k));
    }
}

/// Where the numeric parts of two different texts without qualifiers
/// decide their order, adding qualifiers to both changes nothing.
pub proof fn lemma_release_order_numbers_first(
    n1: Seq<char>,
    n2: Seq<char>,
    q1: Seq<char>,
    q2: Seq<char>,
)
    requires
        !n1.contains('-'),
        !n2.contains('-'),
        !q1.contains('-'),
        !q2.contains('-'),
        n1 != n2,
        parts_decision(split_on(n1, '.'), split_on(n2, '.'), 0) is Some,
    ensures
        release_order(n1 + seq!['-'] + q1, n2 + seq!['-'] + q2) == release_order(n1, n2),
{
    lemma_split_qualified(n1, q1);
    lemma_split_qualified(n2, q2);
    let m1 = n1 + seq!['-'] + q1;
    let m2 = n2 + seq!['-'] + q2;
    if m1 == m2 {
        assert(split_on(m1, '-') == split_on(m2, '-'));
    }
}

/// Equal number parts before index `i` leave the comparison to what
/// follows them.
proof fn lemma_parts_decision_skip(a: Seq<Seq<char>>, b: Seq<Seq<char>>, j: int, i: int)
    requires
        0 <= j <= i,
        i <= a.len(),
        i <= b.len(),
        forall|k: int| 0 <= k < i ==> #[trigger] a[k] == b[k],
        all_numbers(a.take(i), 0),
    ensures
        parts_decision(a, b, j) == parts_decision(a, b, i),
        parts_decision(b, a, j) == parts_decision(b, a, i),
    decreases i - j,
{
    if j < i {
        assert(a.take(i)[j] == a[j]);
        assert(parse_i32(a.take(i)[j]) is Some);
        lemma_parts_decision_skip(a, b, j + 1, i);
    }
}

/// The first numeric part that differs between two texts, where all
/// before it are numbers, decides their order when both are numbers: the
/// smaller number comes first.
pub proof fn lemma_release_order_first_difference(a: Seq<char>, b: Seq<char>, i: int)
    requires
        0 <= i < numeric_parts(a).len(),
        i < numeric_parts(b).len(),
        forall|k: int| 0 <= k < i ==> #[trigger] numeric_parts(a)[k] == numeric_parts(b)[k],
        all_numbers(numeric_parts(a).take(i), 0),
        parse_i32(numeric_parts(a)[i]) is Some,
        parse_i32(numeric_parts(b)[i]) is Some,
        parse_i32(numeric_parts(a)[i])->Some_0 < parse_i32(numeric_parts(b)[i])->Some_0,
    ensures
        release_order(a, b) == Ordering::Less,
        release_order(b, a) == Ordering::Greater,
{
    lemma_parts_decision_skip(numeric_parts(a), numeric_parts(b), 0, i);
    if a == b {
        assert(numeric_parts(a)[i] == numeric_parts(b)[i]);
    }
}

/// Where the first numeric part after equal numbers is no number on one
/// side, that side comes first (the left side where neither is a number).
pub proof fn lemma_release_order_not_a_number(a: Seq<char>, b: Seq<char>, i: int)
    requires
        a != b,
        0 <= i < numeric_parts(a).len(),
        i < numeric_parts(b).len(),
        forall|k: int| 0 <= k < i ==> #[trigger] numeric_parts(a)[k] == numeric_parts(b)[k],
        all_numbers(numeric_parts(a).take(i), 0),
    ensures
        parse_i32(numeric_parts(a)[i]) is None ==> release_order(a, b) == Ordering::Less,
        parse_i32(numeric_parts(a)[i]) is Some && parse_i32(numeric_parts(b)[i]) is None
            ==> release_order(a, b) == Ordering::Greater,
{
    lemma_parts_decision_skip(numeric_parts(a), numeric_parts(b), 0, i);
}

/// A text whose numeric parts, all numbers, are the first numeric parts of
/// another with more parts comes before it, whatever their qualifiers.
pub proof fn lemma_release_order_fewer_parts(a: Seq<char>, b: Seq<char>)
    requires
        numeric_parts(a).len() < numeric_parts(b).len(),
        forall|j: int|
            0 <= j < numeric_parts(a).len() ==> #[trigger] numeric_parts(a)[j] == numeric_parts(
                b,
            )[j],
        all_numbers(numeric_parts(a), 0),
    ensures
        release_order(a, b) == Ordering::Less,
        release_order(b, a) == Ordering::Greater,
{
    lemma_parts_decision_same(numeric_parts(a), numeric_parts(b), 0);
}

/// Among texts with the same numeric parts, all numbers, the qualifiers
/// rank `SNAPSHOT` < `ALPHA` < `BETA` < `RC` < `PRERELEASE` < `RELEASE`.
pub proof fn lemma_release_order_qualifier_ranking(n: Seq<char>)
    requires
        !n.contains('-'),
        all_numbers(split_on(n, '.'), 0),
    ensures
        release_order(n + seq!['-'] + "SNAPSHOT"@, n + seq!['-'] + "ALPHA"@) == int_order(0, 1),
        release_order(n + seq!['-'] + "ALPHA"@, n + seq!['-'] + "BETA"@) == int_order(0, 1),
        release_order(n + seq!['-'] + "BETA"@, n + seq!['-'] + "RC"@) == int_order(0, 1),
        release_order(n + seq!['-'] + "RC"@, n + seq!['-'] + "PRERELEASE"@) == int_order(0, 1),
        release_order(n + seq!['-'] + "PRERELEASE"@, n + seq!['-'] + "RELEASE"@) == int_order(
            0,
            1,
        ),
{
    reveal_strlit("SNAPSHOT");
    reveal_strlit("ALPHA");
    reveal_strlit("BETA");
    reveal_strlit("RC");
    reveal_strlit("PRERELEASE");
    reveal_strlit("RELEASE");
    assert(!"SNAPSHOT"@.contains('-'));
    assert(!"ALPHA"@.contains('-'));
    assert(!"BETA"@.contains('-'));
    assert(!"RC"@.contains('-'));
    assert(!"PRERELEASE"@.contains('-'));
    assert(!"RELEASE"@.contains('-'));
    lemma_release_order_qualifiers(n, "SNAPSHOT"@, "ALPHA"@);
    lemma_release_order_qualifiers(n, "ALPHA"@, "BETA"@);
    lemma_release_order_qualifiers(n, "BETA"@, "RC"@);
    lemma_release_order_qualifiers(n, "RC"@, "PRERELEASE"@);
    lemma_release_order_qualifiers(n, "PRERELEASE"@, "RELEASE"@);
}

/// The sign of an integer: -1, 0 or 1.
pub open spec fn sign(x: int) -> int {
    if x < 0 {
        -1
    } else if x > 0 {
        1
    } else {
        0
    }
}

/// How two texts compare once their numeric parts leave it undecided: by
/// the release weights where they have as many parts, else by the number
/// of parts; -1, 0 or 1.
pub open spec fn tail_sign(a: Seq<char>, b: Seq<char>) -> int {
    if part_count(a) == part_count(b) {
        sign(weight_value(a) - weight_value(b))
    } else if part_count(a) < part_count(b) {
        -1
    } else {
        1
    }
}

/// How two texts compare from numeric part `i` on: -1, 0 or 1.
pub open spec fn compare_from(a: Seq<char>, b: Seq<char>, i: int) -> int {
    match parts_decision(numeric_parts(a), numeric_parts(b), i) {
        Some(true) => -1,
        Some(false) => 1,
        None => tail_sign(a, b),
    }
}

/// The sign of an order.
pub open spec fn order_sign(o: Ordering) -> int {
    match o {
        Ordering::Less => -1,
        Ordering::Equal => 0,
        Ordering::Greater => 1,
    }
}

/// The order of two different texts has the sign of their comparison from
/// the first numeric part on.
proof fn lemma_release_order_sign(a: Seq<char>, b: Seq<char>)
    requires
        a != b,
    ensures
        order_sign(release_order(a, b)) == compare_from(a, b, 0),
{
}

/// Comparison from part `t` on is transitive: no later from there on than
/// a text that is no later than a third means no later than the third.
proof fn lemma_compare_from_transitive(a: Seq<char>, b: Seq<char>, c: Seq<char>, t: int)
    requires
        0 <= t <= part_count(a),
        t <= part_count(b),
        t <= part_count(c),
        compare_from(a, b, t) <= 0,
        compare_from(b, c, t) <= 0,
    ensures
        compare_from(a, c, t) <= 0,
    decreases part_count(a) - t,
{
    let pa = numeric_parts(a);
    let pb = numeric_parts(b);
    let pc = numeric_parts(c);
    if t < pa.len() && t < pb.len() && t < pc.len() {
        let x = parse_i32(pa[t]);
        let y = parse_i32(pb[t]);
        let z = parse_i32(pc[t]);
        if x is Some && y is Some && z is Some && x == y && y == z {
            lemma_compare_from_transitive(a, b, c, t + 1);
        }
    }
}

/// The order is transitive: a text no later than a second that is no later
/// than a third is no later than the third.
pub proof fn lemma_release_order_transitive(a: Seq<char>, b: Seq<char>, c: Seq<char>)
    requires
        release_order(a, b) != Ordering::Greater,
        release_order(b, c) != Ordering::Greater,
    ensures
        release_order(a, c) != Ordering::Greater,
{
    if a != c {
        if a == b {
            assert(release_order(a, c) == release_order(b, c));
        } else if b == c {
            assert(release_order(a, c) == release_order(a, b));
        } else {
            lemma_release_order_sign(a, b);
            lemma_release_order_sign(b, c);
            lemma_release_order_sign(a, c);
            lemma_compare_from_transitive(a, b, c, 0);
        }
    }
}

} // verus!
