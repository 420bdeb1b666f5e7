//! Character-level text handling: searching, splitting, and the decimal
//! form of 32-bit integers, all stated over the characters of a string.
use vstd::prelude::*;

verus! {

/// Appends one character to a string: std's `String::push`, trusted to add
/// exactly that character at the end.
#[verifier::external_body]
pub(crate) fn push_char(s: &mut String, c: char)
    ensures
        final(s)@ == old(s)@.push(c),
{
    s.push(c);
}

/// The characters of a string slice, in order.
pub fn chars_of(s: &str) -> (v: Vec<char>)
    ensures
        v@ == s@,
{
    let mut v: Vec<char> = Vec::new();
    for c in it: s.chars()
        invariant
            v@ == it.seq().take(it.index() as int),
    {
        v.push(c);
    }
    v
}

/// A string made of the characters `cs[from..to]`.
pub fn string_from_range(cs: &[char], from: usize, to: usize) -> (s: String)
    requires
        from <= to <= cs@.len(),
    ensures
        s@ == cs@.subrange(from as int, to as int),
{
    let mut s = String::new();
    let mut i = from;
    while i < to
        invariant
            from <= i <= to <= cs@.len(),
            s@ == cs@.subrange(from as int, i as int),
        decreases to - i,
    {
        push_char(&mut s, cs[i]);
        assert(cs@.subrange(from as int, i + 1) =~= cs@.subrange(from as int, i as int).push(cs@[i as int]));
        i = i + 1;
    }
    s
}

/// A string made of all the characters of `cs`.
pub fn string_from_chars(cs: &[char]) -> (s: String)
    ensures
        s@ == cs@,
{
    let s = string_from_range(cs, 0, cs.len());
    assert(cs@.subrange(0, cs@.len() as int) =~= cs@);
    s
}

/// Whether two character sequences are equal.
pub fn chars_eq(a: &[char], b: &[char]) -> (r: bool)
    ensures
        r == (a@ == b@),
{
    if a.len() != b.len() {
        return false;
    }
    let mut i: usize = 0;
    while i < a.len()
        invariant
            a@.len() == b@.len(),
            i <= a@.len(),
            forall|j: int| 0 <= j < i ==> a@[j] == b@[j],
        decreases a@.len() - i,
    {
        if a[i] != b[i] {
            return false;
        }
        i = i + 1;
    }
    assert(a@ =~= b@);
    true
}

/// Whether two string slices hold the same characters.
pub fn str_eq(a: &str, b: &str) -> (r: bool)
    ensures
        r == (a@ == b@),
{
    let ca = chars_of(a);
    let cb = chars_of(b);
    chars_eq(ca.as_slice(), cb.as_slice())
}

// ---------------------------------------------------------------------
// Prefixes, occurrences and splitting
// ---------------------------------------------------------------------

/// `s` begins with `p`.
pub open spec fn starts_with(s: Seq<char>, p: Seq<char>) -> bool {
    p.len() <= s.len() && s.take(p.len() as int) == p
}

/// `p` occurs in `s` starting at position `i`.
pub open spec fn occurs_at(s: Seq<char>, p: Seq<char>, i: int) -> bool {
    0 <= i && i + p.len() <= s.len() && s.subrange(i, i + p.len()) == p
}

/// `p` occurs somewhere in `s`.
pub open spec fn contains(s: Seq<char>, p: Seq<char>) -> bool {
    exists|i: int| occurs_at(s, p, i)
}

/// The first position at or after `i` where `p` occurs in `s`.
pub open spec fn find_from(s: Seq<char>, p: Seq<char>, i: int) -> Option<int>
    decreases s.len() + 1 - i,
{
    if i < 0 || i + p.len() > s.len() {
        None
    } else if occurs_at(s, p, i) {
        Some(i)
    } else {
        find_from(s, p, i + 1)
    }
}

/// The first piece of `s.split(p)`: everything before the first occurrence
/// of `p`, or all of `s` when `p` does not occur.
pub open spec fn split_first(s: Seq<char>, p: Seq<char>) -> Seq<char> {
    match find_from(s, p, 0) {
        Some(i) => s.take(i),
        None => s,
    }
}

/// The second piece of `s.split(p)`, which exists exactly when `p` occurs:
/// what lies between the first and the second occurrence of `p` (or the end).
pub open spec fn split_second(s: Seq<char>, p: Seq<char>) -> Option<Seq<char>> {
    match find_from(s, p, 0) {
        Some(i) => Some(split_first(s.skip(i + p.len()), p)),
        None => None,
    }
}

/// A found position is an occurrence, and no earlier one (from `i` on) exists.
pub proof fn lemma_find_from(s: Seq<char>, p: Seq<char>, i: int)
    requires
        0 <= i,
    ensures
        find_from(s, p, i) matches Some(k) ==> i <= k && occurs_at(s, p, k) && forall|j: int|
            i <= j < k ==> !occurs_at(s, p, j),
        find_from(s, p, i) is None ==> forall|j: int| i <= j ==> !occurs_at(s, p, j),
    decreases s.len() + 1 - i,
{
    if i + p.len() > s.len() {
    } else if occurs_at(s, p, i) {
    } else {
        lemma_find_from(s, p, i + 1);
        assert forall|j: int| i <= j && !(i + 1 <= j) implies !occurs_at(s, p, j) by {}
    }
}

/// `find_from(s, p, 0)` finds something exactly when `p` occurs in `s`.
pub proof fn lemma_find_contains(s: Seq<char>, p: Seq<char>)
    ensures
        find_from(s, p, 0) is Some <==> contains(s, p),
{
    lemma_find_from(s, p, 0);
    if let Some(k) = find_from(s, p, 0) {
        assert(occurs_at(s, p, k));
    }
}

/// When `p` occurs at `k` and nowhere before it, the search finds `k`.
pub proof fn lemma_find_first_at(s: Seq<char>, p: Seq<char>, k: int)
    requires
        occurs_at(s, p, k),
        forall|i: int| 0 <= i < k ==> !occurs_at(s, p, i),
    ensures
        find_from(s, p, 0) == Some(k),
{
    lemma_find_from(s, p, 0);
    match find_from(s, p, 0) {
        Some(j) => {
            if j > k {
                assert(!occurs_at(s, p, k));
            }
        },
        None => {
            assert(!occurs_at(s, p, k));
        },
    }
}

/// No occurrence of `p` in `a + b` starts inside `a`, when `a` holds none
/// and the first character of `b` appears in `p` at its start only.
pub proof fn lemma_no_occurrence_across(a: Seq<char>, b: Seq<char>, p: Seq<char>)
    requires
        !contains(a, p),
        b.len() > 0,
        forall|k: int| 1 <= k < p.len() ==> p[k] != b[0],
    ensures
        forall|i: int| 0 <= i < a.len() ==> !occurs_at(a + b, p, i),
{
    assert forall|i: int| 0 <= i < a.len() implies !occurs_at(a + b, p, i) by {
        if occurs_at(a + b, p, i) {
            let s = a + b;
            if i + p.len() <= a.len() {
                assert(a.subrange(i, i + p.len()) =~= s.subrange(i, i + p.len()));
                assert(occurs_at(a, p, i));
            } else {
                let k = a.len() - i;
                assert(s.subrange(i, i + p.len())[k] == s[a.len() as int]);
                assert(p[k] == b[0]);
            }
        }
    }
}

/// No occurrence of `p` in `a + b` starts inside `a`, when `a` holds none,
/// `b` begins with `p`, and the last character of `p` appears in it once.
pub proof fn lemma_no_occurrence_before(a: Seq<char>, b: Seq<char>, p: Seq<char>)
    requires
        !contains(a, p),
        p.len() > 0,
        p.len() <= b.len(),
        b.take(p.len() as int) == p,
        forall|k: int| 0 <= k < p.len() - 1 ==> #[trigger] p[k] != p[p.len() - 1],
    ensures
        forall|i: int| 0 <= i < a.len() ==> !occurs_at(a + b, p, i),
{
    assert forall|i: int| 0 <= i < a.len() implies !occurs_at(a + b, p, i) by {
        if occurs_at(a + b, p, i) {
            let s = a + b;
            if i + p.len() <= a.len() {
                assert(a.subrange(i, i + p.len()) =~= s.subrange(i, i + p.len()));
                assert(occurs_at(a, p, i));
            } else {
                let last = i + p.len() - 1;
                let m = last - a.len();
                assert(s.subrange(i, i + p.len())[p.len() - 1] == s[last]);
                assert(s[last] == b[m]);
                assert(b.take(p.len() as int)[m] == b[m]);
                assert(p[m] == p[p.len() - 1]);
            }
        }
    }
}

/// Removing breaks from two joined texts removes them from each.
pub proof fn lemma_without_breaks_append(a: Seq<char>, b: Seq<char>)
    ensures
        without_breaks(a + b) == without_breaks(a) + without_breaks(b),
    decreases b.len(),
{
    if b.len() == 0 {
        assert(a + b =~= a);
        assert(without_breaks(a) + without_breaks(b) =~= without_breaks(a));
    } else {
        assert((a + b).drop_last() =~= a + b.drop_last());
        assert((a + b).last() == b.last());
        lemma_without_breaks_append(a, b.drop_last());
        if !is_break(b.last()) {
            assert(without_breaks(a) + without_breaks(b.drop_last()).push(b.last()) =~= (
            without_breaks(a) + without_breaks(b.drop_last())).push(b.last()));
        }
    }
}

/// A text without breaks is left as it is.
pub proof fn lemma_without_breaks_unchanged(s: Seq<char>)
    requires
        free_of_breaks(s),
    ensures
        without_breaks(s) == s,
    decreases s.len(),
{
    if s.len() > 0 {
        assert(!is_break(s[s.len() - 1]));
        assert forall|i: int| 0 <= i < s.drop_last().len() implies !is_break(#[trigger] s.drop_last()[i]) by {
            assert(s.drop_last()[i] == s[i]);
        }
        lemma_without_breaks_unchanged(s.drop_last());
        assert(s.drop_last().push(s.last()) =~= s);
    }
}

/// Whether `s` begins with `p`.
pub fn has_prefix(s: &[char], p: &[char]) -> (r: bool)
    ensures
        r == starts_with(s@, p@),
{
    if p.len() > s.len() {
        return false;
    }
    let mut i: usize = 0;
    while i < p.len()
        invariant
            p@.len() <= s@.len(),
            i <= p@.len(),
            forall|j: int| 0 <= j < i ==> s@[j] == p@[j],
        decreases p@.len() - i,
    {
        if s[i] != p[i] {
            assert(s@.take(p@.len() as int)[i as int] != p@[i as int]);
            return false;
        }
        i = i + 1;
    }
    assert(s@.take(p@.len() as int) =~= p@);
    true
}

/// Whether `p` occurs in `s` at position `at`.
fn matches_at(s: &[char], p: &[char], at: usize) -> (r: bool)
    requires
        at + p@.len() <= s@.len(),
    ensures
        r == occurs_at(s@, p@, at as int),
{
    let slen = s.len();
    let mut k: usize = 0;
    while k < p.len()
        invariant
            slen == s@.len(),
            at + p@.len() <= s@.len(),
            k <= p@.len(),
            forall|j: int| 0 <= j < k ==> s@[at + j] == p@[j],
        decreases p@.len() - k,
    {
        if s[at + k] != p[k] {
            assert(s@.subrange(at as int, at + p@.len())[k as int] != p@[k as int]);
            return false;
        }
        k = k + 1;
    }
    assert(s@.subrange(at as int, at + p@.len()) =~= p@);
    true
}

/// The first position at or after `from` where `p` occurs in `s`.
pub fn find(s: &[char], p: &[char], from: usize) -> (r: Option<usize>)
    requires
        p@.len() > 0,
    ensures
        match r {
            Some(k) => find_from(s@, p@, from as int) == Some(k as int),
            None => find_from(s@, p@, from as int) is None,
        },
{
    let mut i = from;
    while p.len() <= s.len() && i <= s.len() - p.len()
        invariant
            p@.len() > 0,
            from <= i,
            find_from(s@, p@, from as int) == find_from(s@, p@, i as int),
        decreases s@.len() + 1 - i,
    {
        if matches_at(s, p, i) {
            return Some(i);
        }
        i = i + 1;
    }
    None
}

/// The first piece of `s.split(p)`.
pub fn first_piece(s: &[char], p: &[char]) -> (r: String)
    requires
        p@.len() > 0,
    ensures
        r@ == split_first(s@, p@),
{
    match find(s, p, 0) {
        Some(i) => {
            proof {
                lemma_find_from(s@, p@, 0);
            }
            string_from_range(s, 0, i)
        },
        None => string_from_chars(s),
    }
}

/// The second piece of `s.split(p)`; `p` must occur in `s`.
pub fn second_piece(s: &[char], p: &[char]) -> (r: String)
    requires
        p@.len() > 0,
        contains(s@, p@),
    ensures
        split_second(s@, p@) == Some(r@),
{
    proof {
        lemma_find_contains(s@, p@);
        lemma_find_from(s@, p@, 0);
    }
    let slen = s.len();
    let i = find(s, p, 0).unwrap();
    let start = i + p.len();
    let rest = slice_from(s, start);
    assert(rest@ =~= s@.skip(start as int));
    first_piece(rest.as_slice(), p)
}

/// The characters of `s` from position `start` on.
fn slice_from(s: &[char], start: usize) -> (r: Vec<char>)
    requires
        start <= s@.len(),
    ensures
        r@ == s@.skip(start as int),
{
    let mut r: Vec<char> = Vec::new();
    let mut i = start;
    while i < s.len()
        invariant
            start <= i <= s@.len(),
            r@ == s@.subrange(start as int, i as int),
        decreases s@.len() - i,
    {
        r.push(s[i]);
        assert(s@.subrange(start as int, i + 1) =~= s@.subrange(start as int, i as int).push(s@[i as int]));
        i = i + 1;
    }
    assert(s@.subrange(start as int, s@.len() as int) =~= s@.skip(start as int));
    r
}

// ---------------------------------------------------------------------
// Line breaks
// ---------------------------------------------------------------------

/// A tab, carriage return or line feed.
pub open spec fn is_break(c: char) -> bool {
    c == '\t' || c == '\r' || c == '\n'
}

/// `s` with every tab, carriage return and line feed removed.
pub open spec fn without_breaks(s: Seq<char>) -> Seq<char>
    decreases s.len(),
{
    if s.len() == 0 {
        Seq::empty()
    } else if is_break(s.last()) {
        without_breaks(s.drop_last())
    } else {
        without_breaks(s.drop_last()).push(s.last())
    }
}

/// Removes every tab, carriage return and line feed.
pub fn strip_breaks(s: &[char]) -> (r: Vec<char>)
    ensures
        r@ == without_breaks(s@),
{
    let mut r: Vec<char> = Vec::new();
    let mut i: usize = 0;
    while i < s.len()
        invariant
            i <= s@.len(),
            r@ == without_breaks(s@.take(i as int)),
        decreases s@.len() - i,
    {
        assert(s@.take(i + 1).drop_last() =~= s@.take(i as int));
        let c = s[i];
        if !(c == '\t' || c == '\r' || c == '\n') {
            r.push(c);
        }
        i = i + 1;
    }
    assert(s@.take(s@.len() as int) =~= s@);
    r
}

/// `s` holds no tab, carriage return or line feed.
pub open spec fn free_of_breaks(s: Seq<char>) -> bool {
    forall|i: int| 0 <= i < s.len() ==> !is_break(#[trigger] s[i])
}

/// Removing the breaks leaves none.
pub proof fn lemma_without_breaks_free(s: Seq<char>)
    ensures
        free_of_breaks(without_breaks(s)),
    decreases s.len(),
{
    if s.len() > 0 {
        lemma_without_breaks_free(s.drop_last());
        let r = without_breaks(s.drop_last());
        if !is_break(s.last()) {
            assert forall|i: int| 0 <= i < r.push(s.last()).len() implies !is_break(#[trigger] r.push(s.last())[i]) by {
                if i < r.len() {
                    assert(r.push(s.last())[i] == r[i]);
                }
            }
        }
    }
}

/// The pieces of a split hold only characters of what was split.
pub proof fn lemma_split_free_of_breaks(s: Seq<char>, p: Seq<char>)
    requires
        free_of_breaks(s),
    ensures
        free_of_breaks(split_first(s, p)),
        split_second(s, p) matches Some(t) ==> free_of_breaks(t),
{
    lemma_find_from(s, p, 0);
    if let Some(i) = find_from(s, p, 0) {
        assert forall|k: int| 0 <= k < s.take(i).len() implies !is_break(#[trigger] s.take(i)[k]) by {
            assert(s.take(i)[k] == s[k]);
        }
        let rest = s.skip(i + p.len());
        assert forall|k: int| 0 <= k < rest.len() implies !is_break(#[trigger] rest[k]) by {
            assert(rest[k] == s[k + i + p.len()]);
        }
        lemma_find_from(rest, p, 0);
        if let Some(m) = find_from(rest, p, 0) {
            assert forall|k: int| 0 <= k < rest.take(m).len() implies !is_break(#[trigger] rest.take(m)[k]) by {
                assert(rest.take(m)[k] == rest[k]);
            }
        }
    }
}

// ---------------------------------------------------------------------
// Decimal integers
// ---------------------------------------------------------------------

/// An ASCII decimal digit.
pub open spec fn is_digit(c: char) -> bool {
    '0' <= c && c <= '9'
}

/// The value of a decimal digit.
pub open spec fn digit_value(c: char) -> int {
    (c as int) - ('0' as int)
}

/// Every character of `s` is a decimal digit.
pub open spec fn all_digits(s: Seq<char>) -> bool {
    forall|i: int| 0 <= i < s.len() ==> is_digit(#[trigger] s[i])
}

/// The number that the digits of `s` spell in base ten.
pub open spec fn digits_value(s: Seq<char>) -> int
    decreases s.len(),
{
    if s.len() == 0 {
        0
    } else {
        digits_value(s.drop_last()) * 10 + digit_value(s.last())
    }
}

/// What `str::parse::<i32>` accepts and gives: an optional `+` or `-`, then
/// at least one decimal digit, the value within the range of `i32`.
pub open spec fn parse_i32_spec(s: Seq<char>) -> Option<i32> {
    let signed = s.len() > 0 && (s[0] == '-' || s[0] == '+');
    let body = if signed { s.drop_first() } else { s };
    let magnitude = digits_value(body);
    let value = if s.len() > 0 && s[0] == '-' { -magnitude } else { magnitude };
    if body.len() > 0 && all_digits(body) && i32::MIN <= value <= i32::MAX {
        Some(value as i32)
    } else {
        None
    }
}

proof fn lemma_digits_value_step(s: Seq<char>, i: int)
    requires
        0 <= i < s.len(),
    ensures
        digits_value(s.take(i + 1)) == digits_value(s.take(i)) * 10 + digit_value(s[i]),
{
    assert(s.take(i + 1).drop_last() =~= s.take(i));
}

proof fn lemma_digits_value_nonneg(s: Seq<char>)
    requires
        all_digits(s),
    ensures
        digits_value(s) >= 0,
    decreases s.len(),
{
    if s.len() > 0 {
        assert(all_digits(s.drop_last()));
        assert(is_digit(s[s.len() - 1]));
        lemma_digits_value_nonneg(s.drop_last());
    }
}

/// Parses a decimal `i32` as `str::parse::<i32>` does; `None` where it fails.
pub fn parse_i32(s: &str) -> (r: Option<i32>)
    ensures
        r == parse_i32_spec(s@),
{
    let cs = chars_of(s);
    let n = cs.len();
    let negative = n > 0 && cs[0] == '-';
    let start: usize = if n > 0 && (cs[0] == '-' || cs[0] == '+') { 1 } else { 0 };
    let ghost body = if start == 1 { cs@.drop_first() } else { cs@ };
    assert(body =~= cs@.subrange(start as int, n as int));
    if start == n {
        return None;
    }
    let limit: u64 = 2147483648;
    let mut acc: u64 = 0;
    let mut i = start;
    while i < n
        invariant
            start <= i <= n,
            n == cs@.len(),
            limit == 2147483648,
            body == cs@.subrange(start as int, n as int),
            all_digits(body.take(i - start)),
            !all_digits(body) ==> parse_i32_spec(s@) is None,
            digits_value(body.take(i - start)) <= limit ==> acc == digits_value(body.take(i - start)),
            digits_value(body.take(i - start)) > limit ==> acc == limit + 1,
        decreases n - i,
    {
        let c = cs[i];
        let k: usize = i - start;
        assert(body[k as int] == c);
        if !('0' <= c && c <= '9') {
            assert(!is_digit(body[k as int]));
            return None;
        }
        proof {
            lemma_digits_value_step(body, k as int);
            lemma_digits_value_nonneg(body.take(k as int));
            assert(all_digits(body.take(k + 1))) by {
                assert forall|j: int| 0 <= j < k + 1 implies is_digit(#[trigger] body.take(k + 1)[j]) by {
                    if j < k {
                        assert(body.take(k + 1)[j] == body.take(k as int)[j]);
                    }
                }
            }
        }
        let d: u64 = (c as u64) - ('0' as u64);
        if acc <= limit {
            let next = acc * 10 + d;
            if next > limit {
                acc = limit + 1;
            } else {
                acc = next;
            }
        }
        i = i + 1;
    }
    assert(body.take(n - start) =~= body);
    if negative {
        if acc > limit {
            return None;
        }
        let v: i64 = -(acc as i64);
        Some(v as i32)
    } else {
        if acc > limit - 1 {
            return None;
        }
        Some(acc as i32)
    }
}

/// The character of a decimal digit value.
pub open spec fn digit_char(d: int) -> char {
    (d + ('0' as int)) as char
}

/// The decimal digits of a natural number, without leading zeros.
pub open spec fn natural_digits(n: nat) -> Seq<char>
    decreases n,
{
    if n < 10 {
        seq![digit_char(n as int)]
    } else {
        natural_digits(n / 10).push(digit_char((n % 10) as int))
    }
}

/// The decimal form of an integer, with a leading `-` when negative.
pub open spec fn decimal(n: int) -> Seq<char> {
    if n < 0 {
        seq!['-'] + natural_digits((-n) as nat)
    } else {
        natural_digits(n as nat)
    }
}

/// Writes an `i32` in decimal, as its `Display` form does.
pub fn i32_to_string(n: i32) -> (s: String)
    ensures
        s@ == decimal(n as int),
{
    let big: i64 = n as i64;
    let magnitude: u64 = if big < 0 { (-big) as u64 } else { big as u64 };
    let ghost total: nat = magnitude as nat;
    let mut m: u64 = magnitude;
    let mut out: Vec<char> = Vec::new();
    while m >= 10
        invariant
            natural_digits(total) =~= natural_digits(m as nat) + out@,
        decreases m,
    {
        let d = m % 10;
        let c = char_of_digit(d);
        proof {
            assert(natural_digits(m as nat) == natural_digits((m / 10) as nat).push(digit_char(d as int)));
        }
        out.insert(0, c);
        m = m / 10;
    }
    let first = char_of_digit(m);
    out.insert(0, first);
    assert(natural_digits(total) =~= out@);
    if n < 0 {
        out.insert(0, '-');
        assert(out@ =~= seq!['-'] + natural_digits(total));
    }
    string_from_chars(out.as_slice())
}

/// The character of a digit value below ten.
fn char_of_digit(d: u64) -> (c: char)
    requires
        d < 10,
    ensures
        c == digit_char(d as int),
{
    if d == 0 { '0' }
    else if d == 1 { '1' }
    else if d == 2 { '2' }
    else if d == 3 { '3' }
    else if d == 4 { '4' }
    else if d == 5 { '5' }
    else if d == 6 { '6' }
    else if d == 7 { '7' }
    else if d == 8 { '8' }
    else { '9' }
}

proof fn lemma_digit_char(d: int)
    requires
        0 <= d < 10,
    ensures
        digit_value(digit_char(d)) == d,
        is_digit(digit_char(d)),
{
    assert(digit_char(d) as int == d + 48);
}

proof fn lemma_natural_digits(n: nat)
    ensures
        natural_digits(n).len() > 0,
        all_digits(natural_digits(n)),
        digits_value(natural_digits(n)) == n,
    decreases n,
{
    lemma_digit_char((n % 10) as int);
    if n >= 10 {
        lemma_natural_digits(n / 10);
        let s = natural_digits(n);
        assert(s.drop_last() =~= natural_digits(n / 10));
        assert(s.last() == digit_char((n % 10) as int));
        assert(digits_value(s) == digits_value(natural_digits(n / 10)) * 10 + (n % 10));
        assert forall|i: int| 0 <= i < s.len() implies is_digit(#[trigger] s[i]) by {
            if i < s.len() - 1 {
                assert(s[i] == natural_digits(n / 10)[i]);
            }
        }
    } else {
        let s = natural_digits(n);
        assert(s.drop_last() =~= Seq::<char>::empty());
        assert(digits_value(s) == digits_value(s.drop_last()) * 10 + digit_value(s.last()));
    }
}

/// Parsing the decimal form of an `i32` gives that `i32` back.
pub proof fn lemma_parse_decimal(n: i32)
    ensures
        parse_i32_spec(decimal(n as int)) == Some(n),
{
    if n < 0 {
        let m: nat = (-n) as nat;
        lemma_natural_digits(m);
        let s = decimal(n as int);
        assert(s.drop_first() =~= natural_digits(m));
        assert(s[0] == '-');
    } else {
        lemma_natural_digits(n as nat);
        let s = natural_digits(n as nat);
        assert(is_digit(s[0]));
    }
}

} // verus!
