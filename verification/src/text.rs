//! Text: the character-level facts every validator in the crate is stated in.
//!
//! A `&str` is viewed as its sequence of Unicode scalar values (`s@`), which is
//! what `chars()` walks and what `chars().count()` counts. Trimming follows
//! `str::trim`: it removes characters with the Unicode `White_Space`
//! property from both ends.
use vstd::prelude::*;

verus! {

/// The characters of `s`, in order.
pub fn chars_of(s: &str) -> (out: Vec<char>)
    ensures
        out@ == s@,
{
    let mut out: Vec<char> = Vec::new();
    for c in it: s.chars()
        invariant
            out@ == it.seq().take(it.index() as int),
    {
        out.push(c);
    }
    out
}

/// Whether two strings hold the same characters.
pub fn str_eq(a: &str, b: &str) -> (r: bool)
    ensures
        r == (a@ == b@),
{
    let x = chars_of(a);
    let y = chars_of(b);
    if x.len() != y.len() {
        return false;
    }
    let mut i: usize = 0;
    while i < x.len()
        invariant
            x@ == a@,
            y@ == b@,
            x.len() == y.len(),
            i <= x.len(),
            forall|k: int| 0 <= k < i ==> x@[k] == y@[k],
        decreases x.len() - i,
    {
        if x[i] != y[i] {
            return false;
        }
        i = i + 1;
    }
    assert(x@ =~= y@);
    true
}

/// Whether `s` is one of `options`.
pub fn one_of_strs(s: &str, options: &[&str]) -> (r: bool)
    ensures
        r == exists|i: int| 0 <= i < options@.len() && options@[i]@ == s@,
{
    let mut i: usize = 0;
    while i < options.len()
        invariant
            i <= options@.len(),
            forall|k: int| 0 <= k < i ==> options@[k]@ != s@,
        decreases options.len() - i,
    {
        if str_eq(options[i], s) {
            return true;
        }
        i = i + 1;
    }
    false
}

/// The Unicode `White_Space` property, which `char::is_whitespace` and
/// `str::trim` go by.
pub open spec fn is_space(c: char) -> bool {
    let n = c as u32;
    ||| 0x09 <= n <= 0x0D
    ||| n == 0x20
    ||| n == 0x85
    ||| n == 0xA0
    ||| n == 0x1680
    ||| 0x2000 <= n <= 0x200A
    ||| n == 0x2028
    ||| n == 0x2029
    ||| n == 0x202F
    ||| n == 0x205F
    ||| n == 0x3000
}

pub fn space(c: char) -> (r: bool)
    ensures
        r == is_space(c),
{
    let n = c as u32;
    (0x09 <= n && n <= 0x0D) || n == 0x20 || n == 0x85 || n == 0xA0 || n == 0x1680 || (0x2000
        <= n && n <= 0x200A) || n == 0x2028 || n == 0x2029 || n == 0x202F || n == 0x205F || n
        == 0x3000
}

/// The index of the first character of `s` at or after `i` that is not
/// white space (or `s.len()`).
pub open spec fn lead_from(s: Seq<char>, i: int) -> int
    decreases s.len() - i,
{
    if 0 <= i < s.len() && is_space(s[i]) {
        lead_from(s, i + 1)
    } else {
        i
    }
}

/// One past the last character of `s` below `j` that is not white space,
/// never going below `lo`.
pub open spec fn tail_to(s: Seq<char>, lo: int, j: int) -> int
    decreases j - lo,
{
    if lo < j && 0 < j <= s.len() && is_space(s[j - 1]) {
        tail_to(s, lo, j - 1)
    } else {
        j
    }
}

pub open spec fn trim_start(s: Seq<char>) -> int {
    lead_from(s, 0)
}

pub open spec fn trim_end(s: Seq<char>) -> int {
    tail_to(s, trim_start(s), s.len() as int)
}

/// `s` with white space removed from both ends, as `str::trim` does.
pub open spec fn trimmed(s: Seq<char>) -> Seq<char> {
    s.subrange(trim_start(s), trim_end(s))
}

proof fn lemma_lead_bounds(s: Seq<char>, i: int)
    requires
        0 <= i <= s.len(),
    ensures
        i <= lead_from(s, i) <= s.len(),
        forall|k: int| i <= k < lead_from(s, i) ==> is_space(s[k]),
        lead_from(s, i) < s.len() ==> !is_space(s[lead_from(s, i)]),
    decreases s.len() - i,
{
    if i < s.len() && is_space(s[i]) {
        lemma_lead_bounds(s, i + 1);
    }
}

proof fn lemma_tail_bounds(s: Seq<char>, lo: int, j: int)
    requires
        0 <= lo <= j <= s.len(),
    ensures
        lo <= tail_to(s, lo, j) <= j,
        forall|k: int| tail_to(s, lo, j) <= k < j ==> is_space(s[k]),
        lo < tail_to(s, lo, j) ==> !is_space(s[tail_to(s, lo, j) - 1]),
    decreases j - lo,
{
    if lo < j && is_space(s[j - 1]) {
        lemma_tail_bounds(s, lo, j - 1);
    }
}

/// Where the trimmed part of `s` starts and ends, and what is around it.
proof fn lemma_trim_shape(s: Seq<char>)
    ensures
        0 <= trim_start(s) <= trim_end(s) <= s.len(),
        forall|k: int| 0 <= k < trim_start(s) ==> is_space(s[k]),
        forall|k: int| trim_end(s) <= k < s.len() ==> is_space(s[k]),
        trim_start(s) < trim_end(s) ==> !is_space(s[trim_start(s)]) && !is_space(
            s[trim_end(s) - 1],
        ),
        trim_start(s) == trim_end(s) ==> forall|k: int| 0 <= k < s.len() ==> is_space(s[k]),
{
    lemma_lead_bounds(s, 0);
    lemma_tail_bounds(s, trim_start(s), s.len() as int);
}

/// The trimmed part of `s` as a slice of it.
pub fn trim(s: &str) -> (t: &str)
    ensures
        t@ == trimmed(s@),
{
    let v = chars_of(s);
    let n = v.len();
    let mut i: usize = 0;
    while i < n && space(v[i])
        invariant
            v@ == s@,
            n == v.len(),
            i <= n,
            lead_from(s@, 0) == lead_from(s@, i as int),
        decreases n - i,
    {
        i = i + 1;
    }
    let mut j: usize = n;
    while j > i && space(v[j - 1])
        invariant
            v@ == s@,
            n == v.len(),
            i <= j <= n,
            i == trim_start(s@),
            tail_to(s@, i as int, n as int) == tail_to(s@, i as int, j as int),
        decreases j - i,
    {
        j = j - 1;
    }
    s.substring_char(i, j)
}

/// The number of characters of `s`.
pub fn char_count(s: &str) -> (n: usize)
    ensures
        n == s@.len(),
{
    s.unicode_len()
}

/// Whether `c` occurs in `s`.
pub fn has_char(s: &str, c: char) -> (r: bool)
    ensures
        r == s@.contains(c),
{
    let v = chars_of(s);
    let mut i: usize = 0;
    while i < v.len()
        invariant
            v@ == s@,
            i <= v.len(),
            forall|k: int| 0 <= k < i ==> v@[k] != c,
        decreases v.len() - i,
    {
        if v[i] == c {
            assert(s@[i as int] == c);
            return true;
        }
        i = i + 1;
    }
    false
}

/// `String::push`, one character at the end.
#[verifier::external_body]
pub(crate) fn push_char(s: &mut String, c: char)
    ensures
        final(s)@ == old(s)@.push(c),
{
    s.push(c);
}

/// A `String` holding exactly `v`.
pub fn string_of(v: &Vec<char>) -> (s: String)
    ensures
        s@ == v@,
{
    let mut s = String::new();
    let mut i: usize = 0;
    while i < v.len()
        invariant
            i <= v.len(),
            s@ == v@.take(i as int),
        decreases v.len() - i,
    {
        push_char(&mut s, v[i]);
        assert(v@.take(i as int).push(v@[i as int]) =~= v@.take(i + 1));
        i = i + 1;
    }
    assert(v@.take(v.len() as int) =~= v@);
    s
}

/// A `String` holding the characters of `t`.
pub fn owned(t: &str) -> (s: String)
    ensures
        s@ == t@,
{
    t.to_owned()
}

// ---------------------------------------------------------------------------
// Decimal numbers
// ---------------------------------------------------------------------------
/// The ASCII digit for `d` (`0 <= d < 10`).
pub open spec fn digit_char(d: int) -> char {
    (('0' as int) + d) as char
}

/// The decimal spelling of a natural number, most significant digit first,
/// as `to_string` writes it: no leading zeros, and `"0"` for zero.
pub open spec fn decimal_nat(n: nat) -> Seq<char>
    decreases n,
{
    if n < 10 {
        seq![digit_char(n as int)]
    } else {
        decimal_nat(n / 10).push(digit_char((n % 10) as int))
    }
}

/// The decimal spelling of an integer, with a leading `-` when negative.
pub open spec fn decimal_int(n: int) -> Seq<char> {
    if n < 0 {
        seq!['-'] + decimal_nat((-n) as nat)
    } else {
        decimal_nat(n as nat)
    }
}

fn digit(d: u64) -> (c: char)
    requires
        d < 10,
    ensures
        c == digit_char(d as int),
{
    let r = match d {
        0 => '0',
        1 => '1',
        2 => '2',
        3 => '3',
        4 => '4',
        5 => '5',
        6 => '6',
        7 => '7',
        8 => '8',
        _ => '9',
    };
    assert(r == digit_char(d as int)) by {
        assert('0' as int == 48);
    }
    r
}

/// The digits of `n`, appended to `out`.
fn push_decimal(out: &mut String, n: u64)
    ensures
        final(out)@ == old(out)@ + decimal_nat(n as nat),
    decreases n,
{
    if n < 10 {
        let c = digit(n);
        push_char(out, c);
        assert(old(out)@.push(c) =~= old(out)@ + decimal_nat(n as nat));
    } else {
        push_decimal(out, n / 10);
        let c = digit(n % 10);
        push_char(out, c);
        assert(old(out)@ + decimal_nat((n / 10) as nat) + seq![c] =~= old(out)@ + decimal_nat(
            n as nat,
        ));
    }
}

/// The decimal spelling of an `i64`, as `i64::to_string` writes it.
pub fn i64_to_decimal(n: i64) -> (s: String)
    ensures
        s@ == decimal_int(n as int),
{
    let mut s = String::new();
    if n < 0 {
        push_char(&mut s, '-');
        let m: u64 = if n == i64::MIN {
            9223372036854775808u64
        } else {
            (-n) as u64
        };
        push_decimal(&mut s, m);
        assert(s@ =~= seq!['-'] + decimal_nat((-(n as int)) as nat));
    } else {
        push_decimal(&mut s, n as u64);
        assert(s@ =~= decimal_nat(n as nat));
    }
    s
}

/// The value of a run of ASCII digits, most significant first.
pub open spec fn digits_value(s: Seq<char>) -> int
    decreases s.len(),
{
    if s.len() == 0 {
        0
    } else {
        digits_value(s.drop_last()) * 10 + (s.last() as int - '0' as int)
    }
}

pub open spec fn is_digit(c: char) -> bool {
    '0' <= c && c <= '9'
}

pub open spec fn all_digits(s: Seq<char>) -> bool {
    forall|i: int| 0 <= i < s.len() ==> is_digit(#[trigger] s[i])
}

/// What `str::parse::<i64>` accepts, and the value it gives: an optional `+`
/// or `-`, then one or more ASCII digits, whose value fits in an `i64`.
pub open spec fn parse_i64_spec(s: Seq<char>) -> Option<i64> {
    let neg = s.len() > 0 && s[0] == '-';
    let plus = s.len() > 0 && s[0] == '+';
    let body = if neg || plus {
        s.drop_first()
    } else {
        s
    };
    let v = if neg {
        -digits_value(body)
    } else {
        digits_value(body)
    };
    if body.len() > 0 && all_digits(body) && i64::MIN <= v <= i64::MAX {
        Some(v as i64)
    } else {
        None
    }
}

proof fn lemma_digits_value_nonneg(s: Seq<char>)
    requires
        all_digits(s),
    ensures
        digits_value(s) >= 0,
    decreases s.len(),
{
    if s.len() > 0 {
        assert(is_digit(s[s.len() - 1]));
        lemma_digits_value_nonneg(s.drop_last());
    }
}

proof fn lemma_digits_value_monotone(s: Seq<char>, k: int)
    requires
        all_digits(s),
        0 <= k <= s.len(),
    ensures
        digits_value(s.take(k)) <= digits_value(s),
    decreases s.len() - k,
{
    if k < s.len() {
        lemma_digits_value_monotone(s, k + 1);
        assert(s.take(k + 1).drop_last() =~= s.take(k));
        assert(is_digit(s[k]));
        assert(all_digits(s.take(k)));
        lemma_digits_value_nonneg(s.take(k));
    } else {
        assert(s.take(k) =~= s);
    }
}

/// A decimal spelling is digits, at least one, and reads back as its
/// number.
pub proof fn lemma_decimal_nat(n: nat)
    ensures
        decimal_nat(n).len() >= 1,
        all_digits(decimal_nat(n)),
        digits_value(decimal_nat(n)) == n,
    decreases n,
{
    if n >= 10 {
        lemma_decimal_nat(n / 10);
        let s = decimal_nat(n);
        assert(s.drop_last() =~= decimal_nat(n / 10));
        assert(s.last() == digit_char((n % 10) as int));
        assert('0' as int == 48);
        assert(digit_char((n % 10) as int) as int == 48 + n % 10);
        assert(digits_value(s) == digits_value(decimal_nat(n / 10)) * 10 + (n % 10));
        assert((n / 10) * 10 + n % 10 == n) by (nonlinear_arith);
        assert(forall|i: int| 0 <= i < s.len() - 1 ==> s[i] == decimal_nat(n / 10)[i]);
    } else {
        assert('0' as int == 48);
        assert(digit_char(n as int) as int == 48 + n);
        assert(decimal_nat(n).drop_last() =~= Seq::<char>::empty());
        assert(digits_value(Seq::<char>::empty()) == 0);
    }
}

/// What `i64::to_string` writes, `str::parse::<i64>` reads back.
pub proof fn lemma_decimal_round_trips(v: i64)
    ensures
        parse_i64_spec(decimal_int(v as int)) == Some(v),
{
    if v < 0 {
        let d = decimal_nat((-(v as int)) as nat);
        lemma_decimal_nat((-(v as int)) as nat);
        assert((seq!['-'] + d).drop_first() =~= d);
    } else {
        let d = decimal_nat(v as nat);
        lemma_decimal_nat(v as nat);
        assert(is_digit(d[0]));
    }
}

/// Trimming is done once: a value stored trimmed, sent back, is accepted
/// as it is.
pub proof fn law_trimming_twice_changes_nothing(s: Seq<char>)
    ensures
        trimmed(trimmed(s)) == trimmed(s),
{
    lemma_trim_shape(s);
    let t = trimmed(s);
    if t.len() == 0 {
        assert(trimmed(t) =~= t);
    } else {
        assert(t[0] == s[trim_start(s)]);
        assert(t[t.len() - 1] == s[trim_end(s) - 1]);
        lemma_trimmed_unchanged(t);
    }
}

/// A text that starts and ends with something other than white space is
/// its own trimmed form.
pub proof fn lemma_trimmed_unchanged(s: Seq<char>)
    requires
        s.len() > 0,
        !is_space(s[0]),
        !is_space(s[s.len() - 1]),
    ensures
        trimmed(s) == s,
{
    assert(lead_from(s, 0) == 0);
    assert(tail_to(s, 0, s.len() as int) == s.len());
    assert(s.subrange(0, s.len() as int) =~= s);
}

/// `str::parse::<i64>`.
pub fn parse_i64(s: &str) -> (r: Option<i64>)
    ensures
        r == parse_i64_spec(s@),
{
    let v = chars_of(s);
    let n = v.len();
    let neg = n > 0 && v[0] == '-';
    let plus = n > 0 && v[0] == '+';
    let start: usize = if neg || plus {
        1
    } else {
        0
    };
    let ghost body = if neg || plus {
        s@.drop_first()
    } else {
        s@
    };
    assert(body =~= s@.subrange(start as int, n as int));
    if start >= n {
        return None;
    }
    // The largest magnitude the sign allows.
    let limit: u64 = if neg {
        9223372036854775808u64
    } else {
        9223372036854775807u64
    };
    let mut acc: u64 = 0;
    let mut i: usize = start;
    while i < n
        invariant
            v@ == s@,
            n == v.len(),
            start <= i <= n,
            start == (if neg || plus {
                1int
            } else {
                0int
            }),
            body =~= s@.subrange(start as int, n as int),
            neg == (s@.len() > 0 && s@[0] == '-'),
            plus == (s@.len() > 0 && s@[0] == '+'),
            body == (if neg || plus {
                s@.drop_first()
            } else {
                s@
            }),
            all_digits(body.take(i - start)),
            acc == digits_value(body.take(i - start)),
            acc <= limit,
            limit == (if neg {
                9223372036854775808int
            } else {
                9223372036854775807int
            }),
        decreases n - i,
    {
        let c = v[i];
        assert(c == body[i - start]);
        if !('0' <= c && c <= '9') {
            assert(!is_digit(body[i - start]));
            assert(!all_digits(body));
            return None;
        }
        let d = (c as u32 - '0' as u32) as u64;
        assert(body.take(i - start + 1).drop_last() =~= body.take(i - start));
        assert(all_digits(body.take(i - start + 1)));
        assert(digits_value(body.take(i - start + 1)) == acc * 10 + d);
        if acc > (limit - d) / 10 {
            proof {
                lemma_digits_all_digits_prefix_value(body, i - start + 1);
            }
            return None;
        }
        acc = acc * 10 + d;
        i = i + 1;
    }
    assert(body.take(n - start) =~= body);
    if neg {
        if acc == 9223372036854775808u64 {
            Some(i64::MIN)
        } else {
            Some(-(acc as i64))
        }
    } else {
        Some(acc as i64)
    }
}

/// When a prefix of `body` is all digits but `body` has a non-digit or a
/// value out of range, the value of the digits-only whole is at least that of
/// the prefix.
proof fn lemma_digits_all_digits_prefix_value(body: Seq<char>, k: int)
    requires
        0 <= k <= body.len(),
        all_digits(body.take(k)),
    ensures
        all_digits(body) ==> digits_value(body.take(k)) <= digits_value(body),
{
    if all_digits(body) {
        lemma_digits_value_monotone(body, k);
    }
}

} // verus!

verus! {

/// Whether `s` ends with `suffix`.
pub open spec fn ends_with_spec(s: Seq<char>, suffix: Seq<char>) -> bool {
    suffix.len() <= s.len() && s.subrange(s.len() - suffix.len(), s.len() as int) == suffix
}

/// Whether `s` starts with `prefix`.
pub open spec fn starts_with_spec(s: Seq<char>, prefix: Seq<char>) -> bool {
    prefix.len() <= s.len() && s.subrange(0, prefix.len() as int) == prefix
}

/// `str::ends_with` for a string suffix.
pub fn ends_with(s: &str, suffix: &str) -> (r: bool)
    ensures
        r == ends_with_spec(s@, suffix@),
{
    let a = chars_of(s);
    let b = chars_of(suffix);
    if b.len() > a.len() {
        return false;
    }
    let off = a.len() - b.len();
    let mut i: usize = 0;
    while i < b.len()
        invariant
            a@ == s@,
            b@ == suffix@,
            off == a.len() - b.len(),
            i <= b.len(),
            forall|k: int| 0 <= k < i ==> a@[off + k] == b@[k],
        decreases b.len() - i,
    {
        if a[off + i] != b[i] {
            assert(s@.subrange(s@.len() - suffix@.len(), s@.len() as int)[i as int] != suffix@[i as int]);
            return false;
        }
        i = i + 1;
    }
    assert(s@.subrange(s@.len() - suffix@.len(), s@.len() as int) =~= suffix@);
    true
}

/// `str::starts_with` for a string prefix.
pub fn starts_with(s: &str, prefix: &str) -> (r: bool)
    ensures
        r == starts_with_spec(s@, prefix@),
{
    let a = chars_of(s);
    let b = chars_of(prefix);
    if b.len() > a.len() {
        return false;
    }
    let mut i: usize = 0;
    while i < b.len()
        invariant
            a@ == s@,
            b@ == prefix@,
            b.len() <= a.len(),
            i <= b.len(),
            forall|k: int| 0 <= k < i ==> a@[k] == b@[k],
        decreases b.len() - i,
    {
        if a[i] != b[i] {
            assert(s@.subrange(0, prefix@.len() as int)[i as int] != prefix@[i as int]);
            return false;
        }
        i = i + 1;
    }
    assert(s@.subrange(0, prefix@.len() as int) =~= prefix@);
    true
}

} // verus!

verus! {

/// Where the trimmed part of `v[lo..hi]` lies in `v`.
pub fn trim_range(v: &Vec<char>, lo: usize, hi: usize) -> (r: (usize, usize))
    requires
        lo <= hi <= v.len(),
    ensures
        lo <= r.0 <= r.1 <= hi,
        v@.subrange(r.0 as int, r.1 as int) == trimmed(v@.subrange(lo as int, hi as int)),
{
    let ghost s = v@.subrange(lo as int, hi as int);
    let mut i: usize = lo;
    while i < hi && space(v[i])
        invariant
            lo <= i <= hi <= v.len(),
            s == v@.subrange(lo as int, hi as int),
            lead_from(s, 0) == lead_from(s, i - lo),
        decreases hi - i,
    {
        assert(s[i - lo] == v@[i as int]);
        i = i + 1;
    }
    proof {
        if i < hi {
            assert(s[i - lo] == v@[i as int]);
        }
    }
    assert(trim_start(s) == i - lo);
    let mut j: usize = hi;
    while j > i && space(v[j - 1])
        invariant
            lo <= i <= j <= hi <= v.len(),
            s == v@.subrange(lo as int, hi as int),
            i - lo == trim_start(s),
            tail_to(s, i - lo, hi - lo) == tail_to(s, i - lo, j - lo),
        decreases j - i,
    {
        assert(s[j - 1 - lo] == v@[j - 1]);
        j = j - 1;
    }
    proof {
        if j > i {
            assert(s[j - 1 - lo] == v@[j - 1]);
        }
        assert(trim_end(s) == j - lo);
        assert(v@.subrange(i as int, j as int) =~= s.subrange(i - lo, j - lo));
    }
    (i, j)
}

/// Whether `v[a..b]` starts with `prefix`.
pub fn range_starts_with(v: &Vec<char>, a: usize, b: usize, prefix: &Vec<char>) -> (r: bool)
    requires
        a <= b <= v.len(),
    ensures
        r == starts_with_spec(v@.subrange(a as int, b as int), prefix@),
{
    let ghost s = v@.subrange(a as int, b as int);
    if prefix.len() > b - a {
        return false;
    }
    let mut k: usize = 0;
    while k < prefix.len()
        invariant
            a <= b <= v.len(),
            prefix.len() <= b - a,
            s == v@.subrange(a as int, b as int),
            k <= prefix.len(),
            forall|m: int| 0 <= m < k ==> s[m] == prefix@[m],
        decreases prefix.len() - k,
    {
        if v[a + k] != prefix[k] {
            assert(s.subrange(0, prefix@.len() as int)[k as int] != prefix@[k as int]);
            return false;
        }
        k = k + 1;
    }
    assert(s.subrange(0, prefix@.len() as int) =~= prefix@);
    true
}

} // verus!

verus! {

/// The trimmed form of `s` when it has between 1 and `max` characters.
pub fn trimmed_within(s: &str, max: usize) -> (r: Option<&str>)
    ensures
        match r {
            Some(t) => t@ == trimmed(s@) && 0 < t@.len() <= max,
            None => trimmed(s@).len() == 0 || trimmed(s@).len() > max,
        },
{
    let t = trim(s);
    let n = char_count(t);
    if n == 0 || n > max {
        None
    } else {
        Some(t)
    }
}

} // verus!

verus! {

/// A string has at least one UTF-8 byte per character and at most four.
pub proof fn lemma_utf8_len(s: Seq<char>)
    ensures
        s.len() <= vstd::utf8::encode_utf8(s).len() <= 4 * s.len(),
    decreases s.len(),
{
    if s.len() > 0 {
        lemma_utf8_len(s.drop_first());
    }
}

} // verus!
