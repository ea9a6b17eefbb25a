//! Character-level helpers: splitting strings into characters, substring
//! search, and decimal rendering of integers (plain and zero padded).
use vstd::prelude::*;

verus! {

/// The characters of `s`, in order.
pub fn chars_of(s: &str) -> (v: Vec<char>)
    ensures
        v@ == s@,
{
    let mut v: Vec<char> = Vec::new();
    for c in it: s.chars()
        invariant
            v@ == it.seq().take(it.index() as int),
            it.seq() == s@,
    {
        v.push(c);
    }
    v
}

/// Collects characters into a `String` (std's `FromIterator<char>` for `String`).
/// Claimed: the string holds exactly the given characters, in order.
#[verifier::external_body]
fn string_from_chars(v: &Vec<char>) -> (s: String)
    ensures
        s@ == v@,
{
    v.iter().collect::<String>()
}

/// A copy of `s` as an owned `String`.
pub fn owned(s: &str) -> (r: String)
    ensures
        r@ == s@,
{
    s.to_owned()
}

/// `s` followed by `t`.
pub fn concat_str(s: &str, t: &str) -> (r: String)
    ensures
        r@ == s@ + t@,
{
    let mut r = s.to_owned();
    r.append(t);
    r
}

// ----------------------------------------------------------------------------
// Substring search
// ----------------------------------------------------------------------------

/// `needle` occurs in `hay` starting at position `i`.
pub open spec fn occurs_at(hay: Seq<char>, needle: Seq<char>, i: int) -> bool {
    0 <= i && i + needle.len() <= hay.len() && hay.subrange(i, i + needle.len()) == needle
}

/// `needle` occurs somewhere in `hay` (the empty needle occurs everywhere).
pub open spec fn contains_seq(hay: Seq<char>, needle: Seq<char>) -> bool {
    exists|i: int| occurs_at(hay, needle, i)
}

fn matches_at(hay: &Vec<char>, needle: &Vec<char>, i: usize) -> (b: bool)
    requires
        i + needle.len() <= hay.len(),
    ensures
        b == occurs_at(hay@, needle@, i as int),
{
    let mut k: usize = 0;
    while k < needle.len()
        invariant
            i + needle.len() <= hay.len(),
            k <= needle.len(),
            forall|j: int| 0 <= j < k ==> hay@[i + j] == needle@[j],
        decreases needle.len() - k,
    {
        if hay[i + k] != needle[k] {
            assert(hay@.subrange(i as int, i + needle.len())[k as int] != needle@[k as int]);
            return false;
        }
        k = k + 1;
    }
    assert(hay@.subrange(i as int, i + needle.len()) =~= needle@);
    true
}

/// Whether `needle` occurs in `hay` as a run of consecutive characters.
pub fn str_contains(hay: &str, needle: &str) -> (b: bool)
    ensures
        b == contains_seq(hay@, needle@),
{
    let h = chars_of(hay);
    let n = chars_of(needle);
    if n.len() > h.len() {
        assert forall|i: int| !occurs_at(hay@, needle@, i) by {}
        return false;
    }
    let last: usize = h.len() - n.len();
    let mut i: usize = 0;
    loop
        invariant
            h@ == hay@,
            n@ == needle@,
            n.len() <= h.len(),
            last == h.len() - n.len(),
            i <= last,
            forall|j: int| 0 <= j < i ==> !occurs_at(hay@, needle@, j),
        ensures
            forall|j: int| 0 <= j <= last ==> !occurs_at(hay@, needle@, j),
        decreases last - i,
    {
        if matches_at(&h, &n, i) {
            return true;
        }
        if i == last {
            break;
        }
        i = i + 1;
    }
    assert forall|j: int| !occurs_at(hay@, needle@, j) by {
        if 0 <= j && j + needle@.len() <= hay@.len() {
            assert(j <= last);
        }
    }
    false
}

// ----------------------------------------------------------------------------
// Decimal rendering
// ----------------------------------------------------------------------------

/// The ASCII digit for `d` (for `d < 10`).
pub open spec fn digit_char(d: nat) -> char {
    seq!['0', '1', '2', '3', '4', '5', '6', '7', '8', '9'][d as int]
}

/// The numeric value of an ASCII digit character.
pub open spec fn char_value(c: char) -> int {
    c as int - '0' as int
}

/// The decimal digits of `n`, most significant first, without leading zeros.
pub open spec fn decimal(n: nat) -> Seq<char>
    decreases n,
{
    if n < 10 {
        seq![digit_char(n)]
    } else {
        decimal(n / 10).push(digit_char(n % 10))
    }
}

/// `n` written in decimal, with a leading `-` when negative (Rust's `{}` for integers).
pub open spec fn signed_decimal(n: int) -> Seq<char> {
    if n < 0 {
        seq!['-'] + decimal((-n) as nat)
    } else {
        decimal(n as nat)
    }
}

/// `k` copies of the character `0`.
pub open spec fn zeros(k: nat) -> Seq<char> {
    Seq::new(k, |i: int| '0')
}

/// `n` in decimal, padded with zeros after the sign to at least `width`
/// characters (Rust's `{:0width$}` for integers).
pub open spec fn zero_padded(n: int, width: nat) -> Seq<char> {
    let sign: Seq<char> = if n < 0 { seq!['-'] } else { seq![] };
    let body = decimal(if n < 0 { (-n) as nat } else { n as nat });
    if sign.len() + body.len() < width {
        sign + zeros((width - sign.len() - body.len()) as nat) + body
    } else {
        sign + body
    }
}

/// The value of a string of ASCII digits, read in base ten.
pub open spec fn digits_value(s: Seq<char>) -> int
    decreases s.len(),
{
    if s.len() == 0 {
        0
    } else {
        digits_value(s.drop_last()) * 10 + char_value(s.last())
    }
}

/// The integer a (possibly signed, possibly zero padded) decimal string denotes.
pub open spec fn signed_value(s: Seq<char>) -> int {
    if s.len() > 0 && s[0] == '-' {
        -digits_value(s.drop_first())
    } else {
        digits_value(s)
    }
}

fn digit_of(d: u32) -> (c: char)
    requires
        d < 10,
    ensures
        c == digit_char(d as nat),
{
    match d {
        0 => '0',
        1 => '1',
        2 => '2',
        3 => '3',
        4 => '4',
        5 => '5',
        6 => '6',
        7 => '7',
        8 => '8',
        _ => '9',
    }
}

fn decimal_chars(n: u32) -> (v: Vec<char>)
    ensures
        v@ == decimal(n as nat),
    decreases n,
{
    if n < 10 {
        let mut v: Vec<char> = Vec::new();
        v.push(digit_of(n));
        v
    } else {
        let mut v = decimal_chars(n / 10);
        v.push(digit_of(n % 10));
        v
    }
}

fn magnitude(n: i32) -> (m: u32)
    ensures
        m as int == if n < 0 { -n } else { n as int },
{
    if n < 0 {
        (0i64 - n as i64) as u32
    } else {
        n as u32
    }
}

/// `n` rendered as Rust's `format!("{}", n)` renders it.
pub fn format_decimal(n: i32) -> (s: String)
    ensures
        s@ == signed_decimal(n as int),
{
    let body = decimal_chars(magnitude(n));
    let mut v: Vec<char> = Vec::new();
    if n < 0 {
        v.push('-');
    }
    let mut i: usize = 0;
    while i < body.len()
        invariant
            i <= body.len(),
            v@ == (if n < 0 { seq!['-'] } else { Seq::<char>::empty() }) + body@.take(i as int),
        decreases body.len() - i,
    {
        v.push(body[i]);
        i = i + 1;
        assert(body@.take(i as int) =~= body@.take(i - 1).push(body@[i - 1]));
    }
    assert(body@.take(body.len() as int) =~= body@);
    proof {
        if n >= 0 {
            assert(v@ =~= body@);
        }
    }
    string_from_chars(&v)
}

/// `n` rendered as Rust's `format!("{:0w$}", n, w = width)` renders it.
pub fn format_zero_padded(n: i32, width: usize) -> (s: String)
    ensures
        s@ == zero_padded(n as int, width as nat),
{
    let body = decimal_chars(magnitude(n));
    let sign_len: usize = if n < 0 { 1 } else { 0 };
    let mut v: Vec<char> = Vec::new();
    if n < 0 {
        v.push('-');
    }
    let ghost sign: Seq<char> = if n < 0 { seq!['-'] } else { seq![] };
    let pad: usize = if body.len() < width && sign_len < width - body.len() {
        width - body.len() - sign_len
    } else {
        0
    };
    let mut k: usize = 0;
    while k < pad
        invariant
            k <= pad,
            v@ == sign + zeros(k as nat),
        decreases pad - k,
    {
        v.push('0');
        k = k + 1;
        assert(zeros(k as nat) =~= zeros((k - 1) as nat).push('0'));
    }
    let mut i: usize = 0;
    while i < body.len()
        invariant
            i <= body.len(),
            v@ == sign + zeros(pad as nat) + body@.take(i as int),
        decreases body.len() - i,
    {
        v.push(body[i]);
        i = i + 1;
        assert(body@.take(i as int) =~= body@.take(i - 1).push(body@[i - 1]));
    }
    assert(body@.take(body.len() as int) =~= body@);
    proof {
        if pad == 0 {
            assert(zeros(0) =~= Seq::<char>::empty());
            assert(v@ =~= sign + body@);
        }
    }
    string_from_chars(&v)
}

// ----------------------------------------------------------------------------
// Laws of the decimal rendering
// ----------------------------------------------------------------------------

/// The digit character for `d` reads back as `d`.
pub proof fn lemma_digit_char_value(d: nat)
    requires
        d < 10,
    ensures
        char_value(digit_char(d)) == d,
        '0' <= digit_char(d) <= '9',
{
    let t = seq!['0', '1', '2', '3', '4', '5', '6', '7', '8', '9'];
    assert(t[0] == '0' && t[1] == '1' && t[2] == '2' && t[3] == '3' && t[4] == '4');
    assert(t[5] == '5' && t[6] == '6' && t[7] == '7' && t[8] == '8' && t[9] == '9');
}

/// Every character of a decimal rendering is an ASCII digit.
pub proof fn lemma_decimal_is_digits(n: nat)
    ensures
        decimal(n).len() >= 1,
        forall|i: int| 0 <= i < decimal(n).len() ==> '0' <= #[trigger] decimal(n)[i] <= '9',
    decreases n,
{
    lemma_digit_char_value(n % 10);
    if n >= 10 {
        lemma_decimal_is_digits(n / 10);
    }
}

/// Reading a decimal rendering back gives the number rendered.
pub proof fn lemma_decimal_value(n: nat)
    ensures
        digits_value(decimal(n)) == n,
    decreases n,
{
    lemma_digit_char_value(n % 10);
    if n < 10 {
        assert(decimal(n).drop_last() =~= Seq::<char>::empty());
        assert(digits_value(Seq::<char>::empty()) == 0);
    } else {
        lemma_decimal_value(n / 10);
        assert(decimal(n).drop_last() =~= decimal(n / 10));
    }
}

/// Leading zeros do not change the value of a digit string.
pub proof fn lemma_leading_zeros_value(k: nat, s: Seq<char>)
    ensures
        digits_value(zeros(k) + s) == digits_value(s),
    decreases s.len(), k,
{
    if s.len() == 0 {
        assert(zeros(k) + s =~= zeros(k));
        if k > 0 {
            assert(zeros(k).drop_last() =~= zeros((k - 1) as nat));
            lemma_leading_zeros_value((k - 1) as nat, s);
            assert(zeros((k - 1) as nat) + s =~= zeros((k - 1) as nat));
        }
    } else {
        lemma_leading_zeros_value(k, s.drop_last());
        assert((zeros(k) + s).drop_last() =~= zeros(k) + s.drop_last());
    }
}

/// Reading a zero-padded rendering back gives the number rendered: the
/// padding and the sign are undone exactly.
pub proof fn lemma_zero_padded_round_trip(n: int, width: nat)
    ensures
        signed_value(zero_padded(n, width)) == n,
{
    let m: nat = if n < 0 { (-n) as nat } else { n as nat };
    let body = decimal(m);
    lemma_decimal_value(m);
    lemma_decimal_is_digits(m);
    let sign: Seq<char> = if n < 0 { seq!['-'] } else { seq![] };
    let padded = zero_padded(n, width);
    let rest: Seq<char> = if sign.len() + body.len() < width {
        zeros((width - sign.len() - body.len()) as nat) + body
    } else {
        body
    };
    assert(padded =~= sign + rest);
    if sign.len() + body.len() < width {
        lemma_leading_zeros_value((width - sign.len() - body.len()) as nat, body);
    }
    assert(digits_value(rest) == m);
    if n < 0 {
        assert(padded[0] == '-');
        assert(padded.drop_first() =~= rest);
    } else {
        assert(padded =~= rest);
        if rest.len() > 0 && rest[0] == '-' {
            if sign.len() + body.len() < width {
                assert(rest[0] == '0');
            } else {
                assert(rest[0] == body[0]);
            }
        }
    }
}

/// Distinct numbers have distinct zero-padded renderings.
pub proof fn lemma_zero_padded_injective(a: int, b: int, width: nat)
    requires
        zero_padded(a, width) == zero_padded(b, width),
    ensures
        a == b,
{
    lemma_zero_padded_round_trip(a, width);
    lemma_zero_padded_round_trip(b, width);
}

/// Reading a signed decimal rendering back gives the number rendered.
pub proof fn lemma_signed_decimal_round_trip(n: int)
    ensures
        signed_value(signed_decimal(n)) == n,
{
    lemma_zero_padded_round_trip(n, 0);
    assert(signed_decimal(n) =~= zero_padded(n, 0));
}

} // verus!
