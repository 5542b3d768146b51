//! Text as sequences of characters: conversions between `String` and
//! `Vec<char>`, searching, and decimal numerals.

use vstd::prelude::*;
use vstd::std_specs::iter::IteratorSpec;

verus! {

/// `String::push` appends one character.
pub assume_specification[ std::string::String::push ](s: &mut std::string::String, c: char)
    ensures
        final(s)@ == old(s)@.push(c),
;

/// The characters of `s`, in order.
pub fn chars_of(s: &str) -> (v: Vec<char>)
    ensures
        v@ == s@,
{
    let mut v: Vec<char> = Vec::new();
    let it = s.chars();
    for c in iter: it
        invariant
            v@ == iter.seq().take(iter.index@),
            iter.seq() == s@,
    {
        v.push(c);
    }
    v
}

/// The string made of the characters of `v`, in order.
pub fn string_of(v: &Vec<char>) -> (s: String)
    ensures
        s@ == v@,
{
    let mut s = String::new();
    let mut i: usize = 0;
    while i < v.len()
        invariant
            i <= v.len(),
            s@ == v@.take(i as int),
        decreases v.len() - i,
    {
        s.push(v[i]);
        i += 1;
        assert(v@.take(i as int) =~= v@.take(i - 1).push(v@[i - 1]));
    }
    assert(v@.take(v.len() as int) =~= v@);
    s
}

} // verus!

verus! {

/// The character that stands for the digit `d`.
pub open spec fn digit_char(d: int) -> char
    recommends
        0 <= d <= 9,
{
    ((48 + d) as u8) as char
}

/// Whether `c` is one of `0` to `9`.
pub open spec fn is_digit(c: char) -> bool {
    48 <= c as u32 <= 57
}

/// The digit that `c` stands for.
pub open spec fn digit_value(c: char) -> int
    recommends
        is_digit(c),
{
    c as u32 - 48
}

/// The decimal digits of `n`, most significant first, without leading zeros.
pub open spec fn nat_digits(n: nat) -> Seq<char>
    decreases n,
{
    if n < 10 {
        seq![digit_char(n as int)]
    } else {
        nat_digits(n / 10).push(digit_char((n % 10) as int))
    }
}

/// The decimal numeral of `n`: a minus sign for a negative number, then the
/// digits of its magnitude.
pub open spec fn decimal(n: int) -> Seq<char> {
    if n < 0 {
        seq!['-'] + nat_digits((-n) as nat)
    } else {
        nat_digits(n as nat)
    }
}

/// The number that a sequence of digits denotes, read most significant
/// first; the empty sequence denotes zero.
pub open spec fn digits_value(s: Seq<char>) -> nat
    decreases s.len(),
{
    if s.len() == 0 {
        0
    } else {
        (digits_value(s.drop_last()) * 10 + digit_value(s.last())) as nat
    }
}

/// Whether every character of `s` is a digit.
pub open spec fn all_digits(s: Seq<char>) -> bool {
    forall|i: int| 0 <= i < s.len() ==> is_digit(#[trigger] s[i])
}

/// Every numeral is made of digits, and denotes the number it was made from.
pub proof fn lemma_nat_digits(n: nat)
    ensures
        nat_digits(n).len() >= 1,
        all_digits(nat_digits(n)),
        digits_value(nat_digits(n)) == n,
        n > 0 ==> nat_digits(n)[0] != '0',
        n == 0 ==> nat_digits(n) == seq!['0'],
    decreases n,
{
    if n < 10 {
        let s = nat_digits(n);
        assert(s.len() == 1);
        assert(s[0] == digit_char(n as int));
        assert(s.drop_last().len() == 0);
        assert(digits_value(s.drop_last()) == 0);
        assert(digits_value(s) == n);
        if n == 0 {
            assert(s =~= seq!['0']);
        }
    } else {
        lemma_nat_digits(n / 10);
        let p = nat_digits(n / 10);
        let s = nat_digits(n);
        assert(s == p.push(digit_char((n % 10) as int)));
        assert(s.drop_last() =~= p);
        assert(s.last() == digit_char((n % 10) as int));
        assert(s[0] == p[0]);
        assert forall|i: int| 0 <= i < s.len() implies is_digit(#[trigger] s[i]) by {
            if i < p.len() {
                assert(s[i] == p[i]);
            }
        }
    }
}

/// The numeral of `n` as a string.
pub fn u64_to_string(n: u64) -> (s: String)
    ensures
        s@ == nat_digits(n as nat),
{
    let mut rev: Vec<char> = Vec::new();
    let mut m: u64 = n;
    while m >= 10
        invariant
            nat_digits(n as nat) == nat_digits(m as nat) + rev@.reverse(),
        decreases m,
    {
        let d: u8 = (m % 10) as u8;
        let c: char = (48 + d) as char;
        proof {
            assert(c == digit_char((m % 10) as int));
            assert(nat_digits(m as nat) == nat_digits((m / 10) as nat).push(c));
            assert(rev@.push(c).reverse() =~= seq![c] + rev@.reverse());
            assert(nat_digits((m / 10) as nat).push(c) + rev@.reverse() =~= nat_digits(
                (m / 10) as nat,
            ) + (seq![c] + rev@.reverse()));
        }
        rev.push(c);
        m = m / 10;
    }
    let c0: char = (48 + (m as u8)) as char;
    let mut out: Vec<char> = Vec::new();
    out.push(c0);
    assert(out@ =~= nat_digits(m as nat));
    let mut i: usize = rev.len();
    while i > 0
        invariant
            i <= rev.len(),
            out@ == nat_digits(m as nat) + rev@.reverse().take(rev.len() - i),
        decreases i,
    {
        i -= 1;
        out.push(rev[i]);
        proof {
            let r = rev@.reverse();
            let k = rev.len() - i;
            assert(r.take(k as int) =~= r.take(k - 1).push(r[k - 1]));
            assert(r[k - 1] == rev@[i as int]);
            assert(nat_digits(m as nat) + r.take(k - 1).push(r[k - 1]) =~= (nat_digits(m as nat)
                + r.take(k - 1)).push(r[k - 1]));
        }
    }
    assert(rev@.reverse().take(rev.len() as int) =~= rev@.reverse());
    string_of(&out)
}

/// The numeral of `n` as a string.
pub fn i64_to_string(n: i64) -> (s: String)
    ensures
        s@ == decimal(n as int),
{
    if n < 0 {
        let mag: u64 = ((-(n + 1)) as u64) + 1;
        let digits = u64_to_string(mag);
        let mut out: Vec<char> = Vec::new();
        out.push('-');
        let d = chars_of(digits.as_str());
        let mut i: usize = 0;
        while i < d.len()
            invariant
                i <= d.len(),
                out@ == seq!['-'] + d@.take(i as int),
            decreases d.len() - i,
        {
            out.push(d[i]);
            i += 1;
            assert(d@.take(i as int) =~= d@.take(i - 1).push(d@[i - 1]));
            assert(seq!['-'] + d@.take(i - 1).push(d@[i - 1]) =~= (seq!['-'] + d@.take(
                i - 1,
            )).push(d@[i - 1]));
        }
        assert(d@.take(d.len() as int) =~= d@);
        string_of(&out)
    } else {
        u64_to_string(n as u64)
    }
}

} // verus!

verus! {

/// The value of a prefix of a digit sequence never exceeds that of the whole.
pub proof fn lemma_digits_value_prefix(s: Seq<char>, k: int)
    requires
        0 <= k <= s.len(),
        all_digits(s),
    ensures
        digits_value(s.take(k)) <= digits_value(s),
    decreases s.len() - k,
{
    if k == s.len() {
        assert(s.take(k) =~= s);
    } else {
        lemma_digits_value_prefix(s, k + 1);
        let t = s.take(k + 1);
        assert(t.drop_last() =~= s.take(k));
        assert(t.last() == s[k]);
        assert(is_digit(s[k]));
    }
}

/// Reads the digits of `v` from position `from` to the end. Gives their
/// value when there is at least one character there, all are digits, and
/// the value does not exceed `limit`.
pub fn read_digits(v: &Vec<char>, from: usize, limit: u64) -> (r: Option<u64>)
    requires
        from <= v.len(),
    ensures
        r == (if from < v.len() && all_digits(v@.skip(from as int)) && digits_value(
            v@.skip(from as int),
        ) <= limit {
            Some(digits_value(v@.skip(from as int)) as u64)
        } else {
            None
        }),
{
    let ghost body = v@.skip(from as int);
    if from >= v.len() {
        return None;
    }
    let mut acc: u64 = 0;
    let mut i: usize = from;
    assert(body.take(0).len() == 0);
    while i < v.len()
        invariant
            from <= i <= v.len(),
            body == v@.skip(from as int),
            all_digits(body.take(i - from)),
            acc == digits_value(body.take(i - from)),
            acc <= limit,
        decreases v.len() - i,
    {
        let c: char = v[i];
        let ghost t = body.take(i - from + 1);
        proof {
            assert(body[i - from] == c);
            assert(t.drop_last() =~= body.take(i - from));
            assert(t.last() == c);
        }
        let code: u32 = c as u32;
        if code < 48 || code > 57 {
            assert(!is_digit(body[i - from]));
            return None;
        }
        let d: u64 = (code - 48) as u64;
        proof {
            assert forall|j: int| 0 <= j < t.len() implies is_digit(#[trigger] t[j]) by {
                if j < i - from {
                    assert(t[j] == body.take(i - from)[j]);
                }
            }
        }
        if d > limit || acc > (limit - d) / 10 {
            proof {
                assert(digits_value(t) == acc * 10 + d);
                assert(digits_value(t) > limit) by (nonlinear_arith)
                    requires
                        digits_value(t) == acc * 10 + d,
                        d > limit || acc > (limit - d) / 10,
                        0 <= d <= 9,
                        0 <= acc,
                ;
                if all_digits(body) {
                    lemma_digits_value_prefix(body, i - from + 1);
                }
            }
            return None;
        }
        assert(acc * 10 + d <= limit) by (nonlinear_arith)
            requires
                acc <= (limit - d) / 10,
                d <= limit,
        ;
        acc = acc * 10 + d;
        i += 1;
    }
    assert(body.take(i - from) =~= body);
    Some(acc)
}

/// Whether `s` is the numeral of a natural number: at least one digit, and
/// no leading zero but in `0` itself.
pub open spec fn is_nat_numeral(s: Seq<char>) -> bool {
    &&& s.len() >= 1
    &&& all_digits(s)
    &&& (s.len() == 1 || s[0] != '0')
}

/// The integer of which `s` is the numeral, if it is one. `-0`, a plus sign
/// and leading zeros are not numerals.
pub open spec fn numeral_value(s: Seq<char>) -> Option<int> {
    if is_nat_numeral(s) {
        Some(digits_value(s) as int)
    } else if s.len() >= 2 && s[0] == '-' && is_nat_numeral(s.skip(1)) && digits_value(s.skip(1))
        > 0 {
        Some(-(digits_value(s.skip(1)) as int))
    } else {
        None
    }
}

/// Reading a numeral gives back the integer it was written from.
pub proof fn lemma_numeral_of_decimal(n: int)
    ensures
        numeral_value(decimal(n)) == Some(n),
{
    if n < 0 {
        let m = (-n) as nat;
        lemma_nat_digits(m);
        let s = decimal(n);
        assert(s.skip(1) =~= nat_digits(m));
        assert(s[0] == '-');
        assert(!is_digit('-'));
        assert(!all_digits(s));
    } else {
        lemma_nat_digits(n as nat);
    }
}

/// A digit is the character of its own value.
pub proof fn lemma_digit_char_of_value(c: char)
    requires
        is_digit(c),
    ensures
        digit_char(digit_value(c)) == c,
{
    let d: int = c as u32 - 48;
    assert(((48 + d) as u8) == c as u32);
    assert(((48 + d) as u8) as char == c);
}

/// A natural numeral is the numeral of its value.
pub proof fn lemma_nat_numeral_canonical(s: Seq<char>)
    requires
        is_nat_numeral(s),
    ensures
        nat_digits(digits_value(s)) == s,
    decreases s.len(),
{
    let v = digits_value(s);
    let p = s.drop_last();
    let c = s.last();
    assert(is_digit(c));
    lemma_digit_char_of_value(c);
    if s.len() == 1 {
        assert(p.len() == 0);
        assert(digits_value(p) == 0);
        assert(v == digit_value(c));
        assert(nat_digits(v) =~= s);
    } else {
        assert(p[0] == s[0]);
        assert forall|i: int| 0 <= i < p.len() implies is_digit(#[trigger] p[i]) by {
            assert(p[i] == s[i]);
        }
        lemma_leading_digit_bounds(p);
        lemma_nat_numeral_canonical(p);
        let pv = digits_value(p);
        assert(v == pv * 10 + digit_value(c));
        assert(v >= 10);
        assert(v / 10 == pv);
        assert(v % 10 == digit_value(c));
        assert(nat_digits(v) == nat_digits(pv).push(c));
        assert(p.push(c) =~= s);
    }
}

/// Digits that do not begin with a zero denote a positive number.
pub proof fn lemma_leading_digit_bounds(s: Seq<char>)
    requires
        s.len() >= 1,
        all_digits(s),
        s[0] != '0',
    ensures
        digits_value(s) >= 1,
    decreases s.len(),
{
    if s.len() == 1 {
        assert(s.drop_last().len() == 0);
        assert(digits_value(s.drop_last()) == 0);
        assert(is_digit(s[0]));
        assert(s.last() == s[0]);
        lemma_digit_char_of_value(s[0]);
    } else {
        let p = s.drop_last();
        assert(p[0] == s[0]);
        assert forall|i: int| 0 <= i < p.len() implies is_digit(#[trigger] p[i]) by {
            assert(p[i] == s[i]);
        }
        lemma_leading_digit_bounds(p);
        assert(is_digit(s.last()));
    }
}

/// Whatever reads as the integer `n` is the numeral of `n`.
pub proof fn lemma_decimal_of_numeral(s: Seq<char>, n: int)
    requires
        numeral_value(s) == Some(n),
    ensures
        decimal(n) == s,
{
    if is_nat_numeral(s) {
        lemma_nat_numeral_canonical(s);
    } else {
        let t = s.skip(1);
        lemma_nat_numeral_canonical(t);
        assert(seq!['-'] + t =~= s);
    }
}

/// Reads `v` as the numeral of a signed 64-bit integer.
pub fn parse_i64(v: &Vec<char>) -> (r: Option<i64>)
    ensures
        r == (match numeral_value(v@) {
            Some(n) => if i64::MIN <= n <= i64::MAX {
                Some(n as i64)
            } else {
                None
            },
            None => None,
        }),
{
    if v.len() == 0 {
        return None;
    }
    if v[0] == '-' {
        assert(!is_digit('-'));
        assert(!all_digits(v@));
        if v.len() < 2 {
            return None;
        }
        if v.len() > 2 && v[1] == '0' {
            assert(v@.skip(1)[0] == v@[1]);
            return None;
        }
        assert(v@.skip(1)[0] == v@[1]);
        match read_digits(v, 1, 9223372036854775808u64) {
            Some(m) => {
                if m == 0 {
                    None
                } else if m == 9223372036854775808u64 {
                    Some(i64::MIN)
                } else {
                    Some(-(m as i64))
                }
            },
            None => None,
        }
    } else {
        if v.len() > 1 && v[0] == '0' {
            return None;
        }
        assert(v@.skip(0) =~= v@);
        match read_digits(v, 0, 9223372036854775807u64) {
            Some(m) => Some(m as i64),
            None => None,
        }
    }
}

/// The number that `s` denotes as an unsigned decimal: an optional plus
/// sign, then at least one digit. Leading zeros are accepted.
pub open spec fn unsigned_value(s: Seq<char>) -> Option<nat> {
    let body = if s.len() > 0 && s[0] == '+' {
        s.skip(1)
    } else {
        s
    };
    if body.len() >= 1 && all_digits(body) {
        Some(digits_value(body))
    } else {
        None
    }
}

/// Reads `v` as an unsigned 64-bit decimal.
pub fn parse_u64(v: &Vec<char>) -> (r: Option<u64>)
    ensures
        r == (match unsigned_value(v@) {
            Some(n) => if n <= u64::MAX {
                Some(n as u64)
            } else {
                None
            },
            None => None,
        }),
{
    if v.len() > 0 && v[0] == '+' {
        read_digits(v, 1, u64::MAX)
    } else {
        assert(v@.skip(0) =~= v@);
        read_digits(v, 0, u64::MAX)
    }
}

} // verus!

verus! {

/// Whether `p` stands in `s` at position `i`.
pub open spec fn occurs_at(s: Seq<char>, p: Seq<char>, i: int) -> bool {
    0 <= i && i + p.len() <= s.len() && s.subrange(i, i + p.len()) == p
}

/// Whether `s` begins with `p`.
pub open spec fn starts_with(s: Seq<char>, p: Seq<char>) -> bool {
    occurs_at(s, p, 0)
}

/// Whether `p` stands somewhere in `s`.
pub open spec fn contains(s: Seq<char>, p: Seq<char>) -> bool {
    exists|i: int| occurs_at(s, p, i)
}

/// Whether `i` is the first position at which `p` stands in `s`.
pub open spec fn first_at(s: Seq<char>, p: Seq<char>, i: int) -> bool {
    occurs_at(s, p, i) && forall|j: int| 0 <= j < i ==> !occurs_at(s, p, j)
}

/// Whether the character `c` occurs in `s`.
pub open spec fn has_char(s: Seq<char>, c: char) -> bool {
    exists|i: int| 0 <= i < s.len() && s[i] == c
}

/// Tests whether `p` stands in `v` at position `i`.
pub fn matches_at(v: &Vec<char>, p: &Vec<char>, i: usize) -> (b: bool)
    ensures
        b == occurs_at(v@, p@, i as int),
{
    if i > v.len() || p.len() > v.len() - i {
        return false;
    }
    let mut k: usize = 0;
    while k < p.len()
        invariant
            k <= p.len(),
            i + p.len() <= v.len(),
            forall|j: int| 0 <= j < k ==> v@[i + j] == p@[j],
        decreases p.len() - k,
    {
        if v[i + k] != p[k] {
            assert(v@.subrange(i as int, i + p.len())[k as int] == v@[i + k]);
            return false;
        }
        k += 1;
    }
    assert(v@.subrange(i as int, i + p.len()) =~= p@);
    true
}

/// The first position at or after `from` at which `p` stands in `v`.
pub fn find_from(v: &Vec<char>, p: &Vec<char>, from: usize) -> (r: Option<usize>)
    ensures
        match r {
            Some(i) => from <= i && occurs_at(v@, p@, i as int) && forall|j: int|
                from <= j < i ==> !occurs_at(v@, p@, j),
            None => forall|j: int| from <= j ==> !occurs_at(v@, p@, j),
        },
{
    let mut i: usize = from;
    while i <= v.len()
        invariant
            from <= i,
            forall|j: int| from <= j < i ==> !occurs_at(v@, p@, j),
        decreases v.len() + 1 - i,
    {
        if matches_at(v, p, i) {
            return Some(i);
        }
        if i == v.len() {
            return None;
        }
        i += 1;
    }
    None
}

/// The first position at which `p` stands in `v`.
pub fn find(v: &Vec<char>, p: &Vec<char>) -> (r: Option<usize>)
    ensures
        match r {
            Some(i) => first_at(v@, p@, i as int),
            None => !contains(v@, p@),
        },
{
    find_from(v, p, 0)
}

/// Tests whether the character `c` occurs in `v`.
pub fn contains_char(v: &Vec<char>, c: char) -> (b: bool)
    ensures
        b == has_char(v@, c),
{
    let mut i: usize = 0;
    while i < v.len()
        invariant
            i <= v.len(),
            forall|j: int| 0 <= j < i ==> v@[j] != c,
        decreases v.len() - i,
    {
        if v[i] == c {
            return true;
        }
        i += 1;
    }
    false
}

/// The characters of `v` from position `a` up to, not including, `b`.
pub fn slice(v: &Vec<char>, a: usize, b: usize) -> (r: Vec<char>)
    requires
        a <= b <= v.len(),
    ensures
        r@ == v@.subrange(a as int, b as int),
{
    let mut r: Vec<char> = Vec::new();
    let mut i: usize = a;
    while i < b
        invariant
            a <= i <= b <= v.len(),
            r@ == v@.subrange(a as int, i as int),
        decreases b - i,
    {
        r.push(v[i]);
        i += 1;
        assert(v@.subrange(a as int, i as int) =~= v@.subrange(a as int, i - 1).push(v@[i - 1]));
    }
    r
}

/// Appends the characters of `tail` to `v`.
pub fn extend(v: &mut Vec<char>, tail: &Vec<char>)
    ensures
        final(v)@ == old(v)@ + tail@,
{
    let mut i: usize = 0;
    while i < tail.len()
        invariant
            i <= tail.len(),
            v@ == old(v)@ + tail@.take(i as int),
        decreases tail.len() - i,
    {
        v.push(tail[i]);
        i += 1;
        assert(old(v)@ + tail@.take(i as int) =~= (old(v)@ + tail@.take(i - 1)).push(
            tail@[i - 1],
        ));
    }
    assert(tail@.take(tail.len() as int) =~= tail@);
}

/// Tests whether two sequences of characters are the same.
pub fn same(a: &Vec<char>, b: &Vec<char>) -> (r: bool)
    ensures
        r == (a@ == b@),
{
    if a.len() != b.len() {
        return false;
    }
    let r = matches_at(a, b, 0);
    assert(a@.subrange(0, b@.len() as int) =~= a@);
    r
}

/// Whether `c` is white space as Unicode defines it.
pub open spec fn is_space(c: char) -> bool {
    let u = c as u32;
    ||| 0x09 <= u <= 0x0D
    ||| u == 0x20
    ||| u == 0x85
    ||| u == 0xA0
    ||| u == 0x1680
    ||| 0x2000 <= u <= 0x200A
    ||| u == 0x2028
    ||| u == 0x2029
    ||| u == 0x202F
    ||| u == 0x205F
    ||| u == 0x3000
}

/// Tests whether `c` is white space.
pub fn space(c: char) -> (b: bool)
    ensures
        b == is_space(c),
{
    let u: u32 = c as u32;
    (0x09 <= u && u <= 0x0D) || u == 0x20 || u == 0x85 || u == 0xA0 || u == 0x1680 || (0x2000 <= u
        && u <= 0x200A) || u == 0x2028 || u == 0x2029 || u == 0x202F || u == 0x205F || u == 0x3000
}

/// `s` without the white space at its start.
pub open spec fn trim_start(s: Seq<char>) -> Seq<char>
    decreases s.len(),
{
    if s.len() > 0 && is_space(s[0]) {
        trim_start(s.skip(1))
    } else {
        s
    }
}

/// `s` without the white space at its end.
pub open spec fn trim_end(s: Seq<char>) -> Seq<char>
    decreases s.len(),
{
    if s.len() > 0 && is_space(s.last()) {
        trim_end(s.drop_last())
    } else {
        s
    }
}

/// `s` without the white space at either end.
pub open spec fn trim(s: Seq<char>) -> Seq<char> {
    trim_end(trim_start(s))
}

/// `v` without the white space at either end.
pub fn trimmed(v: &Vec<char>) -> (r: Vec<char>)
    ensures
        r@ == trim(v@),
{
    let mut a: usize = 0;
    assert(v@.skip(0) =~= v@);
    while a < v.len() && space(v[a])
        invariant
            a <= v.len(),
            trim_start(v@) == trim_start(v@.skip(a as int)),
        decreases v.len() - a,
    {
        assert(v@.skip(a as int)[0] == v@[a as int]);
        assert(v@.skip(a as int).skip(1) =~= v@.skip(a + 1));
        a += 1;
    }
    proof {
        if a < v.len() {
            assert(v@.skip(a as int)[0] == v@[a as int]);
        }
        assert(trim_start(v@) == v@.skip(a as int));
    }
    let mut b: usize = v.len();
    assert(v@.subrange(a as int, b as int) =~= v@.skip(a as int));
    while b > a && space(v[b - 1])
        invariant
            a <= b <= v.len(),
            trim(v@) == trim_end(v@.subrange(a as int, b as int)),
        decreases b,
    {
        assert(v@.subrange(a as int, b as int).last() == v@[b - 1]);
        assert(v@.subrange(a as int, b as int).drop_last() =~= v@.subrange(a as int, b - 1));
        b -= 1;
    }
    proof {
        if b > a {
            assert(v@.subrange(a as int, b as int).last() == v@[b - 1]);
        }
    }
    slice(v, a, b)
}

} // verus!

verus! {

/// The position of the first line feed in `s`, or the length of `s` when it
/// has none.
pub open spec fn line_end(s: Seq<char>) -> int
    decreases s.len(),
{
    if s.len() == 0 || s[0] == '\n' {
        0
    } else {
        1 + line_end(s.skip(1))
    }
}

/// `s` without one carriage return at its end.
pub open spec fn strip_cr(s: Seq<char>) -> Seq<char> {
    if s.len() > 0 && s.last() == '\r' {
        s.drop_last()
    } else {
        s
    }
}

/// The first line of `s` that begins with `p`. Lines end at a line feed; a
/// carriage return just before that line feed is not part of the line; what
/// follows the last line feed is a line too unless it is empty.
pub open spec fn first_line_with(s: Seq<char>, p: Seq<char>) -> Option<Seq<char>>
    decreases s.len(),
{
    if s.len() == 0 {
        None
    } else {
        let e = line_end(s);
        if e < 0 || e >= s.len() {
            if starts_with(s, p) {
                Some(s)
            } else {
                None
            }
        } else if starts_with(strip_cr(s.take(e)), p) {
            Some(strip_cr(s.take(e)))
        } else {
            first_line_with(s.skip(e + 1), p)
        }
    }
}

/// The first line feed is where no line feed comes before.
pub proof fn lemma_line_end(s: Seq<char>, k: int)
    requires
        0 <= k <= s.len(),
        forall|j: int| 0 <= j < k ==> s[j] != '\n',
        k == s.len() || s[k] == '\n',
    ensures
        line_end(s) == k,
    decreases k,
{
    if k > 0 {
        let t = s.skip(1);
        assert forall|j: int| 0 <= j < k - 1 implies t[j] != '\n' by {
            assert(t[j] == s[j + 1]);
        }
        lemma_line_end(t, k - 1);
    }
}

/// The first line of `v` that begins with `p`.
pub fn find_line_with(v: &Vec<char>, p: &Vec<char>) -> (r: Option<Vec<char>>)
    ensures
        match r {
            Some(line) => first_line_with(v@, p@) == Some(line@) && starts_with(line@, p@),
            None => first_line_with(v@, p@) is None,
        },
{
    let mut pos: usize = 0;
    assert(v@.skip(0) =~= v@);
    while pos < v.len()
        invariant
            pos <= v.len(),
            first_line_with(v@, p@) == first_line_with(v@.skip(pos as int), p@),
        decreases v.len() - pos,
    {
        let ghost rest = v@.skip(pos as int);
        let mut e: usize = pos;
        while e < v.len() && v[e] != '\n'
            invariant
                pos <= e <= v.len(),
                forall|j: int| pos <= j < e ==> v@[j] != '\n',
            decreases v.len() - e,
        {
            e += 1;
        }
        proof {
            assert forall|j: int| 0 <= j < e - pos implies rest[j] != '\n' by {
                assert(rest[j] == v@[pos + j]);
            }
            if e < v.len() {
                assert(rest[e - pos] == v@[e as int]);
            }
            lemma_line_end(rest, e - pos);
        }
        if e == v.len() {
            let line = slice(v, pos, e);
            assert(line@ =~= rest);
            if matches_at(&line, p, 0) {
                return Some(line);
            } else {
                return None;
            }
        }
        let stop: usize = if e > pos && v[e - 1] == '\r' {
            e - 1
        } else {
            e
        };
        let line = slice(v, pos, stop);
        proof {
            let raw = rest.take(e - pos);
            assert(raw =~= v@.subrange(pos as int, e as int));
            if e > pos {
                assert(raw.last() == v@[e - 1]);
            }
            assert(line@ =~= strip_cr(raw));
            assert(rest.skip(e - pos + 1) =~= v@.skip(e + 1));
        }
        if matches_at(&line, p, 0) {
            return Some(line);
        }
        pos = e + 1;
    }
    None
}

} // verus!

verus! {

/// The view of an optional string.
pub open spec fn opt_text(o: Option<String>) -> Option<Seq<char>> {
    match o {
        Some(s) => Some(s@),
        None => None,
    }
}

/// `a` followed by `b`.
pub fn join(a: &str, b: &str) -> (r: String)
    ensures
        r@ == a@ + b@,
{
    let mut out = chars_of(a);
    let tail = chars_of(b);
    extend(&mut out, &tail);
    string_of(&out)
}

/// `a`, then `b`, then `c`.
pub fn join3(a: &str, b: &str, c: &str) -> (r: String)
    ensures
        r@ == a@ + b@ + c@,
{
    let ab = join(a, b);
    join(ab.as_str(), c)
}

/// Tests whether the character `c` occurs in `s`.
pub fn str_has_char(s: &str, c: char) -> (b: bool)
    ensures
        b == has_char(s@, c),
{
    let v = chars_of(s);
    contains_char(&v, c)
}

} // verus!

verus! {

/// Trimming the end leaves a prefix that still holds every character that
/// is no white space.
pub proof fn lemma_trim_end_prefix(s: Seq<char>)
    ensures
        trim_end(s).len() <= s.len(),
        trim_end(s) == s.take(trim_end(s).len() as int),
        forall|k: int| 0 <= k < s.len() && !is_space(#[trigger] s[k]) ==> trim_end(s).len() > k,
    decreases s.len(),
{
    if s.len() > 0 && is_space(s.last()) {
        let p = s.drop_last();
        lemma_trim_end_prefix(p);
        assert(p.take(trim_end(p).len() as int) =~= s.take(trim_end(p).len() as int));
        assert forall|k: int| 0 <= k < s.len() && !is_space(#[trigger] s[k]) implies trim_end(
            s,
        ).len() > k by {
            assert(k < p.len());
            assert(p[k] == s[k]);
        }
    } else {
        assert(s.take(s.len() as int) =~= s);
    }
}

} // verus!
