//! Text: characters, equality, order, trimming and decimal numerals.

use vstd::prelude::*;

verus! {

// ---------------------------------------------------------------------------------------------
// Characters
// ---------------------------------------------------------------------------------------------

/// `String::push`: appends one character to the end of the string and changes nothing else.
pub assume_specification[ String::push ](s: &mut String, c: char)
    ensures
        final(s)@ == old(s)@.push(c),
;

/// The characters of `s`, in order.
pub fn chars_of(s: &str) -> (chars: Vec<char>)
    ensures
        chars@ == s@,
{
    let mut chars: Vec<char> = Vec::new();
    for c in it: s.chars()
        invariant
            it.seq() == s@,
            chars@ == s@.take(it.index() as int),
    {
        chars.push(c);
        assert(s@.take(it.index() + 1) =~= s@.take(it.index() as int).push(c));
    }
    assert(s@.take(s@.len() as int) =~= s@);
    chars
}

/// The text made of the characters `from..to` of `chars`.
pub fn text_between(chars: &Vec<char>, from: usize, to: usize) -> (s: String)
    requires
        from <= to <= chars@.len(),
    ensures
        s@ == chars@.subrange(from as int, to as int),
{
    let mut s = String::new();
    let mut i: usize = from;
    while i < to
        invariant
            from <= i <= to <= chars@.len(),
            s@ == chars@.subrange(from as int, i as int),
        decreases to - i,
    {
        s.push(chars[i]);
        assert(chars@.subrange(from as int, i + 1) =~= chars@.subrange(from as int, i as int).push(
            chars@[i as int],
        ));
        i += 1;
    }
    s
}

/// What an optional text holds.
pub open spec fn held(s: Option<&str>) -> Option<Seq<char>> {
    match s {
        Some(t) => Some(t@),
        None => None,
    }
}

/// What an optional string holds.
pub open spec fn held_string(s: Option<String>) -> Option<Seq<char>> {
    match s {
        Some(t) => Some(t@),
        None => None,
    }
}

/// The texts of some strings.
pub open spec fn names_of(strings: Seq<String>) -> Seq<Seq<char>> {
    strings.map_values(|s: String| s@)
}

/// Whether `a` and `b` are the same text.
pub fn same(a: &str, b: &str) -> (r: bool)
    ensures
        r == (a@ == b@),
{
    let x = chars_of(a);
    let y = chars_of(b);
    if x.len() != y.len() {
        return false;
    }
    let mut i: usize = 0;
    while i < x.len()
        invariant
            x@ == a@,
            y@ == b@,
            x@.len() == y@.len(),
            i <= x@.len(),
            forall|j: int| 0 <= j < i ==> x@[j] == y@[j],
        decreases x@.len() - i,
    {
        if x[i] != y[i] {
            return false;
        }
        i += 1;
    }
    assert(a@ =~= b@);
    true
}

/// `word` is one of `words`.
pub open spec fn among(word: Seq<char>, words: Seq<&str>) -> bool {
    exists|i: int| 0 <= i < words.len() && (#[trigger] words[i])@ == word
}

/// Whether `word` is one of `words`.
pub fn is_among(word: &str, words: &[&str]) -> (r: bool)
    ensures
        r == among(word@, words@),
{
    let mut i: usize = 0;
    while i < words.len()
        invariant
            i <= words@.len(),
            forall|j: int| 0 <= j < i ==> (#[trigger] words@[j])@ != word@,
        decreases words@.len() - i,
    {
        if same(words[i], word) {
            return true;
        }
        i += 1;
    }
    false
}

// ---------------------------------------------------------------------------------------------
// Order
// ---------------------------------------------------------------------------------------------

/// `a` stands before `b` in the order of strings: at the first place where they differ, `a` has
/// the smaller code point or has ended.
pub open spec fn precedes(a: Seq<char>, b: Seq<char>) -> bool
    decreases a.len(),
{
    if b.len() == 0 {
        false
    } else if a.len() == 0 {
        true
    } else if a[0] != b[0] {
        a[0] < b[0]
    } else {
        precedes(a.drop_first(), b.drop_first())
    }
}

/// No text stands before itself.
pub proof fn precedes_irreflexive(a: Seq<char>)
    ensures
        !precedes(a, a),
    decreases a.len(),
{
    if a.len() > 0 {
        precedes_irreflexive(a.drop_first());
    }
}

/// The order is transitive.
pub proof fn precedes_transitive(a: Seq<char>, b: Seq<char>, c: Seq<char>)
    requires
        precedes(a, b),
        precedes(b, c),
    ensures
        precedes(a, c),
    decreases a.len(),
{
    if a.len() > 0 && a[0] == b[0] && b[0] == c[0] {
        precedes_transitive(a.drop_first(), b.drop_first(), c.drop_first());
    }
}

/// Of two different texts one stands before the other.
pub proof fn precedes_total(a: Seq<char>, b: Seq<char>)
    ensures
        a == b || precedes(a, b) || precedes(b, a),
    decreases a.len(),
{
    if a.len() > 0 && b.len() > 0 {
        if a[0] == b[0] {
            precedes_total(a.drop_first(), b.drop_first());
            if a.drop_first() == b.drop_first() {
                assert(a =~= seq![a[0]] + a.drop_first());
                assert(b =~= seq![b[0]] + b.drop_first());
            }
        }
    } else if a.len() == 0 && b.len() == 0 {
        assert(a =~= b);
    }
}

/// Whether `a` stands before `b`.
pub fn is_before(a: &str, b: &str) -> (r: bool)
    ensures
        r == precedes(a@, b@),
{
    let x = chars_of(a);
    let y = chars_of(b);
    let mut i: usize = 0;
    assert(x@.skip(0) =~= x@ && y@.skip(0) =~= y@);
    while i < x.len() && i < y.len()
        invariant
            x@ == a@,
            y@ == b@,
            i <= x@.len(),
            i <= y@.len(),
            precedes(a@, b@) == precedes(x@.skip(i as int), y@.skip(i as int)),
        decreases x@.len() - i,
    {
        if x[i] != y[i] {
            return x[i] < y[i];
        }
        assert(x@.skip(i as int).drop_first() =~= x@.skip(i + 1));
        assert(y@.skip(i as int).drop_first() =~= y@.skip(i + 1));
        i += 1;
    }
    i < y.len()
}

// ---------------------------------------------------------------------------------------------
// White space
// ---------------------------------------------------------------------------------------------

/// The characters with the Unicode property White_Space.
pub open spec fn is_white_space(c: char) -> bool {
    ||| '\u{9}' <= c <= '\u{D}'
    ||| c == '\u{20}'
    ||| c == '\u{85}'
    ||| c == '\u{A0}'
    ||| c == '\u{1680}'
    ||| '\u{2000}' <= c <= '\u{200A}'
    ||| c == '\u{2028}'
    ||| c == '\u{2029}'
    ||| c == '\u{202F}'
    ||| c == '\u{205F}'
    ||| c == '\u{3000}'
}

/// Whether `c` has the Unicode property White_Space.
fn white_space(c: char) -> (r: bool)
    ensures
        r == is_white_space(c),
{
    ('\u{9}' <= c && c <= '\u{D}') || c == '\u{20}' || c == '\u{85}' || c == '\u{A0}' || c
        == '\u{1680}' || ('\u{2000}' <= c && c <= '\u{200A}') || c == '\u{2028}' || c == '\u{2029}'
        || c == '\u{202F}' || c == '\u{205F}' || c == '\u{3000}'
}

/// `s` without its leading white space.
pub open spec fn trimmed_start(s: Seq<char>) -> Seq<char>
    decreases s.len(),
{
    if s.len() > 0 && is_white_space(s[0]) {
        trimmed_start(s.drop_first())
    } else {
        s
    }
}

/// `s` without its trailing white space.
pub open spec fn trimmed_end(s: Seq<char>) -> Seq<char>
    decreases s.len(),
{
    if s.len() > 0 && is_white_space(s.last()) {
        trimmed_end(s.drop_last())
    } else {
        s
    }
}

/// `s` without leading and trailing white space.
pub open spec fn trimmed(s: Seq<char>) -> Seq<char> {
    trimmed_end(trimmed_start(s))
}

/// `s` without leading and trailing white space.
pub fn trim(s: &str) -> (r: String)
    ensures
        r@ == trimmed(s@),
{
    let chars = chars_of(s);
    let mut from: usize = 0;
    assert(chars@.skip(0) =~= chars@);
    while from < chars.len() && white_space(chars[from])
        invariant
            chars@ == s@,
            from <= chars@.len(),
            trimmed_start(s@) == trimmed_start(chars@.skip(from as int)),
        decreases chars@.len() - from,
    {
        assert(chars@.skip(from as int).drop_first() =~= chars@.skip(from + 1));
        from += 1;
    }
    assert(trimmed_start(s@) == chars@.skip(from as int));
    let mut to: usize = chars.len();
    assert(chars@.subrange(from as int, to as int) =~= chars@.skip(from as int));
    while from < to && white_space(chars[to - 1])
        invariant
            chars@ == s@,
            from <= to <= chars@.len(),
            trimmed(s@) == trimmed_end(chars@.subrange(from as int, to as int)),
        decreases to - from,
    {
        assert(chars@.subrange(from as int, to as int).drop_last() =~= chars@.subrange(
            from as int,
            to - 1,
        ));
        to -= 1;
    }
    text_between(&chars, from, to)
}

// ---------------------------------------------------------------------------------------------
// Decimal numerals
// ---------------------------------------------------------------------------------------------

/// `c` is one of the digits 0 to 9.
pub open spec fn is_digit(c: char) -> bool {
    '0' <= c <= '9'
}

/// Every character of `s` is a digit.
pub open spec fn all_digits(s: Seq<char>) -> bool {
    forall|i: int| 0 <= i < s.len() ==> is_digit(#[trigger] s[i])
}

/// What the digit `c` counts.
pub open spec fn digit_value(c: char) -> nat {
    (c as int - '0' as int) as nat
}

/// The digit that counts `d`.
pub open spec fn digit_of(d: nat) -> char {
    ('0' as int + d) as char
}

/// What the digits `s` count, read as a decimal numeral; nothing counts zero.
pub open spec fn value_of(s: Seq<char>) -> nat
    decreases s.len(),
{
    if s.len() == 0 {
        0
    } else {
        value_of(s.drop_last()) * 10 + digit_value(s.last())
    }
}

/// The decimal numeral of `n`, without leading zeros.
pub open spec fn numeral(n: nat) -> Seq<char>
    decreases n,
{
    if n < 10 {
        seq![digit_of(n)]
    } else {
        numeral(n / 10).push(digit_of(n % 10))
    }
}

/// `n` zeros.
pub open spec fn zeros(n: nat) -> Seq<char> {
    Seq::new(n, |i: int| '0')
}

/// The numeral of `n`, filled with zeros on the left until it is `width` long.
pub open spec fn padded(n: nat, width: nat) -> Seq<char> {
    if numeral(n).len() < width {
        zeros((width - numeral(n).len()) as nat) + numeral(n)
    } else {
        numeral(n)
    }
}

/// Ten to the power of `k`.
pub open spec fn pow10(k: nat) -> nat
    decreases k,
{
    if k == 0 {
        1
    } else {
        10 * pow10((k - 1) as nat)
    }
}

/// The unsigned number that a text gives: digits, perhaps after one `+`, that count no more than
/// the largest 64-bit number.
pub open spec fn u64_of(s: Seq<char>) -> Option<u64> {
    let digits = if s.len() > 0 && s[0] == '+' {
        s.drop_first()
    } else {
        s
    };
    if digits.len() > 0 && all_digits(digits) && value_of(digits) <= u64::MAX {
        Some(value_of(digits) as u64)
    } else {
        None
    }
}

/// A numeral is made of digits and counts what it was made from.
pub proof fn numeral_value(n: nat)
    ensures
        numeral(n).len() > 0,
        all_digits(numeral(n)),
        value_of(numeral(n)) == n,
    decreases n,
{
    if n < 10 {
        assert(numeral(n).drop_last() =~= Seq::<char>::empty());
        assert(value_of(Seq::<char>::empty()) == 0);
        assert(numeral(n).last() == digit_of(n));
    } else {
        numeral_value(n / 10);
        let head = numeral(n / 10);
        assert(numeral(n) == head.push(digit_of(n % 10)));
        assert(numeral(n).drop_last() =~= head);
        assert forall|i: int| 0 <= i < numeral(n).len() implies is_digit(#[trigger] numeral(n)[i]) by {
            if i < head.len() {
                assert(numeral(n)[i] == head[i]);
            }
        }
    }
}

/// Different numbers have different numerals.
pub proof fn numeral_injective(m: nat, n: nat)
    requires
        numeral(m) == numeral(n),
    ensures
        m == n,
{
    numeral_value(m);
    numeral_value(n);
}

/// A number below ten to the power of `k` has a numeral of at most `k` digits.
pub proof fn numeral_length(n: nat, k: nat)
    requires
        n < pow10(k),
        k > 0,
    ensures
        numeral(n).len() <= k,
    decreases k,
{
    if n >= 10 {
        if k == 1 {
            assert(pow10(0) == 1);
        }
        assert(n / 10 < pow10((k - 1) as nat));
        numeral_length(n / 10, (k - 1) as nat);
    }
}

/// Zeros on the left add nothing.
pub proof fn zeros_on_the_left(n: nat, s: Seq<char>)
    ensures
        value_of(zeros(n) + s) == value_of(s),
        all_digits(s) ==> all_digits(zeros(n) + s),
    decreases s.len(), n,
{
    let all = zeros(n) + s;
    if s.len() > 0 {
        zeros_on_the_left(n, s.drop_last());
        assert(all.drop_last() =~= zeros(n) + s.drop_last());
        assert(all.last() == s.last());
    } else if n > 0 {
        zeros_on_the_left((n - 1) as nat, s);
        assert(all.drop_last() =~= zeros((n - 1) as nat) + s);
        assert(all.last() == '0');
    }
    if all_digits(s) {
        assert forall|i: int| 0 <= i < all.len() implies is_digit(#[trigger] all[i]) by {
            if i >= n {
                assert(all[i] == s[i - n]);
            }
        }
    }
}

/// Each zero on the right multiplies by ten.
pub proof fn zeros_on_the_right(s: Seq<char>, n: nat)
    ensures
        value_of(s + zeros(n)) == value_of(s) * pow10(n),
    decreases n,
{
    let all = s + zeros(n);
    if n == 0 {
        assert(all =~= s);
        assert(value_of(s) * 1 == value_of(s));
    } else {
        let m = (n - 1) as nat;
        zeros_on_the_right(s, m);
        assert(all.drop_last() =~= s + zeros(m));
        assert(all.last() == '0');
        let v = value_of(s);
        let p = pow10(m);
        assert((v * p) * 10 == v * (10 * p)) by (nonlinear_arith);
    }
}

/// A padded numeral is made of digits and counts what it was made from.
pub proof fn padded_value(n: nat, width: nat)
    ensures
        all_digits(padded(n, width)),
        value_of(padded(n, width)) == n,
        padded(n, width).len() >= width,
        n < pow10(width) && width > 0 ==> padded(n, width).len() == width,
{
    numeral_value(n);
    if numeral(n).len() < width {
        zeros_on_the_left((width - numeral(n).len()) as nat, numeral(n));
    } else if n < pow10(width) && width > 0 {
        numeral_length(n, width);
    }
}

/// The first digits of a numeral count no more than the whole.
proof fn value_of_prefix(s: Seq<char>, k: int)
    requires
        0 <= k <= s.len(),
    ensures
        value_of(s.take(k)) <= value_of(s),
    decreases s.len(),
{
    if k == s.len() {
        assert(s.take(k) =~= s);
    } else {
        value_of_prefix(s.drop_last(), k);
        assert(s.drop_last().take(k) =~= s.take(k));
    }
}

/// A numeral of a 64-bit number reads back as that number.
pub proof fn numeral_reads_back(n: u64)
    ensures
        u64_of(numeral(n as nat)) == Some(n),
{
    numeral_value(n as nat);
    assert(is_digit(numeral(n as nat)[0]));
}

/// What the digits `from..` of `chars` count, if there are any, all are digits, and the number
/// is one of 64 bits.
pub fn digits_value(chars: &Vec<char>, from: usize) -> (r: Option<u64>)
    requires
        from <= chars@.len(),
    ensures
        ({
            let digits = chars@.skip(from as int);
            r == if digits.len() > 0 && all_digits(digits) && value_of(digits) <= u64::MAX {
                Some(value_of(digits) as u64)
            } else {
                None
            }
        }),
{
    let ghost digits = chars@.skip(from as int);
    if from == chars.len() {
        return None;
    }
    let mut value: u64 = 0;
    let mut i: usize = from;
    while i < chars.len()
        invariant
            from <= i <= chars@.len(),
            digits == chars@.skip(from as int),
            value == value_of(digits.take(i - from)),
            all_digits(digits.take(i - from)),
        decreases chars@.len() - i,
    {
        let c = chars[i];
        let ghost k = i - from;
        assert(digits[k] == c);
        if !('0' <= c && c <= '9') {
            assert(!is_digit(digits[k]));
            return None;
        }
        assert(digits.take(k + 1).drop_last() =~= digits.take(k));
        assert(digits.take(k + 1).last() == c);
        proof {
            value_of_prefix(digits, k + 1);
        }
        let d: u64 = c as u64 - 48;
        match value.checked_mul(10) {
            None => {
                return None;
            },
            Some(tens) => match tens.checked_add(d) {
                None => {
                    return None;
                },
                Some(next) => {
                    value = next;
                },
            },
        }
        assert forall|j: int| 0 <= j < k + 1 implies is_digit(#[trigger] digits.take(k + 1)[j]) by {
            if j < k {
                assert(digits.take(k + 1)[j] == digits.take(k)[j]);
            }
        }
        i += 1;
    }
    assert(digits.take(digits.len() as int) =~= digits);
    Some(value)
}

/// The unsigned number that `s` gives.
pub fn parse_u64(s: &str) -> (r: Option<u64>)
    ensures
        r == u64_of(s@),
{
    let chars = chars_of(s);
    if chars.len() > 0 && chars[0] == '+' {
        assert(chars@.skip(1) =~= s@.drop_first());
        digits_value(&chars, 1)
    } else {
        assert(chars@.skip(0) =~= s@);
        digits_value(&chars, 0)
    }
}

/// The numeral of `n`.
pub fn u64_text(n: u64) -> (s: String)
    ensures
        s@ == numeral(n as nat),
    decreases n,
{
    let d: u8 = (n % 10) as u8;
    let c: char = (48u8 + d) as char;
    assert(c == digit_of((n % 10) as nat));
    if n < 10 {
        let mut s = String::new();
        s.push(c);
        assert(s@ =~= numeral(n as nat));
        s
    } else {
        let mut s = u64_text(n / 10);
        s.push(c);
        s
    }
}

/// The numeral of `n`, filled with zeros on the left until it is `width` long.
pub fn padded_text(n: u64, width: usize) -> (s: String)
    ensures
        s@ == padded(n as nat, width as nat),
{
    let digits = u64_text(n);
    let chars = chars_of(digits.as_str());
    let mut s = String::new();
    let mut filled: usize = chars.len();
    let ghost given = chars@.len();
    assert(s@ =~= zeros(0));
    while filled < width
        invariant
            given <= filled,
            given < width ==> filled <= width,
            given >= width ==> filled == given,
            s@ == zeros((filled - given) as nat),
        decreases width - filled,
    {
        s.push('0');
        filled += 1;
        assert(s@ =~= zeros((filled - given) as nat));
    }
    s.append(digits.as_str());
    assert(s@ =~= padded(n as nat, width as nat));
    s
}

// ---------------------------------------------------------------------------------------------
// Laws
// ---------------------------------------------------------------------------------------------


/// Law: the digits are those of the decimal numerals, and each counts its place among them.
pub proof fn the_ten_digits(c: char, d: int)
    ensures
        is_digit(c) <==> "0123456789"@.contains(c),
        0 <= d < 10 ==> digit_value("0123456789"@[d]) == d && digit_of(d as nat) == "0123456789"@[d],
{
    reveal_strlit("0123456789");
    let all = "0123456789"@;
    if is_digit(c) {
        assert(all[c as int - '0' as int] == c);
    }
}

/// Law: a place further left counts ten times as much.
pub proof fn places_count_by_ten(a: Seq<char>, b: Seq<char>)
    ensures
        value_of(a + b) == value_of(a) * pow10(b.len()) + value_of(b),
        b.len() == 1 ==> value_of(b) == digit_value(b[0]) && pow10(b.len()) == 10,
    decreases b.len(),
{
    reveal_with_fuel(pow10, 2);
    reveal_with_fuel(value_of, 2);
    if b.len() == 0 {
        assert(a + b =~= a);
        assert(value_of(a) * 1 == value_of(a));
    } else {
        let rest = b.drop_last();
        places_count_by_ten(a, rest);
        assert((a + b).drop_last() =~= a + rest);
        assert((a + b).last() == b.last());
        let v = value_of(a);
        let p = pow10(rest.len());
        assert((v * p) * 10 == v * (10 * p)) by (nonlinear_arith);
    }
}

/// Law: a numeral has no zero before its first digit but where it is the numeral of zero.
pub proof fn no_leading_zero(n: nat)
    ensures
        numeral(n).len() > 0,
        numeral(n)[0] == '0' ==> n == 0,
        numeral(0) == seq!['0'],
    decreases n,
{
    if n >= 10 {
        no_leading_zero(n / 10);
        assert(numeral(n)[0] == numeral(n / 10)[0]);
    }
}

/// Law: digits read as the number that they count, if 64 bits hold it, and so they do after one
/// plus sign.
pub proof fn digits_read_as_their_number(s: Seq<char>)
    requires
        s.len() > 0,
        forall|i: int| 0 <= i < s.len() ==> '0' <= #[trigger] s[i] <= '9',
    ensures
        u64_of(s) is Some <==> value_of(s) <= 0xffff_ffff_ffff_ffff,
        u64_of(s) matches Some(n) ==> n == value_of(s),
        u64_of(seq!['+'] + s) == u64_of(s),
{
    assert(is_digit(s[0]));
    assert((seq!['+'] + s).drop_first() =~= s);
}

/// Law: a text with anything but digits in it is no number, but for one plus sign before them;
/// nor is a text without digits.
pub proof fn other_texts_are_no_numbers(s: Seq<char>, i: int)
    requires
        s.len() == 0 || (s.len() == 1 && s[0] == '+') || (0 <= i < s.len() && !('0' <= s[i] <= '9')
            && (i > 0 || s[0] != '+')),
    ensures
        u64_of(s) is None,
{
    if s.len() > 0 && s[0] == '+' {
        if i > 0 && i < s.len() {
            assert(s.drop_first()[i - 1] == s[i]);
        }
    }
}

/// Law: at the first place where two texts differ the smaller character decides, and a text stands
/// before every longer one that it begins.
pub proof fn the_first_difference_decides(
    start: Seq<char>,
    a: char,
    b: char,
    x: Seq<char>,
    y: Seq<char>,
)
    requires
        a != b,
    ensures
        precedes(start + seq![a] + x, start + seq![b] + y) <==> a < b,
        precedes(start, start + seq![a] + x),
        !precedes(start + seq![a] + x, start),
    decreases start.len(),
{
    let one = start + seq![a] + x;
    let two = start + seq![b] + y;
    if start.len() == 0 {
        assert(one[0] == a && two[0] == b);
    } else {
        let rest = start.drop_first();
        the_first_difference_decides(rest, a, b, x, y);
        assert(one.drop_first() =~= rest + seq![a] + x);
        assert(two.drop_first() =~= rest + seq![b] + y);
        assert(one[0] == start[0] && two[0] == start[0]);
    }
}

/// Law: white space is what Unicode calls so, by its code points.
pub proof fn the_white_space(c: char)
    ensures
        is_white_space(c) <==> {
            let n = c as int;
            ||| 9 <= n <= 13
            ||| n == 32
            ||| n == 133
            ||| n == 160
            ||| n == 5760
            ||| 8192 <= n <= 8202
            ||| n == 8232
            ||| n == 8233
            ||| n == 8239
            ||| n == 8287
            ||| n == 12288
        },
{
}

/// Law: white space around a text is trimmed, whatever it is, and nothing else: a text that begins
/// and ends with something else is left as it is.
pub proof fn only_white_space_is_trimmed(before: Seq<char>, s: Seq<char>, after: Seq<char>)
    requires
        forall|i: int| 0 <= i < before.len() ==> is_white_space(#[trigger] before[i]),
        forall|i: int| 0 <= i < after.len() ==> is_white_space(#[trigger] after[i]),
        s.len() > 0 ==> !is_white_space(s[0]) && !is_white_space(s[s.len() - 1]),
    ensures
        trimmed(before + s + after) == s,
    decreases before.len() + after.len(),
{
    let all = before + s + after;
    if before.len() > 0 {
        assert(all[0] == before[0]);
        let rest = before.drop_first();
        assert forall|i: int| 0 <= i < rest.len() implies is_white_space(#[trigger] rest[i]) by {
            assert(rest[i] == before[i + 1]);
        }
        only_white_space_is_trimmed(rest, s, after);
        assert(all.drop_first() =~= rest + s + after);
    } else if s.len() == 0 {
        if after.len() > 0 {
            assert(all[0] == after[0]);
            let rest = after.drop_first();
            assert forall|i: int| 0 <= i < rest.len() implies is_white_space(#[trigger] rest[i]) by {
                assert(rest[i] == after[i + 1]);
            }
            only_white_space_is_trimmed(before, s, rest);
            assert(all.drop_first() =~= before + s + rest);
        } else {
            assert(all =~= s);
        }
    } else {
        assert(all =~= s + after);
        assert(all[0] == s[0]);
        end_is_trimmed(s, after);
    }
}

/// White space behind a text that does not end with it is trimmed.
proof fn end_is_trimmed(s: Seq<char>, after: Seq<char>)
    requires
        s.len() > 0,
        !is_white_space(s[s.len() - 1]),
        forall|i: int| 0 <= i < after.len() ==> is_white_space(#[trigger] after[i]),
    ensures
        trimmed_end(s + after) == s,
    decreases after.len(),
{
    let all = s + after;
    if after.len() > 0 {
        assert(all.last() == after[after.len() - 1]);
        let rest = after.drop_last();
        assert forall|i: int| 0 <= i < rest.len() implies is_white_space(#[trigger] rest[i]) by {
            assert(rest[i] == after[i]);
        }
        end_is_trimmed(s, rest);
        assert(all.drop_last() =~= s + rest);
    } else {
        assert(all =~= s);
    }
}

/// Law: texts that are held, and lists of them, say just what they are.
pub proof fn texts_say_what_they_are(t: &str, s: String, strings: Seq<String>, i: int, words: Seq<&str>)
    ensures
        held(Some(t)) == Some(t@),
        held(None) is None,
        held_string(Some(s)) == Some(s@),
        held_string(None) is None,
        names_of(strings).len() == strings.len(),
        0 <= i < strings.len() ==> names_of(strings)[i] == strings[i]@,
        0 <= i < words.len() ==> among(words[i]@, words),
{
}

} // verus!
