//! Networks and amounts. Amounts are counted in atomic units, of which one XMR has 10^12.

use vstd::prelude::*;

use crate::text::{
    all_digits, among, chars_of, held_string, is_among, is_digit, is_white_space, no_leading_zero,
    numeral, numeral_injective, numeral_reads_back, numeral_value, only_white_space_is_trimmed, padded,
    padded_text, padded_value, parse_u64, places_count_by_ten, pow10, text_between, trim, trimmed,
    trimmed_end, trimmed_start, u64_of, u64_text, value_of, zeros, zeros_on_the_right,
};

verus! {

/// The networks a wallet can be on.
pub const NETWORKS: [&'static str; 4] = ["mainnet", "stagenet", "testnet", "regtest"];

/// Whether `n` names a network.
pub fn is_network(n: &str) -> (r: bool)
    ensures
        r == among(n@, NETWORKS@),
{
    is_among(n, &NETWORKS)
}

/// Atomic units in one XMR.
pub const ATOMIC_PER_XMR: u64 = 1_000_000_000_000;

/// What `format_xmr` makes of a text: for a number of atomic units the XMR, a point, and all
/// twelve places.
pub open spec fn formatted(atomic: Seq<char>) -> Option<Seq<char>> {
    match u64_of(atomic) {
        Some(v) => Some(xmr_numeral(v as nat)),
        None => None,
    }
}

/// `v` atomic units written in XMR, exactly.
pub open spec fn xmr_numeral(v: nat) -> Seq<char> {
    numeral(v / ATOMIC_PER_XMR as nat) + seq!['.'] + padded(v % ATOMIC_PER_XMR as nat, 12)
}

/// The part of an amount before its first point.
pub open spec fn whole_part(s: Seq<char>) -> Seq<char> {
    match s.index_of_first('.') {
        Some(i) => s.take(i),
        None => s,
    }
}

/// The part of an amount after its first point.
pub open spec fn fraction_part(s: Seq<char>) -> Seq<char> {
    match s.index_of_first('.') {
        Some(i) => s.skip(i + 1),
        None => Seq::empty(),
    }
}

/// An amount in XMR: digits, and perhaps a point with at most twelve digits after it.
pub open spec fn is_amount(s: Seq<char>) -> bool {
    &&& s.len() > 0
    &&& all_digits(whole_part(s))
    &&& all_digits(fraction_part(s))
    &&& fraction_part(s).len() <= 12
}

/// The atomic units in an amount.
pub open spec fn atomic_units(s: Seq<char>) -> nat {
    value_of(whole_part(s)) * ATOMIC_PER_XMR as nat + value_of(fraction_part(s)) * pow10(
        (12 - fraction_part(s).len()) as nat,
    )
}

/// What `parse_xmr` makes of a text: the numeral of the atomic units in it.
pub open spec fn parsed(xmr: Seq<char>) -> Option<Seq<char>> {
    let s = trimmed(xmr);
    if is_amount(s) && atomic_units(s) <= u64::MAX {
        Some(numeral(atomic_units(s)))
    } else {
        None
    }
}

proof fn twelve_places()
    ensures
        pow10(12) == ATOMIC_PER_XMR,
{
    reveal_with_fuel(pow10, 13);
}

/// Atomic units to XMR, exactly.
pub fn format_xmr(atomic: &str) -> (r: Option<String>)
    ensures
        held_string(r) == formatted(atomic@),
{
    match parse_u64(atomic) {
        Some(v) => {
            let mut s = u64_text(v / ATOMIC_PER_XMR);
            s.push('.');
            let fraction = padded_text(v % ATOMIC_PER_XMR, 12);
            s.append(fraction.as_str());
            assert(s@ =~= xmr_numeral(v as nat));
            Some(s)
        },
        None => None,
    }
}

/// Digits count less than ten to the power of their number.
proof fn digits_below(s: Seq<char>)
    requires
        all_digits(s),
    ensures
        value_of(s) < pow10(s.len()),
    decreases s.len(),
{
    if s.len() > 0 {
        assert(is_digit(s.last()));
        assert forall|i: int| 0 <= i < s.drop_last().len() implies is_digit(
            #[trigger] s.drop_last()[i],
        ) by {
            assert(s.drop_last()[i] == s[i]);
        }
        digits_below(s.drop_last());
    }
}

/// Whether the characters `from..to` are all digits.
fn digits_only(chars: &Vec<char>, from: usize, to: usize) -> (r: bool)
    requires
        from <= to <= chars@.len(),
    ensures
        r == all_digits(chars@.subrange(from as int, to as int)),
{
    let ghost part = chars@.subrange(from as int, to as int);
    let mut i: usize = from;
    while i < to
        invariant
            from <= i <= to <= chars@.len(),
            part == chars@.subrange(from as int, to as int),
            forall|j: int| 0 <= j < i - from ==> is_digit(#[trigger] part[j]),
        decreases to - i,
    {
        assert(part[i - from] == chars@[i as int]);
        if !('0' <= chars[i] && chars[i] <= '9') {
            return false;
        }
        i += 1;
    }
    true
}

/// XMR to atomic units. More than twelve places are refused rather than rounded: a wallet must
/// not silently move value.
pub fn parse_xmr(xmr: &str) -> (r: Option<String>)
    ensures
        held_string(r) == parsed(xmr@),
{
    let trimmed_xmr = trim(xmr);
    let chars = chars_of(trimmed_xmr.as_str());
    let ghost s = trimmed(xmr@);
    let mut dot: usize = 0;
    while dot < chars.len() && chars[dot] != '.'
        invariant
            chars@ == s,
            dot <= chars@.len(),
            forall|j: int| 0 <= j < dot ==> chars@[j] != '.',
        decreases chars@.len() - dot,
    {
        dot += 1;
    }
    let from: usize = if dot < chars.len() {
        dot + 1
    } else {
        dot
    };
    proof {
        s.index_of_first_ensures('.');
        if dot < s.len() {
            assert(s[dot as int] == '.');
        }
        assert(s.subrange(0, dot as int) =~= whole_part(s));
        assert(s.subrange(from as int, s.len() as int) =~= fraction_part(s));
        assert(s.skip(from as int) =~= fraction_part(s));
    }
    if chars.len() == 0 || chars.len() - from > 12 || !digits_only(&chars, 0, dot) || !digits_only(
        &chars,
        from,
        chars.len(),
    ) {
        return None;
    }
    let ghost w = value_of(whole_part(s));
    let ghost f = value_of(fraction_part(s));
    let ghost places = fraction_part(s).len();
    let whole_text = text_between(&chars, 0, dot);
    let whole: u64 = if dot == 0 {
        0
    } else {
        match parse_u64(whole_text.as_str()) {
            Some(v) => v,
            None => {
                return None;
            },
        }
    };
    assert(whole == w);
    let mut fraction_text = text_between(&chars, from, chars.len());
    let mut width: usize = chars.len() - from;
    assert(fraction_text@ =~= fraction_part(s) + zeros(0));
    while width < 12
        invariant
            places <= width <= 12,
            fraction_text@ == fraction_part(s) + zeros((width - places) as nat),
        decreases 12 - width,
    {
        fraction_text.push('0');
        width += 1;
        assert(fraction_text@ =~= fraction_part(s) + zeros((width - places) as nat));
    }
    proof {
        zeros_on_the_right(fraction_part(s), (12 - places) as nat);
        assert forall|i: int| 0 <= i < fraction_text@.len() implies is_digit(
            #[trigger] fraction_text@[i],
        ) by {
            if i < places {
                assert(fraction_text@[i] == fraction_part(s)[i]);
            }
        }
        digits_below(fraction_text@);
        twelve_places();
        assert(is_digit(fraction_text@[0]));
    }
    let fraction: u64 = match parse_u64(fraction_text.as_str()) {
        Some(v) => v,
        None => {
            return None;
        },
    };
    match whole.checked_mul(ATOMIC_PER_XMR) {
        Some(units) => match units.checked_add(fraction) {
            Some(total) => Some(u64_text(total)),
            None => None,
        },
        None => None,
    }
}

// ---------------------------------------------------------------------------------------------
// Laws
// ---------------------------------------------------------------------------------------------

/// Text that starts and ends with something other than white space is trimmed to itself.
proof fn nothing_to_trim(s: Seq<char>)
    requires
        s.len() > 0,
        !is_white_space(s[0]),
        !is_white_space(s.last()),
    ensures
        trimmed(s) == s,
{
    assert(trimmed_start(s) == s);
    assert(trimmed_end(s) == s);
}

/// Law: reading what was formatted gives the same number of atomic units back, whatever text
/// they were formatted from.
pub proof fn parse_undoes_format(atomic: Seq<char>)
    requires
        formatted(atomic) is Some,
    ensures
        u64_of(atomic) is Some,
        parsed(formatted(atomic)->0) == Some(numeral(u64_of(atomic)->0 as nat)),
{
    let v = u64_of(atomic)->0 as nat;
    let unit = ATOMIC_PER_XMR as nat;
    let whole = numeral(v / unit);
    let fraction = padded(v % unit, 12);
    let s = xmr_numeral(v);
    numeral_value(v / unit);
    twelve_places();
    padded_value(v % unit, 12);
    assert(is_digit(whole[0]));
    assert(is_digit(fraction[11]));
    assert(s[0] == whole[0]);
    assert(s.last() == fraction[11]);
    nothing_to_trim(s);
    let dot = whole.len() as int;
    assert(s[dot] == '.');
    s.index_of_first_ensures('.');
    assert forall|i: int| 0 <= i < dot implies s[i] != '.' by {
        assert(s[i] == whole[i]);
        assert(is_digit(whole[i]));
    }
    assert(s.index_of_first('.') == Some(dot));
    assert(whole_part(s) =~= whole);
    assert(fraction_part(s) =~= fraction);
    assert(pow10(0) == 1);
    assert(atomic_units(s) == (v / unit) * unit + (v % unit) * 1);
    assert((v / unit) * unit + v % unit == v) by (nonlinear_arith)
        requires
            unit > 0,
    ;
}

/// Law: for the numeral of a number of atomic units, formatting and reading back is the identity.
pub proof fn format_round_trips(v: u64)
    ensures
        formatted(numeral(v as nat)) == Some(xmr_numeral(v as nat)),
        parsed(xmr_numeral(v as nat)) == Some(numeral(v as nat)),
{
    numeral_reads_back(v);
    parse_undoes_format(numeral(v as nat));
}

/// Law: different numbers of atomic units are formatted differently.
pub proof fn format_is_exact(a: Seq<char>, b: Seq<char>)
    requires
        formatted(a) is Some,
        formatted(a) == formatted(b),
    ensures
        u64_of(a) == u64_of(b),
{
    parse_undoes_format(a);
    parse_undoes_format(b);
    numeral_injective(u64_of(a)->0 as nat, u64_of(b)->0 as nat);
}

/// Law: an amount with more than twelve places is refused, however small what it would lose.
pub proof fn precision_loss_is_refused(xmr: Seq<char>)
    requires
        fraction_part(trimmed(xmr)).len() > 12,
    ensures
        parsed(xmr) is None,
{
}

/// Law: an amount with a sign before it is refused.
pub proof fn negative_is_refused(xmr: Seq<char>)
    requires
        trimmed(xmr).len() > 0,
        trimmed(xmr)[0] == '-',
    ensures
        parsed(xmr) is None,
{
    let s = trimmed(xmr);
    s.index_of_first_ensures('.');
    assert(whole_part(s).len() > 0 && whole_part(s)[0] == '-');
    assert(!is_digit(whole_part(s)[0]));
}

/// Law: an amount counts what its digits count with the point moved twelve places to the right,
/// and it is read just where 64 bits hold that. White space around it does not matter.
pub proof fn an_amount_is_read_exactly(
    before: Seq<char>,
    whole: Seq<char>,
    fraction: Seq<char>,
    after: Seq<char>,
)
    requires
        forall|i: int| 0 <= i < before.len() ==> is_white_space(#[trigger] before[i]),
        forall|i: int| 0 <= i < after.len() ==> is_white_space(#[trigger] after[i]),
        forall|i: int| 0 <= i < whole.len() ==> '0' <= #[trigger] whole[i] <= '9',
        forall|i: int| 0 <= i < fraction.len() ==> '0' <= #[trigger] fraction[i] <= '9',
        fraction.len() <= 12,
    ensures
        ({
            let units = value_of(whole + fraction) * pow10((12 - fraction.len()) as nat);
            let read = parsed(before + (whole + seq!['.'] + fraction) + after);
            &&& read is Some <==> units <= u64::MAX
            &&& read matches Some(atomic) ==> u64_of(atomic) == Some(units as u64) && atomic == numeral(units)
        }),
        whole.len() > 0 ==> ({
            let units = value_of(whole) * 1_000_000_000_000;
            let read = parsed(before + whole + after);
            &&& read is Some <==> units <= u64::MAX
            &&& read matches Some(atomic) ==> u64_of(atomic) == Some(units as u64) && atomic == numeral(units as nat)
        }),
{
    twelve_places();
    let s = whole + seq!['.'] + fraction;
    assert(s.last() == if fraction.len() > 0 {
        fraction[fraction.len() - 1]
    } else {
        '.'
    });
    assert(s[0] == if whole.len() > 0 {
        whole[0]
    } else {
        '.'
    });
    only_white_space_is_trimmed(before, s, after);
    s.index_of_first_ensures('.');
    let dot = whole.len() as int;
    assert(s[dot] == '.');
    assert forall|i: int| 0 <= i < dot implies s[i] != '.' by {
        assert(s[i] == whole[i]);
    }
    assert(s.index_of_first('.') == Some(dot));
    assert(whole_part(s) =~= whole);
    assert(fraction_part(s) =~= fraction);
    places_count_by_ten(whole, fraction);
    let w = value_of(whole);
    let f = value_of(fraction);
    let p = pow10(fraction.len());
    let q = pow10((12 - fraction.len()) as nat);
    powers_multiply(fraction.len(), (12 - fraction.len()) as nat);
    assert((w * p + f) * q == w * (p * q) + f * q) by (nonlinear_arith);
    let units = value_of(whole + fraction) * q;
    assert(atomic_units(s) == units);
    if units <= u64::MAX {
        numeral_reads_back(units as u64);
    }
    if whole.len() > 0 {
        only_white_space_is_trimmed(before, whole, after);
        whole.index_of_first_ensures('.');
        assert forall|i: int| 0 <= i < whole.len() implies whole[i] != '.' by {
            assert('0' <= whole[i] <= '9');
        }
        assert(whole_part(whole) == whole);
        assert(fraction_part(whole) == Seq::<char>::empty());
        assert(value_of(Seq::<char>::empty()) == 0);
        assert(0 * pow10(12) == 0);
        assert(atomic_units(whole) == w * 1_000_000_000_000);
        let plain = (w * 1_000_000_000_000) as nat;
        if plain <= u64::MAX {
            numeral_reads_back(plain as u64);
        }
    }
}

/// Powers of ten multiply by adding what they are raised to.
proof fn powers_multiply(a: nat, b: nat)
    ensures
        pow10(a + b) == pow10(a) * pow10(b),
    decreases a,
{
    if a == 0 {
        assert(1 * pow10(b) == pow10(b));
    } else {
        let c = (a - 1) as nat;
        powers_multiply(c, b);
        let p = pow10(c);
        let q = pow10(b);
        assert((10 * p) * q == 10 * (p * q)) by (nonlinear_arith);
        assert((a + b - 1) as nat == c + b);
    }
}

/// Law: an amount that is read is made of digits with at most one point among them.
pub proof fn only_digits_and_a_point_are_read(xmr: Seq<char>, i: int, j: int)
    requires
        0 <= i < trimmed(xmr).len(),
        0 <= j < trimmed(xmr).len(),
        parsed(xmr) is Some,
    ensures
        '0' <= trimmed(xmr)[i] <= '9' || trimmed(xmr)[i] == '.',
        trimmed(xmr)[i] == '.' && trimmed(xmr)[j] == '.' ==> i == j,
{
    let s = trimmed(xmr);
    s.index_of_first_ensures('.');
    match s.index_of_first('.') {
        Some(dot) => {
            only_digits_beside(s, dot, i);
            only_digits_beside(s, dot, j);
        },
        None => {
            assert(is_digit(whole_part(s)[i]));
            assert(is_digit(whole_part(s)[j]));
        },
    }
}

proof fn only_digits_beside(s: Seq<char>, dot: int, i: int)
    requires
        is_amount(s),
        s.index_of_first('.') == Some(dot),
        0 <= dot < s.len(),
        0 <= i < s.len(),
    ensures
        i != dot ==> '0' <= s[i] <= '9',
{
    if i < dot {
        assert(is_digit(whole_part(s)[i]));
        assert(whole_part(s)[i] == s[i]);
    } else if i > dot {
        assert(is_digit(fraction_part(s)[i - dot - 1]));
        assert(fraction_part(s)[i - dot - 1] == s[i]);
    }
}

/// Law: what is formatted has its point before the last twelve digits, no zero too many before it,
/// and its digits count the atomic units. It is there just where the text is a number.
pub proof fn twelve_places_are_shown(atomic: Seq<char>)
    ensures
        formatted(atomic) is Some <==> u64_of(atomic) is Some,
        formatted(atomic) matches Some(s) ==> {
            let dot = s.len() - 13;
            &&& dot >= 1
            &&& s[dot] == '.'
            &&& forall|i: int| 0 <= i < s.len() && i != dot ==> '0' <= #[trigger] s[i] <= '9'
            &&& value_of(s.take(dot) + s.skip(dot + 1)) == u64_of(atomic)->0
            &&& s[0] == '0' ==> dot == 1
        },
{
    if u64_of(atomic) is Some {
        let v = u64_of(atomic)->0 as nat;
        let unit = ATOMIC_PER_XMR as nat;
        let whole = numeral(v / unit);
        let fraction = padded(v % unit, 12);
        let s = xmr_numeral(v);
        twelve_places();
        numeral_value(v / unit);
        padded_value(v % unit, 12);
        no_leading_zero(v / unit);
        let dot = s.len() - 13;
        assert(dot == whole.len());
        assert(s.take(dot) =~= whole);
        assert(s.skip(dot + 1) =~= fraction);
        places_count_by_ten(whole, fraction);
        assert((v / unit) * unit + v % unit == v) by (nonlinear_arith)
            requires
                unit > 0,
        ;
        assert forall|i: int| 0 <= i < s.len() && i != dot implies '0' <= #[trigger] s[i] <= '9' by {
            if i < dot {
                assert(is_digit(whole[i]));
            } else {
                assert(is_digit(fraction[i - dot - 1]));
            }
        }
        assert(s[0] == whole[0]);
        if s[0] == '0' {
            assert(v / unit == 0);
        }
    }
}

/// Law: there are four networks.
pub proof fn the_four_networks(name: Seq<char>)
    ensures
        among(name, NETWORKS@) <==> name == "mainnet"@ || name == "stagenet"@ || name == "testnet"@
            || name == "regtest"@,
        ATOMIC_PER_XMR == 1_000_000_000_000,
{
    assert(NETWORKS@[0]@ == "mainnet"@ && NETWORKS@[1]@ == "stagenet"@);
    assert(NETWORKS@[2]@ == "testnet"@ && NETWORKS@[3]@ == "regtest"@);
}

} // verus!
