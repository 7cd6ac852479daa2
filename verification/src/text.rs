//! Text helpers: decimal numerals and prefix tests over `Seq<char>`.

use vstd::prelude::*;

verus! {

/// The character of one decimal digit.
pub open spec fn spec_digit(d: nat) -> char
    recommends
        d < 10,
{
    if d == 0 {
        '0'
    } else if d == 1 {
        '1'
    } else if d == 2 {
        '2'
    } else if d == 3 {
        '3'
    } else if d == 4 {
        '4'
    } else if d == 5 {
        '5'
    } else if d == 6 {
        '6'
    } else if d == 7 {
        '7'
    } else if d == 8 {
        '8'
    } else {
        '9'
    }
}

/// The decimal numeral of `n`, without leading zeros (`0` is "0").
pub open spec fn spec_decimal(n: nat) -> Seq<char>
    decreases n,
{
    if n < 10 {
        seq![spec_digit(n)]
    } else {
        spec_decimal(n / 10).push(spec_digit(n % 10))
    }
}

/// Whether `c` is one of the ten decimal digits.
pub open spec fn is_digit(c: char) -> bool {
    c == '0' || c == '1' || c == '2' || c == '3' || c == '4' || c == '5' || c == '6' || c == '7'
        || c == '8' || c == '9'
}

fn digit_str(d: usize) -> (r: &'static str)
    requires
        d < 10,
    ensures
        r@ == seq![spec_digit(d as nat)],
{
    proof {
        reveal_strlit("0");
        reveal_strlit("1");
        reveal_strlit("2");
        reveal_strlit("3");
        reveal_strlit("4");
        reveal_strlit("5");
        reveal_strlit("6");
        reveal_strlit("7");
        reveal_strlit("8");
        reveal_strlit("9");
    }
    let r = if d == 0 {
        "0"
    } else if d == 1 {
        "1"
    } else if d == 2 {
        "2"
    } else if d == 3 {
        "3"
    } else if d == 4 {
        "4"
    } else if d == 5 {
        "5"
    } else if d == 6 {
        "6"
    } else if d == 7 {
        "7"
    } else if d == 8 {
        "8"
    } else {
        "9"
    };
    assert(r@ =~= seq![spec_digit(d as nat)]);
    r
}

/// Writes `n` as a decimal numeral.
pub fn decimal(n: usize) -> (r: String)
    ensures
        r@ == spec_decimal(n as nat),
    decreases n,
{
    if n < 10 {
        String::from_str(digit_str(n))
    } else {
        let head = decimal(n / 10);
        let r = head.concat(digit_str(n % 10));
        assert(r@ =~= spec_decimal(n as nat));
        r
    }
}

/// A decimal numeral is not empty and holds digits only.
pub proof fn lemma_decimal_digits(n: nat)
    ensures
        spec_decimal(n).len() >= 1,
        forall|k: int| 0 <= k < spec_decimal(n).len() ==> is_digit(#[trigger] spec_decimal(n)[k]),
    decreases n,
{
    if n >= 10 {
        lemma_decimal_digits(n / 10);
    }
}

/// Different numbers have different decimal numerals.
pub proof fn lemma_decimal_injective(a: nat, b: nat)
    requires
        spec_decimal(a) == spec_decimal(b),
    ensures
        a == b,
    decreases a,
{
    lemma_decimal_digits(a / 10);
    lemma_decimal_digits(b / 10);
    if a < 10 && b < 10 {
        assert(spec_decimal(a)[0] == spec_digit(a));
        assert(spec_decimal(b)[0] == spec_digit(b));
        assert(a == b);
    } else if a >= 10 && b >= 10 {
        let da = spec_decimal(a / 10);
        let db = spec_decimal(b / 10);
        assert(da.push(spec_digit(a % 10)).drop_last() =~= da);
        assert(db.push(spec_digit(b % 10)).drop_last() =~= db);
        assert(da.push(spec_digit(a % 10)).last() == spec_digit(a % 10));
        assert(db.push(spec_digit(b % 10)).last() == spec_digit(b % 10));
        lemma_decimal_injective(a / 10, b / 10);
        assert(spec_digit(a % 10) == spec_digit(b % 10));
        assert(a % 10 == b % 10);
        assert(a == b);
    } else {
        assert(spec_decimal(a).len() != spec_decimal(b).len());
    }
}

/// A text that begins with a decimal numeral and a hyphen begins with one
/// numeral only: the number can be read back from it.
pub proof fn lemma_numeral_prefix_unique(a: nat, rest_a: Seq<char>, b: nat, rest_b: Seq<char>)
    requires
        spec_decimal(a) + "-"@ + rest_a == spec_decimal(b) + "-"@ + rest_b,
    ensures
        a == b,
{
    reveal_strlit("-");
    let da = spec_decimal(a);
    let db = spec_decimal(b);
    let ta = da + "-"@ + rest_a;
    let tb = db + "-"@ + rest_b;
    lemma_decimal_digits(a);
    lemma_decimal_digits(b);
    assert(ta[da.len() as int] == '-');
    assert(tb[db.len() as int] == '-');
    if da.len() < db.len() {
        assert(tb[da.len() as int] == db[da.len() as int]);
        assert(is_digit(db[da.len() as int]));
    } else if db.len() < da.len() {
        assert(ta[db.len() as int] == da[db.len() as int]);
        assert(is_digit(da[db.len() as int]));
    } else {
        assert forall|k: int| 0 <= k < da.len() implies da[k] == db[k] by {
            assert(ta[k] == da[k]);
            assert(tb[k] == db[k]);
        }
        assert(da =~= db);
        lemma_decimal_injective(a, b);
    }
}

/// Whether `s` begins with `prefix`.
pub fn has_prefix(s: &str, prefix: &str) -> (r: bool)
    ensures
        r == prefix@.is_prefix_of(s@),
{
    let n = prefix.unicode_len();
    if s.unicode_len() < n {
        return false;
    }
    let head = String::from_str(s.substring_char(0, n));
    let r = head == String::from_str(prefix);
    assert(r == (prefix@ =~= s@.subrange(0, prefix@.len() as int)));
    r
}

/// Whether `a` and `b` hold the same text.
pub fn same_text(a: &str, b: &str) -> (r: bool)
    ensures
        r == (a@ == b@),
{
    String::from_str(a) == String::from_str(b)
}

} // verus!
