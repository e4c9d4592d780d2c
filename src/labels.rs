use vstd::prelude::*;
use vstd::string::StringExecFns;

verus! {

/// The decimal digit `d` as a character.
pub open spec fn digit_char(d: nat) -> char {
    seq!['0', '1', '2', '3', '4', '5', '6', '7', '8', '9'][d as int]
}

/// Decimal notation of `n`, without sign or leading zeros.
pub open spec fn decimal(n: nat) -> Seq<char>
    decreases n,
{
    if n < 10 {
        seq![digit_char(n)]
    } else {
        decimal(n / 10).push(digit_char(n % 10))
    }
}

/// The label `name_k` of the parameter `name` of component `k`.
pub open spec fn indexed(name: Seq<char>, k: nat) -> Seq<char> {
    name + seq!['_'] + decimal(k)
}

/// The one-character string of the decimal digit `d`.
fn digit_str(d: usize) -> (r: &'static str)
    requires
        d < 10,
    ensures
        r@ == seq![digit_char(d as nat)],
{
    proof {
        reveal_strlit("0");
        reveal_strlit("1");
        reveal_strlit("2");
        reveal_strlit("3");
        reveal_strlit("4");
        reveal_strlit("5");
        reveal_strlit("6");
        reveal_strlit("7");
        reveal_strlit("8");
        reveal_strlit("9");
    }
    let r = if d == 0 {
        "0"
    } else if d == 1 {
        "1"
    } else if d == 2 {
        "2"
    } else if d == 3 {
        "3"
    } else if d == 4 {
        "4"
    } else if d == 5 {
        "5"
    } else if d == 6 {
        "6"
    } else if d == 7 {
        "7"
    } else if d == 8 {
        "8"
    } else {
        "9"
    };
    assert(r@ =~= seq![digit_char(d as nat)]);
    r
}

/// `k` written in decimal.
pub fn decimal_string(k: usize) -> (r: String)
    ensures
        r@ == decimal(k as nat),
    decreases k,
{
    if k < 10 {
        String::from_str(digit_str(k))
    } else {
        let mut s = decimal_string(k / 10);
        s.append(digit_str(k % 10));
        s
    }
}

/// The label `name_k`.
pub fn indexed_label(name: &str, k: usize) -> (r: String)
    ensures
        r@ == indexed(name@, k as nat),
{
    proof {
        reveal_strlit("_");
    }
    let mut s = String::from_str(name);
    s.append("_");
    let digits = decimal_string(k);
    s.append(digits.as_str());
    assert(s@ =~= indexed(name@, k as nat));
    s
}

} // verus!
