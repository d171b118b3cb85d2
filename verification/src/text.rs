//! The textual form of printed values.

use vstd::prelude::*;

verus! {

/// The character of a decimal digit.
pub open spec fn digit_char(d: nat) -> char
    recommends
        d < 10,
{
    if d == 0 {
        '0'
    } else if d == 1 {
        '1'
    } else if d == 2 {
        '2'
    } else if d == 3 {
        '3'
    } else if d == 4 {
        '4'
    } else if d == 5 {
        '5'
    } else if d == 6 {
        '6'
    } else if d == 7 {
        '7'
    } else if d == 8 {
        '8'
    } else {
        '9'
    }
}

/// The decimal digits of a natural number, most significant first, without
/// leading zeros.
pub open spec fn digits(n: nat) -> Seq<char>
    decreases n,
{
    if n < 10 {
        seq![digit_char(n)]
    } else {
        digits(n / 10).push(digit_char(n % 10))
    }
}

/// The decimal form of an integer: a minus sign if it is negative, then its
/// digits.
pub open spec fn decimal(i: int) -> Seq<char> {
    if i < 0 {
        seq!['-'] + digits((-i) as nat)
    } else {
        digits(i as nat)
    }
}

/// The textual form of a truth value.
pub open spec fn truth_text(b: bool) -> Seq<char> {
    if b {
        "true"@
    } else {
        "false"@
    }
}

/// The characters of digits that are held least significant first, most
/// significant first.
pub open spec fn spell(low: Seq<u8>) -> Seq<char>
    decreases low.len(),
{
    if low.len() == 0 {
        Seq::empty()
    } else {
        seq![digit_char(low.last() as nat)] + spell(low.drop_last())
    }
}

/// The one-character text of a decimal digit.
fn digit_str(d: u8) -> (r: &'static str)
    requires
        d < 10,
    ensures
        r@ == seq![digit_char(d as nat)],
{
    proof {
        reveal_strlit("0");
        reveal_strlit("1");
        reveal_strlit("2");
        reveal_strlit("3");
        reveal_strlit("4");
        reveal_strlit("5");
        reveal_strlit("6");
        reveal_strlit("7");
        reveal_strlit("8");
        reveal_strlit("9");
    }
    let r = if d == 0 {
        "0"
    } else if d == 1 {
        "1"
    } else if d == 2 {
        "2"
    } else if d == 3 {
        "3"
    } else if d == 4 {
        "4"
    } else if d == 5 {
        "5"
    } else if d == 6 {
        "6"
    } else if d == 7 {
        "7"
    } else if d == 8 {
        "8"
    } else {
        "9"
    };
    r
}

/// The decimal text of an integer.
pub fn integer_text(i: i64) -> (s: String)
    ensures
        s@ == decimal(i as int),
{
    let mut magnitude: u64 = if i < 0 {
        ((-(i + 1)) as u64) + 1
    } else {
        i as u64
    };
    let ghost whole = magnitude as nat;
    let mut low: Vec<u8> = Vec::new();
    while magnitude >= 10
        invariant
            digits(whole) == digits(magnitude as nat) + spell(low@),
            forall|j: int| 0 <= j < low.len() ==> low[j] < 10,
        decreases magnitude,
    {
        let d: u8 = (magnitude % 10) as u8;
        let ghost before = low@;
        low.push(d);
        proof {
            assert(low@.drop_last() =~= before);
            assert(digits(magnitude as nat) == digits((magnitude / 10) as nat).push(
                digit_char((magnitude % 10) as nat),
            ));
            assert(digits((magnitude / 10) as nat).push(digit_char(d as nat)) + spell(before)
                =~= digits((magnitude / 10) as nat) + spell(low@));
        }
        magnitude = magnitude / 10;
    }
    let ghost before = low@;
    low.push(magnitude as u8);
    proof {
        assert(low@.drop_last() =~= before);
    }
    let mut out = String::new();
    if i < 0 {
        proof {
            reveal_strlit("-");
        }
        out.append("-");
    }
    let ghost sign = out@;
    assert(sign =~= if i < 0 {
        seq!['-']
    } else {
        Seq::<char>::empty()
    });
    let mut k: usize = low.len();
    assert(low@.take(k as int) =~= low@);
    while k > 0
        invariant
            k <= low.len(),
            forall|j: int| 0 <= j < low.len() ==> low[j] < 10,
            out@ + spell(low@.take(k as int)) == sign + spell(low@),
        decreases k,
    {
        let d: u8 = low[k - 1];
        let ghost shown = out@;
        out.append(digit_str(d));
        proof {
            assert(low@.take(k as int).drop_last() =~= low@.take(k - 1));
            assert(shown + (seq![digit_char(d as nat)] + spell(low@.take(k - 1))) =~= out@ + spell(
                low@.take(k - 1),
            ));
        }
        k -= 1;
    }
    out
}

/// The text of a truth value.
pub fn bool_text(b: bool) -> (s: String)
    ensures
        s@ == truth_text(b),
{
    if b {
        String::from_str("true")
    } else {
        String::from_str("false")
    }
}

} // verus!
