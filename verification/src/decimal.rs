//! Decimal rendering of the unsigned integers that appear in `host:port`
//! strings.
use vstd::prelude::*;
use vstd::string::StringExecFns;

verus! {

pub open spec fn spec_digit_char(d: int) -> char
    recommends
        0 <= d < 10,
{
    if d == 0 {
        '0'
    } else if d == 1 {
        '1'
    } else if d == 2 {
        '2'
    } else if d == 3 {
        '3'
    } else if d == 4 {
        '4'
    } else if d == 5 {
        '5'
    } else if d == 6 {
        '6'
    } else if d == 7 {
        '7'
    } else if d == 8 {
        '8'
    } else {
        '9'
    }
}

/// The decimal digits of `n`, most significant first, with no leading zero
/// except for `n == 0` itself.
pub open spec fn spec_udec_chars(n: int) -> Seq<char>
    recommends
        n >= 0,
    decreases n,
{
    if n < 10 {
        seq![spec_digit_char(n)]
    } else {
        spec_udec_chars(n / 10).push(spec_digit_char(n % 10))
    }
}

fn digit_char_str(d: u8) -> (r: String)
    requires
        d < 10,
    ensures
        r@ == seq![spec_digit_char(d as int)],
{
    match d {
        0u8 => {
            proof {
                reveal_strlit("0");
            }
            let r = String::from_str("0");
            proof {
                assert(r@ =~= seq![spec_digit_char(0)]);
            }
            r
        },
        1u8 => {
            proof {
                reveal_strlit("1");
            }
            let r = String::from_str("1");
            proof {
                assert(r@ =~= seq![spec_digit_char(1)]);
            }
            r
        },
        2u8 => {
            proof {
                reveal_strlit("2");
            }
            let r = String::from_str("2");
            proof {
                assert(r@ =~= seq![spec_digit_char(2)]);
            }
            r
        },
        3u8 => {
            proof {
                reveal_strlit("3");
            }
            let r = String::from_str("3");
            proof {
                assert(r@ =~= seq![spec_digit_char(3)]);
            }
            r
        },
        4u8 => {
            proof {
                reveal_strlit("4");
            }
            let r = String::from_str("4");
            proof {
                assert(r@ =~= seq![spec_digit_char(4)]);
            }
            r
        },
        5u8 => {
            proof {
                reveal_strlit("5");
            }
            let r = String::from_str("5");
            proof {
                assert(r@ =~= seq![spec_digit_char(5)]);
            }
            r
        },
        6u8 => {
            proof {
                reveal_strlit("6");
            }
            let r = String::from_str("6");
            proof {
                assert(r@ =~= seq![spec_digit_char(6)]);
            }
            r
        },
        7u8 => {
            proof {
                reveal_strlit("7");
            }
            let r = String::from_str("7");
            proof {
                assert(r@ =~= seq![spec_digit_char(7)]);
            }
            r
        },
        8u8 => {
            proof {
                reveal_strlit("8");
            }
            let r = String::from_str("8");
            proof {
                assert(r@ =~= seq![spec_digit_char(8)]);
            }
            r
        },
        _ => {
            proof {
                reveal_strlit("9");
            }
            let r = String::from_str("9");
            proof {
                assert(r@ =~= seq![spec_digit_char(9)]);
            }
            r
        },
    }
}

/// Render `x` in decimal.
pub fn u64_to_decimal(x: u64) -> (r: String)
    ensures
        r@ == spec_udec_chars(x as int),
    decreases x,
{
    if x < 10 {
        digit_char_str(x as u8)
    } else {
        let mut s = u64_to_decimal(x / 10);
        let tail = digit_char_str((x % 10) as u8);
        s.append(tail.as_str());
        proof {
            assert(s@ =~= spec_udec_chars(x as int));
        }
        s
    }
}

} // verus!
