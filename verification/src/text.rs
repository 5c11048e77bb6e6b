//! Verified decimal formatting for the textual image stream.

use vstd::prelude::*;

verus! {

/// The character for one decimal digit.
pub open spec fn digit_char(d: int) -> char {
    if d == 0 {
        '0'
    } else if d == 1 {
        '1'
    } else if d == 2 {
        '2'
    } else if d == 3 {
        '3'
    } else if d == 4 {
        '4'
    } else if d == 5 {
        '5'
    } else if d == 6 {
        '6'
    } else if d == 7 {
        '7'
    } else if d == 8 {
        '8'
    } else {
        '9'
    }
}

/// The decimal digits of a non-negative integer, most significant first.
pub open spec fn dec_seq(n: int) -> Seq<char>
    recommends
        n >= 0,
    decreases n,
{
    if n < 10 {
        seq![digit_char(n)]
    } else {
        dec_seq(n / 10).push(digit_char(n % 10))
    }
}

/// The one-character text of a decimal digit.
fn digit_str(d: u64) -> (s: &'static str)
    requires
        d < 10,
    ensures
        s@ == seq![digit_char(d as int)],
{
    if d == 0 {
        proof {
            reveal_strlit("0");
            assert("0"@ =~= seq![digit_char(0)]);
        }
        "0"
    } else if d == 1 {
        proof {
            reveal_strlit("1");
            assert("1"@ =~= seq![digit_char(1)]);
        }
        "1"
    } else if d == 2 {
        proof {
            reveal_strlit("2");
            assert("2"@ =~= seq![digit_char(2)]);
        }
        "2"
    } else if d == 3 {
        proof {
            reveal_strlit("3");
            assert("3"@ =~= seq![digit_char(3)]);
        }
        "3"
    } else if d == 4 {
        proof {
            reveal_strlit("4");
            assert("4"@ =~= seq![digit_char(4)]);
        }
        "4"
    } else if d == 5 {
        proof {
            reveal_strlit("5");
            assert("5"@ =~= seq![digit_char(5)]);
        }
        "5"
    } else if d == 6 {
        proof {
            reveal_strlit("6");
            assert("6"@ =~= seq![digit_char(6)]);
        }
        "6"
    } else if d == 7 {
        proof {
            reveal_strlit("7");
            assert("7"@ =~= seq![digit_char(7)]);
        }
        "7"
    } else if d == 8 {
        proof {
            reveal_strlit("8");
            assert("8"@ =~= seq![digit_char(8)]);
        }
        "8"
    } else {
        proof {
            reveal_strlit("9");
            assert("9"@ =~= seq![digit_char(9)]);
        }
        "9"
    }
}

/// The decimal text of a non-negative integer, no sign and no padding.
pub fn fmt_u64(n: u64) -> (s: String)
    ensures
        s@ == dec_seq(n as int),
    decreases n,
{
    if n < 10 {
        String::from_str(digit_str(n))
    } else {
        let mut s = fmt_u64(n / 10);
        let d = digit_str(n % 10);
        s.append(d);
        proof {
            assert(dec_seq((n / 10) as int).push(digit_char((n % 10) as int)) =~= dec_seq(
                (n / 10) as int,
            ) + seq![digit_char((n % 10) as int)]);
        }
        s
    }
}

/// The text is three decimal fields separated by single spaces.
pub open spec fn rgb_line(s: Seq<char>) -> bool {
    exists|r: int, g: int, b: int|
        0 <= r && 0 <= g && 0 <= b && s == #[trigger] rgb_line_of(r, g, b)
}

/// The pixel line for the quantized channels `r g b`.
pub open spec fn rgb_line_of(r: int, g: int, b: int) -> Seq<char> {
    dec_seq(r) + seq![' '] + dec_seq(g) + seq![' '] + dec_seq(b)
}

/// One output pixel line: the three channels in decimal, space-separated.
pub fn pixel_line(r: u64, g: u64, b: u64) -> (s: String)
    ensures
        s@ == rgb_line_of(r as int, g as int, b as int),
        rgb_line(s@),
{
    let mut s = fmt_u64(r);
    s.append(" ");
    let gs = fmt_u64(g);
    s.append(gs.as_str());
    s.append(" ");
    let bs = fmt_u64(b);
    s.append(bs.as_str());
    proof {
        reveal_strlit(" ");
        assert(" "@ =~= seq![' ']);
        assert(s@ =~= rgb_line_of(r as int, g as int, b as int));
        assert(rgb_line(s@));
    }
    s
}

} // verus!
