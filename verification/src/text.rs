//! Small text helpers over `str`/`String` views.

use vstd::prelude::*;

verus! {

/// Name for the Unicode upper-case form of a text; computed by `str::to_uppercase`.
pub uninterp spec fn uppercase_text(text: Seq<char>) -> Seq<char>;

/// `str::to_uppercase`.
#[verifier::external_body]
pub(crate) fn to_upper(text: &str) -> (r: String)
    ensures
        r@ == uppercase_text(text@),
{
    text.to_uppercase()
}

/// Whitespace as `char::is_whitespace` defines it (the Unicode `White_Space` property).
pub open spec fn is_space(c: char) -> bool {
    ||| ('\u{9}' <= c && c <= '\u{d}')
    ||| c == ' '
    ||| c == '\u{85}'
    ||| c == '\u{a0}'
    ||| c == '\u{1680}'
    ||| ('\u{2000}' <= c && c <= '\u{200a}')
    ||| c == '\u{2028}'
    ||| c == '\u{2029}'
    ||| c == '\u{202f}'
    ||| c == '\u{205f}'
    ||| c == '\u{3000}'
}

fn space(c: char) -> (r: bool)
    ensures
        r == is_space(c),
{
    ('\u{9}' <= c && c <= '\u{d}') || c == ' ' || c == '\u{85}' || c == '\u{a0}' || c == '\u{1680}'
        || ('\u{2000}' <= c && c <= '\u{200a}') || c == '\u{2028}' || c == '\u{2029}' || c
        == '\u{202f}' || c == '\u{205f}' || c == '\u{3000}'
}

/// `s` without leading and trailing whitespace, as `str::trim` gives it: the part from the
/// first to the last non-whitespace character (empty when there is none).
#[verifier::opaque]
pub open spec fn trimmed(s: Seq<char>) -> Seq<char> {
    if forall|k: int| 0 <= k < s.len() ==> is_space(#[trigger] s[k]) {
        Seq::empty()
    } else {
        let a = choose|a: int| 0 <= a < s.len() && !is_space(s[a]) && forall|k: int| 0 <= k < a ==> is_space(#[trigger] s[k]);
        let b = choose|b: int| 0 <= b < s.len() && !is_space(s[b]) && forall|k: int| b < k < s.len() ==> is_space(#[trigger] s[k]);
        s.subrange(a, b + 1)
    }
}

/// Removes leading and trailing whitespace.
pub fn trim(s: &str) -> (r: &str)
    ensures
        r@ == trimmed(s@),
{
    proof {
        reveal(trimmed);
    }
    let n = s.unicode_len();
    let mut a: usize = 0;
    while a < n && space(s.get_char(a))
        invariant
            n == s@.len(),
            0 <= a <= n,
            forall|k: int| 0 <= k < a ==> is_space(#[trigger] s@[k]),
        decreases n - a,
    {
        a = a + 1;
    }
    if a == n {
        return s.substring_char(0, 0);
    }
    let mut b: usize = n - 1;
    while space(s.get_char(b))
        invariant
            n == s@.len(),
            a < n,
            !is_space(s@[a as int]),
            a <= b < n,
            forall|k: int| b < k < n ==> is_space(#[trigger] s@[k]),
        decreases b,
    {
        b = b - 1;
    }
    proof {
        let a2 = choose|x: int| 0 <= x < s@.len() && !is_space(s@[x]) && forall|k: int| 0 <= k < x ==> is_space(#[trigger] s@[k]);
        let b2 = choose|x: int| 0 <= x < s@.len() && !is_space(s@[x]) && forall|k: int| x < k < s@.len() ==> is_space(#[trigger] s@[k]);
        assert(!is_space(s@[a as int]));
        if a2 < a {
            assert(is_space(s@[a2]));
        }
        if a2 > a {
            assert(is_space(s@[a as int]));
        }
        if b2 < b {
            assert(is_space(s@[b as int]));
        }
        if b2 > b {
            assert(is_space(s@[b2]));
        }
    }
    s.substring_char(a, b + 1)
}

/// Whether two strings hold the same characters.
pub fn same_text(a: &str, b: &str) -> (r: bool)
    ensures
        r == (a@ == b@),
{
    let x = String::from_str(a);
    let y = String::from_str(b);
    x == y
}

/// An owned copy of a string slice.
pub fn owned(s: &str) -> (r: String)
    ensures
        r@ == s@,
{
    String::from_str(s)
}

/// The character of a hexadecimal digit `d < 16` (lower case).
pub open spec fn hex_char(d: nat) -> char {
    if d < 10 {
        (d + 48) as char
    } else {
        (d + 87) as char
    }
}

/// Lower-case hexadecimal text of `n`, without leading zeros.
pub open spec fn hex_text(n: nat) -> Seq<char>
    decreases n,
{
    if n < 16 {
        seq![hex_char(n)]
    } else {
        hex_text(n / 16) + seq![hex_char(n % 16)]
    }
}

fn hex_digit(d: u64) -> (s: &'static str)
    requires
        d < 16,
    ensures
        s@ == seq![hex_char(d as nat)],
{
    match d {
        0 => {
            proof {
                reveal_strlit("0");
            }
            "0"
        },
        1 => {
            proof {
                reveal_strlit("1");
            }
            "1"
        },
        2 => {
            proof {
                reveal_strlit("2");
            }
            "2"
        },
        3 => {
            proof {
                reveal_strlit("3");
            }
            "3"
        },
        4 => {
            proof {
                reveal_strlit("4");
            }
            "4"
        },
        5 => {
            proof {
                reveal_strlit("5");
            }
            "5"
        },
        6 => {
            proof {
                reveal_strlit("6");
            }
            "6"
        },
        7 => {
            proof {
                reveal_strlit("7");
            }
            "7"
        },
        8 => {
            proof {
                reveal_strlit("8");
            }
            "8"
        },
        9 => {
            proof {
                reveal_strlit("9");
            }
            "9"
        },
        10 => {
            proof {
                reveal_strlit("a");
            }
            "a"
        },
        11 => {
            proof {
                reveal_strlit("b");
            }
            "b"
        },
        12 => {
            proof {
                reveal_strlit("c");
            }
            "c"
        },
        13 => {
            proof {
                reveal_strlit("d");
            }
            "d"
        },
        14 => {
            proof {
                reveal_strlit("e");
            }
            "e"
        },
        15 => {
            proof {
                reveal_strlit("f");
            }
            "f"
        },
        _ => {
            proof {
                reveal_strlit("f");
            }
            "f"
        },
    }
}

/// `n` written in lower-case hexadecimal, as `format!("{:x}", n)` writes it.
pub fn hex_string(n: u64) -> (s: String)
    ensures
        s@ == hex_text(n as nat),
    decreases n,
{
    if n < 16 {
        String::from_str(hex_digit(n))
    } else {
        let mut s = hex_string(n / 16);
        s.append(hex_digit(n % 16));
        s
    }
}

/// Decimal text of `n`, without leading zeros.
pub open spec fn decimal_text(n: nat) -> Seq<char>
    decreases n,
{
    if n < 10 {
        seq![hex_char(n)]
    } else {
        decimal_text(n / 10) + seq![hex_char(n % 10)]
    }
}

fn decimal_digit(d: u128) -> (s: &'static str)
    requires
        d < 10,
    ensures
        s@ == seq![hex_char(d as nat)],
{
    match d {
        0 => {
            proof {
                reveal_strlit("0");
            }
            "0"
        },
        1 => {
            proof {
                reveal_strlit("1");
            }
            "1"
        },
        2 => {
            proof {
                reveal_strlit("2");
            }
            "2"
        },
        3 => {
            proof {
                reveal_strlit("3");
            }
            "3"
        },
        4 => {
            proof {
                reveal_strlit("4");
            }
            "4"
        },
        5 => {
            proof {
                reveal_strlit("5");
            }
            "5"
        },
        6 => {
            proof {
                reveal_strlit("6");
            }
            "6"
        },
        7 => {
            proof {
                reveal_strlit("7");
            }
            "7"
        },
        8 => {
            proof {
                reveal_strlit("8");
            }
            "8"
        },
        9 => {
            proof {
                reveal_strlit("9");
            }
            "9"
        },
        _ => {
            proof {
                reveal_strlit("9");
            }
            "9"
        },
    }
}

/// `n` in decimal, as `format!("{}", n)` writes it.
pub fn decimal_string(n: u128) -> (s: String)
    ensures
        s@ == decimal_text(n as nat),
    decreases n,
{
    if n < 10 {
        String::from_str(decimal_digit(n))
    } else {
        let mut s = decimal_string(n / 10);
        s.append(decimal_digit(n % 10));
        s
    }
}

/// `v / 10^places` written with exactly `places` decimals (`v >= 0`): the whole part,
/// a point, and the remainder padded with zeros.
pub open spec fn fixed_point_text(v: nat, places: nat) -> Seq<char> {
    let p = crate::decimal::pow10(places);
    let frac = decimal_text((v % (p as nat)) as nat);
    decimal_text(v / (p as nat)) + "."@ + Seq::new((places - frac.len()) as nat, |i: int| '0') + frac
}

/// Length of the decimal text of `n`.
proof fn lemma_decimal_text_len(n: nat)
    ensures
        1 <= decimal_text(n).len(),
        n < 10 ==> decimal_text(n).len() == 1,
        n < 100 ==> decimal_text(n).len() <= 2,
        n < 1000 ==> decimal_text(n).len() <= 3,
    decreases n,
{
    if n >= 10 {
        lemma_decimal_text_len(n / 10);
    }
}

/// `v` thousandths written with three decimals, as `format!("{:.3}", v as f64 / 1000.0)`
/// writes it.
pub fn three_decimals(v: u64) -> (s: String)
    ensures
        s@ == fixed_point_text(v as nat, 3),
{
    proof {
        reveal_with_fuel(crate::decimal::pow10, 4);
        reveal_strlit(".");
        reveal_strlit("0");
        reveal_strlit("00");
    }
    let whole = decimal_string((v / 1000) as u128);
    let rem = v % 1000;
    let frac = decimal_string(rem as u128);
    proof {
        lemma_decimal_text_len(rem as nat);
    }
    let mut s = whole.concat(".");
    if rem < 10 {
        s.append("00");
    } else if rem < 100 {
        s.append("0");
    }
    s.append(frac.as_str());
    proof {
        let z = Seq::new((3 - frac@.len()) as nat, |i: int| '0');
        if rem < 10 {
            assert(z =~= "00"@);
        } else if rem < 100 {
            assert(frac@.len() >= 2) by {
                reveal_with_fuel(decimal_text, 2);
            }
            assert(z =~= "0"@);
        } else {
            assert(frac@.len() >= 3) by {
                reveal_with_fuel(decimal_text, 3);
            }
            assert(z =~= Seq::<char>::empty());
        }
    }
    s
}

/// `v` tenths written with one decimal, as `format!("{:.1}", v as f64 / 10.0)` writes it.
pub fn one_decimal(v: u128) -> (s: String)
    ensures
        s@ == fixed_point_text(v as nat, 1),
{
    proof {
        reveal_with_fuel(crate::decimal::pow10, 2);
        reveal_strlit(".");
    }
    let whole = decimal_string(v / 10);
    let rem = v % 10;
    let frac = decimal_string(rem);
    let mut s = whole.concat(".");
    s.append(frac.as_str());
    proof {
        assert(frac@.len() == 1);
        assert(Seq::new((1 - frac@.len()) as nat, |i: int| '0') =~= Seq::<char>::empty());
    }
    s
}

/// Signed one-decimal text of a percentage held in `PCT` units (ten-thousandths of a
/// percent), rounded half away from zero: a `-` sign for negative values.
pub open spec fn signed_pct_text(v: int) -> Seq<char> {
    let mag = if v < 0 { -v } else { v };
    let tenths = ((mag + 500) / 1000) as nat;
    if v < 0 {
        "-"@ + fixed_point_text(tenths, 1)
    } else {
        fixed_point_text(tenths, 1)
    }
}

/// Signed three-decimal text of a percentage held in `PCT` units, rounded half away from
/// zero, as `format!("{:.3}", ..)` writes it: a `-` sign for every negative value.
pub open spec fn signed_milli_text(v: int) -> Seq<char> {
    let mag = if v < 0 { -v } else { v };
    let milli = ((mag + 5) / 10) as nat;
    if v < 0 {
        "-"@ + fixed_point_text(milli, 3)
    } else {
        fixed_point_text(milli, 3)
    }
}

/// Text of a percentage in `PCT` units with three decimals.
pub fn signed_three_decimals(v: i64) -> (s: String)
    ensures
        s@ == signed_milli_text(v as int),
{
    let mag: u128 = if v < 0 { (-(v as i128)) as u128 } else { v as u128 };
    let milli = ((mag + 5) / 10) as u64;
    let body = three_decimals(milli);
    if v < 0 {
        proof {
            reveal_strlit("-");
        }
        String::from_str("-").concat(body.as_str())
    } else {
        body
    }
}

/// Text of a percentage in `PCT` units with one decimal.
pub fn signed_pct_string(v: i128) -> (s: String)
    requires
        -1_000_000_000_000_000_000_000_000 <= v <= 1_000_000_000_000_000_000_000_000,
    ensures
        s@ == signed_pct_text(v as int),
{
    let mag: u128 = if v < 0 { (-v) as u128 } else { v as u128 };
    let tenths = (mag + 500) / 1000;
    let body = one_decimal(tenths);
    if v < 0 {
        proof {
            reveal_strlit("-");
        }
        String::from_str("-").concat(body.as_str())
    } else {
        body
    }
}

} // verus!
