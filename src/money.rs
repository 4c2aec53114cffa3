//! Decimal amounts as they appear in the documents: parsed from decimal text,
//! computed exactly in integers, rendered with two decimal places.
use vstd::prelude::*;
use vstd::arithmetic::div_mod::{lemma_fundamental_div_mod, lemma_mod_bound, lemma_div_pos_is_pos};

verus! {

/// The largest number of digits in an amount.
pub const MAX_DIGITS: u64 = 18;

pub open spec fn pow10(n: nat) -> nat
    decreases n,
{
    if n == 0 {
        1
    } else {
        10 * pow10((n - 1) as nat)
    }
}

pub open spec fn is_digit(c: char) -> bool {
    '0' <= c && c <= '9'
}

pub open spec fn digit_value(c: char) -> nat {
    (c as int - '0' as int) as nat
}

pub open spec fn digit_char(d: nat) -> char {
    ((d + '0' as nat) as u8) as char
}

/// The state of reading decimal text from the left.
pub struct DecimalScan {
    pub ok: bool,
    pub mantissa: nat,
    pub digits: nat,
    pub scale: nat,
    pub dot: bool,
}

/// Reads digits with at most one decimal point and at most [`MAX_DIGITS`]
/// digits in all.
pub open spec fn scan_decimal(s: Seq<char>) -> DecimalScan
    decreases s.len(),
{
    if s.len() == 0 {
        DecimalScan { ok: true, mantissa: 0, digits: 0, scale: 0, dot: false }
    } else {
        let st = scan_decimal(s.drop_last());
        let c = s.last();
        if !st.ok {
            st
        } else if is_digit(c) && st.digits < MAX_DIGITS {
            DecimalScan {
                mantissa: st.mantissa * 10 + digit_value(c),
                digits: st.digits + 1,
                scale: if st.dot {
                    st.scale + 1
                } else {
                    st.scale
                },
                ..st
            }
        } else if c == '.' && !st.dot {
            DecimalScan { dot: true, ..st }
        } else {
            DecimalScan { ok: false, ..st }
        }
    }
}

/// The value of decimal text as `(mantissa, scale)`, standing for
/// `mantissa / 10^scale`; `None` where the text is no such number.
pub open spec fn decimal_of(s: Seq<char>) -> Option<(nat, nat)> {
    let st = scan_decimal(s);
    if st.ok && st.digits > 0 {
        Some((st.mantissa, st.scale))
    } else {
        None
    }
}

#[verifier::spinoff_prover]
pub proof fn lemma_scan_bounds(s: Seq<char>)
    ensures
        scan_decimal(s).digits <= MAX_DIGITS,
        scan_decimal(s).mantissa < pow10(scan_decimal(s).digits),
        scan_decimal(s).scale <= scan_decimal(s).digits,
        !scan_decimal(s).dot ==> scan_decimal(s).scale == 0,
    decreases s.len(),
{
    if s.len() > 0 {
        lemma_scan_bounds(s.drop_last());
    }
}

/// `a / b` rounded to the nearest integer, halves up.
pub open spec fn round_div(a: nat, b: nat) -> nat {
    (2 * a + b) / (2 * b)
}

/// An amount in cents, rounded.
pub open spec fn cents_of(d: (nat, nat)) -> nat {
    round_div(d.0 * 100, pow10(d.1))
}

/// The tax on an amount at a rate, in cents, rounded.
pub open spec fn tax_cents(amount: (nat, nat), rate: (nat, nat)) -> nat {
    round_div(amount.0 * rate.0 * 100, pow10(amount.1 + rate.1))
}

/// The amount less the rounded tax, in cents, rounded.
pub open spec fn net_cents(amount: (nat, nat), rate: (nat, nat)) -> int {
    let n = amount.0 * 100 - tax_cents(amount, rate) * pow10(amount.1);
    if n >= 0 {
        round_div(n as nat, pow10(amount.1)) as int
    } else {
        -(round_div((-n) as nat, pow10(amount.1)) as int)
    }
}

/// The decimal digits of a number.
pub open spec fn nat_text(n: nat) -> Seq<char>
    decreases n,
{
    if n < 10 {
        seq![digit_char(n)]
    } else {
        nat_text(n / 10).push(digit_char(n % 10))
    }
}

/// An amount in cents as text with two decimal places.
pub open spec fn cents_text(c: int) -> Seq<char> {
    let a = if c < 0 {
        -c
    } else {
        c
    };
    (if c < 0 {
        seq!['-']
    } else {
        Seq::empty()
    }) + nat_text((a / 100) as nat) + seq!['.', digit_char(((a % 100) / 10) as nat), digit_char(
        (a % 10) as nat,
    )]
}

#[verifier::spinoff_prover]
proof fn lemma_pow10_positive(n: nat)
    ensures
        pow10(n) >= 1,
    decreases n,
{
    if n > 0 {
        lemma_pow10_positive((n - 1) as nat);
    }
}

#[verifier::spinoff_prover]
proof fn lemma_pow10_monotone(a: nat, b: nat)
    requires
        a <= b,
    ensures
        pow10(a) <= pow10(b),
    decreases b,
{
    if a < b {
        lemma_pow10_monotone(a, (b - 1) as nat);
        lemma_pow10_positive((b - 1) as nat);
    }
}

#[verifier::spinoff_prover]
proof fn lemma_pow10_add(a: nat, b: nat)
    ensures
        pow10(a + b) == pow10(a) * pow10(b),
    decreases b,
{
    if b > 0 {
        let c = (b - 1) as nat;
        lemma_pow10_add(a, c);
        let x = pow10(a);
        let y = pow10(c);
        assert(pow10(a + b) == 10 * pow10(a + c));
        assert(pow10(b) == 10 * y);
        assert(x * (10 * y) == 10 * (x * y)) by (nonlinear_arith);
    } else {
        assert(pow10(a) * 1 == pow10(a));
    }
}

#[verifier::spinoff_prover]
proof fn lemma_pow10_values()
    ensures
        pow10(18) == 1_000_000_000_000_000_000,
        pow10(36) == 1_000_000_000_000_000_000_000_000_000_000_000_000,
{
    reveal_with_fuel(pow10, 19);
    lemma_pow10_add(18, 18);
}

/// Parses decimal text: digits with an optional point (`5.`, `.5`, `5.25`).
pub fn parse_decimal(s: &str) -> (r: Option<(u64, u32)>)
    ensures
        r is Some <==> decimal_of(s@) is Some,
        r matches Some(d) ==> decimal_of(s@) == Some((d.0 as nat, d.1 as nat)),
{
    let n = s.unicode_len();
    let mut i: usize = 0;
    let mut ok = true;
    let mut mantissa: u64 = 0;
    let mut digits: u64 = 0;
    let mut scale: u64 = 0;
    let mut dot = false;
    proof {
        lemma_pow10_values();
    }
    while i < n
        invariant
            n == s@.len(),
            i <= n,
            scan_decimal(s@.subrange(0, i as int)) == (DecimalScan {
                ok,
                mantissa: mantissa as nat,
                digits: digits as nat,
                scale: scale as nat,
                dot,
            }),
            pow10(18) == 1_000_000_000_000_000_000,
        decreases n - i,
    {
        let c = s.get_char(i);
        proof {
            lemma_scan_bounds(s@.subrange(0, i as int));
            lemma_pow10_monotone(digits as nat, 18);
            assert(s@.subrange(0, i + 1).drop_last() =~= s@.subrange(0, i as int));
        }
        if !ok {
        } else if '0' <= c && c <= '9' && digits < MAX_DIGITS {
            proof {
                assert(mantissa * 10 + 9 < 10 * pow10(digits as nat));
                lemma_pow10_monotone((digits + 1) as nat, 18);
            }
            mantissa = mantissa * 10 + (c as u64 - '0' as u64);
            digits = digits + 1;
            if dot {
                scale = scale + 1;
            }
        } else if c == '.' && !dot {
            dot = true;
        } else {
            ok = false;
        }
        i += 1;
    }
    proof {
        assert(s@.subrange(0, n as int) =~= s@);
        lemma_scan_bounds(s@);
    }
    if ok && digits > 0 {
        Some((mantissa, scale as u32))
    } else {
        None
    }
}

fn pow10_exec(n: u32) -> (r: u128)
    requires
        n <= 36,
    ensures
        r == pow10(n as nat),
{
    let mut r: u128 = 1;
    let mut i: u32 = 0;
    while i < n
        invariant
            i <= n <= 36,
            r == pow10(i as nat),
        decreases n - i,
    {
        proof {
            lemma_pow10_monotone((i + 1) as nat, 36);
            lemma_pow10_values();
        }
        r = r * 10;
        i += 1;
    }
    r
}

fn round_div_exec(a: u128, b: u128) -> (r: u128)
    requires
        b >= 1,
        a <= 150_000_000_000_000_000_000_000_000_000_000_000_000,
        b <= 1_000_000_000_000_000_000_000_000_000_000_000_000,
    ensures
        r == round_div(a as nat, b as nat),
        r * b <= a + b,
{
    let r = (2 * a + b) / (2 * b);
    proof {
        let x = (2 * a + b) as int;
        let d = (2 * b) as int;
        lemma_fundamental_div_mod(x, d);
        lemma_mod_bound(x, d);
        assert(d * (x / d) <= x);
        assert((r as int) * (b as int) <= (a as int) + (b as int)) by (nonlinear_arith)
            requires
                2 * (b as int) * (r as int) <= 2 * (a as int) + (b as int),
                b >= 1,
        {
        }
    }
    r
}

fn digit_str(d: u128) -> (r: &'static str)
    requires
        d < 10,
    ensures
        r@ == seq![digit_char(d as nat)],
{
    proof {
        reveal_strlit("0");
        reveal_strlit("1");
        reveal_strlit("2");
        reveal_strlit("3");
        reveal_strlit("4");
        reveal_strlit("5");
        reveal_strlit("6");
        reveal_strlit("7");
        reveal_strlit("8");
        reveal_strlit("9");
    }
    if d == 0 {
        "0"
    } else if d == 1 {
        "1"
    } else if d == 2 {
        "2"
    } else if d == 3 {
        "3"
    } else if d == 4 {
        "4"
    } else if d == 5 {
        "5"
    } else if d == 6 {
        "6"
    } else if d == 7 {
        "7"
    } else if d == 8 {
        "8"
    } else {
        "9"
    }
}

/// Appends the decimal digits of `n`.
pub fn append_nat(out: &mut String, n: u128)
    ensures
        final(out)@ == old(out)@ + nat_text(n as nat),
    decreases n,
{
    if n >= 10 {
        append_nat(out, n / 10);
    }
    out.append(digit_str(n % 10));
    proof {
        if n >= 10 {
            assert(final(out)@ =~= old(out)@ + nat_text(n as nat));
        } else {
            assert(final(out)@ =~= old(out)@ + nat_text(n as nat));
        }
    }
}

/// Renders an amount in cents, with its sign, as text with two decimals.
fn cents_to_string(negative: bool, c: u128) -> (r: String)
    ensures
        r@ == cents_text(
            if negative {
                -(c as int)
            } else {
                c as int
            },
        ),
{
    let mut out = String::new();
    if negative && c > 0 {
        out.append("-");
    }
    append_nat(&mut out, c / 100);
    out.append(".");
    out.append(digit_str((c % 100) / 10));
    out.append(digit_str(c % 10));
    proof {
        reveal_strlit("-");
        reveal_strlit(".");
        let v = if negative {
            -(c as int)
        } else {
            c as int
        };
        assert(out@ =~= cents_text(v));
    }
    out
}

/// The rendered amounts of a service: its value, the tax withheld where a rate
/// is given, and the net value.
pub fn service_amounts(amount: &str, rate: &Option<String>) -> (r: (String, Option<String>, String))
    requires
        decimal_of(amount@) is Some,
        rate matches Some(t) ==> decimal_of(t@) is Some,
    ensures
        r.0@ == cents_text(cents_of(decimal_of(amount@)->0) as int),
        rate is None ==> r.1 is None && r.2@ == r.0@,
        rate matches Some(t) ==> r.1 matches Some(tax) && tax@ == cents_text(
            tax_cents(decimal_of(amount@)->0, decimal_of(t@)->0) as int,
        ) && r.2@ == cents_text(net_cents(decimal_of(amount@)->0, decimal_of(t@)->0)),
{
    let (gm, gs) = match parse_decimal(amount) {
        Some(d) => d,
        None => (0, 0),
    };
    proof {
        lemma_scan_bounds(amount@);
        lemma_pow10_values();
        lemma_pow10_monotone(scan_decimal(amount@).digits, 18);
        lemma_pow10_monotone(gs as nat, 18);
        lemma_pow10_positive(gs as nat);
    }
    let p_g = pow10_exec(gs);
    let gross = round_div_exec(gm as u128 * 100, p_g);
    let gross_text = cents_to_string(false, gross);
    match rate {
        None => {
            let net_text = cents_to_string(false, gross);
            (gross_text, None, net_text)
        },
        Some(t) => {
            let (rm, rs) = match parse_decimal(t.as_str()) {
                Some(d) => d,
                None => (0, 0),
            };
            proof {
                lemma_scan_bounds(t@);
                lemma_pow10_monotone(scan_decimal(t@).digits, 18);
                lemma_pow10_monotone(rs as nat, 18);
                lemma_pow10_monotone((gs + rs) as nat, 36);
                lemma_pow10_add(gs as nat, rs as nat);
                lemma_pow10_positive(rs as nat);
                lemma_pow10_positive((gs + rs) as nat);
                assert((gm as int) * (rm as int) * 100 <= 100_000_000_000_000_000_000_000_000_000_000_000_000)
                    by (nonlinear_arith)
                    requires
                        gm < 1_000_000_000_000_000_000u64,
                        rm < 1_000_000_000_000_000_000u64,
                {
                }
            }
            let p_t = pow10_exec(gs + rs);
            let a = gm as u128 * rm as u128 * 100;
            let tax = round_div_exec(a, p_t);
            let tax_text = cents_to_string(false, tax);
            proof {
                assert((tax as int) * (p_g as int) <= (tax as int) * (p_g as int) * (pow10(
                    rs as nat,
                ) as int)) by (nonlinear_arith)
                    requires
                        pow10(rs as nat) >= 1,
                        tax >= 0,
                        p_g >= 1,
                {
                }
                assert((tax as int) * (p_g as int) * (pow10(rs as nat) as int) == (tax as int) * (
                p_t as int)) by (nonlinear_arith)
                    requires
                        p_t == (p_g as int) * (pow10(rs as nat) as int),
                {
                }
                lemma_pow10_positive(rs as nat);
            }
            let kept = tax * p_g;
            let whole = gm as u128 * 100;
            let net_text = if whole >= kept {
                let net = round_div_exec(whole - kept, p_g);
                cents_to_string(false, net)
            } else {
                let net = round_div_exec(kept - whole, p_g);
                cents_to_string(true, net)
            };
            (gross_text, Some(tax_text), net_text)
        },
    }
}

} // verus!
