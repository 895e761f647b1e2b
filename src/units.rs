use vstd::prelude::*;

verus! {

/// Number of binary unit suffixes available, from bytes up to ZiB.
pub const UNIT_COUNT: usize = 8;

/// `1024^i`.
pub open spec fn pow1024(i: nat) -> nat
    decreases i,
{
    if i == 0 {
        1
    } else {
        1024 * pow1024((i - 1) as nat)
    }
}

/// How many times `n` can be divided by 1024 while staying at least 1024,
/// with no upper cap.
pub open spec fn log1024(n: nat) -> nat
    decreases n,
{
    if n < 1024 {
        0
    } else {
        1 + log1024(n / 1024)
    }
}

/// The index of the unit used to print `n`: the largest `i` with
/// `1024^i <= n`, capped at the largest suffix.
pub open spec fn unit_index(n: nat) -> nat {
    if log1024(n) < UNIT_COUNT - 1 {
        log1024(n)
    } else {
        (UNIT_COUNT - 1) as nat
    }
}

/// The suffix printed for unit `i`.
pub open spec fn suffix(i: nat) -> Seq<char> {
    if i == 0 {
        "bytes"@
    } else if i == 1 {
        "KiB"@
    } else if i == 2 {
        "MiB"@
    } else if i == 3 {
        "GiB"@
    } else if i == 4 {
        "TiB"@
    } else if i == 5 {
        "PiB"@
    } else if i == 6 {
        "EiB"@
    } else {
        "ZiB"@
    }
}

pub open spec fn digit_char(d: nat) -> char {
    if d == 0 {
        '0'
    } else if d == 1 {
        '1'
    } else if d == 2 {
        '2'
    } else if d == 3 {
        '3'
    } else if d == 4 {
        '4'
    } else if d == 5 {
        '5'
    } else if d == 6 {
        '6'
    } else if d == 7 {
        '7'
    } else if d == 8 {
        '8'
    } else {
        '9'
    }
}

/// Decimal digits of `n`, without leading zeros.
pub open spec fn decimal(n: nat) -> Seq<char>
    decreases n,
{
    if n < 10 {
        seq![digit_char(n)]
    } else {
        decimal(n / 10) + seq![digit_char(n % 10)]
    }
}

/// The remainder of the last division by 1024 when `n` is scaled to unit `i`
/// (`i >= 1`).
pub open spec fn remainder(n: nat, i: nat) -> nat {
    (n / pow1024((i - 1) as nat)) % 1024
}

/// `10 * r / 1024` rounded to the nearest integer, ties to even: the tenths
/// digit that one-decimal formatting of `r / 1024` produces.
pub open spec fn tenths(r: nat) -> nat {
    let q = r * 10 / 1024;
    let m = r * 10 % 1024;
    if m > 512 || (m == 512 && q % 2 == 1) {
        q + 1
    } else {
        q
    }
}

/// The text for `n` bytes: an integer count of bytes below 1 KiB, otherwise
/// the value in its unit with exactly one decimal digit.
pub open spec fn humanized(n: nat) -> Seq<char> {
    let i = unit_index(n);
    if i == 0 {
        decimal(n) + " "@ + suffix(0)
    } else {
        let whole = n / pow1024(i);
        let t = tenths(remainder(n, i));
        let (w, d) = if t == 10 {
            (whole + 1, 0nat)
        } else {
            (whole, t)
        };
        decimal(w) + "."@ + seq![digit_char(d)] + " "@ + suffix(i)
    }
}

fn digit_text(d: u64) -> (r: &'static str)
    requires
        d < 10,
    ensures
        r@ == seq![digit_char(d as nat)],
{
    proof {
        reveal_strlit("0");
        reveal_strlit("1");
        reveal_strlit("2");
        reveal_strlit("3");
        reveal_strlit("4");
        reveal_strlit("5");
        reveal_strlit("6");
        reveal_strlit("7");
        reveal_strlit("8");
        reveal_strlit("9");
    }
    if d == 0 {
        "0"
    } else if d == 1 {
        "1"
    } else if d == 2 {
        "2"
    } else if d == 3 {
        "3"
    } else if d == 4 {
        "4"
    } else if d == 5 {
        "5"
    } else if d == 6 {
        "6"
    } else if d == 7 {
        "7"
    } else if d == 8 {
        "8"
    } else {
        "9"
    }
}

fn push_decimal(s: &mut String, n: u64)
    ensures
        final(s)@ == old(s)@ + decimal(n as nat),
    decreases n,
{
    if n >= 10 {
        push_decimal(s, n / 10);
        s.append(digit_text(n % 10));
        proof {
            assert(final(s)@ =~= old(s)@ + decimal(n as nat));
        }
    } else {
        s.append(digit_text(n));
    }
}

fn suffix_text(i: usize) -> (r: &'static str)
    requires
        i < UNIT_COUNT,
    ensures
        r@ == suffix(i as nat),
{
    if i == 0 {
        "bytes"
    } else if i == 1 {
        "KiB"
    } else if i == 2 {
        "MiB"
    } else if i == 3 {
        "GiB"
    } else if i == 4 {
        "TiB"
    } else if i == 5 {
        "PiB"
    } else if i == 6 {
        "EiB"
    } else {
        "ZiB"
    }
}

proof fn lemma_pow1024_positive(i: nat)
    ensures
        pow1024(i) >= 1,
    decreases i,
{
    if i > 0 {
        lemma_pow1024_positive((i - 1) as nat);
    }
}

/// Dividing by 1024 `i` times in a row is dividing by `1024^i`.
proof fn lemma_div_step(n: nat, i: nat)
    ensures
        n / pow1024(i) / 1024 == n / pow1024(i + 1),
{
    lemma_pow1024_positive(i);
    vstd::arithmetic::div_mod::lemma_div_denominator(n as int, pow1024(i) as int, 1024);
    assert(pow1024(i) * 1024 == pow1024(i + 1)) by (nonlinear_arith)
        requires
            pow1024(i + 1) == 1024 * pow1024(i),
    ;
}

/// Formats a byte count with binary units: `"0 bytes"`, `"1.5 KiB"`,
/// `"1.0 GiB"`.
pub fn humanize(size: u64) -> (r: String)
    ensures
        r@ == humanized(size as nat),
{
    let mut s: u64 = size;
    let mut f: u64 = 0;
    let mut i: usize = 0;
    assert(pow1024(0) == 1);
    while s >= 1024 && i < UNIT_COUNT - 1
        invariant
            i < UNIT_COUNT,
            s as nat == size as nat / pow1024(i as nat),
            i > 0 ==> f as nat == remainder(size as nat, i as nat),
            f < 1024,
            i > 0 ==> s <= u64::MAX / 1024,
            log1024(size as nat) == i + log1024(s as nat),
        decreases s,
    {
        proof {
            lemma_div_step(size as nat, i as nat);
        }
        f = s % 1024;
        s = s / 1024;
        i = i + 1;
    }
    proof {
        if i < UNIT_COUNT - 1 {
            assert(log1024(s as nat) == 0);
        }
        assert(unit_index(size as nat) == i);
    }
    let mut out = String::new();
    if i == 0 {
        push_decimal(&mut out, s);
        out.append(" ");
        out.append(suffix_text(0));
        proof {
            reveal_strlit(" ");
            assert(out@ =~= humanized(size as nat));
        }
    } else {
        let q: u64 = f * 10 / 1024;
        let m: u64 = f * 10 % 1024;
        let t: u64 = if m > 512 || (m == 512 && q % 2 == 1) {
            q + 1
        } else {
            q
        };
        assert(t == tenths(f as nat));
        assert(t <= 10) by (nonlinear_arith)
            requires
                q == f * 10 / 1024,
                f < 1024,
                t <= q + 1,
        ;
        let (w, d) = if t == 10 {
            (s + 1, 0)
        } else {
            (s, t)
        };
        push_decimal(&mut out, w);
        out.append(".");
        out.append(digit_text(d));
        out.append(" ");
        out.append(suffix_text(i));
        proof {
            reveal_strlit(" ");
            reveal_strlit(".");
            assert(out@ =~= humanized(size as nat));
        }
    }
    out
}

} // verus!
