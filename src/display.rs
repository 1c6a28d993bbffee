use vstd::prelude::*;
use vstd::string::StringExecFns;
use crate::date::digit_char;
use crate::net::{Process, pow1024, spec_unit_of, unit_index, unit_symbol};

verus! {

/// The decimal digits of `n`, most significant first.
pub open spec fn decimal(n: nat) -> Seq<char>
    decreases n,
{
    if n < 10 {
        seq![digit_char(n as int)]
    } else {
        decimal(n / 10) + seq![digit_char((n % 10) as int)]
    }
}

pub(crate) fn digit_str(d: u64) -> (r: &'static str)
    requires
        d < 10,
    ensures
        r@ == seq![digit_char(d as int)],
{
    proof {
        reveal_strlit("0");
        reveal_strlit("1");
        reveal_strlit("2");
        reveal_strlit("3");
        reveal_strlit("4");
        reveal_strlit("5");
        reveal_strlit("6");
        reveal_strlit("7");
        reveal_strlit("8");
        reveal_strlit("9");
    }
    let r = match d {
        0 => "0",
        1 => "1",
        2 => "2",
        3 => "3",
        4 => "4",
        5 => "5",
        6 => "6",
        7 => "7",
        8 => "8",
        _ => "9",
    };
    assert(r@ =~= seq![digit_char(d as int)]);
    r
}

/// Appends the decimal digits of `n`.
pub fn push_decimal(s: &mut String, n: u64)
    ensures
        final(s)@ == old(s)@ + decimal(n as nat),
    decreases n,
{
    if n >= 10 {
        push_decimal(s, n / 10);
    }
    s.append(digit_str(n % 10));
    proof {
        assert(final(s)@ =~= old(s)@ + decimal(n as nat));
    }
}

/// `x / d` rounded to the nearest integer, ties to the even one.
pub open spec fn round_div(x: int, d: int) -> int {
    let q = x / d;
    let r = x % d;
    if 2 * r > d || (2 * r == d && q % 2 == 1) {
        q + 1
    } else {
        q
    }
}

/// A byte count in hundredths of its unit: `100 * bytes / 1024^index`,
/// rounded to the nearest, ties to even.
pub open spec fn amount_hundredths(bytes: i64) -> int {
    round_div(100 * bytes, pow1024(unit_index(spec_unit_of(bytes))))
}

/// A number of hundredths as "I.FF".
pub open spec fn hundredths_text(h: int) -> Seq<char> {
    let a = if h < 0 {
        -h
    } else {
        h
    };
    (if h < 0 {
        seq!['-']
    } else {
        Seq::empty()
    }) + decimal((a / 100) as nat) + seq!['.', digit_char((a % 100) / 10), digit_char(a % 10)]
}

/// A byte count with two decimals in its unit, such as "1.50KB".
pub open spec fn amount_text(bytes: i64) -> Seq<char> {
    hundredths_text(amount_hundredths(bytes)) + unit_symbol(spec_unit_of(bytes))
}

/// Appends `bytes` with two decimals in its unit, such as "1.50KB".
pub fn push_amount(s: &mut String, bytes: i64)
    ensures
        final(s)@ == old(s)@ + amount_text(bytes),
{
    let (_, _, unit) = crate::net::group_bytes(bytes);
    let k = unit.index();
    proof {
        crate::net::lemma_pow1024_values();
    }
    let mut d: i128 = 1;
    let mut i: u32 = 0;
    while i < k
        invariant
            0 <= i <= k,
            k == unit_index(unit),
            unit == spec_unit_of(bytes),
            k <= 4,
            d == pow1024(i as nat),
            pow1024(0) == 1,
            pow1024(1) == 1024,
            pow1024(2) == 1024 * 1024,
            pow1024(3) == 1024 * 1024 * 1024,
            pow1024(4) == 1024 * 1024 * 1024 * 1024,
        decreases k - i,
    {
        d = d * 1024;
        i = i + 1;
    }
    assert(d == pow1024(unit_index(spec_unit_of(bytes))));
    assert(1 <= d <= 1024 * 1024 * 1024 * 1024);
    let h: i128 = if bytes < 0 {
        proof {
            let x = 100 * bytes as int;
            assert(x / 1 == x && x % 1 == 0) by (nonlinear_arith);
        }
        100 * bytes as i128
    } else {
        let du = d as u128;
        let x: u128 = 100 * bytes as u128;
        let q = x / du;
        let r = x % du;
        proof {
            assert(q <= x) by (nonlinear_arith)
                requires
                    du >= 1,
                    q == x / du,
            ;
        }
        if 2 * r > du || (2 * r == du && q % 2 == 1) {
            (q + 1) as i128
        } else {
            q as i128
        }
    };
    assert(h == amount_hundredths(bytes));
    let a: i128 = if h < 0 {
        -h
    } else {
        h
    };
    if h < 0 {
        proof {
            reveal_strlit("-");
        }
        s.append("-");
    }
    let ghost mid = s@;
    push_decimal(s, (a / 100) as u64);
    proof {
        reveal_strlit(".");
    }
    s.append(".");
    s.append(digit_str(((a % 100) / 10) as u64));
    s.append(digit_str((a % 10) as u64));
    s.append(unit.symbol());
    proof {
        assert(final(s)@ =~= old(s)@ + amount_text(bytes));
    }
}

/// `bytes` with two decimals in its unit, such as "1.50KB".
pub fn amount_str(bytes: i64) -> (r: String)
    ensures
        r@ == amount_text(bytes),
{
    let mut s = String::new();
    push_amount(&mut s, bytes);
    proof {
        assert(s@ =~= amount_text(bytes));
    }
    s
}

/// "NAME (PID)".
pub open spec fn overview_text(name: Seq<char>, pid: u32) -> Seq<char> {
    name + " ("@ + decimal(pid as nat) + ")"@
}

/// " RX:AMOUNT TX:AMOUNT".
pub open spec fn data_amount_text(rx: i64, tx: i64) -> Seq<char> {
    " RX:"@ + amount_text(rx) + " TX:"@ + amount_text(tx)
}

impl Process {
    /// The process's name and pid, such as "curl (1234)".
    pub fn overview_str(&self) -> (r: String)
        ensures
            r@ == overview_text(self.name@, self.pid),
    {
        let mut s = self.name.clone();
        proof {
            reveal_strlit(" (");
            reveal_strlit(")");
        }
        s.append(" (");
        push_decimal(&mut s, self.pid as u64);
        s.append(")");
        proof {
            assert(s@ =~= overview_text(self.name@, self.pid));
        }
        s
    }

    /// The process's counters, such as " RX:55.46KB TX:554.58KB".
    pub fn data_amount_str(&self) -> (r: String)
        ensures
            r@ == data_amount_text(self.rx, self.tx),
    {
        let mut s = String::new();
        proof {
            reveal_strlit(" RX:");
            reveal_strlit(" TX:");
        }
        s.append(" RX:");
        push_amount(&mut s, self.rx);
        s.append(" TX:");
        push_amount(&mut s, self.tx);
        proof {
            assert(s@ =~= data_amount_text(self.rx, self.tx));
        }
        s
    }

    /// The process line: its name and pid, then its counters.
    pub fn to_string(&self) -> (r: String)
        ensures
            r@ == overview_text(self.name@, self.pid) + data_amount_text(self.rx, self.tx),
    {
        let mut s = self.overview_str();
        let d = self.data_amount_str();
        s.append(d.as_str());
        s
    }
}

} // verus!
