use vstd::prelude::*;
use vstd::string::StringExecFns;
use chrono::Datelike;

verus! {

/// A calendar date as the store partitions by it: `int_form` packs it as
/// YYYYMMDD, and `str_form` is its display form "MM/DD".
#[derive(Clone, Debug)]
pub struct Date {
    pub int_form: u32,
    pub str_form: String,
}

/// `y`, `m`, `d` packed as the integer YYYYMMDD.
pub open spec fn packed(y: int, m: int, d: int) -> int {
    y * 10000 + m * 100 + d
}

pub open spec fn month_of(date: u32) -> int {
    (date as int / 100) % 100
}

pub open spec fn day_of(date: u32) -> int {
    date as int % 100
}

pub open spec fn digit_char(d: int) -> char {
    ('0' as int + d) as char
}

/// The two-digit decimal form of `n % 100`.
pub open spec fn two_digits(n: int) -> Seq<char> {
    seq![digit_char((n % 100) / 10), digit_char(n % 10)]
}

/// "MM/DD" for a packed YYYYMMDD date.
pub open spec fn date_label(date: u32) -> Seq<char> {
    two_digits(month_of(date)) + seq!['/'] + two_digits(day_of(date))
}

/// Packs a date as YYYYMMDD; `None` for a year before 0 or one whose
/// packed form does not fit in a `u32`.
pub fn pack_date(y: i32, m: u32, d: u32) -> (r: Option<u32>)
    requires
        1 <= m <= 12,
        1 <= d <= 31,
    ensures
        r is Some <==> 0 <= y && packed(y as int, m as int, d as int) <= u32::MAX,
        r is Some ==> r->0 == packed(y as int, m as int, d as int),
{
    if y < 0 || y > 429_496 {
        return None;
    }
    let v: u64 = y as u64 * 10000 + m as u64 * 100 + d as u64;
    if v > 0xFFFF_FFFF {
        None
    } else {
        Some(v as u32)
    }
}

fn push_two_digits(s: &mut String, n: u32)
    ensures
        final(s)@ == old(s)@ + two_digits(n as int),
{
    let n = n % 100;
    s.append(crate::display::digit_str((n / 10) as u64));
    s.append(crate::display::digit_str((n % 10) as u64));
    proof {
        assert(final(s)@ =~= old(s)@ + two_digits(n as int));
    }
}

impl Date {
    /// The date packed as `date` (YYYYMMDD), with its label "MM/DD".
    pub fn from_packed(date: u32) -> (r: Date)
        ensures
            r.int_form == date,
            r.str_form@ == date_label(date),
    {
        let mut s = String::new();
        push_two_digits(&mut s, (date / 100) % 100);
        proof {
            reveal_strlit("/");
        }
        s.append("/");
        push_two_digits(&mut s, date % 100);
        proof {
            assert(s@ =~= date_label(date));
        }
        Date { int_form: date, str_form: s }
    }

    /// The labels of `dates`, in order.
    pub fn get_dates_str(dates: &Vec<Date>) -> (r: Vec<String>)
        ensures
            r@.len() == dates@.len(),
            forall|i: int| 0 <= i < r@.len() ==> (#[trigger] r@[i])@ == dates@[i].str_form@,
    {
        let mut out: Vec<String> = Vec::new();
        let mut i: usize = 0;
        while i < dates.len()
            invariant
                0 <= i <= dates@.len(),
                out@.len() == i,
                forall|k: int| 0 <= k < i ==> (#[trigger] out@[k])@ == dates@[k].str_form@,
            decreases dates@.len() - i,
        {
            out.push(dates[i].str_form.clone());
            i = i + 1;
        }
        out
    }
}

/// Relies on chrono's `Utc::now` for the current UTC date, and on
/// `Datelike::month` (1 to 12) and `Datelike::day` (1 to 31) for its
/// fields.
#[verifier::external_body]
fn utc_today() -> (r: (i32, u32, u32))
    ensures
        1 <= r.1 <= 12,
        1 <= r.2 <= 31,
{
    let now = chrono::Utc::now();
    (now.year(), now.month(), now.day())
}

/// Today's UTC date packed as YYYYMMDD, or `None` when the clock gives a
/// year that cannot be packed.
pub fn current_date() -> (r: Option<u32>)
    ensures
        r is Some ==> 1 <= month_of(r->0) <= 12 && 1 <= day_of(r->0) <= 31,
{
    let (y, m, d) = utc_today();
    let r = pack_date(y, m, d);
    proof {
        if r is Some {
            let v = r->0 as int;
            assert(v == y as int * 10000 + m as int * 100 + d as int);
            assert((v / 100) % 100 == m as int && v % 100 == d as int) by (nonlinear_arith)
                requires
                    v == y as int * 10000 + m as int * 100 + d as int,
                    y >= 0,
                    1 <= m <= 12,
                    1 <= d <= 31,
            ;
        }
    }
    r
}

} // verus!
