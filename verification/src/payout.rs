//! Dividend payout records and their aggregations.
//!
//! A payout record arrives with its amounts as decimal text; the parser
//! here reads such text into fixed-point micro-units, the formatter
//! renders micro-units back as two-decimal text (cents rounded half-up),
//! and the aggregations sum payouts overall and per ticker.

use vstd::prelude::*;

use crate::dates::{spec_digit, spec_is_digit, Date};
use crate::num::SCALE;

verus! {

use vstd::string::StrSliceExecFns;
use vstd::string::StringExecFns;

/// One dividend payout record, fields as exported: amounts are decimal
/// text in the account currency.
#[derive(Debug, Clone, PartialEq)]
pub struct DividendRecord {
    /// Payment date text.
    pub date: String,
    /// Instrument ISIN.
    pub isin: String,
    /// Broker ticker.
    pub ticker: String,
    /// Instrument name.
    pub name: String,
    /// Number of shares, decimal text.
    pub quantity: String,
    /// Price per share, decimal text.
    pub price: String,
    /// Currency code.
    pub currency: String,
    /// Total payout, decimal text.
    pub total: String,
    /// Withheld tax, decimal text.
    pub withholding_tax: String,
}

/// Per-ticker payout summary, amounts as two-decimal text.
#[derive(Debug, Clone, PartialEq)]
pub struct TickerSummary {
    /// Broker ticker.
    pub ticker: String,
    /// Summed payouts.
    pub total: String,
    /// Summed withheld tax.
    pub wht: String,
}

/// Value of a digit string read as a decimal numeral (most significant
/// digit first).
pub open spec fn spec_numeral_value(s: Seq<char>) -> int
    decreases s.len(),
{
    if s.len() == 0 {
        0
    } else {
        spec_numeral_value(s.drop_last()) * 10 + spec_digit(s.last())
    }
}

/// Every character is an ASCII digit.
pub open spec fn spec_all_digits(s: Seq<char>) -> bool {
    forall|i: int| 0 <= i < s.len() ==> spec_is_digit(#[trigger] s[i])
}

/// Ten to the `n`th, for small `n`.
pub open spec fn spec_pow10(n: int) -> int
    decreases n,
{
    if n <= 0 {
        1
    } else {
        10 * spec_pow10(n - 1)
    }
}

/// Index of the first `.` in `s`, or `s.len()` when there is none.
pub open spec fn spec_dot_index(s: Seq<char>) -> int
    decreases s.len(),
{
    if s.len() == 0 {
        0
    } else if s[0] == '.' {
        0
    } else {
        1 + spec_dot_index(s.drop_first())
    }
}

/// The text is a plain decimal number this crate reads: one to eighteen
/// integer digits, optionally followed by a dot and up to six fraction
/// digits.
pub open spec fn spec_decimal_wf(s: Seq<char>) -> bool {
    let d = spec_dot_index(s);
    &&& 1 <= d <= 18
    &&& spec_all_digits(s.take(d))
    &&& d < s.len() ==> {
        &&& s.len() - d - 1 <= 6
        &&& spec_all_digits(s.skip(d + 1))
    }
}

/// The micro-unit value a well-formed decimal text denotes.
pub open spec fn spec_decimal_value(s: Seq<char>) -> int {
    let d = spec_dot_index(s);
    let whole = spec_numeral_value(s.take(d)) * SCALE;
    if d < s.len() {
        whole + spec_numeral_value(s.skip(d + 1)) * spec_pow10(6 - (s.len() - d - 1))
    } else {
        whole
    }
}

/// The parse of decimal text into micro-units.
pub open spec fn spec_parse_decimal(s: Seq<char>) -> Option<u128> {
    if spec_decimal_wf(s) {
        Option::Some(spec_decimal_value(s) as u128)
    } else {
        Option::None
    }
}

/// A numeral's value is below ten to its length.
proof fn lemma_numeral_bound(s: Seq<char>)
    requires
        spec_all_digits(s),
    ensures
        0 <= spec_numeral_value(s) < spec_pow10(s.len() as int),
    decreases s.len(),
{
    if s.len() > 0 {
        assert(spec_all_digits(s.drop_last())) by {
            assert(forall|i: int| 0 <= i < s.drop_last().len() ==> s.drop_last()[i] == s[i]);
        }
        lemma_numeral_bound(s.drop_last());
        assert(spec_is_digit(s.last()));
    }
}

/// Ten to the eighteenth, spelled out.
proof fn lemma_pow10_18()
    ensures
        spec_pow10(0) == 1,
        spec_pow10(1) == 10,
        spec_pow10(2) == 100,
        spec_pow10(3) == 1_000,
        spec_pow10(4) == 10_000,
        spec_pow10(5) == 100_000,
        spec_pow10(6) == 1_000_000,
        spec_pow10(18) == 1_000_000_000_000_000_000,
{
    assert(spec_pow10(0) == 1);
    assert(spec_pow10(1) == 10);
    assert(spec_pow10(2) == 100);
    assert(spec_pow10(3) == 1000);
    assert(spec_pow10(4) == 10000);
    assert(spec_pow10(5) == 100000);
    assert(spec_pow10(6) == 1000000);
    assert(spec_pow10(7) == 10000000);
    assert(spec_pow10(8) == 100000000);
    assert(spec_pow10(9) == 1000000000);
    assert(spec_pow10(10) == 10000000000);
    assert(spec_pow10(11) == 100000000000);
    assert(spec_pow10(12) == 1000000000000);
    assert(spec_pow10(13) == 10000000000000);
    assert(spec_pow10(14) == 100000000000000);
    assert(spec_pow10(15) == 1000000000000000);
    assert(spec_pow10(16) == 10000000000000000);
    assert(spec_pow10(17) == 100000000000000000);
    assert(spec_pow10(18) == 1000000000000000000);
}

/// Largest value a parsed decimal can take, in micro-units.
pub const DECIMAL_LIMIT: u128 = 10_000_000_000_000_000_000_000_000;

/// The first dot lies within the text.
proof fn lemma_dot_index_le_len(s: Seq<char>)
    ensures
        0 <= spec_dot_index(s) <= s.len(),
    decreases s.len(),
{
    if s.len() > 0 && s[0] != '.' {
        lemma_dot_index_le_len(s.drop_first());
    }
}

/// A parsed decimal is below `DECIMAL_LIMIT`.
pub proof fn lemma_parse_decimal_bound(s: Seq<char>)
    ensures
        match spec_parse_decimal(s) {
            Option::Some(v) => v < DECIMAL_LIMIT,
            Option::None => true,
        },
{
    if spec_decimal_wf(s) {
        let d = spec_dot_index(s);
        lemma_dot_index_le_len(s);
        lemma_pow10_18();
        lemma_numeral_bound(s.take(d));
        assert(spec_pow10(d) <= spec_pow10(18)) by {
            lemma_pow10_increases(d, 18);
        }
        if d < s.len() {
            let k = s.len() - d - 1;
            lemma_numeral_bound(s.skip(d + 1));
            assert(spec_numeral_value(s.skip(d + 1)) * spec_pow10(6 - k) < 1_000_000) by {
                lemma_frac_bound(s.skip(d + 1), 6 - k);
            }
        }
    }
}

/// `spec_pow10` grows with its exponent.
proof fn lemma_pow10_increases(a: int, b: int)
    requires
        a <= b,
    ensures
        spec_pow10(a) <= spec_pow10(b),
        spec_pow10(a) >= 1,
    decreases b - a,
{
    if a < b {
        lemma_pow10_increases(a, b - 1);
    } else {
        lemma_pow10_nonneg(a);
    }
}

/// `spec_pow10` is at least one.
proof fn lemma_pow10_nonneg(a: int)
    ensures
        spec_pow10(a) >= 1,
    decreases a,
{
    if a > 0 {
        lemma_pow10_nonneg(a - 1);
    }
}

/// A fraction of `k` digits scaled by `spec_pow10(6 - k)` stays below one
/// whole unit.
proof fn lemma_frac_bound(s: Seq<char>, scale_exp: int)
    requires
        spec_all_digits(s),
        s.len() + scale_exp == 6,
        0 <= scale_exp,
    ensures
        spec_numeral_value(s) * spec_pow10(scale_exp) < 1_000_000,
        spec_numeral_value(s) * spec_pow10(scale_exp) >= 0,
{
    lemma_numeral_bound(s);
    lemma_pow10_nonneg(scale_exp);
    assert(spec_numeral_value(s) * spec_pow10(scale_exp) < spec_pow10(s.len() as int) * spec_pow10(
        scale_exp,
    )) by (nonlinear_arith)
        requires
            spec_numeral_value(s) < spec_pow10(s.len() as int),
            spec_numeral_value(s) >= 0,
            spec_pow10(scale_exp) >= 1,
    ;
    assert(spec_pow10(s.len() as int) * spec_pow10(scale_exp) == spec_pow10(6)) by {
        lemma_pow10_adds(s.len() as int, scale_exp);
    }
    lemma_pow10_18();
    assert(spec_numeral_value(s) * spec_pow10(scale_exp) >= 0) by (nonlinear_arith)
        requires
            spec_numeral_value(s) >= 0,
            spec_pow10(scale_exp) >= 1,
    ;
}

/// `spec_pow10` turns addition into multiplication.
proof fn lemma_pow10_adds(a: int, b: int)
    requires
        0 <= a,
        0 <= b,
    ensures
        spec_pow10(a) * spec_pow10(b) == spec_pow10(a + b),
    decreases a,
{
    if a > 0 {
        lemma_pow10_adds(a - 1, b);
        assert(spec_pow10(a) * spec_pow10(b) == 10 * (spec_pow10(a - 1) * spec_pow10(b)))
            by (nonlinear_arith)
            requires
                spec_pow10(a) == 10 * spec_pow10(a - 1),
        ;
    }
}

/// Index of the first dot really is `spec_dot_index`.
proof fn lemma_dot_index_is(s: Seq<char>, k: int)
    requires
        0 <= k <= s.len(),
        forall|j: int| 0 <= j < k ==> s[j] != '.',
        k < s.len() ==> s[k] == '.',
    ensures
        spec_dot_index(s) == k,
    decreases k,
{
    if k == 0 {
    } else {
        assert(s[0] != '.');
        lemma_dot_index_is(s.drop_first(), k - 1);
    }
}

/// Reads decimal text into micro-units: one to eighteen integer digits,
/// optionally a dot and up to six fraction digits.  Anything else is
/// rejected.
pub fn parse_decimal(s: &str) -> (r: Option<u128>)
    ensures
        r == spec_parse_decimal(s@),
{
    let len = s.unicode_len();
    let mut dot: usize = 0;
    while dot < len && !dot_at(s, dot)
        invariant
            len == s@.len(),
            0 <= dot <= len,
            forall|j: int| 0 <= j < dot ==> s@[j] != '.',
        decreases len - dot,
    {
        dot = dot + 1;
    }
    proof {
        lemma_dot_index_is(s@, dot as int);
    }
    if dot < 1 || dot > 18 {
        return Option::None;
    }

    // Integer part.
    let mut v: u128 = 0;
    let mut i: usize = 0;
    proof {
        assert(s@.take(dot as int).take(0) =~= Seq::<char>::empty());
    }
    while i < dot
        invariant
            len == s@.len(),
            spec_dot_index(s@) == dot,
            0 < dot <= 18,
            dot <= len,
            0 <= i <= dot,
            spec_all_digits(s@.take(dot as int).take(i as int)),
            v == spec_numeral_value(s@.take(dot as int).take(i as int)),
            v < spec_pow10(i as int),
            spec_pow10(i as int) <= 1_000_000_000_000_000_000,
        decreases dot - i,
    {
        proof {
            lemma_pow10_18();
            lemma_pow10_increases(i + 1, 18);
            assert(s@.take(dot as int).take(i + 1).drop_last() =~= s@.take(dot as int).take(
                i as int,
            ));
            assert(s@.take(dot as int).take(i + 1).last() == s@[i as int]);
        }
        match crate::dates::digit_at(s, i) {
            Option::Some(d) => {
                v = v * 10 + (d as u128);
            },
            Option::None => {
                proof {
                    assert(s@.take(spec_dot_index(s@))[i as int] == s@[i as int]);
                }
                return Option::None;
            },
        }
        i = i + 1;
    }
    proof {
        assert(s@.take(dot as int).take(dot as int) =~= s@.take(dot as int));
    }

    // Fraction part, when a dot is present.
    if dot < len {
        let flen = len - dot - 1;
        if flen > 6 {
            return Option::None;
        }
        let mut fv: u128 = 0;
        let mut j: usize = 0;
        proof {
            assert(s@.skip(dot + 1).take(0) =~= Seq::<char>::empty());
        }
        while j < flen
            invariant
                len == s@.len(),
                spec_dot_index(s@) == dot,
                dot < len,
                flen == len - dot - 1,
                flen <= 6,
                0 <= j <= flen,
                spec_all_digits(s@.skip(dot + 1).take(j as int)),
                fv == spec_numeral_value(s@.skip(dot + 1).take(j as int)),
                fv < spec_pow10(j as int),
                spec_pow10(j as int) <= 1_000_000,
            decreases flen - j,
        {
            proof {
                lemma_pow10_18();
                lemma_pow10_increases(j + 1, 6);
                assert(s@.skip(dot + 1).take(j + 1).drop_last() =~= s@.skip(dot + 1).take(
                    j as int,
                ));
                assert(s@.skip(dot + 1).take(j + 1).last() == s@[dot + 1 + j]);
            }
            match crate::dates::digit_at(s, dot + 1 + j) {
                Option::Some(d) => {
                    fv = fv * 10 + (d as u128);
                },
                Option::None => {
                    proof {
                        assert(s@.skip(spec_dot_index(s@) + 1)[j as int] == s@[dot + 1 + j]);
                    }
                    return Option::None;
                },
            }
            j = j + 1;
        }
        proof {
            assert(s@.skip(dot + 1).take(flen as int) =~= s@.skip(dot + 1));
        }
        let scale_exp = 6 - flen;
        let scale: u128 = pow10_small(scale_exp);
        proof {
            lemma_frac_bound(s@.skip(dot + 1), scale_exp as int);
            lemma_pow10_18();
        }
        Option::Some(v * SCALE + fv * scale)
    } else {
        Option::Some(v * SCALE)
    }
}

/// The character at position `j` is a dot.
fn dot_at(s: &str, j: usize) -> (r: bool)
    requires
        j < s@.len(),
    ensures
        r == (s@[j as int] == '.'),
{
    s.get_char(j) == '.'
}

/// Ten to the `n`th, for `n` up to six.
fn pow10_small(n: usize) -> (r: u128)
    requires
        n <= 6,
    ensures
        r == spec_pow10(n as int),
{
    proof {
        lemma_pow10_18();
    }
    if n == 0 {
        1
    } else if n == 1 {
        10
    } else if n == 2 {
        100
    } else if n == 3 {
        1_000
    } else if n == 4 {
        10_000
    } else if n == 5 {
        100_000
    } else {
        1_000_000
    }
}


/// The text is the decimal numeral of `n`: digits only, no leading zero
/// (except for `0` itself).
pub open spec fn spec_is_numeral(s: Seq<char>, n: int) -> bool {
    &&& s.len() >= 1
    &&& spec_all_digits(s)
    &&& (s.len() == 1 || s[0] != '0')
    &&& spec_numeral_value(s) == n
}

/// The text renders `v` micro-units as a whole amount, a dot, and two
/// cent digits, cents rounded half-up.
pub open spec fn spec_is_money_text(s: Seq<char>, v: int) -> bool {
    let cents = (v + 5000) / 10000;
    &&& s.len() >= 4
    &&& spec_is_numeral(s.take(s.len() - 3), cents / 100)
    &&& s[s.len() - 3] == '.'
    &&& spec_is_digit(s[s.len() - 2])
    &&& spec_digit(s[s.len() - 2]) == (cents % 100) / 10
    &&& spec_is_digit(s[s.len() - 1])
    &&& spec_digit(s[s.len() - 1]) == (cents % 100) % 10
}

/// The one-character string of a digit.
fn digit_str(d: u128) -> (r: &'static str)
    requires
        d < 10,
    ensures
        r@.len() == 1,
        spec_is_digit(r@[0]),
        spec_digit(r@[0]) == d,
{
    proof {
        reveal_strlit("0");
        reveal_strlit("1");
        reveal_strlit("2");
        reveal_strlit("3");
        reveal_strlit("4");
        reveal_strlit("5");
        reveal_strlit("6");
        reveal_strlit("7");
        reveal_strlit("8");
        reveal_strlit("9");
    }
    if d == 0 {
        "0"
    } else if d == 1 {
        "1"
    } else if d == 2 {
        "2"
    } else if d == 3 {
        "3"
    } else if d == 4 {
        "4"
    } else if d == 5 {
        "5"
    } else if d == 6 {
        "6"
    } else if d == 7 {
        "7"
    } else if d == 8 {
        "8"
    } else {
        "9"
    }
}

/// Appends the decimal numeral of `n` to `s`.
fn push_numeral(s: &mut String, n: u128)
    ensures
        final(s)@.len() > old(s)@.len(),
        final(s)@.take(old(s)@.len() as int) == old(s)@,
        spec_is_numeral(final(s)@.skip(old(s)@.len() as int), n as int),
    decreases n,
{
    let ghost base = s@;
    if n >= 10 {
        push_numeral(s, n / 10);
    }
    let ghost mid = s@;
    let d = n % 10;
    let ds = digit_str(d);
    s.append(ds);
    proof {
        assert(s@.take(base.len() as int) =~= base) by {
            if n >= 10 {
                assert(mid.take(base.len() as int) == base);
            }
        }
        let delta = s@.skip(base.len() as int);
        if n >= 10 {
            let d1 = mid.skip(base.len() as int);
            assert(delta =~= d1 + ds@);
            assert(delta.drop_last() =~= d1);
            assert(delta.last() == ds@[0]);
            assert(spec_numeral_value(delta) == spec_numeral_value(d1) * 10 + spec_digit(ds@[0]));
            assert(spec_numeral_value(delta) == (n as int / 10) * 10 + (n as int % 10));
            assert((n as int / 10) * 10 + (n as int % 10) == n as int) by {
                vstd::arithmetic::div_mod::lemma_fundamental_div_mod(n as int, 10);
            }
            assert(delta[0] == d1[0]);
            if d1.len() == 1 {
                assert(d1.last() == d1[0]);
                assert(d1.drop_last() =~= Seq::<char>::empty());
                assert(spec_numeral_value(d1.drop_last()) == 0);
                assert(spec_numeral_value(d1) == spec_numeral_value(d1.drop_last()) * 10
                    + spec_digit(d1.last()));
                assert(spec_digit(d1[0]) == n as int / 10);
                assert(n as int / 10 >= 1);
                assert('0' as u32 == 48);
                assert(d1[0] != '0');
            }
            assert(spec_all_digits(delta)) by {
                assert(forall|i: int|
                    0 <= i < d1.len() ==> #[trigger] delta[i] == d1[i]);
            }
        } else {
            assert(delta =~= seq![ds@[0]]);
            assert(delta.len() == 1);
            assert(delta.last() == ds@[0]);
            assert(delta.drop_last() =~= Seq::<char>::empty());
            assert(spec_numeral_value(delta.drop_last()) == 0);
            assert(spec_numeral_value(delta) == spec_numeral_value(delta.drop_last()) * 10
                + spec_digit(delta.last()));
            assert(spec_all_digits(delta)) by {
                assert(forall|i: int| 0 <= i < delta.len() ==> #[trigger] delta[i] == ds@[0]);
            }
        }
    }
}

/// Renders a micro-unit amount as two-decimal text, cents rounded
/// half-up.
pub fn format_micro_2dp(v: u128) -> (r: String)
    requires
        v + 5000 <= u128::MAX,
    ensures
        spec_is_money_text(r@, v as int),
{
    let cents: u128 = (v + 5000) / 10000;
    let whole: u128 = cents / 100;
    let frac: u128 = cents % 100;
    let mut out = String::new();
    push_numeral(&mut out, whole);
    let ghost numeral_part = out@;
    out.append(".");
    out.append(digit_str(frac / 10));
    out.append(digit_str(frac % 10));
    proof {
        reveal_strlit(".");
        assert(out@.take(out@.len() - 3) =~= numeral_part);
        assert(numeral_part.skip(0) =~= numeral_part);
        assert(out@[out@.len() - 3] == '.');
        vstd::arithmetic::div_mod::lemma_mod_division_less_than_divisor(cents as int, 100);
    }
    out
}

/// Sum of the parseable payout totals of a record sequence.
pub open spec fn spec_total_dividends(rs: Seq<DividendRecord>) -> int
    decreases rs.len(),
{
    if rs.len() == 0 {
        0
    } else {
        spec_total_dividends(rs.drop_last()) + match spec_parse_decimal(rs.last().total@) {
            Option::Some(v) => v as int,
            Option::None => 0,
        }
    }
}

/// Sum of the parseable withheld-tax amounts of a record sequence.
pub open spec fn spec_total_wht(rs: Seq<DividendRecord>) -> int
    decreases rs.len(),
{
    if rs.len() == 0 {
        0
    } else {
        spec_total_wht(rs.drop_last()) + match spec_parse_decimal(
            rs.last().withholding_tax@,
        ) {
            Option::Some(v) => v as int,
            Option::None => 0,
        }
    }
}

/// Most payout records an export may hold.
pub const MAX_RECORDS: usize = 10_000_000;

/// Sums the payout totals of all records whose total parses.
pub fn total_dividends(records: &Vec<DividendRecord>) -> (r: u128)
    requires
        records@.len() <= MAX_RECORDS,
    ensures
        r == spec_total_dividends(records@),
{
    let n = records.len();
    let mut acc: u128 = 0;
    let mut i: usize = 0;
    proof {
        assert(records@.take(0) =~= Seq::<DividendRecord>::empty());
    }
    while i < n
        invariant
            n == records@.len(),
            n <= MAX_RECORDS,
            0 <= i <= n,
            acc == spec_total_dividends(records@.take(i as int)),
            acc <= (i as int) * (DECIMAL_LIMIT as int),
        decreases n - i,
    {
        proof {
            assert(records@.take(i + 1).drop_last() =~= records@.take(i as int));
            assert(records@.take(i + 1).last() == records@[i as int]);
            lemma_parse_decimal_bound(records@[i as int].total@);
        }
        match parse_decimal(records[i].total.as_str()) {
            Option::Some(v) => {
                acc = acc + v;
            },
            Option::None => {},
        }
        i = i + 1;
    }
    proof {
        assert(records@.take(n as int) =~= records@);
    }
    acc
}

/// Sums the withheld tax of all records whose tax field parses.
pub fn total_withholding(records: &Vec<DividendRecord>) -> (r: u128)
    requires
        records@.len() <= MAX_RECORDS,
    ensures
        r == spec_total_wht(records@),
{
    let n = records.len();
    let mut acc: u128 = 0;
    let mut i: usize = 0;
    proof {
        assert(records@.take(0) =~= Seq::<DividendRecord>::empty());
    }
    while i < n
        invariant
            n == records@.len(),
            n <= MAX_RECORDS,
            0 <= i <= n,
            acc == spec_total_wht(records@.take(i as int)),
            acc <= (i as int) * (DECIMAL_LIMIT as int),
        decreases n - i,
    {
        proof {
            assert(records@.take(i + 1).drop_last() =~= records@.take(i as int));
            assert(records@.take(i + 1).last() == records@[i as int]);
            lemma_parse_decimal_bound(records@[i as int].withholding_tax@);
        }
        match parse_decimal(records[i].withholding_tax.as_str()) {
            Option::Some(v) => {
                acc = acc + v;
            },
            Option::None => {},
        }
        i = i + 1;
    }
    proof {
        assert(records@.take(n as int) =~= records@);
    }
    acc
}


/// Both amounts of the record parse, so it takes part in the per-ticker
/// summary.
pub open spec fn spec_record_counted(r: DividendRecord) -> bool {
    spec_parse_decimal(r.total@) is Some && spec_parse_decimal(r.withholding_tax@) is Some
}

/// Summed payouts of one ticker over the counted records.
pub open spec fn spec_ticker_total(rs: Seq<DividendRecord>, t: Seq<char>) -> int
    decreases rs.len(),
{
    if rs.len() == 0 {
        0
    } else {
        spec_ticker_total(rs.drop_last(), t) + if rs.last().ticker@ == t && spec_record_counted(
            rs.last(),
        ) {
            spec_parse_decimal(rs.last().total@).unwrap() as int
        } else {
            0
        }
    }
}

/// Summed withheld tax of one ticker over the counted records.
pub open spec fn spec_ticker_wht(rs: Seq<DividendRecord>, t: Seq<char>) -> int
    decreases rs.len(),
{
    if rs.len() == 0 {
        0
    } else {
        spec_ticker_wht(rs.drop_last(), t) + if rs.last().ticker@ == t && spec_record_counted(
            rs.last(),
        ) {
            spec_parse_decimal(rs.last().withholding_tax@).unwrap() as int
        } else {
            0
        }
    }
}

/// The tickers of the counted records, in order of first appearance,
/// each once.
pub open spec fn spec_ticker_list(rs: Seq<DividendRecord>) -> Seq<Seq<char>>
    decreases rs.len(),
{
    if rs.len() == 0 {
        Seq::empty()
    } else {
        let rest = spec_ticker_list(rs.drop_last());
        if spec_record_counted(rs.last()) && !rest.contains(rs.last().ticker@) {
            rest.push(rs.last().ticker@)
        } else {
            rest
        }
    }
}

/// Whether one of the strings has this view.
fn contains_str(v: &Vec<String>, s: &str) -> (r: bool)
    ensures
        r == exists|k: int| 0 <= k < v@.len() && (#[trigger] v@[k])@ == s@,
{
    let n = v.len();
    let mut i: usize = 0;
    while i < n
        invariant
            n == v@.len(),
            0 <= i <= n,
            forall|k: int| 0 <= k < i ==> (#[trigger] v@[k])@ != s@,
        decreases n - i,
    {
        if crate::text::str_eq(v[i].as_str(), s) {
            return true;
        }
        i = i + 1;
    }
    false
}

/// Groups the counted records by ticker, in order of first appearance,
/// and renders each ticker's summed payout and withheld tax as
/// two-decimal text.
pub fn ticker_summary(records: &Vec<DividendRecord>) -> (out: Vec<TickerSummary>)
    requires
        records@.len() <= MAX_RECORDS,
    ensures
        out@.len() == spec_ticker_list(records@).len(),
        forall|k: int|
            0 <= k < out@.len() ==> {
                &&& (#[trigger] out@[k]).ticker@ == spec_ticker_list(records@)[k]
                &&& spec_is_money_text(
                    out@[k].total@,
                    spec_ticker_total(records@, spec_ticker_list(records@)[k]),
                )
                &&& spec_is_money_text(
                    out@[k].wht@,
                    spec_ticker_wht(records@, spec_ticker_list(records@)[k]),
                )
            },
{
    let n = records.len();

    // First pass: the distinct tickers of the counted records.
    let mut tickers: Vec<String> = Vec::new();
    let mut i: usize = 0;
    proof {
        assert(records@.take(0) =~= Seq::<DividendRecord>::empty());
    }
    while i < n
        invariant
            n == records@.len(),
            0 <= i <= n,
            tickers@.len() == spec_ticker_list(records@.take(i as int)).len(),
            forall|k: int|
                0 <= k < tickers@.len() ==> (#[trigger] tickers@[k])@ == spec_ticker_list(
                    records@.take(i as int),
                )[k],
        decreases n - i,
    {
        proof {
            assert(records@.take(i + 1).drop_last() =~= records@.take(i as int));
            assert(records@.take(i + 1).last() == records@[i as int]);
        }
        let counted = match (
            parse_decimal(records[i].total.as_str()),
            parse_decimal(records[i].withholding_tax.as_str()),
        ) {
            (Option::Some(_), Option::Some(_)) => true,
            _ => false,
        };
        if counted && !contains_str(&tickers, records[i].ticker.as_str()) {
            proof {
                let ghost lst = spec_ticker_list(records@.take(i as int));
                assert(!lst.contains(records@[i as int].ticker@)) by {
                    if lst.contains(records@[i as int].ticker@) {
                        let k = choose|k: int|
                            0 <= k < lst.len() && lst[k] == records@[i as int].ticker@;
                        assert(tickers@[k]@ == records@[i as int].ticker@);
                    }
                }
            }
            tickers.push(records[i].ticker.clone());
        } else {
            proof {
                let ghost lst = spec_ticker_list(records@.take(i as int));
                if counted {
                    let k = choose|k: int|
                        0 <= k < tickers@.len() && (#[trigger] tickers@[k])@ == records@[i
                            as int].ticker@;
                    assert(lst[k] == records@[i as int].ticker@);
                    assert(lst.contains(records@[i as int].ticker@));
                }
            }
        }
        i = i + 1;
    }
    proof {
        assert(records@.take(n as int) =~= records@);
    }

    // Second pass: sum each ticker's amounts over all records.
    let m = tickers.len();
    let mut out: Vec<TickerSummary> = Vec::new();
    let mut k: usize = 0;
    while k < m
        invariant
            n == records@.len(),
            n <= MAX_RECORDS,
            m == tickers@.len(),
            0 <= k <= m,
            tickers@.len() == spec_ticker_list(records@).len(),
            forall|t: int|
                0 <= t < tickers@.len() ==> (#[trigger] tickers@[t])@ == spec_ticker_list(
                    records@,
                )[t],
            out@.len() == k,
            forall|t: int|
                0 <= t < k ==> {
                    &&& (#[trigger] out@[t]).ticker@ == spec_ticker_list(records@)[t]
                    &&& spec_is_money_text(
                        out@[t].total@,
                        spec_ticker_total(records@, spec_ticker_list(records@)[t]),
                    )
                    &&& spec_is_money_text(
                        out@[t].wht@,
                        spec_ticker_wht(records@, spec_ticker_list(records@)[t]),
                    )
                },
        decreases m - k,
    {
        let ticker = &tickers[k];
        let mut total: u128 = 0;
        let mut wht: u128 = 0;
        let mut j: usize = 0;
        proof {
            assert(records@.take(0) =~= Seq::<DividendRecord>::empty());
        }
        while j < n
            invariant
                n == records@.len(),
                n <= MAX_RECORDS,
                0 <= j <= n,
                total == spec_ticker_total(records@.take(j as int), ticker@),
                wht == spec_ticker_wht(records@.take(j as int), ticker@),
                total <= (j as int) * (DECIMAL_LIMIT as int),
                wht <= (j as int) * (DECIMAL_LIMIT as int),
            decreases n - j,
        {
            proof {
                assert(records@.take(j + 1).drop_last() =~= records@.take(j as int));
                assert(records@.take(j + 1).last() == records@[j as int]);
                lemma_parse_decimal_bound(records@[j as int].total@);
                lemma_parse_decimal_bound(records@[j as int].withholding_tax@);
            }
            if crate::text::str_eq(records[j].ticker.as_str(), ticker.as_str()) {
                match (
                    parse_decimal(records[j].total.as_str()),
                    parse_decimal(records[j].withholding_tax.as_str()),
                ) {
                    (Option::Some(tv), Option::Some(wv)) => {
                        total = total + tv;
                        wht = wht + wv;
                    },
                    _ => {},
                }
            }
            j = j + 1;
        }
        proof {
            assert(records@.take(n as int) =~= records@);
        }
        out.push(
            TickerSummary {
                ticker: ticker.clone(),
                total: format_micro_2dp(total),
                wht: format_micro_2dp(wht),
            },
        );
        k = k + 1;
    }
    out
}


/// One month's summed dividend payouts.
#[derive(Debug, Clone, Copy, PartialEq, Eq, Structural)]
pub struct MonthlyDividend {
    /// Calendar year.
    pub year: u32,
    /// Month, 1 to 12.
    pub month: u32,
    /// Summed payouts of that month, micro-units.
    pub total: u128,
}

/// A single ordering key for a month: later months get larger keys.
pub open spec fn spec_month_key(year: int, month: int) -> int {
    year * 100 + month
}

/// The record contributes to the monthly summary: its date parses and
/// its total parses.
pub open spec fn spec_month_counted(r: DividendRecord) -> bool {
    crate::dates::spec_parse_date(r.date@) is Some && spec_parse_decimal(r.total@) is Some
}

/// The month key of a counted record.
pub open spec fn spec_record_month_key(r: DividendRecord) -> int {
    let d = crate::dates::spec_parse_date(r.date@).unwrap();
    spec_month_key(d.year as int, d.month as int)
}

/// Summed payouts of one month over the counted records.
pub open spec fn spec_month_total(rs: Seq<DividendRecord>, key: int) -> int
    decreases rs.len(),
{
    if rs.len() == 0 {
        0
    } else {
        spec_month_total(rs.drop_last(), key) + if spec_month_counted(rs.last())
            && spec_record_month_key(rs.last()) == key {
            spec_parse_decimal(rs.last().total@).unwrap() as int
        } else {
            0
        }
    }
}

/// A month appears among the counted records.
pub open spec fn spec_month_present(rs: Seq<DividendRecord>, key: int) -> bool {
    exists|j: int|
        0 <= j < rs.len() && spec_month_counted(#[trigger] rs[j]) && spec_record_month_key(rs[j])
            == key
}

/// Groups the counted records by calendar month and sums each month's
/// payouts, newest month first.  The output holds each month once,
/// strictly ordered, with its exact sum; exactly the months of counted
/// records appear.
pub fn calculate_monthly_dividends(records: &Vec<DividendRecord>) -> (out: Vec<MonthlyDividend>)
    requires
        records@.len() <= MAX_RECORDS,
    ensures
        forall|a: int, b: int|
            0 <= a < b < out@.len() ==> spec_month_key(
                (#[trigger] out@[a]).year as int,
                out@[a].month as int,
            ) > spec_month_key((#[trigger] out@[b]).year as int, out@[b].month as int),
        forall|k: int|
            0 <= k < out@.len() ==> {
                &&& spec_month_present(
                    records@,
                    spec_month_key((#[trigger] out@[k]).year as int, out@[k].month as int),
                )
                &&& out@[k].total == spec_month_total(
                    records@,
                    spec_month_key(out@[k].year as int, out@[k].month as int),
                )
            },
        forall|j: int|
            0 <= j < records@.len() && spec_month_counted(#[trigger] records@[j]) ==> exists|k: int|
                0 <= k < out@.len() && spec_month_key(
                    (#[trigger] out@[k]).year as int,
                    out@[k].month as int,
                ) == spec_record_month_key(records@[j]),
{
    let n = records.len();

    // First pass: the distinct months, kept strictly sorted, newest
    // first.
    let mut months: Vec<MonthlyDividend> = Vec::new();
    let mut i: usize = 0;
    while i < n
        invariant
            n == records@.len(),
            0 <= i <= n,
            forall|a: int, b: int|
                0 <= a < b < months@.len() ==> spec_month_key(
                    (#[trigger] months@[a]).year as int,
                    months@[a].month as int,
                ) > spec_month_key((#[trigger] months@[b]).year as int, months@[b].month as int),
            forall|k: int|
                0 <= k < months@.len() ==> spec_month_present(
                    records@,
                    spec_month_key((#[trigger] months@[k]).year as int, months@[k].month as int),
                ),
            forall|j: int|
                0 <= j < i && spec_month_counted(#[trigger] records@[j]) ==> exists|k: int|
                    0 <= k < months@.len() && spec_month_key(
                        (#[trigger] months@[k]).year as int,
                        months@[k].month as int,
                    ) == spec_record_month_key(records@[j]),
            forall|k: int|
                0 <= k < months@.len() ==> 1 <= (#[trigger] months@[k]).month <= 12
                    && months@[k].year <= 9999,
        decreases n - i,
    {
        let parsed = crate::dates::parse_date(records[i].date.as_str());
        let amount_ok = matches!(parse_decimal(records[i].total.as_str()), Option::Some(_));
        match parsed {
            Option::Some(d) if amount_ok => {
                proof {
                    assert(spec_month_counted(records@[i as int]));
                    assert(crate::dates::spec_date_text_shaped(records@[i as int].date@));
                    assert(d.year <= 9999);
                    assert(1 <= d.month <= 12);
                    assert(spec_record_month_key(records@[i as int]) == spec_month_key(
                        d.year as int,
                        d.month as int,
                    ));
                }
                let key: u64 = (d.year as u64) * 100 + (d.month as u64);
                let m = months.len();
                let mut pos: usize = 0;
                while pos < m && month_key_at(&months, pos) > key
                    invariant
                        m == months@.len(),
                        0 <= pos <= m,
                        forall|k: int|
                            0 <= k < months@.len() ==> 1 <= (#[trigger] months@[k]).month <= 12
                                && months@[k].year <= 9999,
                        forall|a: int|
                            0 <= a < pos ==> spec_month_key(
                                (#[trigger] months@[a]).year as int,
                                months@[a].month as int,
                            ) > key,
                    decreases m - pos,
                {
                    pos = pos + 1;
                }
                let already = if pos < m {
                    month_key_at(&months, pos) == key
                } else {
                    false
                };
                if !already {
                    proof {
                        assert forall|b: int| pos <= b < months@.len() implies spec_month_key(
                            (#[trigger] months@[b]).year as int,
                            months@[b].month as int,
                        ) < key by {
                            if b > pos {
                                assert(spec_month_key(
                                    months@[pos as int].year as int,
                                    months@[pos as int].month as int,
                                ) > spec_month_key(
                                    months@[b].year as int,
                                    months@[b].month as int,
                                ));
                            }
                        }
                    }
                    let ghost oldm = months@;
                    months.insert(pos, MonthlyDividend { year: d.year, month: d.month, total: 0 });
                    proof {
                        let newm = months@;
                        assert(forall|a: int| 0 <= a < pos ==> #[trigger] newm[a] == oldm[a]);
                        assert(newm[pos as int] == MonthlyDividend {
                            year: d.year,
                            month: d.month,
                            total: 0,
                        });
                        assert(forall|b: int|
                            pos < b < newm.len() ==> #[trigger] newm[b] == oldm[b - 1]);
                        // Coverage: every earlier counted record still has its
                        // month, and the new record has the inserted one.
                        assert forall|j: int|
                            0 <= j < i + 1 && spec_month_counted(
                                #[trigger] records@[j],
                            ) implies exists|k: int|
                            0 <= k < newm.len() && spec_month_key(
                                (#[trigger] newm[k]).year as int,
                                newm[k].month as int,
                            ) == spec_record_month_key(records@[j]) by {
                            if j == i {
                                assert(spec_month_key(
                                    newm[pos as int].year as int,
                                    newm[pos as int].month as int,
                                ) == spec_record_month_key(records@[j]));
                            } else {
                                let k0 = choose|k0: int|
                                    0 <= k0 < oldm.len() && spec_month_key(
                                        (#[trigger] oldm[k0]).year as int,
                                        oldm[k0].month as int,
                                    ) == spec_record_month_key(records@[j]);
                                if k0 < pos {
                                    assert(newm[k0] == oldm[k0]);
                                } else {
                                    assert(newm[k0 + 1] == oldm[k0]);
                                }
                            }
                        }
                    }
                } else {
                    proof {
                        assert forall|j: int|
                            0 <= j < i + 1 && spec_month_counted(
                                #[trigger] records@[j],
                            ) implies exists|k: int|
                            0 <= k < months@.len() && spec_month_key(
                                (#[trigger] months@[k]).year as int,
                                months@[k].month as int,
                            ) == spec_record_month_key(records@[j]) by {
                            if j == i {
                                assert(spec_month_key(
                                    months@[pos as int].year as int,
                                    months@[pos as int].month as int,
                                ) == spec_record_month_key(records@[j]));
                            }
                        }
                    }
                }
            },
            _ => {
                proof {
                    assert(!spec_month_counted(records@[i as int]));
                }
            },
        }
        i = i + 1;
    }

    // Second pass: sum each month's totals over all records.
    let m = months.len();
    let mut out: Vec<MonthlyDividend> = Vec::new();
    let mut k: usize = 0;
    while k < m
        invariant
            n == records@.len(),
            n <= MAX_RECORDS,
            m == months@.len(),
            0 <= k <= m,
            forall|a: int, b: int|
                0 <= a < b < months@.len() ==> spec_month_key(
                    (#[trigger] months@[a]).year as int,
                    months@[a].month as int,
                ) > spec_month_key((#[trigger] months@[b]).year as int, months@[b].month as int),
            forall|t: int|
                0 <= t < months@.len() ==> spec_month_present(
                    records@,
                    spec_month_key((#[trigger] months@[t]).year as int, months@[t].month as int),
                ),
            forall|j: int|
                0 <= j < records@.len() && spec_month_counted(#[trigger] records@[j]) ==> exists|
                    t: int,
                |
                    0 <= t < months@.len() && spec_month_key(
                        (#[trigger] months@[t]).year as int,
                        months@[t].month as int,
                    ) == spec_record_month_key(records@[j]),
            forall|t: int|
                0 <= t < months@.len() ==> 1 <= (#[trigger] months@[t]).month <= 12
                    && months@[t].year <= 9999,
            out@.len() == k,
            forall|t: int|
                0 <= t < k ==> (#[trigger] out@[t]).year == months@[t].year && out@[t].month
                    == months@[t].month && out@[t].total == spec_month_total(
                    records@,
                    spec_month_key(months@[t].year as int, months@[t].month as int),
                ),
        decreases m - k,
    {
        let year = months[k].year;
        let month = months[k].month;
        let ghost key = spec_month_key(year as int, month as int);
        let mut total: u128 = 0;
        let mut j: usize = 0;
        proof {
            assert(records@.take(0) =~= Seq::<DividendRecord>::empty());
        }
        while j < n
            invariant
                n == records@.len(),
                n <= MAX_RECORDS,
                0 <= j <= n,
                1 <= month <= 12,
                year <= 9999,
                key == spec_month_key(year as int, month as int),
                total == spec_month_total(records@.take(j as int), key),
                total <= (j as int) * (DECIMAL_LIMIT as int),
            decreases n - j,
        {
            proof {
                assert(records@.take(j + 1).drop_last() =~= records@.take(j as int));
                assert(records@.take(j + 1).last() == records@[j as int]);
                lemma_parse_decimal_bound(records@[j as int].total@);
                if spec_month_counted(records@[j as int]) {
                    assert(crate::dates::spec_date_text_shaped(records@[j as int].date@));
                    let dd = crate::dates::spec_parse_date(records@[j as int].date@).unwrap();
                    assert(dd.year <= 9999);
                    assert(1 <= dd.month <= 12);
                }
            }
            let key_match = match crate::dates::parse_date(records[j].date.as_str()) {
                Option::Some(d) => d.year == year && d.month == month,
                Option::None => false,
            };
            if key_match {
                match parse_decimal(records[j].total.as_str()) {
                    Option::Some(v) => {
                        total = total + v;
                    },
                    Option::None => {},
                }
            }
            j = j + 1;
        }
        proof {
            assert(records@.take(n as int) =~= records@);
        }
        out.push(MonthlyDividend { year, month, total });
        k = k + 1;
    }
    proof {
        assert forall|j: int|
            0 <= j < records@.len() && spec_month_counted(#[trigger] records@[j]) implies exists|
            k: int,
        |
            0 <= k < out@.len() && spec_month_key(
                (#[trigger] out@[k]).year as int,
                out@[k].month as int,
            ) == spec_record_month_key(records@[j]) by {
            let t = choose|t: int|
                0 <= t < months@.len() && spec_month_key(
                    (#[trigger] months@[t]).year as int,
                    months@[t].month as int,
                ) == spec_record_month_key(records@[j]);
            assert(out@[t].year == months@[t].year && out@[t].month == months@[t].month);
            assert(spec_month_key(out@[t].year as int, out@[t].month as int)
                == spec_record_month_key(records@[j]));
        }
    }
    out
}

/// The ordering key of the month stored at `k`.
fn month_key_at(months: &Vec<MonthlyDividend>, k: usize) -> (r: u64)
    requires
        k < months@.len(),
        months@[k as int].month <= 12,
        months@[k as int].year <= 9999,
    ensures
        r == spec_month_key(months@[k as int].year as int, months@[k as int].month as int),
{
    (months[k].year as u64) * 100 + (months[k].month as u64)
}

} // verus!
