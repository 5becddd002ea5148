//! Currency conversion service.
//!
//! A `CurrencyConverter` caches a table of exchange rates against a fixed
//! reference currency together with the time the table was fetched.
//! Fetching itself is a network concern and happens outside this crate:
//! callers decide with `is_stale` when to fetch, and hand a freshly fetched
//! table to `set_rates`, which replaces the cache in one step.  A pairwise
//! conversion factor is the exact rational `rate(to) / rate(from)`, carried
//! as a numerator/denominator pair so that applying it to a fixed-point
//! amount loses at most the final floor division.

use vstd::prelude::*;

use crate::num::spec_mul_div;
use crate::text::spec_eq_ignore_ascii_case;

verus! {

/// Errors of the conversion service.
#[derive(Debug, Clone, PartialEq, Eq, Structural)]
pub enum CurrencyError {
    /// An invalid currency code was provided.
    InvalidCurrency,
    /// Fetching exchange rates from the outside source failed.
    FetchError,
    /// A needed exchange rate is absent from the cached table.
    RateNotAvailable,
}

/// The currencies the conversion service knows by name.
#[derive(Debug, Clone, Copy, PartialEq, Eq, Structural)]
pub enum Currency {
    /// British pound sterling, the reference currency.
    GBP,
    /// US dollar.
    USD,
    /// Euro.
    EUR,
    /// Swiss franc.
    CHF,
    /// Any other code.
    UnSupported,
}

impl Default for Currency {
    /// The reference currency.
    fn default() -> (r: Self)
        ensures
            r == Currency::GBP,
    {
        Currency::GBP
    }
}

/// The three-letter code of a currency, as a character sequence.
pub open spec fn spec_currency_code(c: Currency) -> Seq<char> {
    match c {
        Currency::GBP => "GBP"@,
        Currency::USD => "USD"@,
        Currency::EUR => "EUR"@,
        Currency::CHF => "CHF"@,
        Currency::UnSupported => "UnSupported"@,
    }
}

/// The currency a code names, compared ignoring ASCII case; any other
/// code maps to `UnSupported`.
pub open spec fn spec_currency_from_code(s: Seq<char>) -> Currency {
    if spec_eq_ignore_ascii_case(s, "GBP"@) {
        Currency::GBP
    } else if spec_eq_ignore_ascii_case(s, "USD"@) {
        Currency::USD
    } else if spec_eq_ignore_ascii_case(s, "EUR"@) {
        Currency::EUR
    } else if spec_eq_ignore_ascii_case(s, "CHF"@) {
        Currency::CHF
    } else {
        Currency::UnSupported
    }
}

impl Currency {
    /// The standard three-letter code of the currency.
    pub fn as_str(&self) -> (r: &'static str)
        ensures
            r@ == spec_currency_code(*self),
    {
        match self {
            Currency::USD => "USD",
            Currency::EUR => "EUR",
            Currency::GBP => "GBP",
            Currency::CHF => "CHF",
            _ => "UnSupported",
        }
    }

    /// Parses a currency code, ignoring ASCII case; unrecognized codes give
    /// `UnSupported`, never an error.
    pub fn from_code(s: &str) -> (r: Currency)
        ensures
            r == spec_currency_from_code(s@),
    {
        if crate::text::str_eq_ignore_ascii_case(s, "GBP") {
            Currency::GBP
        } else if crate::text::str_eq_ignore_ascii_case(s, "USD") {
            Currency::USD
        } else if crate::text::str_eq_ignore_ascii_case(s, "EUR") {
            Currency::EUR
        } else if crate::text::str_eq_ignore_ascii_case(s, "CHF") {
            Currency::CHF
        } else {
            Currency::UnSupported
        }
    }
}

/// One row of the cached exchange-rate table: micro-units of `code` per
/// unit of the reference currency.
#[derive(Debug, Clone)]
pub struct RateEntry {
    /// Three-letter currency code.
    pub code: String,
    /// Rate against the reference currency, in micro-units.
    pub rate: u128,
}

/// Upper bound accepted for a single exchange rate (one million whole
/// units per reference unit, in micro-units).
pub const RATE_LIMIT: u128 = 1_000_000_000_000;

/// Every rate in the table is positive and at most `RATE_LIMIT`.
pub open spec fn spec_rates_bounded(rates: Seq<RateEntry>) -> bool {
    forall|i: int| 0 <= i < rates.len() ==> 1 <= #[trigger] rates[i].rate <= RATE_LIMIT
}

/// The rate stored for `code`: the first row with that code, if any.
pub open spec fn spec_rate_of(rates: Seq<RateEntry>, code: Seq<char>) -> Option<u128>
    decreases rates.len(),
{
    if rates.len() == 0 {
        Option::None
    } else if rates[0].code@ == code {
        Option::Some(rates[0].rate)
    } else {
        spec_rate_of(rates.drop_first(), code)
    }
}

/// An exact pairwise conversion factor `numer / denom`.
#[derive(Debug, Clone, Copy)]
pub struct Factor {
    /// Rate of the target currency.
    pub numer: u128,
    /// Rate of the source currency.
    pub denom: u128,
}

impl Factor {
    /// Converts a fixed-point amount, flooring once at the end.
    pub fn apply(&self, amount: u128) -> (r: u128)
        requires
            1 <= self.denom,
            amount * self.numer <= u128::MAX,
        ensures
            r == spec_mul_div(amount as int, self.numer as int, self.denom as int),
            r <= amount * self.numer,
    {
        crate::num::mul_div(amount, self.numer, self.denom)
    }
}

/// Cached exchange-rate table plus the time it was fetched.
///
/// The whole table and its timestamp are replaced together by `set_rates`:
/// a reader holding the converter sees either the old table with the old
/// timestamp or the new table with the new timestamp, never a mixture.
#[derive(Debug)]
pub struct CurrencyConverter {
    /// Rates against the reference currency, in micro-units.
    pub rates: Vec<RateEntry>,
    /// Seconds timestamp of the last successful fetch.
    pub last_update: u64,
    /// Seconds after which the cached table counts as stale.
    pub update_interval: u64,
}

/// Default staleness interval of the rate cache, in seconds.
pub const RATE_REFRESH_INTERVAL_S: u64 = 360;

impl CurrencyConverter {
    /// A converter over a freshly fetched table.
    pub fn new(rates: Vec<RateEntry>, now: u64) -> (r: Self)
        ensures
            r.rates@ == rates@,
            r.last_update == now,
            r.update_interval == RATE_REFRESH_INTERVAL_S,
    {
        CurrencyConverter { rates, last_update: now, update_interval: RATE_REFRESH_INTERVAL_S }
    }

    /// Replaces the cached table and its timestamp in one step.
    pub fn set_rates(&mut self, rates: Vec<RateEntry>, now: u64)
        ensures
            final(self).rates@ == rates@,
            final(self).last_update == now,
            final(self).update_interval == old(self).update_interval,
    {
        self.rates = rates;
        self.last_update = now;
    }

    /// Whether the cached table is older than the staleness interval and a
    /// fetch should happen before the next conversion.
    pub fn is_stale(&self, now: u64) -> (r: bool)
        requires
            self.last_update <= now,
        ensures
            r == (now - self.last_update > self.update_interval),
    {
        now - self.last_update > self.update_interval
    }

    /// The pairwise conversion factor from `from` to `to`.
    ///
    /// Equal currencies convert by the factor one without touching the
    /// table; otherwise the factor is `rate(to) / rate(from)`, and the
    /// call fails with `RateNotAvailable` exactly when either code is
    /// absent from the table.
    pub fn get_conversion_factor(&self, from: Currency, to: Currency) -> (r: Result<
        Factor,
        CurrencyError,
    >)
        ensures
            from == to ==> r == Result::<Factor, CurrencyError>::Ok(Factor { numer: 1, denom: 1 }),
            from != to ==> match (
                spec_rate_of(self.rates@, spec_currency_code(from)),
                spec_rate_of(self.rates@, spec_currency_code(to)),
            ) {
                (Option::Some(rf), Option::Some(rt)) => r == Result::<Factor, CurrencyError>::Ok(
                    Factor { numer: rt, denom: rf },
                ),
                _ => r == Result::<Factor, CurrencyError>::Err(CurrencyError::RateNotAvailable),
            },
    {
        if from == to {
            return Result::Ok(Factor { numer: 1, denom: 1 });
        }
        let from_rate = self.lookup_rate(from.as_str());
        let to_rate = self.lookup_rate(to.as_str());
        match (from_rate, to_rate) {
            (Option::Some(rf), Option::Some(rt)) => Result::Ok(Factor { numer: rt, denom: rf }),
            _ => Result::Err(CurrencyError::RateNotAvailable),
        }
    }

    /// Finds the rate stored for `code`.
    pub fn lookup_rate(&self, code: &str) -> (r: Option<u128>)
        ensures
            r == spec_rate_of(self.rates@, code@),
    {
        let n = self.rates.len();
        let mut i: usize = 0;
        proof {
            assert(self.rates@.skip(0) =~= self.rates@);
        }
        while i < n
            invariant
                n == self.rates@.len(),
                0 <= i <= n,
                spec_rate_of(self.rates@, code@) == spec_rate_of(self.rates@.skip(i as int), code@),
            decreases n - i,
        {
            proof {
                assert(self.rates@.skip(i as int)[0] == self.rates@[i as int]);
            }
            if crate::text::str_eq(self.rates[i].code.as_str(), code) {
                return Option::Some(self.rates[i].rate);
            }
            proof {
                assert(self.rates@.skip(i as int).drop_first() =~= self.rates@.skip(i + 1));
            }
            i = i + 1;
        }
        proof {
            assert(self.rates@.skip(n as int).len() == 0);
        }
        Option::None
    }
}

/// Converting an amount from currency A to currency B and back loses at
/// most the rounding of the two floor divisions: the round trip never
/// gains, and what it loses is below `ra / rb + 1` micro-units, where
/// `ra` and `rb` are the two rates.  In particular the round trip is the
/// identity whenever `ra <= rb` divides cleanly enough.
pub proof fn lemma_convert_round_trip(x: int, ra: int, rb: int)
    requires
        0 <= x,
        1 <= ra,
        1 <= rb,
    ensures
        spec_mul_div(spec_mul_div(x, rb, ra), ra, rb) <= x,
        x - spec_mul_div(spec_mul_div(x, rb, ra), ra, rb) <= (ra - 1) / rb + 1,
{
    let y = (x * rb) / ra;
    let r1 = (x * rb) % ra;
    vstd::arithmetic::mul::lemma_mul_nonnegative(x, rb);
    vstd::arithmetic::div_mod::lemma_fundamental_div_mod(x * rb, ra);
    vstd::arithmetic::div_mod::lemma_mod_division_less_than_divisor(x * rb, ra);
    vstd::arithmetic::div_mod::lemma_div_pos_is_pos(x * rb, ra);
    assert(x * rb == ra * y + r1);
    assert(0 <= r1 < ra);
    assert(0 <= y);
    let z = (y * ra) / rb;
    assert(y * ra == x * rb - r1) by {
        vstd::arithmetic::mul::lemma_mul_is_commutative(y, ra);
    }
    // z <= x: y * ra <= x * rb, and dividing both by rb keeps the order.
    vstd::arithmetic::div_mod::lemma_div_is_ordered(y * ra, x * rb, rb);
    vstd::arithmetic::div_mod::lemma_div_multiples_vanish(x, rb);
    assert((x * rb) / rb == x) by {
        vstd::arithmetic::mul::lemma_mul_is_commutative(x, rb);
    }
    assert(z <= x);
    // x - z <= (ra - 1) / rb + 1: the numerator dropped by less than ra.
    let k = (ra - 1) / rb + 1;
    assert(k * rb >= ra - 1) by (nonlinear_arith)
        requires
            1 <= ra,
            1 <= rb,
            k == (ra - 1) / rb + 1,
    ;
    assert((x - k) * rb <= y * ra) by (nonlinear_arith)
        requires
            y * ra == x * rb - r1,
            r1 < ra,
            k * rb >= ra - 1,
    ;
    vstd::arithmetic::div_mod::lemma_div_is_ordered((x - k) * rb, y * ra, rb);
    vstd::arithmetic::div_mod::lemma_div_multiples_vanish(x - k, rb);
    assert(((x - k) * rb) / rb == x - k) by {
        vstd::arithmetic::mul::lemma_mul_is_commutative(x - k, rb);
    }
    assert(x - k <= z);
}


/// The two pairwise factors a table yields for a currency pair are exact
/// reciprocals — the factor from B to A is the factor from A to B with
/// numerator and denominator exchanged — and applying one after the
/// other returns any amount to within the rounding of the two floor
/// divisions, never gaining.
pub proof fn lemma_factors_reciprocal(
    rates: Seq<RateEntry>,
    from: Currency,
    to: Currency,
    rf: u128,
    rt: u128,
)
    requires
        spec_rate_of(rates, spec_currency_code(from)) == Option::Some(rf),
        spec_rate_of(rates, spec_currency_code(to)) == Option::Some(rt),
        1 <= rf,
        1 <= rt,
    ensures
        // What `get_conversion_factor` returns for the two directions.
        (Factor { numer: rt, denom: rf }).numer == (Factor { numer: rf, denom: rt }).denom,
        (Factor { numer: rt, denom: rf }).denom == (Factor { numer: rf, denom: rt }).numer,
        forall|x: int|
            0 <= x ==> #[trigger] spec_mul_div(spec_mul_div(x, rt as int, rf as int), rf as int, rt as int)
                <= x,
        forall|x: int|
            0 <= x ==> x - #[trigger] spec_mul_div(
                spec_mul_div(x, rt as int, rf as int),
                rf as int,
                rt as int,
            ) <= (rf - 1) as int / (rt as int) + 1,
{
    assert forall|x: int| 0 <= x implies #[trigger] spec_mul_div(
        spec_mul_div(x, rt as int, rf as int),
        rf as int,
        rt as int,
    ) <= x && x - spec_mul_div(spec_mul_div(x, rt as int, rf as int), rf as int, rt as int) <= (rf
        - 1) as int / (rt as int) + 1 by {
        lemma_convert_round_trip(x, rf as int, rt as int);
    }
}

} // verus!
