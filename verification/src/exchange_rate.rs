//! Standalone exchange-rate lookup with a one-hour cache.
//!
//! The HTTP fetch against the public rate source lives outside this
//! crate; here are the decisions around it: whether a cached table may
//! answer a request, and what a freshly fetched table answers.

use vstd::prelude::*;

use crate::currency::{spec_rate_of, RateEntry};

verus! {

/// Errors of the standalone rate lookup.
#[derive(Debug, Clone, PartialEq, Eq, Structural)]
pub enum ExchangeRateError {
    /// The rate source could not be reached.
    RequestFailed,
    /// The rate source's answer could not be read.
    ParseError,
    /// The rate source knows no rate for the requested pair.
    ConversionNotAvailable,
}

/// Seconds a cached rate table stays usable (one hour).
pub const RATE_CACHE_TTL_S: u64 = 3600;

/// A cached rate table: rates against `base`, fetched at `timestamp`.
#[derive(Debug)]
pub struct CachedRates {
    /// Base currency code the rates are against.
    pub base: String,
    /// Rates in micro-units per unit of `base`.
    pub rates: Vec<RateEntry>,
    /// Seconds timestamp of the fetch.
    pub timestamp: u64,
}

/// The rate a cache may answer for `from -> to` at time `now`: present
/// exactly when the cache exists, is based on `from`, is younger than the
/// time-to-live, and holds `to`.
pub open spec fn spec_cached_rate(
    cache: Option<CachedRates>,
    from: Seq<char>,
    to: Seq<char>,
    now: int,
) -> Option<u128> {
    match cache {
        Option::Some(c) => if c.base@ == from && c.timestamp + RATE_CACHE_TTL_S > now {
            spec_rate_of(c.rates@, to)
        } else {
            Option::None
        },
        Option::None => Option::None,
    }
}

/// Answers a rate request from the cache when the cache may answer it.
pub fn rate_from_cache(cache: &Option<CachedRates>, from: &str, to: &str, now: u64) -> (r: Option<
    u128,
>)
    requires
        match cache {
            Option::Some(c) => c.timestamp + RATE_CACHE_TTL_S <= u64::MAX,
            Option::None => true,
        },
    ensures
        r == spec_cached_rate(*cache, from@, to@, now as int),
{
    match cache {
        Option::Some(c) => {
            if crate::text::str_eq(c.base.as_str(), from) && c.timestamp + RATE_CACHE_TTL_S > now {
                c.lookup(to)
            } else {
                Option::None
            }
        },
        Option::None => Option::None,
    }
}

impl CachedRates {
    /// Finds the rate stored for `code`.
    pub fn lookup(&self, code: &str) -> (r: Option<u128>)
        ensures
            r == spec_rate_of(self.rates@, code@),
    {
        let n = self.rates.len();
        let mut i: usize = 0;
        proof {
            assert(self.rates@.skip(0) =~= self.rates@);
        }
        while i < n
            invariant
                n == self.rates@.len(),
                0 <= i <= n,
                spec_rate_of(self.rates@, code@) == spec_rate_of(
                    self.rates@.skip(i as int),
                    code@,
                ),
            decreases n - i,
        {
            proof {
                assert(self.rates@.skip(i as int)[0] == self.rates@[i as int]);
            }
            if crate::text::str_eq(self.rates[i].code.as_str(), code) {
                return Option::Some(self.rates[i].rate);
            }
            proof {
                assert(self.rates@.skip(i as int).drop_first() =~= self.rates@.skip(i + 1));
            }
            i = i + 1;
        }
        proof {
            assert(self.rates@.skip(n as int).len() == 0);
        }
        Option::None
    }
}

/// Picks the requested rate out of a freshly fetched table, reporting
/// `ConversionNotAvailable` exactly when the table lacks it.
pub fn rate_from_response(rates: &Vec<RateEntry>, to: &str) -> (r: Result<u128, ExchangeRateError>)
    ensures
        match spec_rate_of(rates@, to@) {
            Option::Some(v) => r == Result::<u128, ExchangeRateError>::Ok(v),
            Option::None => r == Result::<u128, ExchangeRateError>::Err(
                ExchangeRateError::ConversionNotAvailable,
            ),
        },
{
    let n = rates.len();
    let mut i: usize = 0;
    proof {
        assert(rates@.skip(0) =~= rates@);
    }
    while i < n
        invariant
            n == rates@.len(),
            0 <= i <= n,
            spec_rate_of(rates@, to@) == spec_rate_of(rates@.skip(i as int), to@),
        decreases n - i,
    {
        proof {
            assert(rates@.skip(i as int)[0] == rates@[i as int]);
        }
        if crate::text::str_eq(rates[i].code.as_str(), to) {
            return Result::Ok(rates[i].rate);
        }
        proof {
            assert(rates@.skip(i as int).drop_first() =~= rates@.skip(i + 1));
        }
        i = i + 1;
    }
    proof {
        assert(rates@.skip(n as int).len() == 0);
    }
    Result::Err(ExchangeRateError::ConversionNotAvailable)
}

} // verus!
