//! Symbol resolver.
//!
//! Maps a broker ticker to a canonical quote symbol and a withholding-tax
//! rate.  An override table is consulted first; otherwise the symbol is
//! derived from the ticker text alone: the part after the first `_` is
//! dropped, and a single trailing lowercase letter after a run of capitals
//! marks a London listing, so the capital run gains a `.L` suffix; in every
//! other case trailing lowercase letters are simply stripped.  Unknown
//! instruments are assumed taxable at a conservative 15 %.

use vstd::prelude::*;

verus! {

use vstd::string::StrSliceExecFns;
use vstd::string::StringExecFns;

/// Withholding-tax percentage assumed for instruments absent from the
/// override table.
pub const FALLBACK_TAX_PERCENT: i32 = 15;

/// Stock information attached to a resolved symbol.
#[derive(Debug, PartialEq)]
pub struct StockInfo {
    /// Company name, or `NA` when unknown.
    pub name: String,
    /// Listing country, or `NA` when unknown.
    pub country: String,
    /// Canonical quote symbol.
    pub yf_ticker: String,
    /// Withholding-tax rate in whole percent.
    pub tax: i32,
}

impl Clone for StockInfo {
    /// A field-for-field copy.
    fn clone(&self) -> (r: Self)
        ensures
            r == *self,
    {
        StockInfo {
            name: self.name.clone(),
            country: self.country.clone(),
            yf_ticker: self.yf_ticker.clone(),
            tax: self.tax,
        }
    }
}

/// One row of the symbol override table.
#[derive(Debug)]
pub struct SymbolEntry {
    /// Broker ticker the override applies to.
    pub ticker: String,
    /// The information returned for that ticker.
    pub info: StockInfo,
}

/// An ASCII capital letter.
pub open spec fn spec_is_upper(c: char) -> bool {
    'A' <= c <= 'Z'
}

/// An ASCII lowercase letter.
pub open spec fn spec_is_lower(c: char) -> bool {
    'a' <= c <= 'z'
}

/// Index of the first `_` in `s`, or `s.len()` when there is none.
pub open spec fn spec_first_underscore(s: Seq<char>) -> int
    decreases s.len(),
{
    if s.len() == 0 {
        0
    } else if s[0] == '_' {
        0
    } else {
        1 + spec_first_underscore(s.drop_first())
    }
}

/// Start of the maximal run of capital letters ending just before
/// position `i`.
pub open spec fn spec_upper_run_start(s: Seq<char>, i: int) -> int
    decreases i,
{
    if i > 0 && spec_is_upper(s[i - 1]) {
        spec_upper_run_start(s, i - 1)
    } else {
        i
    }
}

/// Start of the maximal run of lowercase letters ending just before
/// position `i`.
pub open spec fn spec_lower_run_start(s: Seq<char>, i: int) -> int
    decreases i,
{
    if i > 0 && spec_is_lower(s[i - 1]) {
        spec_lower_run_start(s, i - 1)
    } else {
        i
    }
}

/// The ticker text up to the first `_`.
pub open spec fn spec_ticker_base(s: Seq<char>) -> Seq<char> {
    s.subrange(0, spec_first_underscore(s))
}

/// Whether the base ends in one lowercase letter right after a capital:
/// the shape of a London-listing marker.
pub open spec fn spec_has_exchange_marker(base: Seq<char>) -> bool {
    base.len() >= 2 && spec_is_lower(base[base.len() - 1]) && spec_is_upper(base[base.len() - 2])
}

/// The symbol derived from a broker ticker when the override table has no
/// entry for it.
pub open spec fn spec_fallback_symbol(s: Seq<char>) -> Seq<char> {
    let base = spec_ticker_base(s);
    if spec_has_exchange_marker(base) {
        base.subrange(spec_upper_run_start(base, base.len() - 1), base.len() - 1) + ".L"@
    } else {
        base.subrange(0, spec_lower_run_start(base, base.len() as int))
    }
}

/// The override entry for a ticker: the first row with that ticker.
pub open spec fn spec_table_lookup(table: Seq<SymbolEntry>, ticker: Seq<char>) -> Option<StockInfo>
    decreases table.len(),
{
    if table.len() == 0 {
        Option::None
    } else if table[0].ticker@ == ticker {
        Option::Some(table[0].info)
    } else {
        spec_table_lookup(table.drop_first(), ticker)
    }
}

/// The canonical symbol a ticker resolves to.
pub open spec fn spec_resolved_symbol(table: Seq<SymbolEntry>, ticker: Seq<char>) -> Seq<char> {
    match spec_table_lookup(table, ticker) {
        Option::Some(info) => info.yf_ticker@,
        Option::None => spec_fallback_symbol(ticker),
    }
}

/// The withholding-tax percentage a ticker resolves to.
pub open spec fn spec_resolved_tax(table: Seq<SymbolEntry>, ticker: Seq<char>) -> int {
    match spec_table_lookup(table, ticker) {
        Option::Some(info) => info.tax as int,
        Option::None => FALLBACK_TAX_PERCENT as int,
    }
}

/// `spec_first_underscore` is the index of the first underscore.
proof fn lemma_first_underscore_is(s: Seq<char>, k: int)
    requires
        0 <= k <= s.len(),
        forall|j: int| 0 <= j < k ==> s[j] != '_',
        k < s.len() ==> s[k] == '_',
    ensures
        spec_first_underscore(s) == k,
    decreases k,
{
    if k == 0 {
    } else {
        assert(s[0] != '_');
        lemma_first_underscore_is(s.drop_first(), k - 1);
    }
}

/// The character at position `j` is an ASCII capital letter.
fn is_upper_at(s: &str, j: usize) -> (r: bool)
    requires
        j < s@.len(),
    ensures
        r == spec_is_upper(s@[j as int]),
{
    let c = s.get_char(j);
    'A' <= c && c <= 'Z'
}

/// The character at position `j` is an ASCII lowercase letter.
fn is_lower_at(s: &str, j: usize) -> (r: bool)
    requires
        j < s@.len(),
    ensures
        r == spec_is_lower(s@[j as int]),
{
    let c = s.get_char(j);
    'a' <= c && c <= 'z'
}

/// The character at position `j` is an underscore.
fn is_underscore_at(s: &str, j: usize) -> (r: bool)
    requires
        j < s@.len(),
    ensures
        r == (s@[j as int] == '_'),
{
    s.get_char(j) == '_'
}

/// Resolves a broker ticker to `(the ticker itself, its stock info)`.
///
/// When the override table holds the ticker, the table row is returned
/// verbatim; otherwise the symbol follows the fallback derivation and the
/// tax rate is `FALLBACK_TAX_PERCENT`.
pub fn extract_symbol(t212_ticker: &str, table: &Vec<SymbolEntry>) -> (r: (String, StockInfo))
    ensures
        r.0@ == t212_ticker@,
        r.1.yf_ticker@ == spec_resolved_symbol(table@, t212_ticker@),
        r.1.tax == spec_resolved_tax(table@, t212_ticker@),
        match spec_table_lookup(table@, t212_ticker@) {
            Option::Some(info) => r.1 == info,
            Option::None => r.1.name@ == "NA"@ && r.1.country@ == "NA"@,
        },
{
    // Override table first.
    let n = table.len();
    let mut i: usize = 0;
    proof {
        assert(table@.skip(0) =~= table@);
    }
    while i < n
        invariant
            n == table@.len(),
            0 <= i <= n,
            spec_table_lookup(table@, t212_ticker@) == spec_table_lookup(
                table@.skip(i as int),
                t212_ticker@,
            ),
        decreases n - i,
    {
        proof {
            assert(table@.skip(i as int)[0] == table@[i as int]);
        }
        if crate::text::str_eq(table[i].ticker.as_str(), t212_ticker) {
            return (t212_ticker.to_owned(), table[i].info.clone());
        }
        proof {
            assert(table@.skip(i as int).drop_first() =~= table@.skip(i + 1));
        }
        i = i + 1;
    }
    proof {
        assert(table@.skip(n as int).len() == 0);
    }

    // Fallback derivation from the ticker text.
    let len = t212_ticker.unicode_len();
    let mut fu: usize = 0;
    while fu < len && !is_underscore_at(t212_ticker, fu)
        invariant
            len == t212_ticker@.len(),
            0 <= fu <= len,
            forall|j: int| 0 <= j < fu ==> t212_ticker@[j] != '_',
        decreases len - fu,
    {
        fu = fu + 1;
    }
    proof {
        lemma_first_underscore_is(t212_ticker@, fu as int);
    }
    let base = t212_ticker.substring_char(0, fu);
    proof {
        assert(base@ =~= spec_ticker_base(t212_ticker@));
    }

    let marker = if fu >= 2 {
        is_lower_at(base, fu - 1) && is_upper_at(base, fu - 2)
    } else {
        false
    };
    let fallback: String = if marker {
        let mut k: usize = fu - 1;
        while k > 0 && is_upper_at(base, k - 1)
            invariant
                base@.len() == fu,
                2 <= fu,
                0 <= k <= fu - 1,
                spec_upper_run_start(base@, fu - 1) == spec_upper_run_start(base@, k as int),
            decreases k,
        {
            k = k - 1;
        }
        let run = base.substring_char(k, fu - 1);
        let run_owned: String = run.to_owned();
        let symbol = run_owned.concat(".L");
        proof {
            assert(spec_upper_run_start(base@, k as int) == k);
            assert(symbol@ == spec_fallback_symbol(t212_ticker@));
        }
        symbol
    } else {
        let mut k: usize = fu;
        while k > 0 && is_lower_at(base, k - 1)
            invariant
                base@.len() == fu,
                0 <= k <= fu,
                spec_lower_run_start(base@, fu as int) == spec_lower_run_start(base@, k as int),
            decreases k,
        {
            k = k - 1;
        }
        let stripped = base.substring_char(0, k);
        proof {
            assert(spec_lower_run_start(base@, k as int) == k);
            assert(stripped@ == spec_fallback_symbol(t212_ticker@));
        }
        stripped.to_owned()
    };

    (
        t212_ticker.to_owned(),
        StockInfo {
            name: "NA".to_owned(),
            country: "NA".to_owned(),
            yf_ticker: fallback,
            tax: FALLBACK_TAX_PERCENT,
        },
    )
}

} // verus!
