//! Exchange rates to the reference currency, the euro, with approximate
//! rates to fall back on where none is stored.

use vstd::prelude::*;
use crate::amount::{Rate, MAX_RATE};
use crate::currency::Currency;

verus! {

/// The approximate rate, in ten-thousandths of a euro, that stands in for a
/// currency without a stored rate: 0.23 for PLN, 1.00 for EUR, 0.92 for USD,
/// 1.18 for GBP.
pub open spec fn fallback_scaled(currency: Currency) -> int {
    match currency {
        Currency::PLN => 2_300,
        Currency::EUR => 10_000,
        Currency::USD => 9_200,
        Currency::GBP => 11_800,
    }
}

/// The rate that applies to a currency, in ten-thousandths: the stored one,
/// else the approximate one.
pub open spec fn effective_rate(stored: Map<Currency, int>, currency: Currency) -> int {
    if stored.dom().contains(currency) {
        stored[currency]
    } else {
        fallback_scaled(currency)
    }
}

/// The outcome of looking a rate up.
#[derive(Clone, Copy, Debug, PartialEq, Eq, Structural)]
pub struct RateLookup {
    /// The rate to use.
    pub rate: Rate,
    /// Whether no rate was stored, so that the approximate one was taken. A
    /// caller reports this as a warning, never as a failure.
    pub fallback: bool,
}

/// The stored exchange rates: at most one for each currency.
#[derive(Clone, Copy, Debug)]
pub struct RateTable {
    pln: Option<Rate>,
    eur: Option<Rate>,
    usd: Option<Rate>,
    gbp: Option<Rate>,
}

impl RateTable {
    spec fn slot(self, currency: Currency) -> Option<Rate> {
        match currency {
            Currency::PLN => self.pln,
            Currency::EUR => self.eur,
            Currency::USD => self.usd,
            Currency::GBP => self.gbp,
        }
    }
}

impl View for RateTable {
    type V = Map<Currency, int>;

    /// The stored rates, in ten-thousandths, by currency.
    closed spec fn view(&self) -> Map<Currency, int> {
        Map::new(|c: Currency| self.slot(c) is Some, |c: Currency| self.slot(c)->0@)
    }
}

/// The approximate rate of a currency.
pub fn fallback_rate(currency: Currency) -> (rate: Rate)
    ensures
        rate@ == fallback_scaled(currency),
        rate.wf(),
{
    let scaled: u32 = match currency {
        Currency::PLN => 2_300,
        Currency::EUR => 10_000,
        Currency::USD => 9_200,
        Currency::GBP => 11_800,
    };
    Rate::from_scaled(scaled).unwrap()
}

impl RateTable {
    /// Whether every stored rate is within the supported range.
    pub open spec fn wf(self) -> bool {
        forall|c: Currency| (#[trigger] self@.dom().contains(c)) ==> 0 <= self@[c] <= MAX_RATE
    }

    /// A table without any stored rate.
    pub fn new() -> (table: RateTable)
        ensures
            table@ == Map::<Currency, int>::empty(),
            table.wf(),
    {
        let table = RateTable { pln: None, eur: None, usd: None, gbp: None };
        assert(table@ =~= Map::<Currency, int>::empty());
        table
    }

    /// Stores the rate of a currency, in place of an earlier one.
    pub fn set(&mut self, currency: Currency, rate: Rate)
        requires
            old(self).wf(),
            rate.wf(),
        ensures
            final(self)@ == old(self)@.insert(currency, rate@),
            final(self).wf(),
    {
        match currency {
            Currency::PLN => {
                self.pln = Some(rate);
            },
            Currency::EUR => {
                self.eur = Some(rate);
            },
            Currency::USD => {
                self.usd = Some(rate);
            },
            Currency::GBP => {
                self.gbp = Some(rate);
            },
        }
        assert(self@ =~= old(self)@.insert(currency, rate@));
    }

    /// The stored rate of a currency, if there is one.
    pub fn stored(&self, currency: Currency) -> (rate: Option<Rate>)
        ensures
            rate is Some <==> self@.dom().contains(currency),
            rate matches Some(r) ==> r@ == self@[currency],
    {
        match currency {
            Currency::PLN => self.pln,
            Currency::EUR => self.eur,
            Currency::USD => self.usd,
            Currency::GBP => self.gbp,
        }
    }

    /// The rate to use for a currency: the stored one, else the approximate
    /// one, and whether it is the latter. A missing rate is no error.
    pub fn lookup(&self, currency: Currency) -> (found: RateLookup)
        ensures
            found.rate@ == effective_rate(self@, currency),
            found.fallback == !self@.dom().contains(currency),
            self.wf() ==> found.rate.wf(),
    {
        match self.stored(currency) {
            Some(rate) => RateLookup { rate, fallback: false },
            None => RateLookup { rate: fallback_rate(currency), fallback: true },
        }
    }
}

} // verus!
