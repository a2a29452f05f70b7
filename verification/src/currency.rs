//! The closed set of supported currencies and their three-letter codes.

use vstd::prelude::*;
use crate::error::ParseFailure;
use crate::text::same_text;

verus! {

/// A supported currency.
#[allow(clippy::upper_case_acronyms)]
#[derive(Clone, Copy, Debug, PartialEq, Eq, Hash, Structural)]
pub enum Currency {
    PLN,
    EUR,
    USD,
    GBP,
}

/// The three-letter code under which a currency is stored and exchanged.
pub open spec fn code_of(currency: Currency) -> Seq<char> {
    match currency {
        Currency::PLN => "PLN"@,
        Currency::EUR => "EUR"@,
        Currency::USD => "USD"@,
        Currency::GBP => "GBP"@,
    }
}

/// The currency that a code names, if it names one.
pub open spec fn currency_of_code(code: Seq<char>) -> Option<Currency> {
    if code == "PLN"@ {
        Some(Currency::PLN)
    } else if code == "EUR"@ {
        Some(Currency::EUR)
    } else if code == "USD"@ {
        Some(Currency::USD)
    } else if code == "GBP"@ {
        Some(Currency::GBP)
    } else {
        None
    }
}

/// All currencies, in the order in which reports list them.
pub open spec fn all_currencies() -> Seq<Currency> {
    seq![Currency::PLN, Currency::EUR, Currency::USD, Currency::GBP]
}

impl Currency {
    /// The code of this currency.
    pub fn code(self) -> (code: &'static str)
        ensures
            code@ == code_of(self),
    {
        match self {
            Currency::PLN => "PLN",
            Currency::EUR => "EUR",
            Currency::USD => "USD",
            Currency::GBP => "GBP",
        }
    }

    /// Reads a currency code. Exactly the four codes are accepted, in upper
    /// case and with nothing around them.
    pub fn from_code(code: &str) -> (parsed: Result<Currency, ParseFailure>)
        ensures
            parsed == match currency_of_code(code@) {
                Some(currency) => Ok::<Currency, ParseFailure>(currency),
                None => Err(ParseFailure::Currency),
            },
    {
        if same_text(code, "PLN") {
            Ok(Currency::PLN)
        } else if same_text(code, "EUR") {
            Ok(Currency::EUR)
        } else if same_text(code, "USD") {
            Ok(Currency::USD)
        } else if same_text(code, "GBP") {
            Ok(Currency::GBP)
        } else {
            Err(ParseFailure::Currency)
        }
    }

    /// The four currencies, in the order in which reports list them.
    pub fn all() -> (list: [Currency; 4])
        ensures
            list@ == all_currencies(),
    {
        let list = [Currency::PLN, Currency::EUR, Currency::USD, Currency::GBP];
        assert(list@ =~= all_currencies());
        list
    }
}

/// The list of all currencies names each currency, and each once.
pub proof fn lemma_all_currencies()
    ensures
        all_currencies().no_duplicates(),
        forall|currency: Currency| all_currencies().contains(currency),
{
    let all = all_currencies();
    assert forall|currency: Currency| all.contains(currency) by {
        match currency {
            Currency::PLN => assert(all[0] == currency),
            Currency::EUR => assert(all[1] == currency),
            Currency::USD => assert(all[2] == currency),
            Currency::GBP => assert(all[3] == currency),
        }
    }
}

/// Writing a currency as its code and reading the code back gives the same
/// currency.
pub proof fn law_code_round_trip(currency: Currency)
    ensures
        currency_of_code(code_of(currency)) == Some(currency),
{
    reveal_strlit("PLN");
    reveal_strlit("EUR");
    reveal_strlit("USD");
    reveal_strlit("GBP");
    assert("PLN"@[0] != "EUR"@[0]);
    assert("PLN"@[0] != "USD"@[0]);
    assert("PLN"@[0] != "GBP"@[0]);
    assert("EUR"@[0] != "USD"@[0]);
    assert("EUR"@[0] != "GBP"@[0]);
    assert("USD"@[0] != "GBP"@[0]);
}

/// A text is read as a currency only if it is that currency's code: every
/// other text is refused.
pub proof fn law_only_codes_parse(code: Seq<char>)
    ensures
        match currency_of_code(code) {
            Some(currency) => code == code_of(currency),
            None => forall|currency: Currency| code != #[trigger] code_of(currency),
        },
{
}

} // verus!
