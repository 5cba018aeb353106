//! Telephone numbers by chance.
use rand::Rng;
use vstd::prelude::*;
use crate::text::{concat4, decimal_u64};
#[allow(unused_imports)]
use crate::text::{all_digits, decimal, is_digit};

verus! {

/// `rand::Rng::random_range` of the thread's generator: a number of the range, its
/// end left out. It panics on an empty range.
#[verifier::external_body]
fn random_number(low: u16, high: u16) -> (n: u16)
    requires
        low < high,
    ensures
        low <= n < high,
{
    rand::rng().random_range(low..high)
}

/// A telephone number with a country code, of its three groups.
pub open spec fn phone_text(area: nat, exchange: nat, line: nat) -> Seq<char> {
    "+1"@ + decimal(area) + decimal(exchange) + decimal(line)
}

/// Whether numbers are groups of a telephone number.
pub open spec fn is_phone(area: nat, exchange: nat, line: nat) -> bool {
    200 <= area < 999 && 100 <= exchange < 999 && 1000 <= line < 9999
}

/// A telephone number of its three groups.
pub fn phone_number(area: u16, exchange: u16, line: u16) -> (phone: String)
    ensures
        phone@ == phone_text(area as nat, exchange as nat, line as nat),
{
    concat4(
        "+1",
        &decimal_u64(area as u64),
        &decimal_u64(exchange as u64),
        &decimal_u64(line as u64),
    )
}

/// Makes telephone numbers.
pub struct RandomUsPhoneGenerator;

impl RandomUsPhoneGenerator {
    /// A telephone number by chance.
    pub fn generate(&self) -> (phone: String)
        ensures
            exists|area: nat, exchange: nat, line: nat|
                is_phone(area, exchange, line) && phone@ == #[trigger] phone_text(
                    area,
                    exchange,
                    line,
                ),
    {
        let area: u16 = random_number(200, 999);
        let exchange: u16 = random_number(100, 999);
        let line: u16 = random_number(1000, 9999);
        assert(is_phone(area as nat, exchange as nat, line as nat));
        phone_number(area, exchange, line)
    }
}

proof fn lemma_small_decimal(n: nat)
    requires
        100 <= n < 10000,
    ensures
        decimal(n).len() == if n < 1000 { 3nat } else { 4nat },
        all_digits(decimal(n)),
{
    reveal_with_fuel(decimal, 5);
    assert forall|i: int| 0 <= i < decimal(n).len() implies is_digit(#[trigger] decimal(n)[i]) by {
    }
}

/// Every telephone number is made of the country code and ten digits.
pub proof fn lemma_phone_has_ten_digits(area: nat, exchange: nat, line: nat)
    requires
        is_phone(area, exchange, line),
    ensures
        phone_text(area, exchange, line).len() == 12,
        phone_text(area, exchange, line).take(2) == "+1"@,
        all_digits(phone_text(area, exchange, line).skip(2)),
{
    reveal_strlit("+1");
    lemma_small_decimal(area);
    lemma_small_decimal(exchange);
    lemma_small_decimal(line);
    let phone = phone_text(area, exchange, line);
    assert(phone.take(2) =~= "+1"@);
    let rest = phone.skip(2);
    assert(rest =~= decimal(area) + decimal(exchange) + decimal(line));
    assert forall|i: int| 0 <= i < rest.len() implies is_digit(#[trigger] rest[i]) by {
        if i < 3 {
            assert(rest[i] == decimal(area)[i]);
        } else if i < 6 {
            assert(rest[i] == decimal(exchange)[i - 3]);
        } else {
            assert(rest[i] == decimal(line)[i - 6]);
        }
    }
}

} // verus!
