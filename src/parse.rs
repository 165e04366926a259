use vstd::prelude::*;

use rust_decimal::Decimal;

use crate::errors::EngineError;
use crate::models::{
    kind_named, Amount, Transaction, TransactionType, MAX_BALANCE_UNITS, MAX_DISPLAY_PRECISION,
};

verus! {

/// What `str::to_lowercase` makes of a string.
pub uninterp spec fn lower_of(s: Seq<char>) -> Seq<char>;

/// Relies on `str::to_lowercase`: the result depends on the characters alone.
#[verifier::external_body]
fn lowercase(s: &str) -> (r: String)
    ensures
        r@ == lower_of(s@),
{
    s.to_lowercase()
}

/// What rust_decimal's parser makes of a string: the number's mantissa and
/// scale (its value is `mantissa / 10^scale`), or `None` when it rejects it.
pub uninterp spec fn decimal_parts(s: Seq<char>) -> Option<(i128, u32)>;

/// Relies on `FromStr for rust_decimal::Decimal`, and on that type's range:
/// a scale of at most 28 and a mantissa under 2^96 in magnitude.
#[verifier::external_body]
fn parse_decimal(s: &str) -> (r: Option<(i128, u32)>)
    ensures
        r == decimal_parts(s@),
        r matches Some(p) ==> p.1 <= 28 && -MAX_BALANCE_UNITS <= p.0 <= MAX_BALANCE_UNITS,
{
    match s.parse::<Decimal>() {
        Ok(d) => Some((d.mantissa(), d.scale())),
        Err(_) => None,
    }
}

pub open spec fn pow10(n: nat) -> nat
    decreases n,
{
    if n == 0 {
        1
    } else {
        10 * pow10((n - 1) as nat)
    }
}

/// The count of ten-thousandths in `mantissa / 10^scale`, cut (not rounded)
/// to four fractional digits; `mantissa` is positive.
pub open spec fn truncated_units(mantissa: int, scale: nat) -> int {
    if scale <= MAX_DISPLAY_PRECISION {
        mantissa * pow10((MAX_DISPLAY_PRECISION - scale) as nat)
    } else {
        mantissa / (pow10((scale - MAX_DISPLAY_PRECISION) as nat) as int)
    }
}

/// `10^n`, for `n` up to 28.
fn pow10_exec(n: u32) -> (r: i128)
    requires
        n <= 28,
    ensures
        r == pow10(n as nat),
        r <= pow10(28),
{
    let mut r: i128 = 1;
    let mut i: u32 = 0;
    while i < n
        invariant
            i <= n <= 28,
            r == pow10(i as nat),
        decreases n - i,
    {
        proof {
            lemma_pow10_grows((i + 1) as nat, 28);
            lemma_pow10_28();
        }
        r = r * 10;
        i = i + 1;
    }
    proof {
        lemma_pow10_grows(n as nat, 28);
    }
    r
}

proof fn lemma_pow10_28()
    ensures
        pow10(28) == 10000000000000000000000000000,
{
    reveal_with_fuel(pow10, 29);
}

proof fn lemma_pow10_grows(a: nat, b: nat)
    requires
        a <= b,
    ensures
        1 <= pow10(a) <= pow10(b),
    decreases b,
{
    if a < b {
        lemma_pow10_grows(a, (b - 1) as nat);
    } else if a > 0 {
        lemma_pow10_grows((a - 1) as nat, (a - 1) as nat);
    }
}

/// The amount of a record whose decimal field has the given mantissa and
/// scale: refused unless strictly positive, then cut to four fractional
/// digits.
pub fn amount_from_parts(mantissa: i128, scale: u32) -> (r: Result<Amount, EngineError>)
    requires
        scale <= 28,
        -MAX_BALANCE_UNITS <= mantissa <= MAX_BALANCE_UNITS,
    ensures
        mantissa <= 0 ==> r matches Err(EngineError::TransactionError(_)),
        mantissa > 0 ==> r == Ok::<Amount, EngineError>(
            Amount { units: truncated_units(mantissa as int, scale as nat) as i128 },
        ),
        mantissa > 0 ==> 0 <= truncated_units(mantissa as int, scale as nat) <= MAX_BALANCE_UNITS * 10000,
{
    if mantissa <= 0 {
        return Err(EngineError::TransactionError("Amount must be positive".to_owned()));
    }
    if scale <= MAX_DISPLAY_PRECISION {
        let factor = pow10_exec(MAX_DISPLAY_PRECISION - scale);
        proof {
            lemma_pow10_grows((MAX_DISPLAY_PRECISION - scale) as nat, 4);
            reveal_with_fuel(pow10, 5);
            assert(mantissa * factor <= MAX_BALANCE_UNITS * 10000) by (nonlinear_arith)
                requires
                    0 < mantissa <= MAX_BALANCE_UNITS,
                    1 <= factor <= 10000,
            ;
            assert(mantissa * factor >= 0) by (nonlinear_arith)
                requires
                    0 < mantissa,
                    1 <= factor,
            ;
        }
        Ok(Amount { units: mantissa * factor })
    } else {
        let divisor = pow10_exec(scale - MAX_DISPLAY_PRECISION);
        proof {
            lemma_pow10_grows((scale - MAX_DISPLAY_PRECISION) as nat, 28);
            assert(mantissa / divisor <= mantissa) by (nonlinear_arith)
                requires
                    0 < mantissa,
                    1 <= divisor,
            ;
        }
        Ok(Amount { units: mantissa / divisor })
    }
}

pub open spec fn is_digit(c: char) -> bool {
    '0' <= c <= '9'
}

/// The number written by a string of decimal digits.
pub open spec fn digits_value(d: Seq<char>) -> nat
    decreases d.len(),
{
    if d.len() == 0 {
        0
    } else {
        digits_value(d.drop_last()) * 10 + (d.last() as nat - '0' as nat) as nat
    }
}

/// `s` without the `+` that may lead it.
pub open spec fn unsigned_digits(s: Seq<char>) -> Seq<char> {
    if s.len() > 0 && s[0] == '+' {
        s.drop_first()
    } else {
        s
    }
}

/// The number written by `s` as std's integer parsers read an unsigned
/// number: an optional `+`, then one or more decimal digits.
pub open spec fn unsigned_numeral(s: Seq<char>) -> Option<nat> {
    let digits = unsigned_digits(s);
    if digits.len() > 0 && forall|i: int| 0 <= i < digits.len() ==> is_digit(#[trigger] digits[i]) {
        Some(digits_value(digits))
    } else {
        None
    }
}

proof fn lemma_digits_value_grows(d: Seq<char>, k: int)
    requires
        0 <= k <= d.len(),
        forall|i: int| 0 <= i < d.len() ==> is_digit(#[trigger] d[i]),
    ensures
        digits_value(d.take(k)) <= digits_value(d),
    decreases d.len(),
{
    if k < d.len() {
        let rest = d.drop_last();
        assert(rest.take(k) =~= d.take(k));
        lemma_digits_value_grows(rest, k);
    } else {
        assert(d.take(k) =~= d);
    }
}

/// The number that `s` writes, when it is at most `u32::MAX`.
pub fn parse_u32(s: &str) -> (r: Option<u32>)
    ensures
        r == (match unsigned_numeral(s@) {
            Some(v) => if v <= u32::MAX {
                Some(v as u32)
            } else {
                None::<u32>
            },
            None => None::<u32>,
        }),
{
    let n = s.unicode_len();
    let start: usize = if n > 0 && s.get_char(0) == '+' {
        1
    } else {
        0
    };
    let ghost digits = s@.subrange(start as int, n as int);
    assert(digits =~= unsigned_digits(s@));
    if start == n {
        return None;
    }
    let mut value: u64 = 0;
    let mut i: usize = start;
    while i < n
        invariant
            start <= i <= n,
            n == s@.len(),
            digits == s@.subrange(start as int, n as int),
            digits == unsigned_digits(s@),
            forall|j: int| 0 <= j < i - start ==> is_digit(#[trigger] digits[j]),
            value == digits_value(digits.take(i - start)),
            value <= u32::MAX,
        decreases n - i,
    {
        let c = s.get_char(i);
        assert(digits[i - start] == c);
        if !('0' <= c && c <= '9') {
            assert(!is_digit(digits[i - start]));
            assert(unsigned_numeral(s@) is None);
            return None;
        }
        let ghost k = i - start + 1;
        assert(digits.take(k).drop_last() =~= digits.take(k - 1));
        value = value * 10 + (c as u64 - '0' as u64);
        i = i + 1;
        assert(value == digits_value(digits.take(k)));
        if value > 0xffff_ffff {
            proof {
                if forall|j: int| 0 <= j < digits.len() ==> is_digit(#[trigger] digits[j]) {
                    lemma_digits_value_grows(digits, k);
                }
            }
            return None;
        }
    }
    assert(digits.take(n - start) =~= digits);
    Some(value as u32)
}

/// The number that `s` writes, when it is at most `u16::MAX`.
pub fn parse_u16(s: &str) -> (r: Option<u16>)
    ensures
        r == (match unsigned_numeral(s@) {
            Some(v) => if v <= u16::MAX {
                Some(v as u16)
            } else {
                None::<u16>
            },
            None => None::<u16>,
        }),
{
    match parse_u32(s) {
        Some(v) => if v <= 0xffff {
            Some(v as u16)
        } else {
            None
        },
        None => None,
    }
}

/// The amount field of a deposit or withdrawal record, as
/// `amount_from_parts` reads the decimal that the field holds.
pub open spec fn record_amount(field: Seq<char>) -> Option<Amount> {
    match decimal_parts(field) {
        Some(p) => if p.0 > 0 {
            Some(Amount { units: truncated_units(p.0 as int, p.1 as nat) as i128 })
        } else {
            None
        },
        None => None,
    }
}

/// The transaction that a record with the fields `type, client, tx, amount`
/// describes, or `None` when the record is rejected: fewer than four fields,
/// a type that is not one of the five kinds in any case, a client or id that
/// is not a number of its width, or, for a deposit or withdrawal, an amount
/// that is not a strictly positive decimal. Amounts are cut to four
/// fractional digits; other kinds carry none, whatever the field holds.
pub open spec fn record_transaction(fields: Seq<Seq<char>>) -> Option<Transaction> {
    if fields.len() < 4 {
        None
    } else {
        let kind = kind_named(lower_of(fields[0]));
        let client = unsigned_numeral(fields[1]);
        let tx_id = unsigned_numeral(fields[2]);
        if kind is None || client is None || tx_id is None {
            None
        } else if client->0 > u16::MAX || tx_id->0 > u32::MAX {
            None
        } else {
            let kind = kind->0;
            let amount = match kind {
                TransactionType::Deposit => Some(record_amount(fields[3])),
                TransactionType::Withdrawal => Some(record_amount(fields[3])),
                _ => None,
            };
            if amount matches Some(None) {
                None
            } else {
                Some(
                    Transaction {
                        tx_type: kind,
                        client: client->0 as u16,
                        tx_id: tx_id->0 as u32,
                        amount: match amount {
                            Some(a) => a,
                            None => None,
                        },
                        under_dispute: false,
                    },
                )
            }
        }
    }
}

/// Reads one record, its fields already split and trimmed.
pub fn validate_and_parse_transaction(record: &[&str]) -> (r: Result<Transaction, EngineError>)
    ensures
        match record_transaction(record@.map_values(|f: &str| f@)) {
            Some(t) => r == Ok::<Transaction, EngineError>(t),
            None => r matches Err(EngineError::TransactionError(_)),
        },
{
    let ghost fields = record@.map_values(|f: &str| f@);
    if record.len() < 4 {
        return Err(EngineError::TransactionError("Insufficient data in transaction string".to_owned()));
    }
    assert(fields[0] == record[0]@ && fields[1] == record[1]@);
    assert(fields[2] == record[2]@ && fields[3] == record[3]@);
    let transaction_type = match TransactionType::from_name(lowercase(record[0]).as_str()) {
        Some(kind) => kind,
        None => {
            return Err(EngineError::TransactionError("Invalid transaction type".to_owned()));
        },
    };
    let client = match parse_u16(record[1]) {
        Some(client) => client,
        None => {
            return Err(EngineError::TransactionError("Invalid client ID".to_owned()));
        },
    };
    let tx_id = match parse_u32(record[2]) {
        Some(tx_id) => tx_id,
        None => {
            return Err(EngineError::TransactionError("Invalid transaction ID".to_owned()));
        },
    };
    let amount = match transaction_type {
        TransactionType::Deposit | TransactionType::Withdrawal => match parse_decimal(record[3]) {
            Some((mantissa, scale)) => match amount_from_parts(mantissa, scale) {
                Ok(amount) => Some(amount),
                Err(e) => {
                    return Err(e);
                },
            },
            None => {
                return Err(EngineError::TransactionError("Invalid amount".to_owned()));
            },
        },
        _ => None,
    };
    Ok(Transaction { tx_type: transaction_type, client, tx_id, amount, under_dispute: false })
}

} // verus!
