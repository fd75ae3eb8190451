//! Status, quality and funded-amount calculators for one order-book diff.

use vstd::prelude::*;
use vstd::arithmetic::mul::lemma_mul_basics;
use crate::amount::CurrencyAmount;
use crate::decimal::{
    dec_lt, dec_to_string, div_quot, lemma_pow10_vals, lemma_quot_brackets, parse_dec, pow10,
    spec_dec_lt, spec_parse_dec, spec_qsteps, spec_quot_mant, spec_render,
};
use crate::errors::NormError;
use crate::json::{json_has, spec_get, str_eq, JsonValue};

verus! {

/// Lifecycle status of a normalized offer.
#[derive(Debug, Clone, Copy, PartialEq, Eq, Structural)]
pub enum OfferStatus {
    Created,
    PartiallyFilled,
    Filled,
    Cancelled,
}

/// Wire name of a status.
pub open spec fn spec_status_name(s: OfferStatus) -> Seq<char> {
    match s {
        OfferStatus::Created => "created"@,
        OfferStatus::PartiallyFilled => "partially-filled"@,
        OfferStatus::Filled => "filled"@,
        OfferStatus::Cancelled => "cancelled"@,
    }
}

impl OfferStatus {
    /// The status's wire name.
    pub fn as_str(&self) -> (r: &'static str)
        ensures
            r@ == spec_status_name(*self),
    {
        match self {
            OfferStatus::Created => "created",
            OfferStatus::PartiallyFilled => "partially-filled",
            OfferStatus::Filled => "filled",
            OfferStatus::Cancelled => "cancelled",
        }
    }
}

/// Status rule over a diff record and the post-diff taker-gets value:
/// `CreatedNode` present → created; else `ModifiedNode` present → by the
/// numeric gets value (positive → partially filled, zero → filled); else
/// cancelled.
pub open spec fn spec_offer_status(diff: JsonValue, gets_value: Seq<char>) -> Result<
    OfferStatus,
    NormError,
> {
    if spec_get(diff, "CreatedNode"@) is Some {
        Ok(OfferStatus::Created)
    } else if spec_get(diff, "ModifiedNode"@) is Some {
        match spec_parse_dec(gets_value) {
            Some(p) => if p.0 > 0 {
                Ok(OfferStatus::PartiallyFilled)
            } else {
                Ok(OfferStatus::Filled)
            },
            None => Err(NormError::MalformedAmount),
        }
    } else {
        Ok(OfferStatus::Cancelled)
    }
}

/// Derives the lifecycle status, following `spec_offer_status`.
pub fn get_offer_status(offer_object: &JsonValue, taker_gets: &CurrencyAmount) -> (r: Result<
    OfferStatus,
    NormError,
>)
    ensures
        match r {
            Ok(s) => spec_offer_status(*offer_object, taker_gets.value@) == Ok::<
                OfferStatus,
                NormError,
            >(s),
            Err(e) => spec_offer_status(*offer_object, taker_gets.value@) == Err::<
                OfferStatus,
                NormError,
            >(e),
        },
{
    if json_has(offer_object, "CreatedNode") {
        Ok(OfferStatus::Created)
    } else if json_has(offer_object, "ModifiedNode") {
        match parse_dec(taker_gets.value.as_str()) {
            Some(p) => if p.0 > 0 {
                Ok(OfferStatus::PartiallyFilled)
            } else {
                Ok(OfferStatus::Filled)
            },
            None => Err(NormError::MalformedAmount),
        }
    } else {
        Ok(OfferStatus::Cancelled)
    }
}

/// The quality string of a pays/gets pair of parsed decimals: the quotient
/// mantissa taken to at least 19 significant digits, rendered at its scale.
pub open spec fn spec_quality_str(pm: nat, ps: nat, gm: nat, gs: nat) -> Seq<char> {
    if pm == 0 {
        seq!['0']
    } else {
        spec_render(spec_quot_mant(pm, gm), spec_qsteps(pm, gm) + ps - gs)
    }
}

/// Quality rule: both legs must parse as decimals, and the gets leg must be
/// nonzero, else the quality request is degenerate.
pub open spec fn spec_calc_quality(gets_value: Seq<char>, pays_value: Seq<char>) -> Result<
    Seq<char>,
    NormError,
> {
    match spec_parse_dec(gets_value) {
        None => Err(NormError::MalformedAmount),
        Some(g) => match spec_parse_dec(pays_value) {
            None => Err(NormError::MalformedAmount),
            Some(p) => if g.0 == 0 {
                Err(NormError::InvalidQuality)
            } else {
                Ok(spec_quality_str(p.0, p.1, g.0, g.1))
            },
        },
    }
}

/// Price quality `taker_pays.value / taker_gets.value`, kept as a decimal
/// string, following `spec_calc_quality`.
pub fn calculate_quality(taker_gets: &CurrencyAmount, taker_pays: &CurrencyAmount) -> (r: Result<
    String,
    NormError,
>)
    ensures
        match r {
            Ok(q) => spec_calc_quality(taker_gets.value@, taker_pays.value@) == Ok::<
                Seq<char>,
                NormError,
            >(q@),
            Err(e) => spec_calc_quality(taker_gets.value@, taker_pays.value@) == Err::<
                Seq<char>,
                NormError,
            >(e),
        },
{
    let g = match parse_dec(taker_gets.value.as_str()) {
        Some(g) => g,
        None => {
            return Err(NormError::MalformedAmount);
        },
    };
    let p = match parse_dec(taker_pays.value.as_str()) {
        Some(p) => p,
        None => {
            return Err(NormError::MalformedAmount);
        },
    };
    if g.0 == 0 {
        return Err(NormError::InvalidQuality);
    }
    if p.0 == 0 {
        return Ok(dec_to_string(0, 0));
    }
    let q = div_quot(p.0, g.0);
    let scale: i32 = q.1 as i32 + p.1 as i32 - g.1 as i32;
    Ok(dec_to_string(q.0, scale))
}

/// Funded-amount rule for one leg, given the disclosed owner funds and the
/// two legs as decimal strings.  Empty result: the offer's full nominal
/// size is coverable, no capping applies.  Otherwise the gets side is
/// capped at the funds themselves, and the pays side at funds times
/// quality.
pub open spec fn spec_funded(
    owner_funds: Seq<char>,
    gets_value: Seq<char>,
    pays_value: Seq<char>,
    gets_side: bool,
) -> Result<Seq<char>, NormError> {
    match spec_parse_dec(owner_funds) {
        None => Err(NormError::InvalidAmount),
        Some(f) => match spec_parse_dec(gets_value) {
            None => Err(NormError::MalformedAmount),
            Some(g) => if spec_dec_lt(g.0, g.1, f.0, f.1) {
                Ok(Seq::empty())
            } else if gets_side {
                Ok(spec_render(f.0, f.1 as int))
            } else {
                match spec_parse_dec(pays_value) {
                    None => Err(NormError::MalformedAmount),
                    Some(p) => if g.0 == 0 {
                        Err(NormError::InvalidQuality)
                    } else {
                        Ok(
                            spec_render(
                                f.0 * spec_quot_mant(p.0, g.0),
                                f.1 + spec_qsteps(p.0, g.0) + p.1 - g.1,
                            ),
                        )
                    },
                }
            },
        },
    }
}

/// Liquidity-capped funded amount for one leg.  `side` selects the leg:
/// `"TakerGets"` caps the gets leg; any other value computes the pays leg.
/// Follows `spec_funded`.
pub fn calculate_unfunded_amounts(
    owner_funds: &str,
    taker_gets: &CurrencyAmount,
    taker_pays: &CurrencyAmount,
    side: &str,
) -> (r: Result<String, NormError>)
    ensures
        match r {
            Ok(s) => spec_funded(
                owner_funds@,
                taker_gets.value@,
                taker_pays.value@,
                side@ == "TakerGets"@,
            ) == Ok::<Seq<char>, NormError>(s@),
            Err(e) => spec_funded(
                owner_funds@,
                taker_gets.value@,
                taker_pays.value@,
                side@ == "TakerGets"@,
            ) == Err::<Seq<char>, NormError>(e),
        },
{
    let gets_side = str_eq(side, "TakerGets");
    let f = match parse_dec(owner_funds) {
        Some(f) => f,
        None => {
            return Err(NormError::InvalidAmount);
        },
    };
    let g = match parse_dec(taker_gets.value.as_str()) {
        Some(g) => g,
        None => {
            return Err(NormError::MalformedAmount);
        },
    };
    if dec_lt(g.0, g.1, f.0, f.1) {
        return Ok(String::new());
    }
    if gets_side {
        return Ok(dec_to_string(f.0, f.1 as i32));
    }
    let p = match parse_dec(taker_pays.value.as_str()) {
        Some(p) => p,
        None => {
            return Err(NormError::MalformedAmount);
        },
    };
    if g.0 == 0 {
        return Err(NormError::InvalidQuality);
    }
    if p.0 == 0 {
        proof {
            lemma_mul_basics(pow10(spec_qsteps(0, g.0 as nat)) as int);
            vstd::arithmetic::div_mod::lemma_div_of0(g.0 as int);
            assert(spec_quot_mant(0, g.0 as nat) == 0);
            lemma_mul_basics(f.0 as int);
            assert(f.0 as nat * spec_quot_mant(0, g.0 as nat) == 0);
            assert(spec_render(0, f.1 + spec_qsteps(0, g.0 as nat) + p.1 - g.1) == seq!['0']);
            assert(spec_render(0, 0) == seq!['0']);
        }
        return Ok(dec_to_string(0, 0));
    }
    let q = div_quot(p.0, g.0);
    proof {
        lemma_pow10_vals();
        assert((f.0 as int) * (q.0 as int) <= u128::MAX as int) by (nonlinear_arith)
            requires
                0 <= f.0 as int,
                0 <= q.0 as int,
                (f.0 as int) < pow10(19) as int,
                (q.0 as int) < pow10(19) as int,
                (pow10(19) * pow10(19)) as int <= u128::MAX as int + 1,
        {}
    }
    let mant: u128 = f.0 * q.0;
    let scale: i32 = f.1 as i32 + q.1 as i32 + p.1 as i32 - g.1 as i32;
    Ok(dec_to_string(mant, scale))
}

/// A creation diff always has status `created`; a diff that is neither a
/// creation nor a modification always has status `cancelled`.
pub proof fn lemma_status_created_cancelled(diff: JsonValue, gets_value: Seq<char>)
    ensures
        spec_get(diff, "CreatedNode"@) is Some ==> spec_offer_status(diff, gets_value) == Ok::<
            OfferStatus,
            NormError,
        >(OfferStatus::Created),
        spec_get(diff, "CreatedNode"@) is None && spec_get(diff, "ModifiedNode"@) is None
            ==> spec_offer_status(diff, gets_value) == Ok::<OfferStatus, NormError>(
            OfferStatus::Cancelled,
        ),
{
}

/// A modification diff is partially filled exactly when the post-diff
/// taker-gets value is strictly positive, and filled otherwise.
pub proof fn lemma_status_modified(diff: JsonValue, gets_value: Seq<char>, m: nat, s: nat)
    requires
        spec_get(diff, "CreatedNode"@) is None,
        spec_get(diff, "ModifiedNode"@) is Some,
        spec_parse_dec(gets_value) == Some((m, s)),
    ensures
        spec_offer_status(diff, gets_value) == Ok::<OfferStatus, NormError>(
            if m > 0 {
                OfferStatus::PartiallyFilled
            } else {
                OfferStatus::Filled
            },
        ),
{
}

/// The quality mantissa is the exact truncation of pays/gets at its own
/// scale: `qm * gm <= pm * 10^k < (qm + 1) * gm` with `k` the digit count
/// the quotient took on.  Dividing through by `gm * 10^(k + ps - gs)`,
/// the rendered quality `qm / 10^(k + ps - gs)` equals
/// `(pm / 10^ps) / (gm / 10^gs)` up to one unit in its last decimal place.
pub proof fn lemma_quality_truncates(pm: nat, gm: nat)
    requires
        0 < gm,
    ensures
        spec_quot_mant(pm, gm) * gm <= pm * pow10(spec_qsteps(pm, gm)),
        pm * pow10(spec_qsteps(pm, gm)) < (spec_quot_mant(pm, gm) + 1) * gm,
{
    lemma_quot_brackets(pm, gm);
}

/// When the disclosed funds do not exceed the nominal gets leg, the gets
/// side is capped at the funds themselves and the pays side at funds times
/// the quality mantissa, each rendered at its scale.
pub proof fn lemma_funded_caps(
    owner_funds: Seq<char>,
    gets_value: Seq<char>,
    pays_value: Seq<char>,
    f: (nat, nat),
    g: (nat, nat),
    p: (nat, nat),
)
    requires
        spec_parse_dec(owner_funds) == Some(f),
        spec_parse_dec(gets_value) == Some(g),
        spec_parse_dec(pays_value) == Some(p),
        !spec_dec_lt(g.0, g.1, f.0, f.1),
        g.0 > 0,
    ensures
        spec_funded(owner_funds, gets_value, pays_value, true) == Ok::<Seq<char>, NormError>(
            spec_render(f.0, f.1 as int),
        ),
        spec_funded(owner_funds, gets_value, pays_value, false) == Ok::<Seq<char>, NormError>(
            spec_render(f.0 * spec_quot_mant(p.0, g.0), f.1 + spec_qsteps(p.0, g.0) + p.1 - g.1),
        ),
{
}

} // verus!
