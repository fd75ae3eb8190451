//! The currency-amount decoder: one uniform amount shape out of either raw
//! representation (bare numeric string, or compound record).

use vstd::prelude::*;
use vstd::string::StringExecFns;
use crate::errors::NormError;
use crate::json::{spec_get, spec_lookup, json_get, JsonValue};

verus! {

/// One uniform currency amount: asset symbol (or the native marker),
/// issuer identifier (empty for the native asset), and decimal value
/// string.
#[derive(Debug, PartialEq, Eq)]
pub struct CurrencyAmount {
    pub currency: String,
    pub issuer: String,
    pub value: String,
}

/// The decoded triple, at specification level.
pub struct SpecAmount {
    pub currency: Seq<char>,
    pub issuer: Seq<char>,
    pub value: Seq<char>,
}

impl View for CurrencyAmount {
    type V = SpecAmount;

    open spec fn view(&self) -> SpecAmount {
        SpecAmount { currency: self.currency@, issuer: self.issuer@, value: self.value@ }
    }
}

/// Decoding rule for one raw amount value.  A bare string denotes the
/// native asset with empty issuer; a compound record must carry a string
/// `value`, with `currency` defaulting to the native marker and `issuer`
/// defaulting to empty.  Every other shape is a malformed amount.
pub open spec fn spec_decode_amount(v: JsonValue) -> Result<SpecAmount, NormError> {
    match v {
        JsonValue::Str(s) => Ok(
            SpecAmount { currency: "XRP"@, issuer: Seq::empty(), value: s@ },
        ),
        JsonValue::Object(_) => match spec_get(v, "value"@) {
            Some(JsonValue::Str(val)) => {
                let cur = match spec_get(v, "currency"@) {
                    Some(JsonValue::Str(c)) => Some(c@),
                    Some(_) => None,
                    None => Some("XRP"@),
                };
                let iss = match spec_get(v, "issuer"@) {
                    Some(JsonValue::Str(c)) => Some(c@),
                    Some(_) => None,
                    None => Some(Seq::<char>::empty()),
                };
                if cur is Some && iss is Some {
                    Ok(
                        SpecAmount {
                            currency: cur.unwrap(),
                            issuer: iss.unwrap(),
                            value: val@,
                        },
                    )
                } else {
                    Err(NormError::MalformedAmount)
                }
            },
            _ => Err(NormError::MalformedAmount),
        },
        _ => Err(NormError::MalformedAmount),
    }
}

impl CurrencyAmount {
    /// Decodes one raw amount value, following `spec_decode_amount`.
    pub fn new(currency_amount: &JsonValue) -> (r: Result<CurrencyAmount, NormError>)
        ensures
            match r {
                Ok(c) => spec_decode_amount(*currency_amount) == Ok::<SpecAmount, NormError>(c@),
                Err(e) => spec_decode_amount(*currency_amount) == Err::<SpecAmount, NormError>(e),
            },
    {
        match currency_amount {
            JsonValue::Str(s) => {
                let r = CurrencyAmount {
                    currency: String::from_str("XRP"),
                    issuer: String::new(),
                    value: s.clone(),
                };
                Ok(r)
            },
            JsonValue::Object(_) => {
                let val: String = match json_get(currency_amount, "value") {
                    Some(v) => match v {
                        JsonValue::Str(vs) => vs.clone(),
                        _ => {
                            return Err(NormError::MalformedAmount);
                        },
                    },
                    None => {
                        return Err(NormError::MalformedAmount);
                    },
                };
                let cur: String = match json_get(currency_amount, "currency") {
                    Some(v) => match v {
                        JsonValue::Str(cs) => cs.clone(),
                        _ => {
                            return Err(NormError::MalformedAmount);
                        },
                    },
                    None => String::from_str("XRP"),
                };
                let iss: String = match json_get(currency_amount, "issuer") {
                    Some(v) => match v {
                        JsonValue::Str(cs) => cs.clone(),
                        _ => {
                            return Err(NormError::MalformedAmount);
                        },
                    },
                    None => String::new(),
                };
                let r = CurrencyAmount { currency: cur, issuer: iss, value: val };
                Ok(r)
            },
            _ => Err(NormError::MalformedAmount),
        }
    }
}

/// `w` is a compound-record encoding of the decoded triple `c`: it is an
/// object whose `currency`, `issuer` and `value` members are strings
/// spelling the triple.
pub open spec fn spec_is_encoding(w: JsonValue, c: SpecAmount) -> bool {
    &&& w is Object
    &&& (exists|s: String| spec_get(w, "currency"@) == Some(JsonValue::Str(s)) && s@ == c.currency)
    &&& (exists|s: String| spec_get(w, "issuer"@) == Some(JsonValue::Str(s)) && s@ == c.issuer)
    &&& (exists|s: String| spec_get(w, "value"@) == Some(JsonValue::Str(s)) && s@ == c.value)
}

/// Re-encodes a decoded amount as a compound record.
pub fn encode_amount(c: &CurrencyAmount) -> (r: JsonValue)
    ensures
        spec_is_encoding(r, c@),
{
    let mut fields: Vec<(String, JsonValue)> = Vec::new();
    fields.push((String::from_str("currency"), JsonValue::Str(c.currency.clone())));
    fields.push((String::from_str("issuer"), JsonValue::Str(c.issuer.clone())));
    fields.push((String::from_str("value"), JsonValue::Str(c.value.clone())));
    let w = JsonValue::Object(fields);
    proof {
        reveal_strlit("currency");
        reveal_strlit("issuer");
        reveal_strlit("value");
        assert("currency"@.len() == 8);
        assert("issuer"@.len() == 6);
        assert("value"@.len() == 5);
        let fs = fields@;
        assert(fs.len() == 3);
        assert(fs[0].0@ == "currency"@ && fs[1].0@ == "issuer"@ && fs[2].0@ == "value"@);
        assert(fs.drop_first()[0] == fs[1]);
        assert(fs.drop_first().drop_first()[0] == fs[2]);
        assert(spec_lookup(fs, "currency"@) == Some(fs[0].1));
        assert(spec_lookup(fs, "issuer"@) == spec_lookup(fs.drop_first(), "issuer"@));
        assert(spec_lookup(fs.drop_first(), "issuer"@) == Some(fs[1].1));
        assert(spec_lookup(fs, "value"@) == spec_lookup(fs.drop_first(), "value"@));
        assert(spec_lookup(fs.drop_first(), "value"@) == spec_lookup(
            fs.drop_first().drop_first(),
            "value"@,
        ));
        assert(spec_lookup(fs.drop_first().drop_first(), "value"@) == Some(fs[2].1));
    }
    w
}

/// Decoding is determined by the decoded triple: any compound record that
/// encodes the triple of a successful decode re-decodes to that same
/// triple.  Together with `spec_decode_amount` being a function, decoding
/// is injective on `(currency, issuer, value)`.
pub proof fn lemma_decode_encode(v: JsonValue, w: JsonValue)
    requires
        spec_decode_amount(v) is Ok,
        spec_is_encoding(w, spec_decode_amount(v).unwrap()),
    ensures
        spec_decode_amount(w) == spec_decode_amount(v),
{
    let c = spec_decode_amount(v).unwrap();
    let sv = choose|s: String| spec_get(w, "value"@) == Some(JsonValue::Str(s)) && s@ == c.value;
    let sc = choose|s: String|
        spec_get(w, "currency"@) == Some(JsonValue::Str(s)) && s@ == c.currency;
    let si = choose|s: String| spec_get(w, "issuer"@) == Some(JsonValue::Str(s)) && s@ == c.issuer;
    assert(spec_decode_amount(w) == Ok::<SpecAmount, NormError>(
        SpecAmount { currency: sc@, issuer: si@, value: sv@ },
    ));
}

/// A bare-string amount always decodes to the native marker with an empty
/// issuer, whatever the string's numeric content.
pub proof fn lemma_bare_string_native(s: String)
    ensures
        spec_decode_amount(JsonValue::Str(s)) == Ok::<SpecAmount, NormError>(
            SpecAmount { currency: "XRP"@, issuer: Seq::empty(), value: s@ },
        ),
{
}

} // verus!
