//! The normalized offer record: variant-aware field extraction from one
//! affected-node diff, and the per-event orchestrator.

use vstd::prelude::*;
use vstd::string::StringExecFns;
use crate::amount::{spec_decode_amount, CurrencyAmount, SpecAmount};
use crate::decimal::{int_to_string, parse_dec, spec_digits, spec_int_str, spec_parse_dec, u64_to_string};
use crate::errors::NormError;
use crate::json::{json_get, json_has, spec_get, str_eq, JsonValue};
use crate::quality::{
    calculate_quality, calculate_unfunded_amounts, get_offer_status, spec_calc_quality,
    spec_funded, spec_offer_status, spec_quality_str, OfferStatus,
};

verus! {

/// The three diff variants of an affected node.
#[derive(Debug, Clone, Copy, PartialEq, Eq, Structural)]
pub enum DiffKind {
    Created,
    Modified,
    Deleted,
}

/// Top-level key of a variant.
pub open spec fn spec_variant_key(k: DiffKind) -> Seq<char> {
    match k {
        DiffKind::Created => "CreatedNode"@,
        DiffKind::Modified => "ModifiedNode"@,
        DiffKind::Deleted => "DeletedNode"@,
    }
}

/// Field block of a variant: new fields for a creation, final (post-diff)
/// fields otherwise.
pub open spec fn spec_fields_key(k: DiffKind) -> Seq<char> {
    match k {
        DiffKind::Created => "NewFields"@,
        _ => "FinalFields"@,
    }
}

fn variant_key_str(k: DiffKind) -> (r: &'static str)
    ensures
        r@ == spec_variant_key(k),
{
    match k {
        DiffKind::Created => "CreatedNode",
        DiffKind::Modified => "ModifiedNode",
        DiffKind::Deleted => "DeletedNode",
    }
}

fn fields_key_str(k: DiffKind) -> (r: &'static str)
    ensures
        r@ == spec_fields_key(k),
{
    match k {
        DiffKind::Created => "NewFields",
        _ => "FinalFields",
    }
}

/// A scalar read as a string: strings verbatim, integers in decimal;
/// any other shape has no string reading.
pub open spec fn spec_scalar_str(v: JsonValue) -> Option<Seq<char>> {
    match v {
        JsonValue::Str(s) => Some(s@),
        JsonValue::Int(n) => Some(spec_int_str(n as int)),
        _ => None,
    }
}

/// A field of an optional object, read as a string when present.
pub open spec fn spec_opt_field(obj: Option<JsonValue>, key: Seq<char>) -> Option<Seq<char>> {
    match obj {
        Some(o) => match spec_get(o, key) {
            Some(v) => spec_scalar_str(v),
            None => None,
        },
        None => None,
    }
}

/// A field with a default for absent or non-scalar values.
pub open spec fn spec_field_or(obj: Option<JsonValue>, key: Seq<char>, dflt: Seq<char>) -> Seq<
    char,
> {
    match spec_opt_field(obj, key) {
        Some(s) => s,
        None => dflt,
    }
}

fn scalar_str(v: &JsonValue) -> (r: Option<String>)
    ensures
        match r {
            Some(s) => spec_scalar_str(*v) == Some(s@),
            None => spec_scalar_str(*v) is None,
        },
{
    match v {
        JsonValue::Str(s) => Some(s.clone()),
        JsonValue::Int(n) => Some(int_to_string(*n)),
        _ => None,
    }
}

fn field_or(block: &JsonValue, key: &str, dflt: &str) -> (r: String)
    ensures
        r@ == spec_field_or(Some(*block), key@, dflt@),
{
    match json_get(block, key) {
        Some(v) => match scalar_str(v) {
            Some(s) => s,
            None => String::from_str(dflt),
        },
        None => String::from_str(dflt),
    }
}

fn opt_field(obj: &JsonValue, key: &str) -> (r: Option<String>)
    ensures
        match r {
            Some(s) => spec_opt_field(Some(*obj), key@) == Some(s@),
            None => spec_opt_field(Some(*obj), key@) is None,
        },
{
    match json_get(obj, key) {
        Some(v) => scalar_str(v),
        None => None,
    }
}

/// The normalized output record: one immutable snapshot per qualifying
/// diff, with no identity beyond its field values.
#[derive(Debug)]
pub struct NormalizedOffer {
    pub status: OfferStatus,
    pub account: String,
    pub book_node: String,
    pub owner_node: String,
    pub prev_txn_id: String,
    pub prev_txn_lgr_seq: String,
    pub date: String,
    pub expiration: String,
    pub txn_index: String,
    pub quality: String,
    pub taker_gets: CurrencyAmount,
    pub taker_pays: CurrencyAmount,
    pub taker_gets_funded: String,
    pub taker_pays_funded: String,
    pub owner_funds: Option<String>,
}

/// The normalized record at specification level.
pub struct SpecOffer {
    pub status: OfferStatus,
    pub account: Seq<char>,
    pub book_node: Seq<char>,
    pub owner_node: Seq<char>,
    pub prev_txn_id: Seq<char>,
    pub prev_txn_lgr_seq: Seq<char>,
    pub date: Seq<char>,
    pub expiration: Seq<char>,
    pub txn_index: Seq<char>,
    pub quality: Seq<char>,
    pub taker_gets: SpecAmount,
    pub taker_pays: SpecAmount,
    pub taker_gets_funded: Seq<char>,
    pub taker_pays_funded: Seq<char>,
    pub owner_funds: Option<Seq<char>>,
}

/// View of an optional owned string.
pub open spec fn spec_opt_str(o: Option<String>) -> Option<Seq<char>> {
    match o {
        Some(s) => Some(s@),
        None => None,
    }
}

impl View for NormalizedOffer {
    type V = SpecOffer;

    open spec fn view(&self) -> SpecOffer {
        SpecOffer {
            status: self.status,
            account: self.account@,
            book_node: self.book_node@,
            owner_node: self.owner_node@,
            prev_txn_id: self.prev_txn_id@,
            prev_txn_lgr_seq: self.prev_txn_lgr_seq@,
            date: self.date@,
            expiration: self.expiration@,
            txn_index: self.txn_index@,
            quality: self.quality@,
            taker_gets: self.taker_gets@,
            taker_pays: self.taker_pays@,
            taker_gets_funded: self.taker_gets_funded@,
            taker_pays_funded: self.taker_pays_funded@,
            owner_funds: spec_opt_str(self.owner_funds),
        }
    }
}

/// Both funded legs, or the first per-diff error the funded calculation
/// hits.  Without disclosed owner funds both legs are empty.
pub open spec fn spec_funded_pair(
    owner_funds: Option<Seq<char>>,
    gets_value: Seq<char>,
    pays_value: Seq<char>,
) -> Result<(Seq<char>, Seq<char>), NormError> {
    match owner_funds {
        None => Ok((Seq::empty(), Seq::empty())),
        Some(f) => match spec_funded(f, gets_value, pays_value, true) {
            Err(e) => Err(e),
            Ok(gf) => match spec_funded(f, gets_value, pays_value, false) {
                Err(e) => Err(e),
                Ok(pf) => Ok((gf, pf)),
            },
        },
    }
}

/// The whole extraction rule for one classified diff: variant-specific
/// field block, per-field fallbacks, required currency legs, status,
/// quality (empty for a zero gets leg), and funded amounts.
pub open spec fn spec_make_offer(
    offer: JsonValue,
    account: Seq<char>,
    date: int,
    node_type: DiffKind,
    txn_index: nat,
    owner_funds: Option<Seq<char>>,
    hash: Seq<char>,
    ledger_index: int,
) -> Result<SpecOffer, NormError> {
    let variant = spec_get(offer, spec_variant_key(node_type));
    let block = match variant {
        Some(vo) => spec_get(vo, spec_fields_key(node_type)),
        None => None,
    };
    let prev_txn_id_opt = match spec_opt_field(variant, "PreviousTxnID"@) {
        Some(s) => Some(s),
        None => match spec_opt_field(block, "PreviousTxnID"@) {
            Some(s) => Some(s),
            None => if node_type is Created {
                Some(hash)
            } else {
                None
            },
        },
    };
    let prev_seq_opt = match spec_opt_field(variant, "PreviousTxnLgrSeq"@) {
        Some(s) => Some(s),
        None => match spec_opt_field(block, "PreviousTxnLgrSeq"@) {
            Some(s) => Some(s),
            None => if node_type is Created {
                Some(spec_int_str(ledger_index))
            } else {
                None
            },
        },
    };
    if prev_txn_id_opt is None || prev_seq_opt is None {
        Err(NormError::MissingField)
    } else {
        let gets_raw = match block {
            Some(b) => spec_get(b, "TakerGets"@),
            None => None,
        };
        let pays_raw = match block {
            Some(b) => spec_get(b, "TakerPays"@),
            None => None,
        };
        if gets_raw is None || pays_raw is None {
            Err(NormError::MissingField)
        } else {
            match spec_decode_amount(gets_raw.unwrap()) {
                Err(e) => Err(e),
                Ok(gets) => match spec_decode_amount(pays_raw.unwrap()) {
                    Err(e) => Err(e),
                    Ok(pays) => match spec_offer_status(offer, gets.value) {
                        Err(e) => Err(e),
                        Ok(status) => match spec_parse_dec(gets.value) {
                            None => Err(NormError::MalformedAmount),
                            Some(g) => match spec_parse_dec(pays.value) {
                                None => Err(NormError::MalformedAmount),
                                Some(p) => {
                                    let quality = if g.0 == 0 {
                                        Seq::<char>::empty()
                                    } else {
                                        spec_quality_str(p.0, p.1, g.0, g.1)
                                    };
                                    match spec_funded_pair(owner_funds, gets.value, pays.value) {
                                        Err(e) => Err(e),
                                        Ok(funded) => Ok(
                                            SpecOffer {
                                                status,
                                                account,
                                                book_node: spec_field_or(
                                                    block,
                                                    "BookNode"@,
                                                    seq!['0'],
                                                ),
                                                owner_node: spec_field_or(
                                                    block,
                                                    "OwnerNode"@,
                                                    seq!['0'],
                                                ),
                                                prev_txn_id: prev_txn_id_opt.unwrap(),
                                                prev_txn_lgr_seq: prev_seq_opt.unwrap(),
                                                date: spec_int_str(date),
                                                expiration: spec_field_or(
                                                    block,
                                                    "Expiration"@,
                                                    Seq::empty(),
                                                ),
                                                txn_index: spec_digits(txn_index),
                                                quality,
                                                taker_gets: gets,
                                                taker_pays: pays,
                                                taker_gets_funded: funded.0,
                                                taker_pays_funded: funded.1,
                                                owner_funds,
                                            },
                                        ),
                                    }
                                },
                            },
                        },
                    },
                },
            }
        }
    }
}

impl NormalizedOffer {
    /// Extracts one normalized record from a classified diff, following
    /// `spec_make_offer`.
    #[verifier::rlimit(50)]
    pub fn new(
        offer: &JsonValue,
        account: &str,
        date: i64,
        node_type: DiffKind,
        txn_index: u64,
        owner_funds: Option<String>,
        hash: &str,
        ledger_index: i64,
    ) -> (r: Result<NormalizedOffer, NormError>)
        ensures
            match r {
                Ok(o) => spec_make_offer(
                    *offer,
                    account@,
                    date as int,
                    node_type,
                    txn_index as nat,
                    spec_opt_str(owner_funds),
                    hash@,
                    ledger_index as int,
                ) == Ok::<SpecOffer, NormError>(o@),
                Err(e) => spec_make_offer(
                    *offer,
                    account@,
                    date as int,
                    node_type,
                    txn_index as nat,
                    spec_opt_str(owner_funds),
                    hash@,
                    ledger_index as int,
                ) == Err::<SpecOffer, NormError>(e),
            },
    {
        let variant = match json_get(offer, variant_key_str(node_type)) {
            Some(v) => v,
            None => {
                return Err(NormError::MissingField);
            },
        };
        let block = match json_get(variant, fields_key_str(node_type)) {
            Some(b) => b,
            None => {
                return Err(NormError::MissingField);
            },
        };
        let prev_txn_id: String = match opt_field(variant, "PreviousTxnID") {
            Some(s) => s,
            None => match opt_field(block, "PreviousTxnID") {
                Some(s) => s,
                None => match node_type {
                    DiffKind::Created => String::from_str(hash),
                    _ => {
                        return Err(NormError::MissingField);
                    },
                },
            },
        };
        let prev_txn_lgr_seq: String = match opt_field(variant, "PreviousTxnLgrSeq") {
            Some(s) => s,
            None => match opt_field(block, "PreviousTxnLgrSeq") {
                Some(s) => s,
                None => match node_type {
                    DiffKind::Created => int_to_string(ledger_index),
                    _ => {
                        return Err(NormError::MissingField);
                    },
                },
            },
        };
        let gets_raw = match json_get(block, "TakerGets") {
            Some(v) => v,
            None => {
                return Err(NormError::MissingField);
            },
        };
        let pays_raw = match json_get(block, "TakerPays") {
            Some(v) => v,
            None => {
                return Err(NormError::MissingField);
            },
        };
        let taker_gets = match CurrencyAmount::new(gets_raw) {
            Ok(c) => c,
            Err(e) => {
                return Err(e);
            },
        };
        let taker_pays = match CurrencyAmount::new(pays_raw) {
            Ok(c) => c,
            Err(e) => {
                return Err(e);
            },
        };
        let status = match get_offer_status(offer, &taker_gets) {
            Ok(s) => s,
            Err(e) => {
                return Err(e);
            },
        };
        let g = match parse_dec(taker_gets.value.as_str()) {
            Some(g) => g,
            None => {
                return Err(NormError::MalformedAmount);
            },
        };
        let p = match parse_dec(taker_pays.value.as_str()) {
            Some(p) => p,
            None => {
                return Err(NormError::MalformedAmount);
            },
        };
        let quality: String = if g.0 == 0 {
            String::new()
        } else {
            match calculate_quality(&taker_gets, &taker_pays) {
                Ok(q) => q,
                Err(e) => {
                    return Err(e);
                },
            }
        };
        proof {
            reveal_strlit("TakerGets");
            reveal_strlit("TakerPays");
            assert(("TakerGets"@)[5] != ("TakerPays"@)[5]);
            assert("TakerGets"@ != "TakerPays"@);
        }
        let funded: (String, String) = match &owner_funds {
            None => (String::new(), String::new()),
            Some(f) => {
                let gf = match calculate_unfunded_amounts(
                    f.as_str(),
                    &taker_gets,
                    &taker_pays,
                    "TakerGets",
                ) {
                    Ok(s) => s,
                    Err(e) => {
                        return Err(e);
                    },
                };
                let pf = match calculate_unfunded_amounts(
                    f.as_str(),
                    &taker_gets,
                    &taker_pays,
                    "TakerPays",
                ) {
                    Ok(s) => s,
                    Err(e) => {
                        return Err(e);
                    },
                };
                (gf, pf)
            },
        };
        let book_node = field_or(block, "BookNode", "0");
        let owner_node = field_or(block, "OwnerNode", "0");
        let expiration = field_or(block, "Expiration", "");
        proof {
            reveal_strlit("0");
            reveal_strlit("");
            assert("0"@ =~= seq!['0']);
            assert(""@ =~= Seq::<char>::empty());
        }
        Ok(
            NormalizedOffer {
                status,
                account: String::from_str(account),
                book_node,
                owner_node,
                prev_txn_id,
                prev_txn_lgr_seq,
                date: int_to_string(date),
                expiration,
                txn_index: u64_to_string(txn_index),
                quality,
                taker_gets,
                taker_pays,
                taker_gets_funded: funded.0,
                taker_pays_funded: funded.1,
                owner_funds,
            },
        )
    }
}

/// Variant classification by presence of the three top-level keys, in the
/// order the engine checks them.
pub open spec fn spec_classify(node: JsonValue) -> DiffKind {
    if spec_get(node, "CreatedNode"@) is Some {
        DiffKind::Created
    } else if spec_get(node, "ModifiedNode"@) is Some {
        DiffKind::Modified
    } else {
        DiffKind::Deleted
    }
}

/// Whether a diff is an order-book entry: its variant block's
/// `LedgerEntryType` equals the order-book entry type literal.
pub open spec fn spec_is_offer_node(node: JsonValue) -> bool {
    match spec_get(node, spec_variant_key(spec_classify(node))) {
        Some(vo) => match spec_get(vo, "LedgerEntryType"@) {
            Some(JsonValue::Str(s)) => s@ == "Offer"@,
            _ => false,
        },
        None => false,
    }
}

/// Classifies one diff, following `spec_classify`.
pub fn classify(node: &JsonValue) -> (k: DiffKind)
    ensures
        k == spec_classify(*node),
{
    if json_has(node, "CreatedNode") {
        DiffKind::Created
    } else if json_has(node, "ModifiedNode") {
        DiffKind::Modified
    } else {
        DiffKind::Deleted
    }
}

/// Tests whether a diff is an order-book entry, following
/// `spec_is_offer_node`.
pub fn is_offer_node(node: &JsonValue) -> (r: bool)
    ensures
        r == spec_is_offer_node(*node),
{
    let kind = classify(node);
    match json_get(node, variant_key_str(kind)) {
        Some(vo) => match json_get(vo, "LedgerEntryType") {
            Some(v) => match v {
                JsonValue::Str(s) => str_eq(s.as_str(), "Offer"),
                _ => false,
            },
            None => false,
        },
        None => false,
    }
}

/// Whether the transaction's acting account equals the offer owner.
pub open spec fn spec_tx_account_matches(t: JsonValue, acct: Seq<char>) -> bool {
    match spec_get(t, "Account"@) {
        Some(JsonValue::Str(a)) => a@ == acct,
        _ => false,
    }
}

/// Owner funds applicable to one offer diff: disclosed on the transaction,
/// and the acting account equals the offer owner; a disclosed value that
/// applies but is not a string is an invalid amount.
pub open spec fn spec_owner_funds_for(txn: JsonValue, offer_account: Seq<char>) -> Result<
    Option<Seq<char>>,
    NormError,
> {
    match spec_get(txn, "transaction"@) {
        None => Ok(None),
        Some(t) => match spec_get(t, "owner_funds"@) {
            None => Ok(None),
            Some(fv) => if !spec_tx_account_matches(t, offer_account) {
                Ok(None)
            } else {
                match fv {
                    JsonValue::Str(f) => Ok(Some(f@)),
                    _ => Err(NormError::InvalidAmount),
                }
            },
        },
    }
}

/// Normalization of one qualifying diff within its event: the offer owner
/// and the transaction-level fields are required, then the extraction rule
/// of `spec_make_offer` applies.
pub open spec fn spec_node_result(txn: JsonValue, node: JsonValue) -> Result<
    SpecOffer,
    NormError,
> {
    let kind = spec_classify(node);
    let variant = spec_get(node, spec_variant_key(kind));
    let block = match variant {
        Some(vo) => spec_get(vo, spec_fields_key(kind)),
        None => None,
    };
    let account_opt = match block {
        Some(b) => match spec_get(b, "Account"@) {
            Some(JsonValue::Str(a)) => Some(a@),
            _ => None,
        },
        None => None,
    };
    match account_opt {
        None => Err(NormError::MissingField),
        Some(account) => match spec_get(txn, "transaction"@) {
            None => Err(NormError::MissingField),
            Some(t) => match spec_get(t, "date"@) {
                Some(JsonValue::Int(date)) => match spec_get(t, "hash"@) {
                    Some(JsonValue::Str(hash)) => match spec_get(txn, "ledger_index"@) {
                        Some(JsonValue::Int(lgr)) => match spec_get(txn, "meta"@) {
                            Some(m) => match spec_get(m, "TransactionIndex"@) {
                                Some(JsonValue::Int(ti)) => if ti < 0 {
                                    Err(NormError::MissingField)
                                } else {
                                    match spec_owner_funds_for(txn, account) {
                                        Err(e) => Err(e),
                                        Ok(of) => spec_make_offer(
                                            node,
                                            account,
                                            date as int,
                                            kind,
                                            ti as nat,
                                            of,
                                            hash@,
                                            lgr as int,
                                        ),
                                    }
                                },
                                _ => Err(NormError::MissingField),
                            },
                            None => Err(NormError::MissingField),
                        },
                        _ => Err(NormError::MissingField),
                    },
                    _ => Err(NormError::MissingField),
                },
                _ => Err(NormError::MissingField),
            },
        },
    }
}

/// Normalizes one qualifying diff, following `spec_node_result`.
pub fn normalize_node(txn: &JsonValue, node: &JsonValue) -> (r: Result<NormalizedOffer, NormError>)
    ensures
        match r {
            Ok(o) => spec_node_result(*txn, *node) == Ok::<SpecOffer, NormError>(o@),
            Err(e) => spec_node_result(*txn, *node) == Err::<SpecOffer, NormError>(e),
        },
{
    let kind = classify(node);
    let variant = match json_get(node, variant_key_str(kind)) {
        Some(v) => v,
        None => {
            return Err(NormError::MissingField);
        },
    };
    let block = match json_get(variant, fields_key_str(kind)) {
        Some(b) => b,
        None => {
            return Err(NormError::MissingField);
        },
    };
    let account: String = match json_get(block, "Account") {
        Some(v) => match v {
            JsonValue::Str(a) => a.clone(),
            _ => {
                return Err(NormError::MissingField);
            },
        },
        None => {
            return Err(NormError::MissingField);
        },
    };
    let transaction = match json_get(txn, "transaction") {
        Some(t) => t,
        None => {
            return Err(NormError::MissingField);
        },
    };
    let date: i64 = match json_get(transaction, "date") {
        Some(v) => match v {
            JsonValue::Int(n) => *n,
            _ => {
                return Err(NormError::MissingField);
            },
        },
        None => {
            return Err(NormError::MissingField);
        },
    };
    let hash: String = match json_get(transaction, "hash") {
        Some(v) => match v {
            JsonValue::Str(h) => h.clone(),
            _ => {
                return Err(NormError::MissingField);
            },
        },
        None => {
            return Err(NormError::MissingField);
        },
    };
    let ledger_index: i64 = match json_get(txn, "ledger_index") {
        Some(v) => match v {
            JsonValue::Int(n) => *n,
            _ => {
                return Err(NormError::MissingField);
            },
        },
        None => {
            return Err(NormError::MissingField);
        },
    };
    let meta = match json_get(txn, "meta") {
        Some(m) => m,
        None => {
            return Err(NormError::MissingField);
        },
    };
    let txn_index: u64 = match json_get(meta, "TransactionIndex") {
        Some(v) => match v {
            JsonValue::Int(n) => if *n < 0 {
                return Err(NormError::MissingField);
            } else {
                *n as u64
            },
            _ => {
                return Err(NormError::MissingField);
            },
        },
        None => {
            return Err(NormError::MissingField);
        },
    };
    let owner_funds: Option<String> = match json_get(transaction, "owner_funds") {
        None => None,
        Some(fv) => {
            let applies = match json_get(transaction, "Account") {
                Some(v) => match v {
                    JsonValue::Str(a) => str_eq(a.as_str(), account.as_str()),
                    _ => false,
                },
                None => false,
            };
            if !applies {
                None
            } else {
                match fv {
                    JsonValue::Str(f) => Some(f.clone()),
                    _ => {
                        return Err(NormError::InvalidAmount);
                    },
                }
            }
        },
    };
    NormalizedOffer::new(
        node,
        account.as_str(),
        date,
        kind,
        txn_index,
        owner_funds,
        hash.as_str(),
        ledger_index,
    )
}

/// Outcomes of an event's order-book diffs, in the diff list's order;
/// diffs of any other entry type contribute nothing.
pub open spec fn spec_outcomes(txn: JsonValue, nodes: Seq<JsonValue>) -> Seq<
    Result<SpecOffer, NormError>,
>
    decreases nodes.len(),
{
    if nodes.len() == 0 {
        Seq::empty()
    } else {
        let init = spec_outcomes(txn, nodes.drop_last());
        if spec_is_offer_node(nodes.last()) {
            init.push(spec_node_result(txn, nodes.last()))
        } else {
            init
        }
    }
}

/// The successful records among a sequence of outcomes, in order.
pub open spec fn spec_oks(rs: Seq<Result<SpecOffer, NormError>>) -> Seq<SpecOffer>
    decreases rs.len(),
{
    if rs.len() == 0 {
        Seq::empty()
    } else {
        let init = spec_oks(rs.drop_last());
        match rs.last() {
            Ok(o) => init.push(o),
            Err(_) => init,
        }
    }
}

/// The reported per-diff errors among a sequence of outcomes, in order.
pub open spec fn spec_errs(rs: Seq<Result<SpecOffer, NormError>>) -> Seq<NormError>
    decreases rs.len(),
{
    if rs.len() == 0 {
        Seq::empty()
    } else {
        let init = spec_errs(rs.drop_last());
        match rs.last() {
            Ok(_) => init,
            Err(e) => init.push(e),
        }
    }
}

/// The whole event: no `meta` block (or no affected-node list) means zero
/// offers and zero errors — a legitimate no-op input; otherwise the
/// records and the per-diff errors of the qualifying diffs, in the diff
/// list's original order.
pub open spec fn spec_normalize(txn: JsonValue) -> (Seq<SpecOffer>, Seq<NormError>) {
    match spec_get(txn, "meta"@) {
        None => (Seq::empty(), Seq::empty()),
        Some(m) => match spec_get(m, "AffectedNodes"@) {
            Some(JsonValue::Array(nodes)) => (
                spec_oks(spec_outcomes(txn, nodes@)),
                spec_errs(spec_outcomes(txn, nodes@)),
            ),
            _ => (Seq::empty(), Seq::empty()),
        },
    }
}

/// Processes one transaction event: filters the affected-node list to
/// order-book diffs and yields one normalized record per qualifying diff,
/// in the original order, together with the per-diff errors of the diffs
/// that had to be skipped.  A per-diff failure never aborts the event's
/// remaining diffs.
pub fn normalize_offers(txn: &JsonValue) -> (r: (Vec<NormalizedOffer>, Vec<NormError>))
    ensures
        r.0@.map_values(|o: NormalizedOffer| o@) == spec_normalize(*txn).0,
        r.1@ == spec_normalize(*txn).1,
{
    let meta = match json_get(txn, "meta") {
        Some(m) => m,
        None => {
            let r = (Vec::<NormalizedOffer>::new(), Vec::<NormError>::new());
            proof {
                assert(r.0@.map_values(|o: NormalizedOffer| o@) =~= Seq::<SpecOffer>::empty());
            }
            return r;
        },
    };
    let nodes: &Vec<JsonValue> = match json_get(meta, "AffectedNodes") {
        Some(v) => match v {
            JsonValue::Array(a) => a,
            _ => {
                let r = (Vec::<NormalizedOffer>::new(), Vec::<NormError>::new());
                proof {
                    assert(r.0@.map_values(|o: NormalizedOffer| o@) =~= Seq::<SpecOffer>::empty());
                }
                return r;
            },
        },
        None => {
            let r = (Vec::<NormalizedOffer>::new(), Vec::<NormError>::new());
            proof {
                assert(r.0@.map_values(|o: NormalizedOffer| o@) =~= Seq::<SpecOffer>::empty());
            }
            return r;
        },
    };
    let mut offers: Vec<NormalizedOffer> = Vec::new();
    let mut errors: Vec<NormError> = Vec::new();
    let n = nodes.len();
    let mut i: usize = 0;
    proof {
        assert(nodes@.take(0) =~= Seq::<JsonValue>::empty());
        assert(offers@.map_values(|o: NormalizedOffer| o@) =~= Seq::<SpecOffer>::empty());
    }
    while i < n
        invariant
            n == nodes@.len(),
            i <= n,
            spec_normalize(*txn) == (
                spec_oks(spec_outcomes(*txn, nodes@)),
                spec_errs(spec_outcomes(*txn, nodes@)),
            ),
            offers@.map_values(|o: NormalizedOffer| o@) == spec_oks(
                spec_outcomes(*txn, nodes@.take(i as int)),
            ),
            errors@ == spec_errs(spec_outcomes(*txn, nodes@.take(i as int))),
        decreases n - i,
    {
        let ghost pre = nodes@.take(i as int);
        let ghost outs_pre = spec_outcomes(*txn, pre);
        let ghost old_offers = offers@;
        let ghost old_errors = errors@;
        let node = &nodes[i];
        if is_offer_node(node) {
            match normalize_node(txn, node) {
                Ok(o) => {
                    offers.push(o);
                    proof {
                        assert(outs_pre.push(Ok(o@)).drop_last() =~= outs_pre);
                        assert(spec_oks(outs_pre.push(Ok(o@))) == spec_oks(outs_pre).push(o@));
                        assert(spec_errs(outs_pre.push(Ok(o@))) == spec_errs(outs_pre));
                        assert(offers@.map_values(|x: NormalizedOffer| x@) =~= old_offers.map_values(
                            |x: NormalizedOffer| x@,
                        ).push(o@));
                    }
                },
                Err(e) => {
                    errors.push(e);
                    proof {
                        let ghost oe: Result<SpecOffer, NormError> = Err(e);
                        assert(outs_pre.push(oe).drop_last() =~= outs_pre);
                        assert(spec_oks(outs_pre.push(oe)) == spec_oks(outs_pre));
                        assert(spec_errs(outs_pre.push(oe)) == spec_errs(outs_pre).push(e));
                    }
                },
            }
        }
        proof {
            let post = nodes@.take(i as int + 1);
            assert(post.drop_last() =~= pre);
            assert(post.last() == nodes@[i as int]);
        }
        i += 1;
    }
    proof {
        assert(nodes@.take(n as int) =~= nodes@);
    }
    (offers, errors)
}

/// An event yields exactly one outcome per order-book diff: the outcome
/// list is as long as the filtered diff list, whatever the other diffs
/// hold.
pub proof fn lemma_one_outcome_per_offer_diff(txn: JsonValue, nodes: Seq<JsonValue>)
    ensures
        spec_outcomes(txn, nodes).len() == nodes.filter(|nd: JsonValue| spec_is_offer_node(nd)).len(),
    decreases nodes.len(),
{
    reveal(Seq::filter);
    if nodes.len() > 0 {
        lemma_one_outcome_per_offer_diff(txn, nodes.drop_last());
    }
}

/// Disclosed funds apply to a diff only when they are present and the
/// acting account equals the offer owner; otherwise the orchestrator
/// passes none down, so the funded legs come out empty.
pub proof fn lemma_owner_funds_not_applicable(txn: JsonValue, acct: Seq<char>, t: JsonValue)
    requires
        spec_get(txn, "transaction"@) == Some(t),
        spec_get(t, "owner_funds"@) is None || !spec_tx_account_matches(t, acct),
    ensures
        spec_owner_funds_for(txn, acct) == Ok::<Option<Seq<char>>, NormError>(None),
{
}

/// Funded legs are both empty whenever no owner funds apply to the diff
/// (they are absent, or the acting account differs from the offer owner,
/// in which case the orchestrator passes none).
pub proof fn lemma_funded_empty_without_funds(
    offer: JsonValue,
    account: Seq<char>,
    date: int,
    node_type: DiffKind,
    txn_index: nat,
    hash: Seq<char>,
    ledger_index: int,
    o: SpecOffer,
)
    requires
        spec_make_offer(offer, account, date, node_type, txn_index, None, hash, ledger_index)
            == Ok::<SpecOffer, NormError>(o),
    ensures
        o.taker_gets_funded == Seq::<char>::empty(),
        o.taker_pays_funded == Seq::<char>::empty(),
        o.owner_funds is None,
{
}

} // verus!
