use offer_normalizer::amount::{encode_amount, CurrencyAmount};
use offer_normalizer::errors::NormError;
use offer_normalizer::json::JsonValue;
use offer_normalizer::offer::{normalize_offers, DiffKind, NormalizedOffer};
use offer_normalizer::quality::{
    calculate_quality, calculate_unfunded_amounts, get_offer_status, OfferStatus,
};

fn js(v: &str) -> JsonValue {
    JsonValue::Str(String::from(v))
}

fn obj(pairs: Vec<(&str, JsonValue)>) -> JsonValue {
    JsonValue::Object(pairs.into_iter().map(|(k, v)| (String::from(k), v)).collect())
}

fn amount_obj(currency: &str, issuer: &str, value: &str) -> JsonValue {
    obj(vec![("currency", js(currency)), ("issuer", js(issuer)), ("value", js(value))])
}

fn offer_node(variant: &str, block_key: &str, fields: Vec<(&'static str, JsonValue)>, extra: Vec<(&'static str, JsonValue)>) -> JsonValue {
    let mut inner = vec![("LedgerEntryType", js("Offer")), (block_key, obj(fields))];
    inner.extend(extra);
    obj(vec![(variant, obj(inner))])
}

fn event(nodes: Vec<JsonValue>, transaction: Vec<(&'static str, JsonValue)>) -> JsonValue {
    obj(vec![
        (
            "meta",
            obj(vec![
                ("AffectedNodes", JsonValue::Array(nodes)),
                ("TransactionIndex", JsonValue::Int(1)),
            ]),
        ),
        ("transaction", obj(transaction)),
        ("ledger_index", JsonValue::Int(90000000)),
    ])
}

fn base_transaction() -> Vec<(&'static str, JsonValue)> {
    vec![
        ("Account", js("rACTOR")),
        ("date", JsonValue::Int(700000000)),
        ("hash", js("ABCDEF0123")),
    ]
}

#[test]
fn created_offer_scenario() {
    let node = offer_node(
        "CreatedNode",
        "NewFields",
        vec![
            ("Account", js("rOWNER")),
            ("TakerGets", js("100")),
            ("TakerPays", amount_obj("USD", "rISSUER", "50")),
        ],
        vec![],
    );
    let (offers, errors) = normalize_offers(&event(vec![node], base_transaction()));
    assert_eq!(errors.len(), 0);
    assert_eq!(offers.len(), 1);
    let o: &NormalizedOffer = &offers[0];
    assert_eq!(o.status, OfferStatus::Created);
    assert_eq!(o.status.as_str(), "created");
    assert_eq!(o.account, "rOWNER");
    assert_eq!(o.quality, "0.5");
    assert_eq!(o.taker_gets.currency, "XRP");
    assert_eq!(o.taker_gets.issuer, "");
    assert_eq!(o.taker_gets.value, "100");
    assert_eq!(o.taker_pays.currency, "USD");
    assert_eq!(o.taker_pays.issuer, "rISSUER");
    assert_eq!(o.taker_pays.value, "50");
    assert_eq!(o.taker_gets_funded, "");
    assert_eq!(o.taker_pays_funded, "");
    assert_eq!(o.owner_funds, None);
    // Creation linkage falls back to the event's own hash and sequence.
    assert_eq!(o.prev_txn_id, "ABCDEF0123");
    assert_eq!(o.prev_txn_lgr_seq, "90000000");
    // Position pointers default to "0", expiration to empty.
    assert_eq!(o.book_node, "0");
    assert_eq!(o.owner_node, "0");
    assert_eq!(o.expiration, "");
    assert_eq!(o.date, "700000000");
    assert_eq!(o.txn_index, "1");
}

#[test]
fn modified_offer_zero_gets_is_filled() {
    let node = offer_node(
        "ModifiedNode",
        "FinalFields",
        vec![
            ("Account", js("rOWNER")),
            ("TakerGets", js("0")),
            ("TakerPays", amount_obj("USD", "rISSUER", "50")),
        ],
        vec![("PreviousTxnID", js("FEED")), ("PreviousTxnLgrSeq", JsonValue::Int(89999999))],
    );
    let (offers, errors) = normalize_offers(&event(vec![node], base_transaction()));
    assert_eq!(errors.len(), 0);
    assert_eq!(offers.len(), 1);
    assert_eq!(offers[0].status, OfferStatus::Filled);
    // Quality is omitted on a zero gets leg, by policy.
    assert_eq!(offers[0].quality, "");
    assert_eq!(offers[0].prev_txn_id, "FEED");
    assert_eq!(offers[0].prev_txn_lgr_seq, "89999999");
}

#[test]
fn modified_offer_positive_gets_is_partially_filled() {
    let node = offer_node(
        "ModifiedNode",
        "FinalFields",
        vec![
            ("Account", js("rOWNER")),
            ("TakerGets", js("2.5")),
            ("TakerPays", amount_obj("USD", "rISSUER", "5")),
        ],
        vec![("PreviousTxnID", js("FEED")), ("PreviousTxnLgrSeq", JsonValue::Int(89999999))],
    );
    let (offers, errors) = normalize_offers(&event(vec![node], base_transaction()));
    assert_eq!(errors.len(), 0);
    assert_eq!(offers.len(), 1);
    assert_eq!(offers[0].status, OfferStatus::PartiallyFilled);
    assert_eq!(offers[0].quality, "2");
}

#[test]
fn deleted_offer_is_cancelled() {
    let node = offer_node(
        "DeletedNode",
        "FinalFields",
        vec![
            ("Account", js("rOWNER")),
            ("TakerGets", js("10")),
            ("TakerPays", js("20")),
        ],
        vec![("PreviousTxnID", js("FEED")), ("PreviousTxnLgrSeq", JsonValue::Int(89999999))],
    );
    let (offers, errors) = normalize_offers(&event(vec![node], base_transaction()));
    assert_eq!(errors.len(), 0);
    assert_eq!(offers.len(), 1);
    assert_eq!(offers[0].status, OfferStatus::Cancelled);
    assert_eq!(offers[0].quality, "2");
}

#[test]
fn funded_amounts_cap_at_owner_funds() {
    // Owner funds 10 against nominal gets 30 at quality 0.5.
    let node = offer_node(
        "ModifiedNode",
        "FinalFields",
        vec![
            ("Account", js("rOWNER")),
            ("TakerGets", js("30")),
            ("TakerPays", amount_obj("USD", "rISSUER", "15")),
        ],
        vec![("PreviousTxnID", js("FEED")), ("PreviousTxnLgrSeq", JsonValue::Int(89999999))],
    );
    let mut txfields = vec![
        ("Account", js("rOWNER")),
        ("date", JsonValue::Int(700000000)),
        ("hash", js("ABCDEF0123")),
    ];
    txfields.push(("owner_funds", js("10")));
    let (offers, errors) = normalize_offers(&event(vec![node], txfields));
    assert_eq!(errors.len(), 0);
    assert_eq!(offers.len(), 1);
    assert_eq!(offers[0].taker_gets_funded, "10");
    assert_eq!(offers[0].taker_pays_funded, "5");
    assert_eq!(offers[0].owner_funds, Some(String::from("10")));
}

#[test]
fn funded_amounts_empty_when_fully_coverable() {
    // Nominal gets 5 below owner funds 10: no capping needed.
    let node = offer_node(
        "ModifiedNode",
        "FinalFields",
        vec![
            ("Account", js("rOWNER")),
            ("TakerGets", js("5")),
            ("TakerPays", js("20")),
        ],
        vec![("PreviousTxnID", js("FEED")), ("PreviousTxnLgrSeq", JsonValue::Int(89999999))],
    );
    let mut txfields = base_transaction();
    txfields[0] = ("Account", js("rOWNER"));
    txfields.push(("owner_funds", js("10")));
    let (offers, errors) = normalize_offers(&event(vec![node], txfields));
    assert_eq!(errors.len(), 0);
    assert_eq!(offers.len(), 1);
    assert_eq!(offers[0].taker_gets_funded, "");
    assert_eq!(offers[0].taker_pays_funded, "");
}

#[test]
fn funded_amounts_empty_when_account_differs() {
    // Funds disclosed, but the acting account is not the offer owner.
    let node = offer_node(
        "ModifiedNode",
        "FinalFields",
        vec![
            ("Account", js("rOWNER")),
            ("TakerGets", js("30")),
            ("TakerPays", js("15")),
        ],
        vec![("PreviousTxnID", js("FEED")), ("PreviousTxnLgrSeq", JsonValue::Int(89999999))],
    );
    let mut txfields = base_transaction();
    txfields.push(("owner_funds", js("10")));
    let (offers, errors) = normalize_offers(&event(vec![node], txfields));
    assert_eq!(errors.len(), 0);
    assert_eq!(offers.len(), 1);
    assert_eq!(offers[0].taker_gets_funded, "");
    assert_eq!(offers[0].taker_pays_funded, "");
    assert_eq!(offers[0].owner_funds, None);
}

#[test]
fn mixed_event_yields_one_record_per_offer_diff() {
    let offer_a = offer_node(
        "CreatedNode",
        "NewFields",
        vec![
            ("Account", js("rOWNER")),
            ("TakerGets", js("100")),
            ("TakerPays", js("50")),
        ],
        vec![],
    );
    let account_root = obj(vec![(
        "ModifiedNode",
        obj(vec![("LedgerEntryType", js("AccountRoot")), ("FinalFields", obj(vec![]))]),
    )]);
    let directory = obj(vec![(
        "DeletedNode",
        obj(vec![("LedgerEntryType", js("DirectoryNode"))]),
    )]);
    let offer_b = offer_node(
        "DeletedNode",
        "FinalFields",
        vec![
            ("Account", js("rOTHER")),
            ("TakerGets", js("4")),
            ("TakerPays", js("2")),
        ],
        vec![("PreviousTxnID", js("FEED")), ("PreviousTxnLgrSeq", JsonValue::Int(89999999))],
    );
    let (offers, errors) = normalize_offers(&event(
        vec![account_root, offer_a, directory, offer_b],
        base_transaction(),
    ));
    assert_eq!(errors.len(), 0);
    assert_eq!(offers.len(), 2);
    assert_eq!(offers[0].account, "rOWNER");
    assert_eq!(offers[0].status, OfferStatus::Created);
    assert_eq!(offers[1].account, "rOTHER");
    assert_eq!(offers[1].status, OfferStatus::Cancelled);
    assert_eq!(offers[1].quality, "0.5");
}

#[test]
fn event_without_meta_yields_nothing() {
    let txn = obj(vec![("type", js("ledgerClosed"))]);
    let (offers, errors) = normalize_offers(&txn);
    assert_eq!(offers.len(), 0);
    assert_eq!(errors.len(), 0);
}

#[test]
fn meta_without_node_list_yields_nothing() {
    let txn = obj(vec![("meta", obj(vec![("TransactionIndex", JsonValue::Int(1))]))]);
    let (offers, errors) = normalize_offers(&txn);
    assert_eq!(offers.len(), 0);
    assert_eq!(errors.len(), 0);
}

#[test]
fn malformed_amount_is_reported_and_skipped() {
    // Compound taker-pays record without a `value` field.
    let bad = offer_node(
        "CreatedNode",
        "NewFields",
        vec![
            ("Account", js("rOWNER")),
            ("TakerGets", js("100")),
            ("TakerPays", obj(vec![("currency", js("USD"))])),
        ],
        vec![],
    );
    let good = offer_node(
        "CreatedNode",
        "NewFields",
        vec![
            ("Account", js("rOWNER")),
            ("TakerGets", js("100")),
            ("TakerPays", js("50")),
        ],
        vec![],
    );
    let (offers, errors) = normalize_offers(&event(vec![bad, good], base_transaction()));
    // The bad diff is skipped with its reason; the sibling still lands.
    assert_eq!(errors, vec![NormError::MalformedAmount]);
    assert_eq!(offers.len(), 1);
    assert_eq!(offers[0].quality, "0.5");
}

#[test]
fn missing_prior_linkage_is_reported() {
    // A modification without prior-transaction linkage anywhere.
    let node = offer_node(
        "ModifiedNode",
        "FinalFields",
        vec![
            ("Account", js("rOWNER")),
            ("TakerGets", js("1")),
            ("TakerPays", js("1")),
        ],
        vec![],
    );
    let (offers, errors) = normalize_offers(&event(vec![node], base_transaction()));
    assert_eq!(offers.len(), 0);
    assert_eq!(errors, vec![NormError::MissingField]);
}

#[test]
fn missing_taker_leg_is_reported() {
    let node = offer_node(
        "CreatedNode",
        "NewFields",
        vec![("Account", js("rOWNER")), ("TakerGets", js("100"))],
        vec![],
    );
    let (offers, errors) = normalize_offers(&event(vec![node], base_transaction()));
    assert_eq!(offers.len(), 0);
    assert_eq!(errors, vec![NormError::MissingField]);
}

#[test]
fn unparseable_owner_funds_is_invalid_amount() {
    let node = offer_node(
        "ModifiedNode",
        "FinalFields",
        vec![
            ("Account", js("rOWNER")),
            ("TakerGets", js("30")),
            ("TakerPays", js("15")),
        ],
        vec![("PreviousTxnID", js("FEED")), ("PreviousTxnLgrSeq", JsonValue::Int(89999999))],
    );
    let mut txfields = vec![
        ("Account", js("rOWNER")),
        ("date", JsonValue::Int(700000000)),
        ("hash", js("ABCDEF0123")),
    ];
    txfields.push(("owner_funds", js("not-a-number")));
    let (offers, errors) = normalize_offers(&event(vec![node], txfields));
    assert_eq!(offers.len(), 0);
    assert_eq!(errors, vec![NormError::InvalidAmount]);
}

#[test]
fn quality_of_zero_gets_is_invalid() {
    let gets = CurrencyAmount::new(&js("0")).unwrap();
    let pays = CurrencyAmount::new(&js("50")).unwrap();
    assert_eq!(calculate_quality(&gets, &pays), Err(NormError::InvalidQuality));
}

#[test]
fn quality_exact_values() {
    let gets = CurrencyAmount::new(&js("100")).unwrap();
    let pays = CurrencyAmount::new(&amount_obj("USD", "rISSUER", "50")).unwrap();
    assert_eq!(calculate_quality(&gets, &pays).unwrap(), "0.5");
    let gets = CurrencyAmount::new(&js("3")).unwrap();
    let pays = CurrencyAmount::new(&js("1")).unwrap();
    // 1/3, truncated at 19 significant digits.
    assert_eq!(calculate_quality(&gets, &pays).unwrap(), "0.3333333333333333333");
    let gets = CurrencyAmount::new(&js("0.5")).unwrap();
    let pays = CurrencyAmount::new(&js("8")).unwrap();
    assert_eq!(calculate_quality(&gets, &pays).unwrap(), "16");
}

#[test]
fn unfunded_amounts_by_side() {
    let gets = CurrencyAmount::new(&js("30")).unwrap();
    let pays = CurrencyAmount::new(&js("15")).unwrap();
    assert_eq!(calculate_unfunded_amounts("10", &gets, &pays, "TakerGets").unwrap(), "10");
    assert_eq!(calculate_unfunded_amounts("10", &gets, &pays, "TakerPays").unwrap(), "5");
    // Fully coverable: both legs empty.
    assert_eq!(calculate_unfunded_amounts("40", &gets, &pays, "TakerGets").unwrap(), "");
    assert_eq!(calculate_unfunded_amounts("40", &gets, &pays, "TakerPays").unwrap(), "");
    // Unreadable funds.
    assert_eq!(
        calculate_unfunded_amounts("x", &gets, &pays, "TakerGets"),
        Err(NormError::InvalidAmount)
    );
}

#[test]
fn status_calculator_follows_variant() {
    let gets_pos = CurrencyAmount::new(&js("2")).unwrap();
    let gets_zero = CurrencyAmount::new(&js("0")).unwrap();
    let created = obj(vec![("CreatedNode", obj(vec![]))]);
    let modified = obj(vec![("ModifiedNode", obj(vec![]))]);
    let deleted = obj(vec![("DeletedNode", obj(vec![]))]);
    assert_eq!(get_offer_status(&created, &gets_zero).unwrap(), OfferStatus::Created);
    assert_eq!(get_offer_status(&modified, &gets_pos).unwrap(), OfferStatus::PartiallyFilled);
    assert_eq!(get_offer_status(&modified, &gets_zero).unwrap(), OfferStatus::Filled);
    assert_eq!(get_offer_status(&deleted, &gets_pos).unwrap(), OfferStatus::Cancelled);
}

#[test]
fn bare_string_decodes_to_native_asset() {
    let c = CurrencyAmount::new(&js("123.45")).unwrap();
    assert_eq!(c.currency, "XRP");
    assert_eq!(c.issuer, "");
    assert_eq!(c.value, "123.45");
    // Regardless of numeric content.
    let c = CurrencyAmount::new(&js("not numeric")).unwrap();
    assert_eq!(c.currency, "XRP");
    assert_eq!(c.issuer, "");
    assert_eq!(c.value, "not numeric");
}

#[test]
fn compound_decode_defaults() {
    let c = CurrencyAmount::new(&obj(vec![("value", js("9"))])).unwrap();
    assert_eq!(c.currency, "XRP");
    assert_eq!(c.issuer, "");
    assert_eq!(c.value, "9");
    let c = CurrencyAmount::new(&amount_obj("EUR", "rBANK", "2.5")).unwrap();
    assert_eq!((c.currency.as_str(), c.issuer.as_str(), c.value.as_str()), ("EUR", "rBANK", "2.5"));
}

#[test]
fn compound_decode_failures() {
    assert_eq!(
        CurrencyAmount::new(&obj(vec![("currency", js("USD"))])),
        Err(NormError::MalformedAmount)
    );
    assert_eq!(
        CurrencyAmount::new(&obj(vec![("value", JsonValue::Int(5))])),
        Err(NormError::MalformedAmount)
    );
    assert_eq!(CurrencyAmount::new(&JsonValue::Int(5)), Err(NormError::MalformedAmount));
    assert_eq!(CurrencyAmount::new(&JsonValue::Null), Err(NormError::MalformedAmount));
}

#[test]
fn decode_encode_round_trip() {
    let first = CurrencyAmount::new(&amount_obj("USD", "rISSUER", "50")).unwrap();
    let encoded = encode_amount(&first);
    let second = CurrencyAmount::new(&encoded).unwrap();
    assert_eq!(first, second);
}

#[test]
fn expiration_number_is_rendered_decimal() {
    let node = offer_node(
        "CreatedNode",
        "NewFields",
        vec![
            ("Account", js("rOWNER")),
            ("TakerGets", js("1")),
            ("TakerPays", js("1")),
            ("Expiration", JsonValue::Int(714734274)),
            ("BookNode", js("0000000000000000")),
            ("OwnerNode", js("000000000000ABCD")),
        ],
        vec![],
    );
    let (offers, errors) = normalize_offers(&event(vec![node], base_transaction()));
    assert_eq!(errors.len(), 0);
    assert_eq!(offers[0].expiration, "714734274");
    assert_eq!(offers[0].book_node, "0000000000000000");
    assert_eq!(offers[0].owner_node, "000000000000ABCD");
    assert_eq!(offers[0].quality, "1");
}

#[test]
fn diff_kind_values_are_distinct() {
    assert_ne!(DiffKind::Created, DiffKind::Modified);
    assert_ne!(DiffKind::Modified, DiffKind::Deleted);
}
