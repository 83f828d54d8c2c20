use top_movers::filter::{
    matches_filters, numbers_equal, parse_bool_literal, select_matching, value_satisfies, AttrValue, Instrument,
    JsonNumber,
};

fn text(s: &str) -> AttrValue {
    AttrValue::Text(s.to_string())
}

fn instrument(symbol: &str, status: &str) -> Instrument {
    Instrument {
        attributes: vec![
            ("symbol".to_string(), text(symbol)),
            ("status".to_string(), text(status)),
            ("quoteAsset".to_string(), text("USDT")),
            ("underlyingSubType".to_string(), AttrValue::List(vec![text("PoW"), AttrValue::Null, text("Layer-1")])),
            ("pricePrecision".to_string(), AttrValue::Number(JsonNumber::PosInt(2))),
            ("offset".to_string(), AttrValue::Number(JsonNumber::NegInt(-3))),
            ("maintMargin".to_string(), AttrValue::Number(JsonNumber::Float(2.5f64.to_bits()))),
            ("isListed".to_string(), AttrValue::Bool(true)),
            ("delisted".to_string(), AttrValue::Null),
            ("limits".to_string(), AttrValue::Object(r#"{"max":10,"min":1}"#.to_string())),
        ],
    }
}

fn filters(pairs: &[(&str, &str)]) -> Vec<(String, String)> {
    pairs.iter().map(|(k, v)| (k.to_string(), v.to_string())).collect()
}

#[test]
fn string_attribute_must_equal_literal() {
    let i = instrument("BTCUSDT", "TRADING");
    assert!(matches_filters(&i, &filters(&[("status", "TRADING")])));
    assert!(!matches_filters(&i, &filters(&[("status", "BREAK")])));
    assert!(!matches_filters(&i, &filters(&[("status", "trading")])));
}

#[test]
fn array_attribute_must_contain_literal() {
    let i = instrument("BTCUSDT", "TRADING");
    assert!(matches_filters(&i, &filters(&[("underlyingSubType", "PoW")])));
    assert!(matches_filters(&i, &filters(&[("underlyingSubType", "Layer-1")])));
    assert!(!matches_filters(&i, &filters(&[("underlyingSubType", "DeFi")])));
    assert!(!matches_filters(&i, &filters(&[("underlyingSubType", "null")])));
}

#[test]
fn number_attribute_compares_by_kind_and_value() {
    let i = instrument("BTCUSDT", "TRADING");
    assert!(matches_filters(&i, &filters(&[("pricePrecision", "2")])));
    assert!(!matches_filters(&i, &filters(&[("pricePrecision", "2.0")])));
    assert!(!matches_filters(&i, &filters(&[("pricePrecision", "3")])));
    assert!(!matches_filters(&i, &filters(&[("pricePrecision", "two")])));
    assert!(matches_filters(&i, &filters(&[("offset", "-3")])));
    assert!(matches_filters(&i, &filters(&[("maintMargin", "2.50")])));
    assert!(matches_filters(&i, &filters(&[("maintMargin", "25e-1")])));
    assert!(!matches_filters(&i, &filters(&[("maintMargin", "2.5001")])));
}

#[test]
fn bool_and_null_attributes() {
    let i = instrument("BTCUSDT", "TRADING");
    assert!(matches_filters(&i, &filters(&[("isListed", "true")])));
    assert!(!matches_filters(&i, &filters(&[("isListed", "false")])));
    assert!(!matches_filters(&i, &filters(&[("isListed", "True")])));
    assert!(matches_filters(&i, &filters(&[("delisted", "null")])));
    assert!(!matches_filters(&i, &filters(&[("delisted", "")])));
}

#[test]
fn object_attribute_compares_structurally() {
    let i = instrument("BTCUSDT", "TRADING");
    assert!(matches_filters(&i, &filters(&[("limits", r#"{ "min": 1, "max": 10 }"#)])));
    assert!(!matches_filters(&i, &filters(&[("limits", r#"{"min":1}"#)])));
    assert!(!matches_filters(&i, &filters(&[("limits", "not json")])));
}

#[test]
fn all_predicates_must_hold() {
    let i = instrument("BTCUSDT", "TRADING");
    let f = filters(&[("status", "TRADING"), ("quoteAsset", "USDT"), ("underlyingSubType", "PoW")]);
    assert!(matches_filters(&i, &f));
    let f = filters(&[("status", "TRADING"), ("quoteAsset", "BUSD")]);
    assert!(!matches_filters(&i, &f));
    assert!(matches_filters(&i, &vec![]));
}

#[test]
fn missing_attribute_fails_the_predicate() {
    let i = instrument("BTCUSDT", "TRADING");
    assert!(!matches_filters(&i, &filters(&[("contractType", "PERPETUAL")])));
}

#[test]
fn removing_a_referenced_key_flips_the_match() {
    let f = filters(&[("status", "TRADING"), ("quoteAsset", "USDT")]);
    let mut i = instrument("BTCUSDT", "TRADING");
    assert!(matches_filters(&i, &f));
    i.attributes.retain(|(k, _)| k != "quoteAsset");
    assert!(!matches_filters(&i, &f));
}

#[test]
fn selection_keeps_matching_instruments_in_order() {
    let all = vec![
        instrument("AUSDT", "TRADING"),
        instrument("BUSDT", "SETTLING"),
        instrument("CUSDT", "TRADING"),
    ];
    let kept = select_matching(all, &filters(&[("status", "TRADING")]));
    let symbols: Vec<String> = kept.iter().map(|i| i.symbol().unwrap()).collect();
    assert_eq!(symbols, vec!["AUSDT".to_string(), "CUSDT".to_string()]);
}

#[test]
fn symbol_and_sub_types() {
    let i = instrument("ETHUSDT", "TRADING");
    assert_eq!(i.symbol(), Some("ETHUSDT".to_string()));
    assert_eq!(i.sub_types(), vec!["PoW".to_string(), "Layer-1".to_string()]);
    let bare = Instrument { attributes: vec![("symbol".to_string(), AttrValue::Number(JsonNumber::PosInt(1)))] };
    assert_eq!(bare.symbol(), None);
    assert!(bare.sub_types().is_empty());
}

#[test]
fn scalar_helpers() {
    assert_eq!(parse_bool_literal("true"), Some(true));
    assert_eq!(parse_bool_literal("false"), Some(false));
    assert_eq!(parse_bool_literal(" true"), None);
    assert!(numbers_equal(JsonNumber::Float(0.0f64.to_bits()), JsonNumber::Float((-0.0f64).to_bits())));
    assert!(!numbers_equal(JsonNumber::PosInt(1), JsonNumber::Float(1.0f64.to_bits())));
    assert!(value_satisfies(&AttrValue::Number(JsonNumber::PosInt(18446744073709551615)), "18446744073709551615"));
}
