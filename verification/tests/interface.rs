use std::str::FromStr;

use zescrow::error::EscrowError;
use zescrow::interface::{expand_all_set, expand_reporting_unset, expand_with, join_names, Chain};

#[test]
fn chain_from_str_ethereum() {
    assert!(matches!(Chain::from_str("ethereum"), Ok(Chain::Ethereum)));
    assert!(matches!(Chain::from_str("ETHEREUM"), Ok(Chain::Ethereum)));
    assert!(matches!(Chain::from_str("eth"), Ok(Chain::Ethereum)));
    assert!(matches!(Chain::from_str("ETH"), Ok(Chain::Ethereum)));
}

#[test]
fn chain_from_str_solana() {
    assert!(matches!(Chain::from_str("solana"), Ok(Chain::Solana)));
    assert!(matches!(Chain::from_str("SOLANA"), Ok(Chain::Solana)));
    assert!(matches!(Chain::from_str("sol"), Ok(Chain::Solana)));
    assert!(matches!(Chain::from_str("SOL"), Ok(Chain::Solana)));
}

#[test]
fn chain_from_str_unsupported() {
    assert!(matches!(
        Chain::from_str("bitcoin"),
        Err(EscrowError::UnsupportedChain)
    ));
    assert!(matches!(
        Chain::from_str(""),
        Err(EscrowError::UnsupportedChain)
    ));
}

#[test]
fn chain_as_ref() {
    assert_eq!(Chain::Ethereum.as_ref(), "ethereum");
    assert_eq!(Chain::Solana.as_ref(), "solana");
}

#[test]
fn chain_from_str_mixed_case() {
    assert!(matches!(Chain::from_str("EtHeReUm"), Ok(Chain::Ethereum)));
    assert!(matches!(Chain::from_str("Sol"), Ok(Chain::Solana)));
    assert!(matches!(Chain::from_str(" eth"), Err(EscrowError::UnsupportedChain)));
}

#[test]
fn expand_with_single_var() {
    let result = expand_with("prefix-${VAR}-suffix", |name| {
        (name == "VAR").then(|| "hello".to_string())
    });
    assert_eq!(result, "prefix-hello-suffix");
}

#[test]
fn expand_with_multiple_vars() {
    let result = expand_with("${A} and ${B}", |name| match name {
        "A" => Some("alpha".to_string()),
        "B" => Some("beta".to_string()),
        _ => None,
    });
    assert_eq!(result, "alpha and beta");
}

#[test]
fn expand_with_unset_becomes_empty() {
    let result = expand_with("before-${UNSET}-after", |_| None);
    assert_eq!(result, "before--after");
}

#[test]
fn expand_with_unclosed_brace() {
    let result = expand_with("prefix-${UNCLOSED", |_| Some("value".to_string()));
    assert_eq!(result, "prefix-${UNCLOSED");
}

#[test]
fn expand_with_no_references_is_identity() {
    let result = expand_with("no variables here", |_| Some("x".to_string()));
    assert_eq!(result, "no variables here");
}

#[test]
fn expand_with_empty_name_and_unicode() {
    let result = expand_with("é${}ü${X}$", |name| Some(format!("<{name}>")));
    assert_eq!(result, "é<>ü<X>$");
}

#[test]
fn expand_with_dollar_without_brace_is_text() {
    let result = expand_with("$A ${B}", |_| Some("b".to_string()));
    assert_eq!(result, "$A b");
}

#[test]
fn expand_reports_unset_names_in_order() {
    let (expanded, unset) = expand_reporting_unset("${A}-${MISSING}-${B}-${GONE}", |name| match name {
        "A" => Some("alpha".to_string()),
        "B" => Some("beta".to_string()),
        _ => None,
    });
    assert_eq!(expanded, "alpha--beta-");
    assert_eq!(unset, vec!["MISSING".to_string(), "GONE".to_string()]);
}

#[test]
fn expand_reports_nothing_when_all_set() {
    let (expanded, unset) = expand_reporting_unset("x=${X}", |_| Some("1".to_string()));
    assert_eq!(expanded, "x=1");
    assert!(unset.is_empty());
}

#[test]
fn reemitting_lookup_gives_input_back() {
    let input = "a ${X} b ${Y}${Z} ${unclosed";
    let out = expand_with(input, |name| Some(format!("${{{name}}}")));
    assert_eq!(out, input);
}

#[test]
fn expand_all_set_names_every_unset_variable() {
    let err = expand_all_set("${A}/${B}/${C}", |name| (name == "B").then(|| "b".to_string()))
        .unwrap_err();
    assert_eq!(err, "unset environment variable(s) referenced in configuration: A, C");
    let ok = expand_all_set("${B}!", |_| Some("b".to_string())).unwrap();
    assert_eq!(ok, "b!");
}

#[test]
fn join_names_separates_with_comma() {
    assert_eq!(join_names(&vec![]), "");
    assert_eq!(join_names(&vec!["X".to_string()]), "X");
    assert_eq!(join_names(&vec!["X".to_string(), "Y".to_string(), "Z".to_string()]), "X, Y, Z");
}

#[test]
fn chain_names_any_case() {
    assert!(matches!(Chain::from_name("EtHeReUm"), Ok(Chain::Ethereum)));
    assert!(matches!(Chain::from_name("Sol"), Ok(Chain::Solana)));
}
