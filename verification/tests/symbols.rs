use easy_rs::cold_path::config::{feed_cap_from, symbols_from_list, DEFAULT_FEED_CAP};
use easy_rs::cold_path::symbols::SymbolRegistry;

#[test]
fn sorted_and_ids() {
    let r = SymbolRegistry::new(vec!["ZZZ".into(), "AAA".into(), "AAA".into()]);
    assert_eq!(r.symbols_sorted(), &["AAA", "ZZZ"]);
    assert_eq!(r.id("AAA"), Some(0));
    assert_eq!(r.id("ZZZ"), Some(1));
}

#[test]
fn unknown_symbol_has_no_id() {
    let r = SymbolRegistry::new(vec!["SPY".into(), "QQQ".into()]);
    assert_eq!(r.id("AAPL"), None);
    assert_eq!(r.id(""), None);
    assert_eq!(r.id("SP"), None);
    assert_eq!(r.id("SPYY"), None);
    assert_eq!(r.len(), 2);
}

#[test]
fn registry_ignores_input_order_and_duplicates() {
    let a = SymbolRegistry::new(vec!["MSFT".into(), "AAPL".into(), "SPY".into(), "AAPL".into()]);
    let b = SymbolRegistry::new(vec!["SPY".into(), "SPY".into(), "MSFT".into(), "AAPL".into()]);
    assert_eq!(a.symbols_sorted(), b.symbols_sorted());
    assert_eq!(a.symbols_sorted(), &["AAPL", "MSFT", "SPY"]);
}

#[test]
fn ids_are_positions() {
    let r = SymbolRegistry::new(vec!["B".into(), "A".into(), "C".into(), "AB".into()]);
    assert_eq!(r.symbols_sorted(), &["A", "AB", "B", "C"]);
    for (i, s) in r.symbols_sorted().iter().enumerate() {
        assert_eq!(r.id(s), Some(i as u16));
    }
}

#[test]
fn registry_order_matches_string_order() {
    let input: Vec<String> = vec!["b", "a", "é", "Z", "ab", "", "a", "zz", "ä"]
        .into_iter()
        .map(String::from)
        .collect();
    let r = SymbolRegistry::new(input.clone());
    let mut expected = input;
    expected.sort();
    expected.dedup();
    assert_eq!(r.symbols_sorted(), expected.as_slice());
}

#[test]
fn empty_registry() {
    let r = SymbolRegistry::new(Vec::new());
    assert_eq!(r.len(), 0);
    assert_eq!(r.id("SPY"), None);
}

#[test]
fn symbol_list_is_trimmed_uppercased_and_filtered() {
    assert_eq!(symbols_from_list(" spy, qqq ,,aapl "), vec!["SPY", "QQQ", "AAPL"]);
    assert_eq!(symbols_from_list("SPY"), vec!["SPY"]);
    assert_eq!(symbols_from_list(""), Vec::<String>::new());
    assert_eq!(symbols_from_list(" , ,"), Vec::<String>::new());
    assert_eq!(symbols_from_list("straße"), vec!["STRASSE"]);
}

#[test]
fn feed_cap_setting() {
    assert_eq!(DEFAULT_FEED_CAP, 65_536);
    assert_eq!(feed_cap_from(None), 65_536);
    assert_eq!(feed_cap_from(Some("1024")), 1024);
    assert_eq!(feed_cap_from(Some("+7")), 7);
    assert_eq!(feed_cap_from(Some("0")), 65_536);
    assert_eq!(feed_cap_from(Some("-5")), 65_536);
    assert_eq!(feed_cap_from(Some("")), 65_536);
    assert_eq!(feed_cap_from(Some("+")), 65_536);
    assert_eq!(feed_cap_from(Some(" 12")), 65_536);
    assert_eq!(feed_cap_from(Some("12x")), 65_536);
    assert_eq!(feed_cap_from(Some("99999999999999999999999")), 65_536);
    for raw in ["1024", "+7", "0", "-5", "", "+", " 12", "12x", "99999999999999999999999"] {
        let std_way = raw.parse::<usize>().ok().filter(|&c| c > 0).unwrap_or(65_536);
        assert_eq!(feed_cap_from(Some(raw)), std_way);
    }
}
