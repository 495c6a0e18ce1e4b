use rust_proxy::lang::ast::{
    Action, Config, Endpoint, Path, Pattern, Port, Protocol, Rule, RulesArea, Setting, SettingKey, SettingValue,
    SettingsArea, TextPos, TextRange,
};

fn range(line: usize, from: usize, to: usize) -> TextRange {
    TextRange::new(TextPos::new(line, from), TextPos::new(line, to))
}

fn pattern(at: TextRange) -> Pattern {
    Pattern {
        protocol: Protocol::Specific(String::from("http"), range(1, 1, 4)),
        base: Endpoint::Wildcard,
        path: Path::Specific(vec![String::from("a")], range(1, 9, 10)),
        port: Port::Specific(80, range(1, 12, 13)),
        range: at,
    }
}

#[test]
fn every_node_knows_its_range() {
    assert_eq!(range(1, 2, 3), TextRange::Range { start: TextPos { line: 1, col: 2 }, end: TextPos { line: 1, col: 3 } });
    let key = SettingKey { value: String::from("k"), range: range(2, 1, 1) };
    assert_eq!(key.range(), range(2, 1, 1));
    let setting = Setting { key, value: SettingValue::Bool(true, range(2, 4, 7)), range: range(2, 1, 8) };
    assert_eq!(setting.range(), range(2, 1, 8));
    assert_eq!(setting.value.range(), range(2, 4, 7));
    assert_eq!(SettingValue::String(String::new(), range(1, 1, 2)).range(), range(1, 1, 2));
    assert_eq!(SettingValue::UInt(1, range(1, 1, 3)).range(), range(1, 1, 3));
    assert_eq!(SettingValue::SInt(-1, range(1, 1, 4)).range(), range(1, 1, 4));
    assert_eq!(SettingValue::List(vec![SettingValue::UInt(1, range(1, 2, 2))], range(1, 1, 5)).range(), range(1, 1, 5));
    assert_eq!(SettingValue::Dict(vec![setting], range(1, 1, 6)).range(), range(1, 1, 6));
    let area = SettingsArea { settings: vec![], range: range(1, 1, 10) };
    assert_eq!(area.range(), range(1, 1, 10));
    let rule = Rule { lhs: pattern(range(3, 1, 13)), rhs: Action::Accept(range(3, 18, 24)), range: range(3, 1, 25) };
    assert_eq!(rule.range(), range(3, 1, 25));
    assert_eq!(rule.lhs.range(), range(3, 1, 13));
    assert_eq!(rule.rhs.range(), range(3, 18, 24));
    let rules = RulesArea { rules: vec![rule], range: range(3, 1, 25) };
    assert_eq!(rules.range(), range(3, 1, 25));
    let config = Config { config: vec![area], patterns: vec![rules], range: TextRange::Absent };
    assert_eq!(config.range(), TextRange::Absent);
}

#[test]
fn a_wildcard_has_no_range() {
    let at = range(1, 1, 4);
    assert_eq!(Protocol::Specific(String::from("http"), at).range(), at);
    assert_eq!(Protocol::Wildcard.range(), TextRange::Absent);
    assert_eq!(Endpoint::Specific(String::from("a"), at).range(), at);
    assert_eq!(Endpoint::Wildcard.range(), TextRange::Absent);
    assert_eq!(Path::Specific(vec![], at).range(), at);
    assert_eq!(Path::Wildcard.range(), TextRange::Absent);
    assert_eq!(Port::Specific(80, at).range(), at);
    assert_eq!(Port::Wildcard.range(), TextRange::Absent);
}

#[test]
fn an_action_has_the_range_of_what_it_holds() {
    let at = range(1, 1, 4);
    assert_eq!(Action::Accept(at).range(), at);
    assert_eq!(Action::Drop(404, Some(String::from("gone")), at).range(), at);
    assert_eq!(Action::Rewrite(pattern(range(5, 1, 9))).range(), range(5, 1, 9));
}
