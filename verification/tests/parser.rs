use readygate::parser::parse_or_rules;
use readygate::rules::{OrRules, Rule};

fn parse(input: &str) -> Result<OrRules, readygate::ParseError> {
    parse_or_rules(input.as_bytes())
}

fn single_rule(input: &str) -> Rule {
    let or = parse(input).expect("expression should parse");
    assert_eq!(or.len(), 1);
    let group = or.group(0);
    assert_eq!(group.len(), 1);
    group.rule(0).clone()
}

#[test]
fn after_rule() {
    match single_rule("after 5s") {
        Rule::After(a) => assert_eq!(a.duration().get(), 5_000_000),
        other => panic!("wrong rule kind: {:?}", other),
    }
}

#[test]
fn tcp_rule() {
    match single_rule("tcp port 8080 ready") {
        Rule::Tcp(t) => assert_eq!(t.port(), 8080),
        other => panic!("wrong rule kind: {:?}", other),
    }
}

#[test]
fn http_rule_with_port() {
    match single_rule("http port 81 ready") {
        Rule::Http(h) => {
            assert_eq!(h.port(), Some(81));
            assert_eq!(h.build().port(), 81);
        },
        other => panic!("wrong rule kind: {:?}", other),
    }
}

#[test]
fn http_rule_default_port() {
    match single_rule("http ready") {
        Rule::Http(h) => {
            assert_eq!(h.port(), None);
            assert_eq!(h.build().port(), 80);
        },
        other => panic!("wrong rule kind: {:?}", other),
    }
}

#[test]
fn https_rule_default_port() {
    match single_rule("https ready") {
        Rule::Https(h) => {
            assert_eq!(h.port(), None);
            assert_eq!(h.build().port(), 443);
        },
        other => panic!("wrong rule kind: {:?}", other),
    }
}

#[test]
fn https_rule_with_port() {
    match single_rule("https port 8443 ready") {
        Rule::Https(h) => assert_eq!(h.build().port(), 8443),
        other => panic!("wrong rule kind: {:?}", other),
    }
}

#[test]
fn matches_bare_pattern() {
    match single_rule("matches ready\\d+") {
        Rule::Matches(m) => assert_eq!(m.pattern(), b"ready\\d+".to_vec()),
        other => panic!("wrong rule kind: {:?}", other),
    }
}

#[test]
fn matches_quoted_pattern_unescapes_quotes() {
    match single_rule("matches \"^a \\\" b\"") {
        Rule::Matches(m) => assert_eq!(m.pattern(), b"^a \" b".to_vec()),
        other => panic!("wrong rule kind: {:?}", other),
    }
}

#[test]
fn matches_quoted_pattern_with_spaces() {
    match single_rule("matches \"server is up\"") {
        Rule::Matches(m) => assert_eq!(m.pattern(), b"server is up".to_vec()),
        other => panic!("wrong rule kind: {:?}", other),
    }
}

#[test]
fn and_binds_tighter_than_or() {
    let or = parse("after 2s and tcp port 9 ready or http ready").expect("should parse");
    assert_eq!(or.len(), 2);
    assert_eq!(or.group(0).len(), 2);
    assert_eq!(or.group(1).len(), 1);
    assert!(matches!(or.group(0).rule(0), Rule::After(_)));
    assert!(matches!(or.group(0).rule(1), Rule::Tcp(_)));
    assert!(matches!(or.group(1).rule(0), Rule::Http(_)));
}

#[test]
fn keywords_are_case_insensitive() {
    let or = parse("AFTER 5S AND TCP PORT 1 READY OR MATCHES up").expect("should parse");
    assert_eq!(or.len(), 2);
    assert_eq!(or.group(0).len(), 2);
}

#[test]
fn trailing_blanks_allowed() {
    assert!(parse("after 5s   ").is_ok());
    assert!(parse("tcp port 1 ready\t").is_ok());
}

#[test]
fn empty_expression_fails() {
    assert!(parse("").is_err());
    assert!(parse("   ").is_err());
}

#[test]
fn unknown_keyword_fails() {
    assert!(parse("bogus").is_err());
    assert!(parse("ready").is_err());
}

#[test]
fn incomplete_rules_fail() {
    assert!(parse("after").is_err());
    assert!(parse("after x").is_err());
    assert!(parse("tcp port 80").is_err());
    assert!(parse("tcp ready").is_err());
    assert!(parse("http").is_err());
    assert!(parse("matches").is_err());
}

#[test]
fn bad_ports_fail() {
    assert!(parse("tcp port 0 ready").is_err());
    assert!(parse("tcp port 65536 ready").is_err());
    assert!(parse("http port 0 ready").is_err());
    assert!(parse("tcp port x ready").is_err());
}

#[test]
fn port_upper_bound_accepted() {
    match single_rule("tcp port 65535 ready") {
        Rule::Tcp(t) => assert_eq!(t.port(), 65535),
        other => panic!("wrong rule kind: {:?}", other),
    }
}

#[test]
fn invalid_regex_fails() {
    // The quoted reading fails to compile, and so does the bare-token
    // fallback that keeps the quote characters.
    assert!(parse("matches \"(\"").is_err());
    assert!(parse("matches [").is_err());
}

#[test]
fn quoted_pattern_may_hold_connective_words() {
    // Inside quotes, `and` and `or` are pattern text, not grammar.
    let or = parse("matches \"a and b\" or after 1s").expect("should parse");
    assert_eq!(or.len(), 2);
    match or.group(0).rule(0) {
        Rule::Matches(m) => assert_eq!(m.pattern(), b"a and b".to_vec()),
        other => panic!("wrong rule kind: {:?}", other),
    }
}

#[test]
fn generous_blanks_between_tokens() {
    let or = parse("after  5s   and	tcp  port  7  ready  or  http  ready").expect("should parse");
    assert_eq!(or.len(), 2);
    assert_eq!(or.group(0).len(), 2);
}

#[test]
fn connective_prefix_words_are_not_connectives() {
    // `oracle` begins with `or` but no blank follows the keyword.
    assert!(parse("after 5s oracle ready").is_err());
    assert!(parse("after 5s andx").is_err());
}

#[test]
fn dangling_connectives_fail() {
    assert!(parse("after 5s and").is_err());
    assert!(parse("after 5s or").is_err());
    assert!(parse("and after 5s").is_err());
}

#[test]
fn error_position_is_bounded() {
    let err = parse("after 5s and nonsense").unwrap_err();
    assert!(err.pos <= "after 5s and nonsense".len());
}
