use tapproxy::rules::parse_forwarding_rule;
use tapproxy::rules::validate_rules;
use tapproxy::rules::ForwardingRule;

#[test]
fn parse_valid_rule() {
    let rule = parse_forwarding_rule("9000:127.0.0.1:9001").unwrap();
    assert_eq!(rule.local_port, 9000);
    assert_eq!(rule.target_host, "127.0.0.1");
    assert_eq!(rule.target_port, 9001);
}

#[test]
fn parse_hostname_and_extremes() {
    let rule = parse_forwarding_rule("1:example.com:65535").unwrap();
    assert_eq!(rule.local_port, 1);
    assert_eq!(rule.target_host, "example.com");
    assert_eq!(rule.target_port, 65535);
    let plus = parse_forwarding_rule("+8080:h:+80").unwrap();
    assert_eq!(plus.local_port, 8080);
    assert_eq!(plus.target_port, 80);
}

#[test]
fn parse_wrong_shape() {
    assert_eq!(
        parse_forwarding_rule("9000").unwrap_err(),
        "Invalid format '9000'. Expected LOCAL_PORT:TARGET_HOST:TARGET_PORT"
    );
    assert!(parse_forwarding_rule("9000:h").is_err());
    assert!(parse_forwarding_rule("9000:h:80:extra").is_err());
    assert!(parse_forwarding_rule("").is_err());
}

#[test]
fn parse_bad_ports() {
    assert_eq!(
        parse_forwarding_rule("x:h:80").unwrap_err(),
        "Invalid local port 'x'. Must be 1-65535"
    );
    assert_eq!(
        parse_forwarding_rule("70000:h:80").unwrap_err(),
        "Invalid local port '70000'. Must be 1-65535"
    );
    assert_eq!(
        parse_forwarding_rule("0:h:80").unwrap_err(),
        "Invalid local port '0'. Must be 1-65535"
    );
    assert_eq!(
        parse_forwarding_rule("8080:h:0"
        ).unwrap_err(),
        "Invalid target port '0'. Must be 1-65535"
    );
    assert!(parse_forwarding_rule("8080:h:-1").is_err());
    assert!(parse_forwarding_rule("8080:h:8.5").is_err());
}

#[test]
fn parse_empty_host() {
    assert_eq!(
        parse_forwarding_rule("80::80").unwrap_err(),
        "Target host cannot be empty"
    );
}

#[test]
fn duplicate_local_ports_rejected() {
    let rules: Vec<ForwardingRule> = vec![
        parse_forwarding_rule("9000:127.0.0.1:9001").unwrap(),
        parse_forwarding_rule("9100:127.0.0.1:9001").unwrap(),
        parse_forwarding_rule("9000:other.example:1").unwrap(),
    ];
    let err = validate_rules(&rules).unwrap_err();
    assert_eq!(err, "Duplicate local port 9000");
}

#[test]
fn unique_local_ports_accepted() {
    let rules: Vec<ForwardingRule> = vec![
        parse_forwarding_rule("9000:127.0.0.1:9001").unwrap(),
        parse_forwarding_rule("9100:127.0.0.1:9001").unwrap(),
    ];
    assert!(validate_rules(&rules).is_ok());
    let empty: Vec<ForwardingRule> = Vec::new();
    assert!(validate_rules(&empty).is_ok());
}
