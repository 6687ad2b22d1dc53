use oqto::ctl::{is_confirmation, sandbox_report, ConfigValue};

fn table(entries: Vec<(&str, ConfigValue)>) -> ConfigValue {
    ConfigValue::Table(entries.into_iter().map(|(k, v)| (k.to_string(), v)).collect())
}

#[test]
fn sandbox_report_on_full_config() {
    let c = table(vec![
        ("enabled", ConfigValue::Boolean(true)),
        ("profile", ConfigValue::Text("strict".to_string())),
        ("deny_read", ConfigValue::Array(vec![])),
    ]);
    let r = sandbox_report(&c);
    assert!(r.warnings.is_empty());
    assert!(r.enabled);
    assert_eq!(r.profile, "strict");
}

#[test]
fn sandbox_report_on_empty_config() {
    let r = sandbox_report(&table(vec![]));
    assert_eq!(
        r.warnings,
        vec![
            "Missing 'enabled' field (defaults to false)",
            "Missing 'deny_read' field (sensitive files won't be protected)"
        ]
    );
    assert!(!r.enabled);
    assert_eq!(r.profile, "default");
    let r = sandbox_report(&table(vec![("enabled", ConfigValue::Text("yes".to_string()))]));
    assert_eq!(r.warnings.len(), 1);
    assert!(!r.enabled);
}

#[test]
fn confirmations() {
    assert!(is_confirmation("y\n"));
    assert!(is_confirmation("  Y "));
    assert!(!is_confirmation("yes"));
    assert!(!is_confirmation(""));
    assert!(!is_confirmation("n"));
}
