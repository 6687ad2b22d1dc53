use oqto::agent::{OpenCodeTokenCache, OpenCodeTokenLimit, OpenCodeTokenTotals};
use oqto::agent_service::{
    context_totals, current_tokens, find_model_limit, ProviderLimits, SessionMessageInfo,
};

fn counts(i: u64, o: u64, r: u64, cr: u64, cw: u64) -> OpenCodeTokenTotals {
    OpenCodeTokenTotals { input: i, output: o, reasoning: r, cache: OpenCodeTokenCache { read: cr, write: cw } }
}

fn msg(role: &str, model: Option<&str>, provider: Option<&str>, tokens: Option<OpenCodeTokenTotals>) -> SessionMessageInfo {
    SessionMessageInfo {
        role: role.to_string(),
        model_id: model.map(|s| s.to_string()),
        provider_id: provider.map(|s| s.to_string()),
        tokens,
    }
}

#[test]
fn totals_over_assistant_messages() {
    let ms = vec![
        msg("user", None, None, Some(counts(100, 100, 100, 100, 100))),
        msg("assistant", Some("m1"), Some("p1"), Some(counts(10, 20, 3, 4, 5))),
        msg("assistant", Some("m2"), Some("p2"), None),
        msg("assistant", Some("m3"), Some("p3"), Some(counts(1, 2, 0, 0, 1))),
        msg("user", Some("mx"), Some("px"), None),
    ];
    let c = context_totals(&ms).unwrap();
    assert_eq!(c.model_id, "m3");
    assert_eq!(c.provider_id, "p3");
    assert_eq!(
        (c.totals.input, c.totals.output, c.totals.reasoning, c.totals.cache.read, c.totals.cache.write),
        (11, 22, 3, 4, 6)
    );
    assert_eq!(current_tokens(&c.totals), 46);
}

#[test]
fn no_report_without_a_named_model() {
    assert!(context_totals(&vec![msg("user", Some("m"), Some("p"), None)]).is_none());
    assert!(context_totals(&vec![msg("assistant", None, Some("p"), None)]).is_none());
    assert!(context_totals(&vec![msg("assistant", Some("m"), None, None)]).is_none());
    assert!(context_totals(&Vec::new()).is_none());
}

#[test]
fn model_limits_by_provider() {
    let lim = |c, o| OpenCodeTokenLimit { context: c, output: o };
    let providers = vec![
        ProviderLimits { id: "p1".to_string(), models: vec![("m1".to_string(), lim(1000, 100))] },
        ProviderLimits {
            id: "p2".to_string(),
            models: vec![("m1".to_string(), lim(2000, 200)), ("m2".to_string(), lim(3000, 300))],
        },
    ];
    assert_eq!(find_model_limit(&providers, "p2", "m2").map(|l| l.context), Some(3000));
    assert_eq!(find_model_limit(&providers, "p1", "m1").map(|l| l.output), Some(100));
    assert!(find_model_limit(&providers, "p1", "m2").is_none());
    assert!(find_model_limit(&providers, "p3", "m1").is_none());
}
