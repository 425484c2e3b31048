use heirloom_backend::clock::Timestamp;
use heirloom_backend::custom_metrics::{
    grafana_dashboard_templates, Aggregate, Aggregation, CreateShareRequest, CustomMetricsStore,
};
use heirloom_backend::json::{Json, JsonItems};
use heirloom_backend::strmap::StrMap;

/// The place of a float in the order of floats.
fn key(x: f64) -> i64 {
    let bits = x.to_bits() as i64;
    if bits < 0 {
        i64::MIN.wrapping_sub(bits)
    } else {
        bits
    }
}

/// The float with the given place in the order of floats.
fn float(k: i64) -> f64 {
    if k >= 0 {
        f64::from_bits(k as u64)
    } else {
        -f64::from_bits(k.unsigned_abs())
    }
}

fn value(a: Aggregate) -> f64 {
    match a {
        Aggregate::Zero => 0.0,
        Aggregate::Value(k) => float(k),
        Aggregate::Count(n) => n as f64,
        Aggregate::SumOf(ks) => ks.iter().map(|k| float(*k)).sum(),
        Aggregate::MeanOf(ks) => ks.iter().map(|k| float(*k)).sum::<f64>() / ks.len() as f64,
    }
}

#[test]
fn aggregates_sum_avg_min_max_count() {
    let mut store = CustomMetricsStore::default();
    for v in [1.0, 2.0, 3.0, 4.0] {
        store.record("checkout_latency_ms", key(v), StrMap::new());
    }

    assert_eq!(
        value(store.aggregate("checkout_latency_ms", Aggregation::Sum).unwrap().value),
        10.0
    );
    assert_eq!(
        value(store.aggregate("checkout_latency_ms", Aggregation::Avg).unwrap().value),
        2.5
    );
    assert_eq!(
        value(store.aggregate("checkout_latency_ms", Aggregation::Min).unwrap().value),
        1.0
    );
    assert_eq!(
        value(store.aggregate("checkout_latency_ms", Aggregation::Max).unwrap().value),
        4.0
    );
    assert_eq!(
        store
            .aggregate("checkout_latency_ms", Aggregation::Count)
            .unwrap()
            .sample_count,
        4
    );
}

#[test]
fn unknown_metric_returns_none() {
    let mut store = CustomMetricsStore::default();
    assert!(store.aggregate("does-not-exist", Aggregation::Avg).is_none());
}

#[test]
fn dashboard_templates_are_present_and_valid_json() {
    let templates = grafana_dashboard_templates();
    assert!(templates.contains_key("vault-lifecycle"));
    assert!(templates.contains_key("custom-metric-explorer"));
}

#[test]
fn dashboard_share_round_trips() {
    let mut store = CustomMetricsStore::default();
    let share = store.create_share(CreateShareRequest {
        dashboard: "vault-lifecycle".to_string(),
        created_by: Some("alice".to_string()),
    });
    let resolved = store.resolve_share(&share.token).expect("share should resolve");
    assert_eq!(resolved.dashboard, "vault-lifecycle");
}

#[test]
fn negative_values_keep_their_order() {
    let mut store = CustomMetricsStore::new();
    for v in [-1.0, -2.5, 0.5] {
        store.record_at("m", key(v), StrMap::new(), Timestamp { secs: 0, nanos: 0 });
    }
    assert_eq!(value(store.aggregate("m", Aggregation::Min).unwrap().value), -2.5);
    assert_eq!(value(store.aggregate("m", Aggregation::Max).unwrap().value), 0.5);
    assert_eq!(store.list_metric_names(), vec!["m"]);
    assert!(store.resolve_share("nothing").is_none());
}

#[test]
fn a_share_has_the_given_token_and_time() {
    let mut store = CustomMetricsStore::new();
    let now = Timestamp { secs: 3, nanos: 4 };
    let request = CreateShareRequest { dashboard: "d".to_string(), created_by: None };
    let share = store.create_share_as(request, "token".to_string(), now);
    assert_eq!(share.created_at, now);
    assert_eq!(store.resolve_share("token").unwrap().dashboard, "d");
}

#[test]
fn dashboards_hold_their_queries() {
    let templates = grafana_dashboard_templates();
    let lifecycle = templates.get("vault-lifecycle").unwrap();
    let items = |v: &Json| -> Vec<Json> {
        let mut out = Vec::new();
        if let Json::List(list) = v {
            let mut rest: &JsonItems = list;
            while let JsonItems::Cons(item, next) = rest {
                out.push(item.clone());
                rest = next;
            }
        }
        out
    };
    let panels = items(lifecycle.get("panels").unwrap());
    assert_eq!(panels.len(), 2);
    assert_eq!(panels[1].get_str("type"), Some("stat"));
    assert_eq!(panels[1].get_str("title"), Some("Active vaults"));
    let queries = items(panels[0].get("targets").unwrap());
    assert_eq!(queries.len(), 2);
    assert_eq!(queries[1].get_str("expr"), Some("rate(heirloom_protocol_releases_total[5m])"));
    assert!(lifecycle.get("templating").is_none());

    let explorer = templates.get("custom-metric-explorer").unwrap();
    let variables = items(explorer.get("templating").unwrap().get("list").unwrap());
    assert_eq!(variables.len(), 1);
    assert_eq!(variables[0].get_str("name"), Some("metric_name"));
    assert_eq!(variables[0].get_str("type"), Some("textbox"));
    let panels = items(explorer.get("panels").unwrap());
    let queries = items(panels[0].get("targets").unwrap());
    assert_eq!(queries[0].get_str("expr"), Some("custom_metric{name=\"$metric_name\"}"));
}
