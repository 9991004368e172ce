use maki::providers::routing::{
    resolve, session_override, set_session_override, to_body_value, DataCollection, ProviderDef,
    RoutingConfig, RoutingSession, RoutingSort,
};
use serde_json::Value;

const UPSTREAM_A: &str = "together";
const UPSTREAM_B: &str = "deepinfra";

fn routing(sort: Option<RoutingSort>) -> RoutingConfig {
    RoutingConfig {
        sort,
        ..Default::default()
    }
}

fn list(texts: &[&str]) -> Value {
    Value::Array(texts.iter().map(|t| Value::String(t.to_string())).collect())
}

#[test]
fn sort_serializes_to_the_wire_name_price() {
    let body = to_body_value(&routing(Some(RoutingSort::Price)));
    assert_eq!(body["sort"], "price");
}

#[test]
fn sort_serializes_to_the_wire_name_throughput() {
    let body = to_body_value(&routing(Some(RoutingSort::Throughput)));
    assert_eq!(body["sort"], "throughput");
}

#[test]
fn sort_serializes_to_the_wire_name_latency() {
    let body = to_body_value(&routing(Some(RoutingSort::Latency)));
    assert_eq!(body["sort"], "latency");
}

#[test]
fn empty_routing_emits_no_keys() {
    let body = to_body_value(&RoutingConfig::default());
    assert_eq!(body, Value::Object(serde_json::Map::new()));
}

#[test]
fn lists_and_policy_round_trip() {
    let body = to_body_value(&RoutingConfig {
        sort: None,
        ignore: vec![UPSTREAM_A.into()],
        only: vec![UPSTREAM_B.into()],
        data_collection: Some(DataCollection::Deny),
    });
    assert_eq!(body["ignore"], list(&[UPSTREAM_A]));
    assert_eq!(body["only"], list(&[UPSTREAM_B]));
    assert_eq!(body["data_collection"], "deny");
    assert!(body.get("sort").is_none());
}

#[test]
fn is_empty_only_when_nothing_is_asked_for() {
    assert!(RoutingConfig::default().is_empty());
    assert!(!routing(Some(RoutingSort::Latency)).is_empty());
}

#[test]
fn the_order_of_a_list_is_kept() {
    let body = to_body_value(&RoutingConfig {
        ignore: vec![UPSTREAM_B.into(), UPSTREAM_A.into()],
        ..Default::default()
    });
    assert_eq!(body["ignore"], list(&[UPSTREAM_B, UPSTREAM_A]));
}

#[test]
fn the_override_wins_and_clearing_it_falls_back() {
    let providers = vec![
        ProviderDef {
            slug: "openrouter".to_string(),
            routing: Some(routing(Some(RoutingSort::Price))),
        },
        ProviderDef {
            slug: "plain".to_string(),
            routing: None,
        },
        ProviderDef {
            slug: "empty".to_string(),
            routing: Some(RoutingConfig::default()),
        },
    ];
    let mut session = RoutingSession::new();
    let sort = |session: &RoutingSession, slug: &str| {
        resolve(session, &providers, slug).map(|r| r.sort)
    };
    assert_eq!(sort(&session, "openrouter"), Some(Some(RoutingSort::Price)));
    assert_eq!(sort(&session, "plain"), None);
    assert_eq!(sort(&session, "empty"), None);
    assert_eq!(sort(&session, "unknown"), None);

    set_session_override(&mut session, Some(routing(Some(RoutingSort::Latency))));
    assert_eq!(
        session_override(&session).unwrap().sort,
        Some(RoutingSort::Latency)
    );
    assert_eq!(sort(&session, "openrouter"), Some(Some(RoutingSort::Latency)));
    assert_eq!(sort(&session, "unknown"), Some(Some(RoutingSort::Latency)));

    set_session_override(&mut session, Some(RoutingConfig::default()));
    assert_eq!(sort(&session, "openrouter"), None);

    set_session_override(&mut session, None);
    assert!(session_override(&session).is_none());
    assert_eq!(sort(&session, "openrouter"), Some(Some(RoutingSort::Price)));
}
