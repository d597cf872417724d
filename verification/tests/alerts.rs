use healthcheck::alert::Config as AlertConfig;
use healthcheck::alertmanager::AlertManagerClient;
use healthcheck::{CheckInfo, CheckRegistry, CheckStatus, CheckUpdate};

fn info(name: &str) -> CheckInfo {
    CheckInfo {
        name: name.to_owned(),
        labels: vec![("hostname".to_owned(), "web-1".to_owned())],
        annotations: vec![("runbook".to_owned(), "wiki/checks".to_owned())],
    }
}

fn client(allow_output: bool) -> AlertManagerClient {
    let mut registry = CheckRegistry::new();
    registry.insert(5, info("http example"));
    registry.insert(9, info("dns example"));
    let config = AlertConfig {
        base_url: "http://alerts.local".to_owned(),
        realert_interval_ms: 30_000,
        allow_output_annotation: allow_output,
    };
    AlertManagerClient::new(config, registry)
}

fn failed(id: usize, msg: &str) -> CheckUpdate {
    CheckUpdate { id, status: CheckStatus::Failed, msg: Some(msg.to_owned()) }
}

fn succeeded(id: usize) -> CheckUpdate {
    CheckUpdate { id, status: CheckStatus::Succeeded, msg: None }
}

#[test]
fn repeated_failure_posts_once() {
    let mut c = client(false);

    let first = c.process_update_at(failed(5, "timeout"), 100);
    assert!(first.is_some());
    assert_eq!(first.unwrap().len(), 1);
    assert_eq!(c.active_alerts.len(), 1);
    assert_eq!(c.active_alerts[0].0, 5);

    // The second Failed update for the same id changes nothing and posts nothing.
    let second = c.process_update_at(failed(5, "timeout again"), 200);
    assert!(second.is_none());
    assert_eq!(c.active_alerts.len(), 1);
    assert_eq!(c.active_alerts[0].1.starts_at, Some(100));
}

#[test]
fn failure_then_success_ends_and_removes() {
    let mut c = client(false);

    let first = c.process_update_at(failed(5, "timeout"), 100);
    let payload = first.unwrap();
    assert_eq!(payload.len(), 1);
    assert_eq!(payload[0].starts_at, Some(100));
    assert_eq!(payload[0].ends_at, None);

    let second = c.process_update_at(succeeded(5), 250);
    let payload = second.unwrap();
    // The resolving POST still carries the alert, now with its end set.
    assert_eq!(payload.len(), 1);
    assert_eq!(payload[0].starts_at, Some(100));
    assert_eq!(payload[0].ends_at, Some(250));
    assert_eq!(c.active_alerts.len(), 0);
}

#[test]
fn timer_tick_reposts_active_set_only() {
    let mut c = client(false);

    // No active alerts: a tick posts nothing.
    assert!(c.handle_tick().is_none());

    c.process_update_at(failed(5, "down"), 100);
    let tick = c.handle_tick().unwrap();
    assert_eq!(tick.len(), 1);
    assert_eq!(tick[0].starts_at, Some(100));

    // Each further tick posts the unchanged set again.
    let tick = c.handle_tick().unwrap();
    assert_eq!(tick.len(), 1);
    assert_eq!(tick[0].starts_at, Some(100));
    assert_eq!(c.active_alerts.len(), 1);
}

#[test]
fn success_without_alert_is_noop() {
    let mut c = client(false);
    assert!(c.process_update_at(succeeded(5), 100).is_none());
    assert_eq!(c.active_alerts.len(), 0);
}

#[test]
fn unknown_id_is_skipped() {
    let mut c = client(false);
    assert!(c.process_update_at(failed(77, "down"), 100).is_none());
    assert_eq!(c.active_alerts.len(), 0);
}

#[test]
fn transient_states_change_nothing() {
    let mut c = client(false);
    let running = CheckUpdate { id: 5, status: CheckStatus::Running, msg: None };
    let waiting = CheckUpdate {
        id: 5,
        status: CheckStatus::Waiting(1000, "recheck".to_owned()),
        msg: None,
    };
    assert!(c.process_update_at(running, 100).is_none());
    assert!(c.process_update_at(waiting, 100).is_none());
    assert_eq!(c.active_alerts.len(), 0);
}

#[test]
fn output_annotation_follows_configuration() {
    let mut c = client(true);
    let payload = c.process_update_at(failed(5, "connection refused"), 100).unwrap();
    let has_output = payload[0]
        .annotations
        .iter()
        .any(|(k, v)| k == "output" && v == "connection refused");
    assert!(has_output);
    assert_eq!(payload[0].labels, vec![("hostname".to_owned(), "web-1".to_owned())]);

    let mut quiet = client(false);
    let payload = quiet.process_update_at(failed(5, "connection refused"), 100).unwrap();
    let has_output = payload[0].annotations.iter().any(|(k, _)| k == "output");
    assert!(!has_output);
}

#[test]
fn close_posts_final_state() {
    let mut c = client(false);
    assert_eq!(c.handle_close().len(), 0);

    c.process_update_at(failed(5, "down"), 100);
    c.process_update_at(failed(9, "down too"), 150);
    let last = c.handle_close();
    assert_eq!(last.len(), 2);
    assert_eq!(last[0].starts_at, Some(100));
    assert_eq!(last[1].starts_at, Some(150));
    // Closing does not consume the state.
    assert_eq!(c.active_alerts.len(), 2);
}

#[test]
fn two_alerts_resolve_independently() {
    let mut c = client(false);
    c.process_update_at(failed(5, "down"), 100);
    let p = c.process_update_at(failed(9, "down"), 110).unwrap();
    assert_eq!(p.len(), 2);

    let p = c.process_update_at(succeeded(5), 120).unwrap();
    assert_eq!(p.len(), 2);
    assert_eq!(c.active_alerts.len(), 1);
    assert_eq!(c.active_alerts[0].0, 9);
}

#[test]
fn wall_clock_update_stamps_a_real_time() {
    let mut c = client(false);
    let payload = c.process_update(failed(5, "down")).unwrap();
    assert_eq!(payload.len(), 1);
    // The clock reading is opaque, but it is a present, plausible timestamp:
    // past 2020-01-01 and strictly before the resolution below.
    let started = payload[0].starts_at.expect("a start time");
    assert!(started > 1_577_836_800);

    let resolved = c.process_update(succeeded(5)).unwrap();
    let ended = resolved[0].ends_at.expect("an end time");
    assert!(ended >= started);
    assert_eq!(c.active_alerts.len(), 0);
}

#[test]
fn alerts_url_joins_base_and_path() {
    let config = AlertConfig {
        base_url: "http://alerts.local".to_owned(),
        realert_interval_ms: 30_000,
        allow_output_annotation: false,
    };
    assert_eq!(config.alerts_url(), "http://alerts.local/alerts");
}

#[test]
fn registry_resolves_known_ids_only() {
    let mut registry = CheckRegistry::new();
    assert_eq!(registry.len(), 0);
    registry.insert(0, info("a"));
    registry.insert(2, info("b"));
    assert_eq!(registry.len(), 2);
    assert_eq!(registry.get(0).unwrap().name, "a");
    assert_eq!(registry.get(2).unwrap().name, "b");
    assert!(registry.get(1).is_none());
}
