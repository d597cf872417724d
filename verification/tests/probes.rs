use healthcheck::config::{CheckConfig, CheckDefinition, Config};
use healthcheck::select::term;
use healthcheck::{build_tasks, dns, http, lookup_label, retry, ssh};

fn definition(host: &str, url: &str) -> CheckDefinition {
    CheckDefinition {
        retry_policy: retry::Policy {
            max_retries: 3,
            initial_ms: 1000,
            multiplier_num: 11,
            multiplier_den: 10,
        },
        check_timeout_ms: 5000,
        labels: vec![("hostname".to_owned(), host.to_owned())],
        annotations: Vec::new(),
        alert_policy: healthcheck::alert::Policy {
            check_interval_ms: 60_000,
            recheck_interval_ms: 5_000,
        },
        config: CheckConfig::Http(http::Config { url: url.to_owned() }),
    }
}

#[test]
fn http_probe_name_and_status() {
    let c = http::Config { url: "http://example.test/health".to_owned() };
    assert_eq!(http::check_name(&c), "http http://example.test/health");

    assert!(http::status_is_success(200));
    assert!(http::status_is_success(204));
    assert!(http::status_is_success(299));
    assert!(!http::status_is_success(300));
    assert!(!http::status_is_success(404));
    assert!(!http::status_is_success(199));
}

#[test]
fn dns_probe_name() {
    let c = dns::Config { domain: "example.test".to_owned() };
    assert_eq!(dns::check_name(&c), "dns example.test");
}

#[test]
fn ssh_probe_name_args_and_log() {
    let c = ssh::Config {
        command: "uptime".to_owned(),
        hostname: "web-1".to_owned(),
        user: None,
    };
    assert_eq!(ssh::check_name(&c), "ssh web-1: 'uptime'");
    assert_eq!(ssh::ssh_args(&c), vec!["web-1".to_owned(), "uptime".to_owned()]);

    let with_user = ssh::Config {
        command: "uptime".to_owned(),
        hostname: "web-1".to_owned(),
        user: Some("ops".to_owned()),
    };
    assert_eq!(
        ssh::ssh_args(&with_user),
        vec!["web-1".to_owned(), "-lops".to_owned(), "uptime".to_owned()]
    );

    assert_eq!(
        ssh::command_log("up 3 days\n", "warning: slow\n"),
        "Stdout:\nup 3 days\nStderr:\nwarning: slow\n"
    );
}

#[test]
fn build_tasks_keeps_ids_through_filtering() {
    let config = Config {
        alerting: None,
        checks: vec![
            definition("web-1", "http://web-1/health"),
            definition("db-1", "http://db-1/health"),
            definition("web-2", "http://web-2/health"),
        ],
    };

    let (_, selector) = ("", term("hostname:/^web-/").unwrap().1);
    let (tasks, registry) = build_tasks(&config, &Some(selector));

    // db-1 is filtered out; ids keep their pre-filter positions 0 and 2.
    assert_eq!(tasks.len(), 2);
    assert_eq!(tasks[0].id, 0);
    assert_eq!(tasks[1].id, 2);
    assert_eq!(registry.len(), 2);
    assert_eq!(registry.get(0).unwrap().name, "http http://web-1/health");
    assert!(registry.get(1).is_none());
    assert_eq!(registry.get(2).unwrap().name, "http http://web-2/health");
}

#[test]
fn build_tasks_without_selector_keeps_all() {
    let config = Config {
        alerting: None,
        checks: vec![
            definition("web-1", "http://web-1/health"),
            definition("db-1", "http://db-1/health"),
        ],
    };
    let (tasks, registry) = build_tasks(&config, &None);
    assert_eq!(tasks.len(), 2);
    assert_eq!(registry.len(), 2);
    assert_eq!(tasks[1].id, 1);
    assert_eq!(tasks[0].timeout_ms, 5000);
}

#[test]
fn label_lookup_first_match_wins() {
    let labels = vec![
        ("k".to_owned(), "first".to_owned()),
        ("k".to_owned(), "second".to_owned()),
    ];
    assert_eq!(lookup_label(&labels, &"k".to_owned()), Some(&"first".to_owned()));
    assert_eq!(lookup_label(&labels, &"missing".to_owned()), None);
    assert_eq!(lookup_label(&Vec::new(), &"k".to_owned()), None);
}
