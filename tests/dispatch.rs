use noisebell::dispatch::{
    aggregate, plan_deliveries, Action, Delivery, DeliveryDefaults, Endpoint, EndpointConfig, Phase,
};

/// Drives one delivery to the end with the given attempt outcomes, recording
/// every action.
fn drive(mut d: Delivery, outcomes: &[bool]) -> Vec<Action> {
    let mut trace = Vec::new();
    let mut next = 0;
    loop {
        let a = d.action();
        trace.push(a);
        match a {
            Action::Send { .. } => {
                d.record(outcomes[next]);
                next += 1;
            }
            Action::Sleep { .. } => d.resume(),
            Action::Finished { .. } => return trace,
        }
    }
}

fn endpoint(url: &str) -> Endpoint {
    Endpoint::with_url(url.to_string())
}

#[test]
fn one_failing_endpoint_among_three() {
    let config = EndpointConfig {
        endpoints: vec![endpoint("https://a.example/"), endpoint("https://b.example/"), endpoint("https://c.example/")],
    };
    let defaults = DeliveryDefaults::standard();
    let plans = plan_deliveries(&config.endpoints, &defaults);
    assert_eq!(plans.len(), 3);

    let a = drive(plans[0], &[true]);
    let b = drive(plans[1], &[false, false, false]);
    let c = drive(plans[2], &[true]);

    assert_eq!(a, vec![Action::Send { attempt: 1, timeout_secs: 30 }, Action::Finished { delivered: true }]);
    assert_eq!(c, a);
    assert_eq!(
        b,
        vec![
            Action::Send { attempt: 1, timeout_secs: 30 },
            Action::Sleep { secs: 1 },
            Action::Send { attempt: 2, timeout_secs: 30 },
            Action::Sleep { secs: 1 },
            Action::Send { attempt: 3, timeout_secs: 30 },
            Action::Finished { delivered: false },
        ]
    );

    let report = aggregate(&config.endpoints, &vec![true, false, true]);
    assert_eq!(report.success_count, 2);
    assert_eq!(report.failed, vec!["https://b.example/".to_string()]);
}

#[test]
fn success_after_retry_stops_retrying() {
    let d = Delivery::new(5, 10, 2);
    let t = drive(d, &[false, true]);
    assert_eq!(
        t,
        vec![
            Action::Send { attempt: 1, timeout_secs: 10 },
            Action::Sleep { secs: 2 },
            Action::Send { attempt: 2, timeout_secs: 10 },
            Action::Finished { delivered: true },
        ]
    );
}

#[test]
fn zero_attempts_gives_up_at_once() {
    let d = Delivery::new(0, 10, 1);
    assert_eq!(d.phase(), Phase::GaveUp);
    assert!(d.is_finished());
    assert_eq!(drive(d, &[]), vec![Action::Finished { delivered: false }]);
}

#[test]
fn endpoint_overrides_apply() {
    let e = Endpoint {
        url: "https://x.example/".to_string(),
        name: Some("front door".to_string()),
        timeout_secs: Some(5),
        retry_attempts: Some(1),
    };
    let defaults = DeliveryDefaults::standard();
    assert_eq!(e.effective_timeout_secs(&defaults), 5);
    assert_eq!(e.effective_attempts(&defaults), 1);
    assert_eq!(e.display_name(), "front door");
    let t = drive(e.delivery(&defaults), &[false]);
    assert_eq!(t, vec![Action::Send { attempt: 1, timeout_secs: 5 }, Action::Finished { delivered: false }]);
}

#[test]
fn defaults_apply_without_overrides() {
    let e = endpoint("https://y.example/");
    let defaults = DeliveryDefaults { timeout_secs: 12, attempts: 4, delay_secs: 3 };
    assert_eq!(e.effective_timeout_secs(&defaults), 12);
    assert_eq!(e.effective_attempts(&defaults), 4);
    assert_eq!(e.display_name(), "https://y.example/");
    let t = drive(e.delivery(&defaults), &[false, false, false, false]);
    assert_eq!(t.iter().filter(|a| matches!(a, Action::Send { .. })).count(), 4);
    assert_eq!(t.iter().filter(|a| **a == Action::Sleep { secs: 3 }).count(), 3);
}

#[test]
fn record_outside_sending_changes_nothing() {
    let mut d = Delivery::new(3, 30, 1);
    d.record(false);
    let waiting = d;
    d.record(true);
    assert_eq!(d, waiting);
    d.resume();
    assert_eq!(d.phase(), Phase::Sending);
    d.resume();
    assert_eq!(d.phase(), Phase::Sending);
}

#[test]
fn aggregate_of_nothing() {
    let report = aggregate(&Vec::new(), &Vec::new());
    assert_eq!(report.success_count, 0);
    assert!(report.failed.is_empty());
}

#[test]
fn aggregate_all_failed_keeps_order() {
    let endpoints = vec![endpoint("https://2.example/"), endpoint("https://1.example/")];
    let report = aggregate(&endpoints, &vec![false, false]);
    assert_eq!(report.success_count, 0);
    assert_eq!(report.failed, vec!["https://2.example/".to_string(), "https://1.example/".to_string()]);
}
