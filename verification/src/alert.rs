use vstd::prelude::*;

use crate::{
    spec_failed, spec_succeeded, spec_waiting, updates_view, CheckStatus, CheckUpdate,
};

verus! {

broadcast use vstd::string::group_string_axioms;

/// Alerting configuration: the alert sink's base URL, the re-announcement
/// cadence in milliseconds, and whether a failure's diagnostic text is copied
/// into an `output` annotation.
#[derive(Debug)]
pub struct Config {
    pub base_url: String,
    pub realert_interval_ms: u64,
    pub allow_output_annotation: bool,
}

impl Config {
    /// The alert-sink endpoint: the base URL with the alerts path appended.
    pub fn alerts_url(&self) -> (r: String)
        ensures
            r@ == self.base_url@ + "/alerts"@,
    {
        let mut url = self.base_url.clone();
        url.append("/alerts");
        url
    }
}

/// Alert-mode cadences in milliseconds: how soon a failing check is probed
/// again, and how often a healthy one is re-verified.
#[derive(Clone, Copy, Debug, PartialEq, Eq, Structural)]
pub struct Policy {
    pub check_interval_ms: u64,
    pub recheck_interval_ms: u64,
}

/// Decides what follows one probe attempt in alert mode: the updates to
/// emit, in order, and the wait in milliseconds before the next attempt.
///
/// A failure emits `Failed` with its description — the dispatcher's
/// idempotence makes the repetition harmless — then
/// `Waiting(recheck_interval, "recheck")`, and the next attempt comes after
/// the fast recheck cadence. A success emits `Succeeded`, then
/// `Waiting(check_interval, "next check")`, and the check is re-verified at
/// the slow cadence. No retry budget is involved: alert mode never gives a
/// check up, it only quickens or slows its cadence.
pub fn alert_attempt_step(id: usize, policy: &Policy, outcome: &Result<(), String>) -> (r: (
    Vec<CheckUpdate>,
    u64,
))
    ensures
        match outcome {
            Ok(_) => {
                &&& updates_view(r.0@) == seq![
                    spec_succeeded(id),
                    spec_waiting(id, policy.check_interval_ms, "next check"@),
                ]
                &&& r.1 == policy.check_interval_ms
            },
            Err(m) => {
                &&& updates_view(r.0@) == seq![
                    spec_failed(id, m@),
                    spec_waiting(id, policy.recheck_interval_ms, "recheck"@),
                ]
                &&& r.1 == policy.recheck_interval_ms
            },
        },
{
    let mut updates: Vec<CheckUpdate> = Vec::new();
    match outcome {
        Ok(_) => {
            updates.push(CheckUpdate::new(id, CheckStatus::Succeeded, None));
            updates.push(
                CheckUpdate::new(
                    id,
                    CheckStatus::Waiting(policy.check_interval_ms, "next check".to_owned()),
                    None,
                ),
            );
            proof {
                assert(updates_view(updates@) =~= seq![
                    spec_succeeded(id),
                    spec_waiting(id, policy.check_interval_ms, "next check"@),
                ]);
            }
            (updates, policy.check_interval_ms)
        },
        Err(m) => {
            updates.push(CheckUpdate::new(id, CheckStatus::Failed, Some(m.clone())));
            updates.push(
                CheckUpdate::new(
                    id,
                    CheckStatus::Waiting(policy.recheck_interval_ms, "recheck".to_owned()),
                    None,
                ),
            );
            proof {
                assert(updates_view(updates@) =~= seq![
                    spec_failed(id, m@),
                    spec_waiting(id, policy.recheck_interval_ms, "recheck"@),
                ]);
            }
            (updates, policy.recheck_interval_ms)
        },
    }
}

} // verus!
