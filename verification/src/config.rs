use vstd::prelude::*;

use crate::{alert, dns, http, labels_view, retry, ssh};

verus! {

/// The probe-specific parameter block, tagged by probe kind. The runner
/// dispatches on this once, at construction time.
#[derive(Debug)]
pub enum CheckConfig {
    Http(http::Config),
    Dns(dns::Config),
    Ssh(ssh::Config),
}

/// Mathematical image of a `CheckConfig`: for HTTP the URL, for DNS the
/// domain, for a remote command the command, the host and the optional user.
pub enum SpecCheckConfig {
    Http(Seq<char>),
    Dns(Seq<char>),
    Ssh(Seq<char>, Seq<char>, Option<Seq<char>>),
}

impl View for CheckConfig {
    type V = SpecCheckConfig;

    open spec fn view(&self) -> SpecCheckConfig {
        match self {
            CheckConfig::Http(c) => SpecCheckConfig::Http(c.url@),
            CheckConfig::Dns(c) => SpecCheckConfig::Dns(c.domain@),
            CheckConfig::Ssh(c) => SpecCheckConfig::Ssh(
                c.command@,
                c.hostname@,
                match c.user {
                    None => None,
                    Some(ref u) => Some(u@),
                },
            ),
        }
    }
}

impl Clone for CheckConfig {
    fn clone(&self) -> (r: Self)
        ensures
            r@ == self@,
    {
        match self {
            CheckConfig::Http(c) => CheckConfig::Http(c.clone()),
            CheckConfig::Dns(c) => CheckConfig::Dns(c.clone()),
            CheckConfig::Ssh(c) => CheckConfig::Ssh(c.clone()),
        }
    }
}

/// The display name of the probe a parameter block configures.
pub open spec fn spec_config_name(c: SpecCheckConfig) -> Seq<char> {
    match c {
        SpecCheckConfig::Http(url) => "http "@ + url,
        SpecCheckConfig::Dns(domain) => "dns "@ + domain,
        SpecCheckConfig::Ssh(command, hostname, _) => "ssh "@ + hostname + ": '"@ + command
            + "'"@,
    }
}

impl CheckConfig {
    pub fn check_name(&self) -> (r: String)
        ensures
            r@ == spec_config_name(self@),
    {
        match self {
            CheckConfig::Http(c) => http::check_name(c),
            CheckConfig::Dns(c) => dns::check_name(c),
            CheckConfig::Ssh(c) => ssh::check_name(c),
        }
    }
}

/// One materialized check: its probe parameters, cadences, limits and the
/// labels and annotations its alerts carry.
#[derive(Debug)]
pub struct CheckDefinition {
    pub retry_policy: retry::Policy,
    pub check_timeout_ms: u64,
    pub labels: Vec<(String, String)>,
    pub annotations: Vec<(String, String)>,
    pub alert_policy: alert::Policy,
    pub config: CheckConfig,
}

/// Mathematical image of a `CheckDefinition`.
pub struct SpecCheckDefinition {
    pub retry_policy: retry::Policy,
    pub check_timeout_ms: u64,
    pub labels: Seq<(Seq<char>, Seq<char>)>,
    pub annotations: Seq<(Seq<char>, Seq<char>)>,
    pub alert_policy: alert::Policy,
    pub config: SpecCheckConfig,
}

impl View for CheckDefinition {
    type V = SpecCheckDefinition;

    open spec fn view(&self) -> SpecCheckDefinition {
        SpecCheckDefinition {
            retry_policy: self.retry_policy,
            check_timeout_ms: self.check_timeout_ms,
            labels: labels_view(self.labels@),
            annotations: labels_view(self.annotations@),
            alert_policy: self.alert_policy,
            config: self.config@,
        }
    }
}

/// Everything the runner consumes: the resolved check list and, for alert
/// mode, the alerting configuration.
#[derive(Debug)]
pub struct Config {
    pub alerting: Option<alert::Config>,
    pub checks: Vec<CheckDefinition>,
}

} // verus!
