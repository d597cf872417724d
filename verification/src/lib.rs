use vstd::prelude::*;

pub mod alert;
pub mod alertmanager;
pub mod config;
pub mod dns;
pub mod http;
pub mod report;
pub mod retry;
pub mod select;
pub mod ssh;

verus! {

/// The progress states a check task reports through the update channel.
/// `Waiting` carries the wait in milliseconds and what is being waited for.
#[derive(Debug)]
pub enum CheckStatus {
    Running,
    Retrying,
    Waiting(u64, String),
    Succeeded,
    Failed,
}

/// Mathematical image of a `CheckStatus`.
pub enum SpecStatus {
    Running,
    Retrying,
    Waiting(u64, Seq<char>),
    Succeeded,
    Failed,
}

impl View for CheckStatus {
    type V = SpecStatus;

    open spec fn view(&self) -> SpecStatus {
        match self {
            CheckStatus::Running => SpecStatus::Running,
            CheckStatus::Retrying => SpecStatus::Retrying,
            CheckStatus::Waiting(ms, reason) => SpecStatus::Waiting(*ms, reason@),
            CheckStatus::Succeeded => SpecStatus::Succeeded,
            CheckStatus::Failed => SpecStatus::Failed,
        }
    }
}

/// One message from a check task to the single consumer: which check, which
/// state it entered, and an optional diagnostic text.
#[derive(Debug)]
pub struct CheckUpdate {
    pub id: usize,
    pub status: CheckStatus,
    pub msg: Option<String>,
}

/// Mathematical image of a `CheckUpdate`.
pub struct SpecUpdate {
    pub id: usize,
    pub status: SpecStatus,
    pub msg: Option<Seq<char>>,
}

impl View for CheckUpdate {
    type V = SpecUpdate;

    open spec fn view(&self) -> SpecUpdate {
        SpecUpdate {
            id: self.id,
            status: self.status@,
            msg: match self.msg {
                None => None,
                Some(ref m) => Some(m@),
            },
        }
    }
}

impl CheckUpdate {
    pub fn new(id: usize, status: CheckStatus, msg: Option<String>) -> (r: CheckUpdate)
        ensures
            r.id == id,
            r.status == status,
            r.msg == msg,
    {
        CheckUpdate { id, status, msg }
    }
}

/// The view of a list of `(key, value)` label or annotation pairs.
pub open spec fn labels_view(s: Seq<(String, String)>) -> Seq<(Seq<char>, Seq<char>)> {
    s.map_values(|p: (String, String)| (p.0@, p.1@))
}

/// First-match lookup of `key` among `(key, value)` pairs.
pub open spec fn spec_lookup(s: Seq<(Seq<char>, Seq<char>)>, key: Seq<char>) -> Option<Seq<char>>
    decreases s.len(),
{
    if s.len() == 0 {
        None
    } else if s[0].0 == key {
        Some(s[0].1)
    } else {
        spec_lookup(s.drop_first(), key)
    }
}

proof fn lemma_lookup_skip(s: Seq<(Seq<char>, Seq<char>)>, key: Seq<char>, i: int)
    requires
        0 <= i < s.len(),
        s[i].0 != key,
    ensures
        spec_lookup(s.skip(i), key) == spec_lookup(s.skip(i + 1), key),
{
    assert(s.skip(i)[0] == s[i]);
    assert(s.skip(i).drop_first() =~= s.skip(i + 1));
}

/// Finds the value of `key` among the pairs, scanning front to back.
pub fn lookup_label<'a>(labels: &'a Vec<(String, String)>, key: &String) -> (r: Option<
    &'a String,
>)
    ensures
        match r {
            Some(v) => spec_lookup(labels_view(labels@), key@) == Some(v@),
            None => spec_lookup(labels_view(labels@), key@) is None,
        },
{
    let ghost all = labels_view(labels@);
    proof {
        assert(all.skip(0) =~= all);
    }
    let mut i: usize = 0;
    while i < labels.len()
        invariant
            0 <= i <= labels.len(),
            all == labels_view(labels@),
            spec_lookup(all, key@) == spec_lookup(all.skip(i as int), key@),
        decreases labels.len() - i,
    {
        assert(all[i as int] == (labels@[i as int].0@, labels@[i as int].1@));
        if labels[i].0.eq(key) {
            assert(all.skip(i as int)[0] == all[i as int]);
            return Some(&labels[i].1);
        }
        proof {
            lemma_lookup_skip(all, key@, i as int);
        }
        i = i + 1;
    }
    assert(all.skip(labels.len() as int) =~= Seq::<(Seq<char>, Seq<char>)>::empty());
    None
}

/// Copies a list of label pairs; the copy has the same view.
pub fn clone_labels(src: &Vec<(String, String)>) -> (r: Vec<(String, String)>)
    ensures
        labels_view(r@) == labels_view(src@),
{
    let mut out: Vec<(String, String)> = Vec::new();
    let mut i: usize = 0;
    while i < src.len()
        invariant
            0 <= i <= src.len(),
            out@.len() == i,
            forall|j: int|
                0 <= j < i ==> out@[j].0@ == src@[j].0@ && out@[j].1@ == src@[j].1@,
        decreases src.len() - i,
    {
        out.push((src[i].0.clone(), src[i].1.clone()));
        i = i + 1;
    }
    assert(labels_view(out@) =~= labels_view(src@));
    out
}

/// The human-readable context for one check id: its display name and the
/// labels and annotations its alerts carry.
#[derive(Debug)]
pub struct CheckInfo {
    pub name: String,
    pub labels: Vec<(String, String)>,
    pub annotations: Vec<(String, String)>,
}

/// Mathematical image of a `CheckInfo`.
pub struct SpecInfo {
    pub name: Seq<char>,
    pub labels: Seq<(Seq<char>, Seq<char>)>,
    pub annotations: Seq<(Seq<char>, Seq<char>)>,
}

impl View for CheckInfo {
    type V = SpecInfo;

    open spec fn view(&self) -> SpecInfo {
        SpecInfo {
            name: self.name@,
            labels: labels_view(self.labels@),
            annotations: labels_view(self.annotations@),
        }
    }
}

impl Clone for CheckInfo {
    fn clone(&self) -> (r: Self)
        ensures
            r@ == self@,
    {
        CheckInfo {
            name: self.name.clone(),
            labels: clone_labels(&self.labels),
            annotations: clone_labels(&self.annotations),
        }
    }
}

/// First-match lookup of a check id among registry entries.
pub open spec fn reg_lookup(s: Seq<(usize, SpecInfo)>, id: usize) -> Option<SpecInfo>
    decreases s.len(),
{
    if s.len() == 0 {
        None
    } else if s[0].0 == id {
        Some(s[0].1)
    } else {
        reg_lookup(s.drop_first(), id)
    }
}

proof fn lemma_reg_lookup_skip(s: Seq<(usize, SpecInfo)>, id: usize, i: int)
    requires
        0 <= i < s.len(),
        s[i].0 != id,
    ensures
        reg_lookup(s.skip(i), id) == reg_lookup(s.skip(i + 1), id),
{
    assert(s.skip(i)[0] == s[i]);
    assert(s.skip(i).drop_first() =~= s.skip(i + 1));
}

/// The read-only mapping from check id to its `CheckInfo`, built once at
/// startup and consulted by the consumers.
#[derive(Debug)]
pub struct CheckRegistry {
    pub entries: Vec<(usize, CheckInfo)>,
}

impl View for CheckRegistry {
    type V = Seq<(usize, SpecInfo)>;

    open spec fn view(&self) -> Seq<(usize, SpecInfo)> {
        self.entries@.map_values(|e: (usize, CheckInfo)| (e.0, e.1@))
    }
}

impl CheckRegistry {
    /// Every id appears at most once.
    pub open spec fn wf(self) -> bool {
        forall|i: int, j: int|
            0 <= i < j < self@.len() ==> self@[i].0 != self@[j].0
    }

    pub fn new() -> (r: CheckRegistry)
        ensures
            r@ =~= Seq::<(usize, SpecInfo)>::empty(),
            r.wf(),
    {
        let r = CheckRegistry { entries: Vec::new() };
        proof {
            assert(r@ =~= Seq::<(usize, SpecInfo)>::empty());
        }
        r
    }

    /// Adds a fresh id with its context.
    pub fn insert(&mut self, id: usize, info: CheckInfo)
        requires
            old(self).wf(),
            forall|j: int| 0 <= j < old(self)@.len() ==> old(self)@[j].0 != id,
        ensures
            final(self)@ == old(self)@.push((id, info@)),
            final(self).wf(),
    {
        self.entries.push((id, info));
        proof {
            assert(self@ =~= old(self)@.push((id, info@)));
        }
    }

    /// Resolves an id back to its context, if the id is known.
    pub fn get(&self, id: usize) -> (r: Option<&CheckInfo>)
        ensures
            match r {
                Some(info) => reg_lookup(self@, id) == Some(info@),
                None => reg_lookup(self@, id) is None,
            },
    {
        proof {
            assert(self@.skip(0) =~= self@);
        }
        let mut i: usize = 0;
        while i < self.entries.len()
            invariant
                0 <= i <= self.entries.len(),
                reg_lookup(self@, id) == reg_lookup(self@.skip(i as int), id),
        decreases self.entries.len() - i,
        {
            assert(self@[i as int] == (self.entries@[i as int].0, self.entries@[i as int].1@));
            if self.entries[i].0 == id {
                assert(self@.skip(i as int)[0] == self@[i as int]);
                return Some(&self.entries[i].1);
            }
            proof {
                lemma_reg_lookup_skip(self@, id, i as int);
            }
            i = i + 1;
        }
        assert(self@.skip(self.entries.len() as int) =~= Seq::<(usize, SpecInfo)>::empty());
        None
    }

    /// The number of registered checks.
    pub fn len(&self) -> (r: usize)
        ensures
            r == self@.len(),
    {
        self.entries.len()
    }
}

/// The terminal outcome of one attempt cycle in report mode.
#[derive(Clone, Copy, Debug, PartialEq, Eq, Structural)]
pub enum CheckResult {
    Success,
    Failure,
}

impl CheckResult {
    pub fn is_failure(&self) -> (r: bool)
        ensures
            r == (*self is Failure),
    {
        if let CheckResult::Failure = self {
            return true;
        }

        false
    }
}

/// The `Running` update a task emits before each probe attempt.
pub open spec fn spec_running(id: usize) -> SpecUpdate {
    SpecUpdate { id, status: SpecStatus::Running, msg: None }
}

/// The `Succeeded` update that ends a successful cycle.
pub open spec fn spec_succeeded(id: usize) -> SpecUpdate {
    SpecUpdate { id, status: SpecStatus::Succeeded, msg: None }
}

/// The `Retrying` update emitted after a failed attempt, carrying the
/// failure's description.
pub open spec fn spec_retrying(id: usize, m: Seq<char>) -> SpecUpdate {
    SpecUpdate { id, status: SpecStatus::Retrying, msg: Some(m) }
}

/// The `Failed` update that ends a cycle whose retries ran out.
pub open spec fn spec_failed_exhausted(id: usize) -> SpecUpdate {
    spec_failed(id, "Maximum retries reached"@)
}

/// A `Failed` update carrying a failure's description.
pub open spec fn spec_failed(id: usize, m: Seq<char>) -> SpecUpdate {
    SpecUpdate { id, status: SpecStatus::Failed, msg: Some(m) }
}

/// A `Waiting` update: how long the task will wait, and what for.
pub open spec fn spec_waiting(id: usize, ms: u64, reason: Seq<char>) -> SpecUpdate {
    SpecUpdate { id, status: SpecStatus::Waiting(ms, reason), msg: None }
}

/// The `Running` update a task emits before each probe attempt.
pub fn running_update(id: usize) -> (u: CheckUpdate)
    ensures
        u@ == spec_running(id),
{
    CheckUpdate::new(id, CheckStatus::Running, None)
}

/// The view of a list of updates.
pub open spec fn updates_view(s: Seq<CheckUpdate>) -> Seq<SpecUpdate> {
    s.map_values(|u: CheckUpdate| u@)
}

/// The view of a list of probe outcomes: `Err` carries the failure text.
pub open spec fn outcomes_view(s: Seq<Result<(), String>>) -> Seq<Result<(), Seq<char>>> {
    s.map_values(
        |o: Result<(), String>|
            match o {
                Ok(u) => Result::<(), Seq<char>>::Ok(u),
                Err(m) => Result::<(), Seq<char>>::Err(m@),
            },
    )
}

/// What one attempt cycle emits and returns, given the probe outcomes it
/// will observe in order: `Running` before every attempt; on success,
/// `Succeeded` and the cycle ends well; on failure, `Retrying` with the
/// failure text, then either another attempt or — once the retries are
/// exhausted — `Failed` and the cycle ends badly. The updates appear exactly
/// in this emission order.
pub open spec fn cycle_spec(
    id: usize,
    r: retry::Retrier,
    outcomes: Seq<Result<(), Seq<char>>>,
) -> (CheckResult, Seq<SpecUpdate>)
    decreases outcomes.len(),
{
    if outcomes.len() == 0 {
        (CheckResult::Failure, Seq::empty())
    } else {
        match outcomes[0] {
            Ok(_) => (CheckResult::Success, seq![spec_running(id), spec_succeeded(id)]),
            Err(m) => if r.exhausted() {
                (
                    CheckResult::Failure,
                    seq![spec_running(id), spec_retrying(id, m), spec_failed_exhausted(id)],
                )
            } else {
                let rest = cycle_spec(id, r.stepped(), outcomes.drop_first());
                (rest.0, seq![spec_running(id), spec_retrying(id, m)] + rest.1)
            },
        }
    }
}

/// What a check task does after one probe attempt: finish, or back off and
/// try again after `wait_ms` milliseconds.
pub enum CycleOutcome {
    Continue { attempt: u16, wait_ms: u64 },
    Finished(CheckResult),
}

/// One attempt cycle of one check: drives the backoff `Retrier` and produces
/// the updates to emit. The caller performs the probe attempts and the waits.
pub struct CheckCycle {
    pub id: usize,
    pub retrier: retry::Retrier,
}

impl CheckCycle {
    pub fn new(id: usize, policy: retry::Policy) -> (r: CheckCycle)
        ensures
            r.id == id,
            r.retrier == (retry::Retrier { policy, last: None::<u64>, attempts: 0u16 }),
    {
        CheckCycle { id, retrier: retry::Retrier::new(policy) }
    }

    /// The `Running` update to emit before the next probe attempt.
    pub fn begin_update(&self) -> (u: CheckUpdate)
        ensures
            u@ == spec_running(self.id),
    {
        running_update(self.id)
    }

    /// Feeds the outcome of one probe attempt to the cycle. Returns the
    /// updates to emit, in order, and whether the cycle is over or another
    /// attempt follows after a wait.
    pub fn on_probe_result(&mut self, result: &Result<(), String>) -> (r: (
        Vec<CheckUpdate>,
        CycleOutcome,
    ))
        requires
            old(self).retrier.wf(),
        ensures
            final(self).id == old(self).id,
            final(self).retrier.policy == old(self).retrier.policy,
            match result {
                Ok(_) => {
                    &&& *final(self) == *old(self)
                    &&& updates_view(r.0@) == seq![spec_succeeded(old(self).id)]
                    &&& r.1 == CycleOutcome::Finished(CheckResult::Success)
                },
                Err(m) => if old(self).retrier.exhausted() {
                    &&& *final(self) == *old(self)
                    &&& updates_view(r.0@) == seq![
                        spec_retrying(old(self).id, m@),
                        spec_failed_exhausted(old(self).id),
                    ]
                    &&& r.1 == CycleOutcome::Finished(CheckResult::Failure)
                } else {
                    &&& final(self).retrier == old(self).retrier.stepped()
                    &&& updates_view(r.0@) == seq![spec_retrying(old(self).id, m@)]
                    &&& r.1 == (CycleOutcome::Continue {
                        attempt: (old(self).retrier.attempts + 1) as u16,
                        wait_ms: old(self).retrier.next_wait(),
                    })
                },
            },
    {
        match result {
            Ok(_) => {
                let mut v: Vec<CheckUpdate> = Vec::new();
                v.push(CheckUpdate::new(self.id, CheckStatus::Succeeded, None));
                proof {
                    assert(updates_view(v@) =~= seq![spec_succeeded(self.id)]);
                }
                (v, CycleOutcome::Finished(CheckResult::Success))
            },
            Err(m) => {
                let mut v: Vec<CheckUpdate> = Vec::new();
                v.push(CheckUpdate::new(self.id, CheckStatus::Retrying, Some(m.clone())));
                match self.retrier.retry() {
                    None => {
                        v.push(
                            CheckUpdate::new(
                                self.id,
                                CheckStatus::Failed,
                                Some("Maximum retries reached".to_owned()),
                            ),
                        );
                        proof {
                            assert(updates_view(v@) =~= seq![
                                spec_retrying(self.id, m@),
                                spec_failed_exhausted(self.id),
                            ]);
                        }
                        (v, CycleOutcome::Finished(CheckResult::Failure))
                    },
                    Some(n) => {
                        let w = self.retrier.last_wait();
                        proof {
                            assert(updates_view(v@) =~= seq![spec_retrying(self.id, m@)]);
                        }
                        (v, CycleOutcome::Continue { attempt: n, wait_ms: w.unwrap() })
                    },
                }
            },
        }
    }
}

/// Runs one whole attempt cycle against a list of probe outcomes, collecting
/// every update in emission order. `outcomes` must hold at least one outcome
/// per possible attempt (`max_retries + 1`); later entries are not read.
pub fn run_cycle(id: usize, policy: retry::Policy, outcomes: &Vec<Result<(), String>>) -> (r: (
    CheckResult,
    Vec<CheckUpdate>,
))
    requires
        policy.wf(),
        outcomes@.len() > policy.max_retries,
    ensures
        ({
            let s = cycle_spec(
                id,
                retry::Retrier { policy, last: None::<u64>, attempts: 0u16 },
                outcomes_view(outcomes@),
            );
            r.0 == s.0 && updates_view(r.1@) == s.1
        }),
{
    let mut cycle = CheckCycle::new(id, policy);
    let mut updates: Vec<CheckUpdate> = Vec::new();
    proof {
        assert(outcomes_view(outcomes@).skip(0) =~= outcomes_view(outcomes@));
        assert(updates_view(updates@) =~= Seq::<SpecUpdate>::empty());
    }
    let res = run_cycle_from(&mut cycle, outcomes, 0, &mut updates);
    (res, updates)
}

fn run_cycle_from(
    cycle: &mut CheckCycle,
    outcomes: &Vec<Result<(), String>>,
    i: usize,
    updates: &mut Vec<CheckUpdate>,
) -> (res: CheckResult)
    requires
        old(cycle).retrier.wf(),
        i < outcomes@.len(),
        outcomes@.len() - i > old(cycle).retrier.policy.max_retries - old(cycle).retrier.attempts,
    ensures
        ({
            let s = cycle_spec(
                old(cycle).id,
                old(cycle).retrier,
                outcomes_view(outcomes@).skip(i as int),
            );
            res == s.0 && updates_view(final(updates)@) == updates_view(old(updates)@) + s.1
        }),
    decreases outcomes@.len() - i,
{
    let ghost ov = outcomes_view(outcomes@);
    let ghost pre_updates = updates@;
    let n = outcomes.len();
    proof {
        // n pins the list length as a machine integer, so that the index of
        // a further attempt is known to fit.
        assert(i < n);
        assert(ov.skip(i as int)[0] == ov[i as int]);
        assert(ov.skip(i as int).drop_first() =~= ov.skip(i as int + 1));
        if outcomes@[i as int] is Ok {
            assert(ov[i as int] is Ok);
        } else {
            assert(ov[i as int] == Result::<(), Seq<char>>::Err(outcomes@[i as int]->Err_0@));
        }
    }
    let u0 = cycle.begin_update();
    let ghost u0v = u0@;
    updates.push(u0);
    let (mut emitted, outcome) = cycle.on_probe_result(&outcomes[i]);
    let ghost ev = updates_view(emitted@);
    let ghost id0 = old(cycle).id;
    let ghost r0 = old(cycle).retrier;
    let ghost s = cycle_spec(id0, r0, ov.skip(i as int));
    updates.append(&mut emitted);
    proof {
        assert(updates_view(updates@) =~= updates_view(pre_updates) + seq![u0v] + ev);
    }
    match outcome {
        CycleOutcome::Finished(res) => {
            proof {
                if ov[i as int] is Ok {
                    assert(s.1 == seq![spec_running(id0), spec_succeeded(id0)]);
                    assert(ev == seq![spec_succeeded(id0)]);
                } else {
                    assert(r0.exhausted());
                    let m = ov[i as int]->Err_0;
                    assert(s.1 == seq![
                        spec_running(id0),
                        spec_retrying(id0, m),
                        spec_failed_exhausted(id0),
                    ]);
                    assert(ev == seq![spec_retrying(id0, m), spec_failed_exhausted(id0)]);
                }
                assert(updates_view(pre_updates) + seq![u0v] + ev =~= updates_view(pre_updates)
                    + s.1);
            }
            res
        },
        CycleOutcome::Continue { attempt: _, wait_ms: _ } => {
            let ghost mid_updates = updates@;
            let res = run_cycle_from(cycle, outcomes, i + 1, updates);
            proof {
                let m = ov[i as int]->Err_0;
                let rest = cycle_spec(id0, r0.stepped(), ov.skip(i as int + 1));
                assert(s.1 == seq![spec_running(id0), spec_retrying(id0, m)] + rest.1);
                assert(ev == seq![spec_retrying(id0, m)]);
                assert(updates_view(mid_updates) =~= updates_view(pre_updates) + seq![u0v] + ev);
                assert(updates_view(updates@) == updates_view(mid_updates) + rest.1);
                assert(updates_view(updates@) =~= updates_view(pre_updates) + s.1);
            }
            res
        },
    }
}

/// One check as the runner schedules it: everything a task needs except the
/// probe instance itself and the update channel, which the runtime wires up.
#[derive(Debug)]
pub struct RunnableCheck {
    pub id: usize,
    pub alert_policy: alert::Policy,
    pub retry_policy: retry::Policy,
    pub timeout_ms: u64,
    pub config: config::CheckConfig,
}

/// Mathematical image of a `RunnableCheck`.
pub struct SpecRunnable {
    pub id: usize,
    pub alert_policy: alert::Policy,
    pub retry_policy: retry::Policy,
    pub timeout_ms: u64,
    pub config: config::SpecCheckConfig,
}

impl View for RunnableCheck {
    type V = SpecRunnable;

    open spec fn view(&self) -> SpecRunnable {
        SpecRunnable {
            id: self.id,
            alert_policy: self.alert_policy,
            retry_policy: self.retry_policy,
            timeout_ms: self.timeout_ms,
            config: self.config@,
        }
    }
}

/// Whether a selector lets a check through; no selector lets all through.
pub open spec fn sel_matches(
    sel: Option<select::SpecTerm>,
    labels: Seq<(Seq<char>, Seq<char>)>,
) -> bool {
    match sel {
        None => true,
        Some(t) => select::spec_term_matches(t, labels),
    }
}

/// The positions of the checks a selector keeps, in order. Ids are assigned
/// by enumeration position before filtering, so a filtered run leaves gaps.
pub open spec fn spec_selected(
    checks: Seq<config::SpecCheckDefinition>,
    sel: Option<select::SpecTerm>,
) -> Seq<int>
    decreases checks.len(),
{
    if checks.len() == 0 {
        Seq::empty()
    } else {
        let pre = spec_selected(checks.drop_last(), sel);
        if sel_matches(sel, checks.last().labels) {
            pre.push(checks.len() - 1)
        } else {
            pre
        }
    }
}

proof fn lemma_spec_selected_bounds(
    checks: Seq<config::SpecCheckDefinition>,
    sel: Option<select::SpecTerm>,
)
    ensures
        forall|k: int|
            0 <= k < spec_selected(checks, sel).len() ==> 0 <= #[trigger] spec_selected(
                checks,
                sel,
            )[k] < checks.len(),
    decreases checks.len(),
{
    if checks.len() > 0 {
        lemma_spec_selected_bounds(checks.drop_last(), sel);
        let pre = spec_selected(checks.drop_last(), sel);
        let cur = spec_selected(checks, sel);
        assert forall|k: int| 0 <= k < cur.len() implies 0 <= #[trigger] cur[k] < checks.len() by {
            if sel_matches(sel, checks.last().labels) {
                if k < pre.len() {
                    assert(cur[k] == pre[k]);
                } else {
                    assert(cur[k] == checks.len() - 1);
                }
            } else {
                assert(cur[k] == pre[k]);
            }
        }
    }
}

/// The registry entry a selected check contributes.
pub open spec fn spec_info_of(d: config::SpecCheckDefinition) -> SpecInfo {
    SpecInfo {
        name: config::spec_config_name(d.config),
        labels: d.labels,
        annotations: d.annotations,
    }
}

/// The task a selected check contributes.
pub open spec fn spec_runnable_of(id: usize, d: config::SpecCheckDefinition) -> SpecRunnable {
    SpecRunnable {
        id,
        alert_policy: d.alert_policy,
        retry_policy: d.retry_policy,
        timeout_ms: d.check_timeout_ms,
        config: d.config,
    }
}

/// Materializes the configured checks into runnable tasks and the registry,
/// keeping exactly those a selector accepts. Each check's id is its position
/// in the configuration, assigned before filtering.
pub fn build_tasks(config: &config::Config, selector: &Option<select::Term>) -> (r: (
    Vec<RunnableCheck>,
    CheckRegistry,
))
    ensures
        ({
            let checks = config.checks@.map_values(|d: config::CheckDefinition| d@);
            let sel = match selector {
                None => None,
                Some(t) => Some(t@),
            };
            let chosen = spec_selected(checks, sel);
            &&& r.1.wf()
            &&& r.0@.len() == chosen.len()
            &&& r.1@.len() == chosen.len()
            &&& forall|k: int|
                0 <= k < chosen.len() ==> #[trigger] r.1@[k] == (
                    chosen[k] as usize,
                    spec_info_of(checks[chosen[k]]),
                )
            &&& forall|k: int|
                0 <= k < chosen.len() ==> #[trigger] r.0@[k]@ == spec_runnable_of(
                    chosen[k] as usize,
                    checks[chosen[k]],
                )
        }),
{
    let ghost checks = config.checks@.map_values(|d: config::CheckDefinition| d@);
    let ghost sel = match selector {
        None => None,
        Some(t) => Some(t@),
    };
    let mut tasks: Vec<RunnableCheck> = Vec::new();
    let mut registry = CheckRegistry::new();
    let mut i: usize = 0;
    proof {
        assert(checks.take(0) =~= Seq::<config::SpecCheckDefinition>::empty());
    }
    while i < config.checks.len()
        invariant
            0 <= i <= config.checks.len(),
            checks == config.checks@.map_values(|d: config::CheckDefinition| d@),
            checks.len() == config.checks@.len(),
            sel == (match selector {
                None => None,
                Some(t) => Some(t@),
            }),
            registry.wf(),
            tasks@.len() == spec_selected(checks.take(i as int), sel).len(),
            registry@.len() == spec_selected(checks.take(i as int), sel).len(),
            forall|k: int|
                0 <= k < registry@.len() ==> 0 <= #[trigger] spec_selected(
                    checks.take(i as int),
                    sel,
                )[k] < i,
            forall|k: int|
                0 <= k < registry@.len() ==> #[trigger] registry@[k] == (
                    spec_selected(checks.take(i as int), sel)[k] as usize,
                    spec_info_of(checks[spec_selected(checks.take(i as int), sel)[k]]),
                ),
            forall|k: int|
                0 <= k < tasks@.len() ==> #[trigger] tasks@[k]@ == spec_runnable_of(
                    spec_selected(checks.take(i as int), sel)[k] as usize,
                    checks[spec_selected(checks.take(i as int), sel)[k]],
                ),
        decreases config.checks.len() - i,
    {
        let ghost chosen_pre = spec_selected(checks.take(i as int), sel);
        proof {
            assert(checks.take(i as int + 1).drop_last() =~= checks.take(i as int));
            assert(checks.take(i as int + 1).last() == checks[i as int]);
            assert(checks[i as int] == config.checks@[i as int]@);
            lemma_spec_selected_bounds(checks.take(i as int), sel);
        }
        let def = &config.checks[i];
        let keep = match selector {
            None => true,
            Some(t) => t.matches(&def.labels),
        };
        if keep {
            let info = CheckInfo {
                name: def.config.check_name(),
                labels: clone_labels(&def.labels),
                annotations: clone_labels(&def.annotations),
            };
            proof {
                assert forall|j: int| 0 <= j < registry@.len() implies registry@[j].0 != i by {
                    assert(registry@[j].0 == chosen_pre[j] as usize);
                }
            }
            registry.insert(i, info);
            let task = RunnableCheck {
                id: i,
                alert_policy: def.alert_policy,
                retry_policy: def.retry_policy,
                timeout_ms: def.check_timeout_ms,
                config: def.config.clone(),
            };
            tasks.push(task);
            proof {
                assert(spec_selected(checks.take(i as int + 1), sel) == chosen_pre.push(
                    i as int,
                ));
            }
        } else {
            proof {
                assert(spec_selected(checks.take(i as int + 1), sel) == chosen_pre);
            }
        }
        i = i + 1;
    }
    proof {
        assert(checks.take(config.checks.len() as int) =~= checks);
    }
    (tasks, registry)
}

/// In every completed cycle the updates begin with `Running`, end with the
/// terminal status matching the result, and all carry the cycle's check id.
pub proof fn lemma_cycle_shape(id: usize, r: retry::Retrier, outcomes: Seq<Result<(), Seq<char>>>)
    requires
        outcomes.len() > 0,
        outcomes.len() > r.policy.max_retries - r.attempts,
    ensures
        ({
            let s = cycle_spec(id, r, outcomes);
            &&& s.1.len() >= 2
            &&& s.1[0] == spec_running(id)
            &&& (s.0 is Success ==> s.1.last() == spec_succeeded(id))
            &&& (s.0 is Failure ==> s.1.last() == spec_failed_exhausted(id))
            &&& forall|j: int| 0 <= j < s.1.len() ==> #[trigger] s.1[j].id == id
        }),
    decreases outcomes.len(),
{
    if outcomes.len() > 0 {
        let s = cycle_spec(id, r, outcomes);
        match outcomes[0] {
            Ok(_) => {
                assert(s.1 == seq![spec_running(id), spec_succeeded(id)]);
                assert(s.1[0] == spec_running(id));
                assert(s.1.last() == spec_succeeded(id));
                assert forall|j: int| 0 <= j < s.1.len() implies #[trigger] s.1[j].id == id by {
                    assert(j == 0 || j == 1);
                }
            },
            Err(m) => {
                if r.exhausted() {
                    assert(s.1 == seq![
                        spec_running(id),
                        spec_retrying(id, m),
                        spec_failed_exhausted(id),
                    ]);
                    assert(s.1.last() == spec_failed_exhausted(id));
                    assert forall|j: int| 0 <= j < s.1.len() implies #[trigger] s.1[j].id
                        == id by {
                        assert(j == 0 || j == 1 || j == 2);
                    }
                } else {
                    lemma_cycle_shape(id, r.stepped(), outcomes.drop_first());
                    let rest = cycle_spec(id, r.stepped(), outcomes.drop_first());
                    let s1 = seq![spec_running(id), spec_retrying(id, m)] + rest.1;
                    assert(s.1 == s1);
                    assert(s1.last() == rest.1.last());
                    assert(s.1[0] == spec_running(id));
                    assert forall|j: int| 0 <= j < s1.len() implies #[trigger] s1[j].id
                        == id by {
                        if j >= 2 {
                            assert(s1[j] == rest.1[j - 2]);
                        }
                    }
                }
            },
        }
    }
}

/// A task whose probe fails once and then succeeds emits exactly
/// `Running, Retrying, Running, Succeeded`, in that relative order — the
/// consumer observes one task's updates as they were emitted.
pub proof fn lemma_cycle_update_order(id: usize, r: retry::Retrier, m: Seq<char>)
    requires
        !r.exhausted(),
    ensures
        ({
            let outcomes: Seq<Result<(), Seq<char>>> = seq![
                Result::Err(m),
                Result::Ok(()),
            ];
            cycle_spec(id, r, outcomes).1 =~= seq![
                spec_running(id),
                spec_retrying(id, m),
                spec_running(id),
                spec_succeeded(id),
            ]
        }),
{
    let outcomes: Seq<Result<(), Seq<char>>> = seq![Result::Err(m), Result::Ok(())];
    assert(outcomes.drop_first() =~= seq![Result::<(), Seq<char>>::Ok(())]);
    let rest = cycle_spec(id, r.stepped(), outcomes.drop_first());
    assert(rest.1 == seq![spec_running(id), spec_succeeded(id)]);
}

} // verus!
