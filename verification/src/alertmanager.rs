use vstd::prelude::*;

use crate::alert;
use crate::{
    clone_labels, labels_view, reg_lookup, CheckRegistry, CheckStatus, CheckUpdate, SpecStatus,
    SpecUpdate,
};

verus! {

/// One element of the JSON array POSTed to the alert sink. Timestamps are
/// unix seconds; the transport layer renders them as RFC 3339.
#[derive(Debug)]
pub struct PostableAlert {
    pub starts_at: Option<i64>,
    pub ends_at: Option<i64>,
    pub labels: Vec<(String, String)>,
    pub annotations: Vec<(String, String)>,
    pub generator_url: Option<String>,
}

/// Mathematical image of a `PostableAlert`.
pub struct SpecAlert {
    pub starts_at: Option<i64>,
    pub ends_at: Option<i64>,
    pub labels: Seq<(Seq<char>, Seq<char>)>,
    pub annotations: Seq<(Seq<char>, Seq<char>)>,
    pub generator_url: Option<Seq<char>>,
}

impl View for PostableAlert {
    type V = SpecAlert;

    open spec fn view(&self) -> SpecAlert {
        SpecAlert {
            starts_at: self.starts_at,
            ends_at: self.ends_at,
            labels: labels_view(self.labels@),
            annotations: labels_view(self.annotations@),
            generator_url: match self.generator_url {
                None => None,
                Some(ref u) => Some(u@),
            },
        }
    }
}

impl Clone for PostableAlert {
    fn clone(&self) -> (r: Self)
        ensures
            r@ == self@,
    {
        let generator_url = match &self.generator_url {
            None => None,
            Some(u) => Some(u.clone()),
        };
        let r = PostableAlert {
            starts_at: self.starts_at,
            ends_at: self.ends_at,
            labels: clone_labels(&self.labels),
            annotations: clone_labels(&self.annotations),
            generator_url,
        };
        r
    }
}

/// The view of the dispatcher's active-alert list.
pub open spec fn active_view(s: Seq<(usize, PostableAlert)>) -> Seq<(usize, SpecAlert)> {
    s.map_values(|e: (usize, PostableAlert)| (e.0, e.1@))
}

/// The alerts of the list, in insertion order, without their ids.
pub open spec fn alerts_of(s: Seq<(usize, SpecAlert)>) -> Seq<SpecAlert> {
    s.map_values(|e: (usize, SpecAlert)| e.1)
}

/// The view of an optional POST payload.
pub open spec fn payload_view(r: Option<Vec<PostableAlert>>) -> Option<Seq<SpecAlert>> {
    match r {
        None => None,
        Some(v) => Some(v@.map_values(|a: PostableAlert| a@)),
    }
}

/// The position of `id` in the active-alert list, if present.
pub open spec fn find_id(s: Seq<(usize, SpecAlert)>, id: usize) -> Option<int>
    decreases s.len(),
{
    if s.len() == 0 {
        None
    } else if s[0].0 == id {
        Some(0)
    } else {
        match find_id(s.drop_first(), id) {
            None => None,
            Some(k) => Some(k + 1),
        }
    }
}

pub proof fn lemma_find_id_props(s: Seq<(usize, SpecAlert)>, id: usize)
    ensures
        match find_id(s, id) {
            Some(i) => 0 <= i < s.len() && s[i].0 == id && forall|j: int|
                0 <= j < i ==> s[j].0 != id,
            None => forall|j: int| 0 <= j < s.len() ==> s[j].0 != id,
        },
    decreases s.len(),
{
    if s.len() > 0 && s[0].0 != id {
        lemma_find_id_props(s.drop_first(), id);
        match find_id(s.drop_first(), id) {
            None => {
                assert forall|j: int| 0 <= j < s.len() implies s[j].0 != id by {
                    if j > 0 {
                        assert(s.drop_first()[j - 1] == s[j]);
                    }
                }
            },
            Some(k) => {
                assert(s.drop_first()[k] == s[k + 1]);
                assert forall|j: int| 0 <= j < k + 1 implies s[j].0 != id by {
                    if j > 0 {
                        assert(s.drop_first()[j - 1] == s[j]);
                    }
                }
            },
        }
    }
}

proof fn lemma_find_id_found(s: Seq<(usize, SpecAlert)>, id: usize, i: int)
    requires
        0 <= i < s.len(),
        s[i].0 == id,
        forall|j: int| 0 <= j < i ==> s[j].0 != id,
    ensures
        find_id(s, id) == Some(i),
    decreases i,
{
    if i > 0 {
        lemma_find_id_found(s.drop_first(), id, i - 1);
    }
}

proof fn lemma_find_id_none(s: Seq<(usize, SpecAlert)>, id: usize)
    requires
        forall|j: int| 0 <= j < s.len() ==> s[j].0 != id,
    ensures
        find_id(s, id) is None,
    decreases s.len(),
{
    if s.len() > 0 {
        lemma_find_id_none(s.drop_first(), id);
    }
}

/// The alert created when a check first reports `Failed`: it starts now,
/// carries the check's labels and annotations, and, when configured, the
/// failure's diagnostic text as an `output` annotation.
pub open spec fn spec_new_alert(
    info: crate::SpecInfo,
    now: i64,
    msg: Option<Seq<char>>,
    allow_output: bool,
) -> SpecAlert {
    SpecAlert {
        starts_at: Some(now),
        ends_at: None,
        labels: info.labels,
        annotations: if allow_output && msg is Some {
            info.annotations.push(("output"@, msg.unwrap()))
        } else {
            info.annotations
        },
        generator_url: None,
    }
}

/// The alert lifecycle transition: given the active alerts, the registry, a
/// status update and the current time, yields the next active-alert list and
/// the payload to POST, if any.
///
/// A `Failed` update for an id without an active alert creates one and posts
/// the whole set; for an id already alerting it does nothing. A `Succeeded`
/// update for an alerting id posts the set with that alert ended, then drops
/// it; for a quiet id it does nothing. Transient states change nothing.
pub open spec fn spec_step(
    active: Seq<(usize, SpecAlert)>,
    registry: Seq<(usize, crate::SpecInfo)>,
    allow_output: bool,
    u: SpecUpdate,
    now: i64,
) -> (Seq<(usize, SpecAlert)>, Option<Seq<SpecAlert>>) {
    match u.status {
        SpecStatus::Failed => {
            if find_id(active, u.id) is Some {
                (active, None)
            } else {
                match reg_lookup(registry, u.id) {
                    None => (active, None),
                    Some(info) => {
                        let next = active.push(
                            (u.id, spec_new_alert(info, now, u.msg, allow_output)),
                        );
                        (next, Some(alerts_of(next)))
                    },
                }
            }
        },
        SpecStatus::Succeeded => {
            match find_id(active, u.id) {
                None => (active, None),
                Some(i) => {
                    let ended = SpecAlert { ends_at: Some(now), ..active[i].1 };
                    let posted = active.update(i, (u.id, ended));
                    (posted.remove(i), Some(alerts_of(posted)))
                },
            }
        },
        _ => (active, None),
    }
}

/// The alert lifecycle state machine: the only owner of alert identity.
/// The surrounding event loop — channel receive and re-announcement timer —
/// is driven from outside; each event is handed to one of the methods below.
pub struct AlertManagerClient {
    pub active_alerts: Vec<(usize, PostableAlert)>,
    pub alert_config: alert::Config,
    pub registry: CheckRegistry,
}

impl AlertManagerClient {
    /// At most one active alert per check id.
    pub open spec fn wf(self) -> bool {
        forall|i: int, j: int|
            0 <= i < j < self.active_alerts@.len() ==> self.active_alerts@[i].0
                != self.active_alerts@[j].0
    }

    /// The view of the current active-alert list.
    pub open spec fn active(self) -> Seq<(usize, SpecAlert)> {
        active_view(self.active_alerts@)
    }

    pub fn new(alert_config: alert::Config, registry: CheckRegistry) -> (r: AlertManagerClient)
        ensures
            r.active().len() == 0,
            r.alert_config == alert_config,
            r.registry == registry,
            r.wf(),
    {
        AlertManagerClient { active_alerts: Vec::new(), alert_config, registry }
    }

    /// The position of `id` among the active alerts.
    fn find_active(&self, id: usize) -> (r: Option<usize>)
        ensures
            match r {
                Some(i) => i < self.active().len() && find_id(self.active(), id) == Some(i as int),
                None => find_id(self.active(), id) is None,
            },
    {
        let ghost s = self.active();
        let mut i: usize = 0;
        while i < self.active_alerts.len()
            invariant
                0 <= i <= self.active_alerts.len(),
                s == active_view(self.active_alerts@),
                s.len() == self.active_alerts@.len(),
                forall|j: int| 0 <= j < i ==> s[j].0 != id,
            decreases self.active_alerts.len() - i,
        {
            assert(s[i as int].0 == self.active_alerts@[i as int].0);
            if self.active_alerts[i].0 == id {
                proof {
                    lemma_find_id_found(s, id, i as int);
                }
                return Some(i);
            }
            i = i + 1;
        }
        proof {
            lemma_find_id_none(s, id);
        }
        None
    }

    /// The full current set, in insertion order, ready to POST.
    fn payload(&self) -> (r: Vec<PostableAlert>)
        ensures
            r@.map_values(|a: PostableAlert| a@) == alerts_of(self.active()),
    {
        let mut out: Vec<PostableAlert> = Vec::new();
        let mut i: usize = 0;
        while i < self.active_alerts.len()
            invariant
                0 <= i <= self.active_alerts.len(),
                out@.len() == i,
                forall|j: int| 0 <= j < i ==> out@[j]@ == self.active_alerts@[j].1@,
            decreases self.active_alerts.len() - i,
        {
            out.push(self.active_alerts[i].1.clone());
            i = i + 1;
        }
        proof {
            assert(out@.map_values(|a: PostableAlert| a@) =~= alerts_of(self.active()));
        }
        out
    }

    /// Feeds one status update to the state machine at time `now` (unix
    /// seconds). Returns the payload to POST, if this update calls for one;
    /// the state and the payload are exactly what `spec_step` prescribes.
    pub fn process_update_at(&mut self, update: CheckUpdate, now: i64) -> (r: Option<
        Vec<PostableAlert>,
    >)
        requires
            old(self).wf(),
        ensures
            final(self).wf(),
            final(self).registry == old(self).registry,
            final(self).alert_config == old(self).alert_config,
            ({
                let (next, post) = spec_step(
                    old(self).active(),
                    old(self).registry@,
                    old(self).alert_config.allow_output_annotation,
                    update@,
                    now,
                );
                final(self).active() == next && payload_view(r) == post
            }),
    {
        let ghost pre = self.active();
        match update.status {
            CheckStatus::Failed => {
                if self.find_active(update.id).is_some() {
                    return None;
                }
                proof {
                    lemma_find_id_props(pre, update.id);
                }
                match self.registry.get(update.id) {
                    None => None,
                    Some(info) => {
                        let labels = clone_labels(&info.labels);
                        let mut annotations = clone_labels(&info.annotations);
                        if self.alert_config.allow_output_annotation {
                            if let Some(output) = &update.msg {
                                let pair = ("output".to_owned(), output.clone());
                                annotations.push(pair);
                                proof {
                                    assert(labels_view(annotations@) =~= reg_lookup(
                                        self.registry@,
                                        update.id,
                                    ).unwrap().annotations.push(("output"@, update.msg.unwrap()@)));
                                }
                            }
                        }
                        let alert = PostableAlert {
                            starts_at: Some(now),
                            ends_at: None,
                            labels,
                            annotations,
                            generator_url: None,
                        };
                        proof {
                            assert(alert@ == spec_new_alert(
                                reg_lookup(self.registry@, update.id).unwrap(),
                                now,
                                update@.msg,
                                self.alert_config.allow_output_annotation,
                            ));
                        }
                        self.active_alerts.push((update.id, alert));
                        proof {
                            assert(self.active() =~= pre.push((update.id, alert@)));
                            let olds = old(self).active_alerts@;
                            assert forall|p: int, q: int|
                                0 <= p < q < self.active_alerts@.len() implies self.active_alerts@[p].0
                                != self.active_alerts@[q].0 by {
                                if q < olds.len() {
                                    assert(self.active_alerts@[p] == olds[p]);
                                    assert(self.active_alerts@[q] == olds[q]);
                                } else {
                                    assert(self.active_alerts@[p] == olds[p]);
                                    assert(self.active_alerts@[q].0 == update.id);
                                    assert(pre[p].0 == olds[p].0);
                                }
                            }
                        }
                        Some(self.payload())
                    },
                }
            },
            CheckStatus::Succeeded => {
                match self.find_active(update.id) {
                    None => None,
                    Some(i) => {
                        proof {
                            lemma_find_id_props(pre, update.id);
                        }
                        let ghost ended = SpecAlert { ends_at: Some(now), ..pre[i as int].1 };
                        let ghost posted = pre.update(i as int, (update.id, ended));
                        let mut out: Vec<PostableAlert> = Vec::new();
                        let mut j: usize = 0;
                        while j < self.active_alerts.len()
                            invariant
                                0 <= j <= self.active_alerts.len(),
                                i < self.active_alerts@.len(),
                                pre == active_view(self.active_alerts@),
                                ended == (SpecAlert { ends_at: Some(now), ..pre[i as int].1 }),
                                posted == pre.update(i as int, (update.id, ended)),
                                out@.len() == j,
                                forall|k: int| 0 <= k < j ==> out@[k]@ == posted[k].1,
                            decreases self.active_alerts.len() - j,
                        {
                            assert(pre[j as int].1 == self.active_alerts@[j as int].1@);
                            if j == i {
                                let mut a = self.active_alerts[j].1.clone();
                                a.ends_at = Some(now);
                                assert(a@ == ended);
                                out.push(a);
                            } else {
                                out.push(self.active_alerts[j].1.clone());
                            }
                            j = j + 1;
                        }
                        self.active_alerts.remove(i);
                        proof {
                            assert(out@.map_values(|a: PostableAlert| a@) =~= alerts_of(posted));
                            lemma_active_view_remove(old(self).active_alerts@, i as int);
                            assert(posted.remove(i as int) =~= pre.remove(i as int));
                            assert forall|p: int, q: int|
                                0 <= p < q < self.active_alerts@.len() implies self.active_alerts@[p].0
                                != self.active_alerts@[q].0 by {
                                let s = old(self).active_alerts@;
                                if p < i {
                                    assert(self.active_alerts@[p] == s[p]);
                                } else {
                                    assert(self.active_alerts@[p] == s[p + 1]);
                                }
                                if q < i {
                                    assert(self.active_alerts@[q] == s[q]);
                                } else {
                                    assert(self.active_alerts@[q] == s[q + 1]);
                                }
                            }
                        }
                        Some(out)
                    },
                }
            },
            CheckStatus::Running => None,
            CheckStatus::Retrying => None,
            CheckStatus::Waiting(_, _) => None,
        }
    }

    /// A re-announcement timer tick: posts the unchanged current set when any
    /// alert is active, and nothing at all when none is.
    pub fn handle_tick(&self) -> (r: Option<Vec<PostableAlert>>)
        ensures
            r is Some <==> self.active().len() > 0,
            payload_view(r) is Some ==> payload_view(r) == Some(alerts_of(self.active())),
    {
        if self.active_alerts.len() == 0 {
            None
        } else {
            Some(self.payload())
        }
    }

    /// The update channel has closed: every producer is gone, so the final
    /// state of the set is posted once, whatever it holds, before shutdown.
    pub fn handle_close(&self) -> (r: Vec<PostableAlert>)
        ensures
            r@.map_values(|a: PostableAlert| a@) == alerts_of(self.active()),
    {
        self.payload()
    }

    /// Feeds one status update to the state machine at the current wall-clock
    /// time. The transition is `spec_step` for some `now`; which one depends
    /// on the clock alone.
    pub fn process_update(&mut self, update: CheckUpdate) -> (r: Option<Vec<PostableAlert>>)
        requires
            old(self).wf(),
        ensures
            final(self).wf(),
            final(self).registry == old(self).registry,
            final(self).alert_config == old(self).alert_config,
            exists|now: i64|
                {
                    let (next, post) = #[trigger] spec_step(
                        old(self).active(),
                        old(self).registry@,
                        old(self).alert_config.allow_output_annotation,
                        update@,
                        now,
                    );
                    final(self).active() == next && payload_view(r) == post
                },
    {
        let now = now_unix_ts();
        let r = self.process_update_at(update, now);
        r
    }
}

proof fn lemma_active_view_remove(s: Seq<(usize, PostableAlert)>, i: int)
    requires
        0 <= i < s.len(),
    ensures
        active_view(s.remove(i)) =~= active_view(s).remove(i),
{
    assert forall|j: int| 0 <= j < s.len() - 1 implies active_view(s.remove(i))[j] == active_view(
        s,
    ).remove(i)[j] by {
        if j < i {
            assert(s.remove(i)[j] == s[j]);
        } else {
            assert(s.remove(i)[j] == s[j + 1]);
        }
    }
}

/// A `Failed` update for an id that is already alerting changes nothing and
/// posts nothing: alert creation is idempotent per id.
pub proof fn lemma_failed_is_idempotent(
    active: Seq<(usize, SpecAlert)>,
    registry: Seq<(usize, crate::SpecInfo)>,
    allow_output: bool,
    u: SpecUpdate,
    now: i64,
)
    requires
        u.status is Failed,
        find_id(active, u.id) is Some,
    ensures
        spec_step(active, registry, allow_output, u, now) == (active, None::<Seq<SpecAlert>>),
{
}

/// A `Succeeded` update for an id that is not alerting changes nothing and
/// posts nothing.
pub proof fn lemma_succeeded_without_alert_is_noop(
    active: Seq<(usize, SpecAlert)>,
    registry: Seq<(usize, crate::SpecInfo)>,
    allow_output: bool,
    u: SpecUpdate,
    now: i64,
)
    requires
        u.status is Succeeded,
        find_id(active, u.id) is None,
    ensures
        spec_step(active, registry, allow_output, u, now) == (active, None::<Seq<SpecAlert>>),
{
}

/// A `Succeeded` update for an alerting id posts the current set with exactly
/// that alert ended at `now`, and afterwards the id is no longer alerting.
pub proof fn lemma_succeeded_ends_and_removes(
    active: Seq<(usize, SpecAlert)>,
    registry: Seq<(usize, crate::SpecInfo)>,
    allow_output: bool,
    u: SpecUpdate,
    now: i64,
    i: int,
)
    requires
        u.status is Succeeded,
        find_id(active, u.id) == Some(i),
    ensures
        ({
            let (next, post) = spec_step(active, registry, allow_output, u, now);
            &&& next =~= active.remove(i)
            &&& post is Some
            &&& post.unwrap().len() == active.len()
            &&& post.unwrap()[i].ends_at == Some(now)
            &&& forall|j: int|
                0 <= j < active.len() && j != i ==> post.unwrap()[j] == active[j].1
        }),
{
    lemma_find_id_props(active, u.id);
    let ended = SpecAlert { ends_at: Some(now), ..active[i].1 };
    let posted = active.update(i, (u.id, ended));
    assert(spec_step(active, registry, allow_output, u, now) == (
        posted.remove(i),
        Some(alerts_of(posted)),
    ));
    assert(posted.remove(i) =~= active.remove(i));
}

/// Relies on `time::OffsetDateTime::now_utc` (and `unix_timestamp`, which
/// converts its result): the current wall-clock time as unix seconds.
/// Nothing can be promised of a clock reading.
#[verifier::external_body]
fn now_unix_ts() -> i64 {
    time::OffsetDateTime::now_utc().unix_timestamp()
}

} // verus!
