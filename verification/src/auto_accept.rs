//! Accepting ready checks: what the monitor does each time it looks at the
//! League Client's game flow. The caller asks the client, sleeps and accepts.
use vstd::prelude::*;

use crate::models::LogLevel;
use crate::text::{concat2, concat3, decimal, decimal_string, owned, str_eq, trim, trim_str};

verus! {

/// The game flow phase in which a ready check waits for an answer.
pub const READY_CHECK: &'static str = "ReadyCheck";

/// What the monitor remembers between looks.
pub struct AutoAcceptMonitor {
    pub ready_check_active: bool,
    pub last_phase: String,
}

/// What to do after one look.
pub struct MonitorPlan {
    /// The new text of the auto-accept state, if it changes.
    pub state: Option<String>,
    /// A line for the log.
    pub log: Option<String>,
    /// Accept the ready check after this many milliseconds (while auto
    /// accept stays on).
    pub accept_after_ms: Option<u32>,
    /// How long to wait before the next look.
    pub sleep_ms: u32,
}

pub open spec fn opt_view(o: Option<String>) -> Option<Seq<char>> {
    match o {
        Some(s) => Some(s@),
        None => None,
    }
}

pub open spec fn delay_text(d: u32) -> Seq<char> {
    decimal(d as nat) + "ms"@
}

/// A look that finds a ready check: auto accept is on and the client gave
/// the ready-check phase.
pub open spec fn is_ready_reading(enabled: bool, phase: Option<Seq<char>>) -> bool {
    enabled && phase == Some(READY_CHECK@)
}

pub open spec fn str_opt(o: Option<&str>) -> Option<Seq<char>> {
    match o {
        Some(s) => Some(s@),
        None => None,
    }
}

/// Whether the look at `i` of a run of looks (each whether auto accept was
/// on, and the phase the client gave) accepts a ready check, the monitor
/// having started with `active` (see `AutoAcceptMonitor::step`).
pub open spec fn accepts_at(looks: Seq<(bool, Option<Seq<char>>)>, active: bool, i: int) -> bool {
    let before = if i == 0 {
        active
    } else {
        is_ready_reading(looks[i - 1].0, looks[i - 1].1)
    };
    is_ready_reading(looks[i].0, looks[i].1) && !before
}

/// A ready check is accepted at most once while it lasts: between two looks
/// that accept, some look in between did not find a ready check (another
/// phase, no client, or auto accept off).
pub proof fn lemma_one_accept_per_ready_check(
    looks: Seq<(bool, Option<Seq<char>>)>,
    active: bool,
    i: int,
    j: int,
)
    requires
        0 <= i < j < looks.len(),
        accepts_at(looks, active, i),
        accepts_at(looks, active, j),
    ensures
        exists|k: int| i < k < j && !is_ready_reading(#[trigger] looks[k].0, looks[k].1),
{
    assert(!is_ready_reading(looks[j - 1].0, looks[j - 1].1));
}

impl AutoAcceptMonitor {
    pub fn new() -> (r: Self)
        ensures
            !r.ready_check_active,
            r.last_phase@.len() == 0,
    {
        AutoAcceptMonitor { ready_check_active: false, last_phase: String::new() }
    }

    /// One look: `enabled` is whether auto accept is on, `phase` the game
    /// flow phase the client gave (`None` where it could not be asked), and
    /// `delay_ms` the delay before accepting. Off: the state says so. No
    /// client: the phase is forgotten and the state says it waits. A new
    /// phase other than a ready check is shown. A ready check seen for the
    /// first time is accepted after the delay.
    pub fn step(&mut self, enabled: bool, phase: Option<&str>, delay_ms: u32) -> (r: MonitorPlan)
        ensures
            final(self).ready_check_active == is_ready_reading(enabled, str_opt(phase)),
            r.accept_after_ms is Some <==> is_ready_reading(enabled, str_opt(phase)) && !old(self).ready_check_active,
            !enabled ==> {
                &&& !final(self).ready_check_active
                &&& final(self).last_phase@ == old(self).last_phase@
                &&& opt_view(r.state) == Some("Disabled"@)
                &&& r.log is None && r.accept_after_ms is None && r.sleep_ms == 750
            },
            enabled && phase is None ==> {
                &&& !final(self).ready_check_active
                &&& final(self).last_phase@.len() == 0
                &&& opt_view(r.state) == Some("Waiting for League Client"@)
                &&& r.log is None && r.accept_after_ms is None && r.sleep_ms == 2000
            },
            enabled && phase is Some ==> {
                let p = phase->0@;
                let ready = p == READY_CHECK@;
                &&& final(self).last_phase@ == p
                &&& opt_view(r.state) == (if ready && !old(self).ready_check_active {
                    Some("Ready check found; accepting in "@ + delay_text(delay_ms))
                } else if p != old(self).last_phase@ && !ready {
                    Some("Watching: "@ + p)
                } else {
                    None
                })
                &&& ready && !old(self).ready_check_active ==> opt_view(r.log) == Some(
                    "Auto accept detected ready check; accepting in "@ + delay_text(delay_ms),
                ) && r.accept_after_ms == Some(delay_ms)
                &&& !(ready && !old(self).ready_check_active) ==> r.log is None && r.accept_after_ms is None
                &&& final(self).ready_check_active == ready
                &&& r.sleep_ms == (if ready {
                    250u32
                } else {
                    750u32
                })
            },
    {
        if !enabled {
            self.ready_check_active = false;
            return MonitorPlan { state: Some(owned("Disabled")), log: None, accept_after_ms: None, sleep_ms: 750 };
        }
        let phase = match phase {
            Some(p) => p,
            None => {
                self.ready_check_active = false;
                self.last_phase = String::new();
                return MonitorPlan {
                    state: Some(owned("Waiting for League Client")),
                    log: None,
                    accept_after_ms: None,
                    sleep_ms: 2000,
                };
            },
        };
        let ready = str_eq(phase, READY_CHECK);
        let changed = !str_eq(phase, self.last_phase.as_str());
        self.last_phase = owned(phase);
        if ready {
            if !self.ready_check_active {
                self.ready_check_active = true;
                let d = decimal_string(delay_ms as u64);
                return MonitorPlan {
                    state: Some(concat3("Ready check found; accepting in ", d.as_str(), "ms")),
                    log: Some(concat3("Auto accept detected ready check; accepting in ", d.as_str(), "ms")),
                    accept_after_ms: Some(delay_ms),
                    sleep_ms: 250,
                };
            }
            MonitorPlan { state: None, log: None, accept_after_ms: None, sleep_ms: 250 }
        } else {
            self.ready_check_active = false;
            MonitorPlan {
                state: if changed {
                    Some(concat2("Watching: ", phase))
                } else {
                    None
                },
                log: None,
                accept_after_ms: None,
                sleep_ms: 750,
            }
        }
    }
}

/// How the request to accept went.
pub enum AcceptOutcome {
    /// The client answered with a success status.
    Accepted,
    /// The client answered with another status.
    Status(u16),
    /// The request failed, with its description.
    Failed(String),
}

/// What an accept attempt changes: the state text, the log line and its
/// level, and whether the Discord webhook is told.
pub struct AcceptReport {
    pub state: String,
    pub level: LogLevel,
    pub log: String,
    pub notify: bool,
}

pub fn accept_report(outcome: &AcceptOutcome) -> (r: AcceptReport)
    ensures
        match *outcome {
            AcceptOutcome::Accepted => r.state@ == "Accepted ready check"@ && r.level == LogLevel::Info && r.log@
                == "Auto accepted ready check"@ && r.notify,
            AcceptOutcome::Status(s) => r.state@ == "Accept returned HTTP "@ + decimal(s as nat) && r.level
                == LogLevel::Warn && r.log@ == "Auto accept returned HTTP "@ + decimal(s as nat) && !r.notify,
            AcceptOutcome::Failed(e) => r.state@ == "Accept failed"@ && r.level == LogLevel::Warn && r.log@
                == "Auto accept failed: "@ + e@ && !r.notify,
        },
{
    match outcome {
        AcceptOutcome::Accepted => AcceptReport {
            state: owned("Accepted ready check"),
            level: LogLevel::Info,
            log: owned("Auto accepted ready check"),
            notify: true,
        },
        AcceptOutcome::Status(s) => {
            let d = decimal_string(*s as u64);
            AcceptReport {
                state: concat2("Accept returned HTTP ", d.as_str()),
                level: LogLevel::Warn,
                log: concat2("Auto accept returned HTTP ", d.as_str()),
                notify: false,
            }
        },
        AcceptOutcome::Failed(e) => AcceptReport {
            state: owned("Accept failed"),
            level: LogLevel::Warn,
            log: concat2("Auto accept failed: ", e.as_str()),
            notify: false,
        },
    }
}

/// The webhook to tell of an accept: the stored URL trimmed, none where it
/// is blank.
pub fn discord_webhook_target(url: &str) -> (r: Option<String>)
    ensures
        trim(url@).len() == 0 ==> r is None,
        trim(url@).len() > 0 ==> opt_view(r) == Some(trim(url@)),
{
    let t = trim_str(url);
    if t.as_str().is_empty() {
        None
    } else {
        Some(t)
    }
}

/// The Discord message for an accept: the summoner's name, or `Ghosty`
/// where it could not be read.
pub fn discord_auto_accept_message(summoner: Option<&str>) -> (r: String)
    ensures
        r@ == match summoner {
            Some(n) => n@,
            None => "Ghosty"@,
        } + " has auto accepted a game"@,
{
    match summoner {
        Some(n) => concat2(n, " has auto accepted a game"),
        None => concat2("Ghosty", " has auto accepted a game"),
    }
}

/// What the wait before accepting does next.
pub enum WaitStep {
    /// Sleep this many milliseconds, then look again.
    Sleep(u32),
    /// The delay is over and auto accept is still on: accept.
    Accept,
    /// Auto accept was switched off: give up this ready check.
    Cancel,
}

/// One look during the wait, with `remaining` milliseconds left and auto
/// accept `enabled` or not: the step and the milliseconds left after it.
pub open spec fn wait_step_spec(remaining: u32, enabled: bool) -> (WaitStep, u32) {
    if !enabled {
        (WaitStep::Cancel, remaining)
    } else if remaining == 0 {
        (WaitStep::Accept, 0)
    } else {
        let s: u32 = if remaining < 100 {
            remaining
        } else {
            100
        };
        (WaitStep::Sleep(s), (remaining - s) as u32)
    }
}

/// The wait before accepting a ready check: sleeps of at most 100 ms while
/// auto accept stays on, then the accept.
pub struct AcceptWait {
    pub remaining_ms: u32,
}

impl AcceptWait {
    pub fn new(delay_ms: u32) -> (r: Self)
        ensures
            r.remaining_ms == delay_ms,
    {
        AcceptWait { remaining_ms: delay_ms }
    }

    /// One look: `enabled` is whether auto accept is on now.
    pub fn step(&mut self, enabled: bool) -> (r: WaitStep)
        ensures
            (r, final(self).remaining_ms) == wait_step_spec(old(self).remaining_ms, enabled),
    {
        if !enabled {
            return WaitStep::Cancel;
        }
        if self.remaining_ms == 0 {
            return WaitStep::Accept;
        }
        let s = delay_step(self.remaining_ms);
        self.remaining_ms = self.remaining_ms - s;
        WaitStep::Sleep(s)
    }
}

/// A run of looks during the wait, each whether auto accept was on: the
/// sleeps made, and whether the run ended in an accept.
pub open spec fn wait_run(remaining: u32, looks: Seq<bool>) -> (Seq<u32>, bool)
    decreases looks.len(),
{
    if looks.len() == 0 {
        (seq![], false)
    } else {
        match wait_step_spec(remaining, looks[0]) {
            (WaitStep::Sleep(s), left) => {
                let rest = wait_run(left, looks.drop_first());
                (seq![s] + rest.0, rest.1)
            },
            (WaitStep::Accept, _) => (seq![], true),
            (WaitStep::Cancel, _) => (seq![], false),
        }
    }
}

pub open spec fn total_ms(sleeps: Seq<u32>) -> int
    decreases sleeps.len(),
{
    if sleeps.len() == 0 {
        0
    } else {
        sleeps[0] + total_ms(sleeps.drop_first())
    }
}

/// A ready check is accepted only after the whole delay was slept, in steps
/// of 1 to 100 ms, with auto accept on at every look up to the accept.
pub proof fn lemma_accept_after_full_delay(remaining: u32, looks: Seq<bool>)
    requires
        wait_run(remaining, looks).1,
    ensures
        total_ms(wait_run(remaining, looks).0) == remaining,
        forall|k: int| 0 <= k < wait_run(remaining, looks).0.len() ==> 1 <= #[trigger] wait_run(remaining, looks).0[k] <= 100,
        wait_run(remaining, looks).0.len() < looks.len(),
        forall|k: int| 0 <= k <= wait_run(remaining, looks).0.len() ==> #[trigger] looks[k],
    decreases looks.len(),
{
    let st = wait_step_spec(remaining, looks[0]);
    match st.0 {
        WaitStep::Sleep(s) => {
            let rest = looks.drop_first();
            lemma_accept_after_full_delay(st.1, rest);
            let sl = wait_run(st.1, rest).0;
            assert((seq![s] + sl).drop_first() =~= sl);
            assert forall|k: int| 0 <= k < (seq![s] + sl).len() implies 1 <= #[trigger] (seq![s] + sl)[k] <= 100 by {
                if k > 0 {
                    assert((seq![s] + sl)[k] == sl[k - 1]);
                }
            }
            assert forall|k: int| 0 <= k <= (seq![s] + sl).len() implies #[trigger] looks[k] by {
                if k > 0 {
                    assert(looks[k] == rest[k - 1]);
                }
            }
        },
        _ => {},
    }
}

/// How many milliseconds to sleep next while waiting out an accept delay:
/// steps of at most 100, so that switching auto accept off is noticed.
pub fn delay_step(remaining_ms: u32) -> (r: u32)
    ensures
        r == (if remaining_ms < 100 {
            remaining_ms
        } else {
            100
        }),
{
    if remaining_ms < 100 {
        remaining_ms
    } else {
        100
    }
}

} // verus!
