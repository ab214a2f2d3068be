//! The window-activity tracker: cached focus samples, the bounded switch and
//! session histories, and the per-app usage totals they feed.

use vstd::prelude::*;
use crate::screen::WindowBounds;
use vstd::string::{StrSliceExecFns, StringSliceAdditionalSpecFns};

verus! {

/// How many switch events the history keeps.
pub const SWITCH_HISTORY_CAP: usize = 100;

/// How many sessions the session history keeps.
pub const SESSION_HISTORY_CAP: usize = 50;

/// How long a cached focus sample stays fresh, in milliseconds.
pub const CACHE_TTL_MS: u64 = 500;

/// How many apps the usage ranking reports.
pub const TOP_APPS: usize = 5;

/// One change of focus identity.
#[derive(Clone, Debug, PartialEq)]
pub struct WindowSwitchEvent {
    pub from_app: Option<String>,
    pub to_app: Option<String>,
    pub from_title: Option<String>,
    pub to_title: Option<String>,
    pub timestamp: u64,
    pub duration_ms: u64,
}

/// A contiguous interval during which the focus identity did not change. An
/// open session has `end_time` of `None`; it is closed by the next switch.
#[derive(Clone, Debug, PartialEq)]
pub struct WindowSession {
    pub app_name: Option<String>,
    pub window_title: Option<String>,
    pub start_time: u64,
    pub end_time: Option<u64>,
    pub duration_ms: u64,
}

/// Derived, recomputed on demand; never stored.
#[derive(Clone, Debug, PartialEq)]
pub struct WindowSwitchStats {
    pub total_switches: u32,
    pub most_used_apps: Vec<(String, u64)>,
    pub current_session_duration_ms: u64,
    pub last_switch_time: Option<u64>,
}

/// A focus sample enriched with its query time.
#[derive(Clone, Debug, PartialEq)]
pub struct EnhancedWindowInfo {
    pub app_name: Option<String>,
    pub window_title: Option<String>,
    pub bounds: Option<WindowBounds>,
    pub timestamp: u64,
    pub process_id: Option<u32>,
    pub is_focus_changed: bool,
}

pub open spec fn sat_sub(a: u64, b: u64) -> u64 {
    if a >= b {
        (a - b) as u64
    } else {
        0
    }
}

pub open spec fn sat_add(a: u64, b: u64) -> u64 {
    if a + b <= u64::MAX {
        (a + b) as u64
    } else {
        u64::MAX
    }
}

fn clone_opt_string(a: &Option<String>) -> (r: Option<String>)
    ensures
        r == *a,
{
    match a {
        None => None,
        Some(s) => Some(s.clone()),
    }
}

fn opt_str_eq(a: &Option<String>, b: &Option<String>) -> (r: bool)
    ensures
        r == (a.deep_view() == b.deep_view()),
{
    match (a, b) {
        (None, None) => true,
        (Some(x), Some(y)) => *x == *y,
        _ => false,
    }
}

fn clone_info(w: &EnhancedWindowInfo) -> (r: EnhancedWindowInfo)
    ensures
        r == *w,
{
    EnhancedWindowInfo {
        app_name: clone_opt_string(&w.app_name),
        window_title: clone_opt_string(&w.window_title),
        bounds: w.bounds,
        timestamp: w.timestamp,
        process_id: w.process_id,
        is_focus_changed: w.is_focus_changed,
    }
}

fn clone_opt_info(w: &Option<EnhancedWindowInfo>) -> (r: Option<EnhancedWindowInfo>)
    ensures
        r == *w,
{
    match w {
        None => None,
        Some(x) => Some(clone_info(x)),
    }
}

fn clone_event(e: &WindowSwitchEvent) -> (r: WindowSwitchEvent)
    ensures
        r == *e,
{
    WindowSwitchEvent {
        from_app: clone_opt_string(&e.from_app),
        to_app: clone_opt_string(&e.to_app),
        from_title: clone_opt_string(&e.from_title),
        to_title: clone_opt_string(&e.to_title),
        timestamp: e.timestamp,
        duration_ms: e.duration_ms,
    }
}

fn clone_session(s: &WindowSession) -> (r: WindowSession)
    ensures
        r == *s,
{
    WindowSession {
        app_name: clone_opt_string(&s.app_name),
        window_title: clone_opt_string(&s.window_title),
        start_time: s.start_time,
        end_time: s.end_time,
        duration_ms: s.duration_ms,
    }
}

/// Whether a fresh sample carries a different focus identity (app name plus
/// window title) than the tracked one.
pub open spec fn spec_identity_differs(
    cur: Option<EnhancedWindowInfo>,
    w: EnhancedWindowInfo,
) -> bool {
    match cur {
        None => true,
        Some(o) => o.app_name.deep_view() != w.app_name.deep_view()
            || o.window_title.deep_view() != w.window_title.deep_view(),
    }
}

/// The switch event a focus change emits: `duration_ms` is how long the
/// previous focus was held.
pub open spec fn spec_event_for(
    cur: Option<EnhancedWindowInfo>,
    w: EnhancedWindowInfo,
    now_ms: u64,
) -> WindowSwitchEvent {
    WindowSwitchEvent {
        from_app: match cur {
            Some(o) => o.app_name,
            None => None,
        },
        to_app: w.app_name,
        from_title: match cur {
            Some(o) => o.window_title,
            None => None,
        },
        to_title: w.window_title,
        timestamp: now_ms,
        duration_ms: match cur {
            Some(o) => sat_sub(now_ms, o.timestamp),
            None => 0,
        },
    }
}

/// A bounded FIFO push: the new element enters at the back and the oldest
/// leaves once the bound is reached.
pub open spec fn spec_fifo_push<T>(s: Seq<T>, x: T, cap: int) -> Seq<T> {
    if s.len() < cap {
        s.push(x)
    } else {
        s.drop_first().push(x)
    }
}

/// Closing the previous session: when the newest session still carries the
/// previous focus identity, it gets its end time and duration.
pub open spec fn spec_close_last_session(
    sessions: Seq<WindowSession>,
    old_cur: EnhancedWindowInfo,
    now_ms: u64,
) -> Seq<WindowSession> {
    if sessions.len() > 0 && sessions.last().app_name.deep_view() == old_cur.app_name.deep_view()
        && sessions.last().window_title.deep_view() == old_cur.window_title.deep_view() {
        let closed = WindowSession {
            end_time: Some(now_ms),
            duration_ms: sat_sub(now_ms, sessions.last().start_time),
            ..sessions.last()
        };
        sessions.update(sessions.len() - 1, closed)
    } else {
        sessions
    }
}

/// The least index holding the given app name, or the length when the name
/// is absent.
pub open spec fn spec_find_key(usage: Seq<(String, u64)>, name: Seq<char>) -> int
    decreases usage.len(),
{
    if usage.len() == 0 {
        0
    } else if usage.first().0@ == name {
        0
    } else {
        1 + spec_find_key(usage.drop_first(), name)
    }
}

/// Folding a closed session's duration into the per-app totals: an existing
/// entry grows (saturating), a new app is appended, keeping first-seen
/// order.
pub open spec fn spec_bump_usage(
    usage: Seq<(String, u64)>,
    name: String,
    dur: u64,
) -> Seq<(String, u64)> {
    let i = spec_find_key(usage, name@);
    if i < usage.len() {
        usage.update(i, (usage[i].0, sat_add(usage[i].1, dur)))
    } else {
        usage.push((name, dur))
    }
}

/// The open session a focus change starts.
pub open spec fn spec_new_session(w: EnhancedWindowInfo, now_ms: u64) -> WindowSession {
    WindowSession {
        app_name: w.app_name,
        window_title: w.window_title,
        start_time: now_ms,
        end_time: None,
        duration_ms: 0,
    }
}

/// Maintains the cached focus state and the bounded histories. All mutation
/// funnels through one owner; queries recompute their statistics on demand.
pub struct WindowTracker {
    current_window: Option<EnhancedWindowInfo>,
    switch_history: Vec<WindowSwitchEvent>,
    session_history: Vec<WindowSession>,
    app_usage: Vec<(String, u64)>,
    last_query_time: Option<u64>,
    cached_info: Option<EnhancedWindowInfo>,
    events_ever: Ghost<Seq<WindowSwitchEvent>>,
}

impl WindowTracker {
    pub closed spec fn spec_current(&self) -> Option<EnhancedWindowInfo> {
        self.current_window
    }

    pub closed spec fn spec_history(&self) -> Seq<WindowSwitchEvent> {
        self.switch_history@
    }

    pub closed spec fn spec_sessions(&self) -> Seq<WindowSession> {
        self.session_history@
    }

    pub closed spec fn spec_usage(&self) -> Seq<(String, u64)> {
        self.app_usage@
    }

    pub closed spec fn spec_last_query_time(&self) -> Option<u64> {
        self.last_query_time
    }

    pub closed spec fn spec_cached(&self) -> Option<EnhancedWindowInfo> {
        self.cached_info
    }

    /// Every switch event ever emitted, oldest first; the stored history is
    /// its suffix.
    pub closed spec fn spec_events_ever(&self) -> Seq<WindowSwitchEvent> {
        self.events_ever@
    }

    /// The timestamp of the newest emitted event, or zero before any.
    pub open spec fn spec_last_event_time(&self) -> u64 {
        if self.spec_events_ever().len() == 0 {
            0
        } else {
            self.spec_events_ever().last().timestamp
        }
    }

    /// Well-formedness: the stored history is the most recent slice of the
    /// emitted events, bounded by the cap; sessions are bounded; usage keys
    /// are unique; event timestamps never decrease.
    pub open spec fn wf(&self) -> bool {
        let ever = self.spec_events_ever();
        let hist = self.spec_history();
        &&& hist.len() == (if ever.len() < SWITCH_HISTORY_CAP {
            ever.len() as int
        } else {
            SWITCH_HISTORY_CAP as int
        })
        &&& hist == ever.subrange(ever.len() - hist.len(), ever.len() as int)
        &&& self.spec_sessions().len() <= SESSION_HISTORY_CAP
        &&& forall|i: int, j: int|
            0 <= i < j < self.spec_usage().len() ==> (#[trigger] self.spec_usage()[i]).0@ != (
            #[trigger] self.spec_usage()[j]).0@
        &&& forall|i: int, j: int|
            0 <= i < j < ever.len() ==> (#[trigger] ever[i]).timestamp <= (
            #[trigger] ever[j]).timestamp
    }

    /// A tracker with nothing observed yet.
    pub fn new() -> (t: Self)
        ensures
            t.wf(),
            t.spec_current() is None,
            t.spec_history() == Seq::<WindowSwitchEvent>::empty(),
            t.spec_sessions() == Seq::<WindowSession>::empty(),
            t.spec_usage() == Seq::<(String, u64)>::empty(),
            t.spec_last_query_time() is None,
            t.spec_cached() is None,
            t.spec_events_ever() == Seq::<WindowSwitchEvent>::empty(),
    {
        let t = WindowTracker {
            current_window: None,
            switch_history: Vec::new(),
            session_history: Vec::new(),
            app_usage: Vec::new(),
            last_query_time: None,
            cached_info: None,
            events_ever: Ghost(Seq::empty()),
        };
        proof {
            assert(t.spec_events_ever().subrange(0, 0) =~= t.spec_history());
        }
        t
    }

    /// Whether a fresh OS query is due at `now_ms`: only when no query was
    /// made yet, or the last one is at least the TTL old. A cached explicit
    /// no-data outcome counts as a cached sample like any other and is
    /// served while it is young.
    pub open spec fn spec_needs_refresh(&self, now_ms: u64) -> bool {
        match self.spec_last_query_time() {
            Some(t) => !(t <= now_ms && now_ms - t < CACHE_TTL_MS),
            None => true,
        }
    }

    /// The caller queries the OS only when this says so.
    pub fn needs_refresh(&self, now_ms: u64) -> (r: bool)
        ensures
            r == self.spec_needs_refresh(now_ms),
    {
        match &self.last_query_time {
            Some(t) => !(*t <= now_ms && now_ms - *t < CACHE_TTL_MS),
            None => true,
        }
    }

    /// Folds one closed session into the per-app totals.
    fn bump_usage(&mut self, name: &String, dur: u64)
        ensures
            final(self).app_usage@ == spec_bump_usage(old(self).app_usage@, *name, dur),
            final(self).current_window == old(self).current_window,
            final(self).switch_history == old(self).switch_history,
            final(self).session_history == old(self).session_history,
            final(self).last_query_time == old(self).last_query_time,
            final(self).cached_info == old(self).cached_info,
            final(self).events_ever == old(self).events_ever,
    {
        let n = self.app_usage.len();
        let mut i: usize = 0;
        while i < n
            invariant
                0 <= i <= n == self.app_usage@.len(),
                *self == *old(self),
                forall|k: int| 0 <= k < i ==> (#[trigger] self.app_usage@[k]).0@ != name@,
            decreases n - i,
        {
            if self.app_usage[i].0 == *name {
                proof {
                    lemma_find_key_hit(self.app_usage@, name@, i as int);
                }
                let total = if self.app_usage[i].1 <= u64::MAX - dur {
                    self.app_usage[i].1 + dur
                } else {
                    u64::MAX
                };
                let key = self.app_usage[i].0.clone();
                self.app_usage[i] = (key, total);
                assert(self.app_usage@ =~= spec_bump_usage(old(self).app_usage@, *name, dur));
                return ;
            }
            i = i + 1;
        }
        proof {
            lemma_find_key_step(self.app_usage@, name@, n as int);
        }
        self.app_usage.push((name.clone(), dur));
        assert(self.app_usage@ =~= spec_bump_usage(old(self).app_usage@, *name, dur));
    }
}

/// If the key is not among the first `i` entries, the first hit is at or
/// past `i`.
proof fn lemma_find_key_step(usage: Seq<(String, u64)>, name: Seq<char>, i: int)
    requires
        0 <= i <= usage.len(),
        forall|k: int| 0 <= k < i ==> (#[trigger] usage[k]).0@ != name,
    ensures
        spec_find_key(usage, name) >= i,
        i == usage.len() ==> spec_find_key(usage, name) == usage.len(),
    decreases i,
{
    lemma_find_key_bounds(usage, name);
    if i > 0 {
        assert(usage[0].0@ != name);
        assert(usage.first().0@ != name);
        assert forall|k: int| 0 <= k < i - 1 implies (#[trigger] usage.drop_first()[k]).0@
            != name by {
            assert(usage.drop_first()[k] == usage[k + 1]);
        }
        lemma_find_key_step(usage.drop_first(), name, i - 1);
    }
}

/// When entry `i` holds the key and nothing before it does, `i` is the first
/// hit.
proof fn lemma_find_key_hit(usage: Seq<(String, u64)>, name: Seq<char>, i: int)
    requires
        0 <= i < usage.len(),
        usage[i].0@ == name,
        forall|k: int| 0 <= k < i ==> (#[trigger] usage[k]).0@ != name,
    ensures
        spec_find_key(usage, name) == i,
    decreases i,
{
    if i > 0 {
        assert(usage[0].0@ != name);
        assert(usage.first().0@ != name);
        assert forall|k: int| 0 <= k < i - 1 implies (#[trigger] usage.drop_first()[k]).0@
            != name by {
            assert(usage.drop_first()[k] == usage[k + 1]);
        }
        assert(usage.drop_first()[i - 1] == usage[i]);
        lemma_find_key_hit(usage.drop_first(), name, i - 1);
    }
}

/// The first hit never lies past the length, and when it lies inside, it
/// really holds the key and nothing before it does.
pub proof fn lemma_find_key_bounds(usage: Seq<(String, u64)>, name: Seq<char>)
    ensures
        0 <= spec_find_key(usage, name) <= usage.len(),
        spec_find_key(usage, name) < usage.len() ==> usage[spec_find_key(usage, name)].0@ == name,
        forall|k: int|
            0 <= k < spec_find_key(usage, name) ==> (#[trigger] usage[k]).0@ != name,
    decreases usage.len(),
{
    if usage.len() > 0 && usage.first().0@ != name {
        lemma_find_key_bounds(usage.drop_first(), name);
        let f = spec_find_key(usage, name);
        if f < usage.len() {
            assert(usage[f] == usage.drop_first()[f - 1]);
        }
        assert forall|k: int| 0 <= k < f implies (#[trigger] usage[k]).0@ != name by {
            if k >= 1 {
                assert(usage[k] == usage.drop_first()[k - 1]);
            }
        }
    }
}

/// The per-app totals after a focus change closed the previous session: the
/// closed session's duration is folded in when the session matched the
/// previous identity and names an app.
pub open spec fn spec_usage_after(
    sessions: Seq<WindowSession>,
    usage: Seq<(String, u64)>,
    old_cur: Option<EnhancedWindowInfo>,
    now_ms: u64,
) -> Seq<(String, u64)> {
    match old_cur {
        None => usage,
        Some(o) => {
            if sessions.len() > 0 && sessions.last().app_name.deep_view() == o.app_name.deep_view()
                && sessions.last().window_title.deep_view() == o.window_title.deep_view() {
                match sessions.last().app_name {
                    Some(nm) => spec_bump_usage(
                        usage,
                        nm,
                        sat_sub(now_ms, sessions.last().start_time),
                    ),
                    None => usage,
                }
            } else {
                usage
            }
        },
    }
}

impl WindowTracker {
    /// The cached sample when it is still fresh; otherwise the fresh OS
    /// query result the caller obtained, which becomes the cache, and — when
    /// its focus identity differs from the tracked one — emits a switch
    /// event, closes the previous session into the usage totals, and opens a
    /// new session. The timestamps handed in must not go backwards.
    #[verifier::rlimit(60)]
    pub fn get_current_window_info(
        &mut self,
        fresh: Option<EnhancedWindowInfo>,
        now_ms: u64,
    ) -> (r: Option<EnhancedWindowInfo>)
        requires
            old(self).wf(),
            now_ms >= old(self).spec_last_event_time(),
        ensures
            final(self).wf(),
            ({
                if !old(self).spec_needs_refresh(now_ms) {
                    &&& *final(self) == *old(self)
                    &&& r == old(self).spec_cached()
                } else {
                    &&& final(self).spec_last_query_time() == Some(now_ms)
                    &&& final(self).spec_cached() == fresh
                    &&& r == fresh
                    &&& match fresh {
                        None => {
                            &&& final(self).spec_current() == old(self).spec_current()
                            &&& final(self).spec_events_ever() == old(self).spec_events_ever()
                            &&& final(self).spec_sessions() == old(self).spec_sessions()
                            &&& final(self).spec_usage() == old(self).spec_usage()
                        },
                        Some(w) => {
                            if spec_identity_differs(old(self).spec_current(), w) {
                                let ev = spec_event_for(old(self).spec_current(), w, now_ms);
                                let closed = match old(self).spec_current() {
                                    Some(o) => spec_close_last_session(
                                        old(self).spec_sessions(),
                                        o,
                                        now_ms,
                                    ),
                                    None => old(self).spec_sessions(),
                                };
                                &&& final(self).spec_current() == Some(w)
                                &&& final(self).spec_events_ever() == old(
                                    self,
                                ).spec_events_ever().push(ev)
                                &&& final(self).spec_history() == spec_fifo_push(
                                    old(self).spec_history(),
                                    ev,
                                    SWITCH_HISTORY_CAP as int,
                                )
                                &&& final(self).spec_sessions() == spec_fifo_push(
                                    closed,
                                    spec_new_session(w, now_ms),
                                    SESSION_HISTORY_CAP as int,
                                )
                                &&& final(self).spec_usage() == spec_usage_after(
                                    old(self).spec_sessions(),
                                    old(self).spec_usage(),
                                    old(self).spec_current(),
                                    now_ms,
                                )
                            } else {
                                &&& final(self).spec_current() == old(self).spec_current()
                                &&& final(self).spec_events_ever() == old(self).spec_events_ever()
                                &&& final(self).spec_sessions() == old(self).spec_sessions()
                                &&& final(self).spec_usage() == old(self).spec_usage()
                            }
                        },
                    }
                }
            }),
    {
        if !self.needs_refresh(now_ms) {
            return clone_opt_info(&self.cached_info);
        }
        self.last_query_time = Some(now_ms);
        self.cached_info = clone_opt_info(&fresh);
        let w = match fresh {
            None => {
                proof {
                    assert(self.spec_usage() == old(self).spec_usage());
                    assert(self.spec_events_ever() == old(self).spec_events_ever());
                    assert(self.spec_history() == old(self).spec_history());
                    assert(self.spec_sessions() == old(self).spec_sessions());
                }
                return None;
            },
            Some(w) => w,
        };
        let differs = match &self.current_window {
            None => true,
            Some(o) => !(opt_str_eq(&o.app_name, &w.app_name) && opt_str_eq(
                &o.window_title,
                &w.window_title,
            )),
        };
        if !differs {
            proof {
                assert(self.spec_usage() == old(self).spec_usage());
                assert(self.spec_events_ever() == old(self).spec_events_ever());
                assert(self.spec_history() == old(self).spec_history());
                assert(self.spec_sessions() == old(self).spec_sessions());
            }
            return Some(w);
        }
        let old_cur = clone_opt_info(&self.current_window);
        self.current_window = Some(clone_info(&w));
        let duration: u64 = match &old_cur {
            Some(o) => if now_ms >= o.timestamp {
                now_ms - o.timestamp
            } else {
                0
            },
            None => 0,
        };
        let ev = WindowSwitchEvent {
            from_app: match &old_cur {
                Some(o) => clone_opt_string(&o.app_name),
                None => None,
            },
            to_app: clone_opt_string(&w.app_name),
            from_title: match &old_cur {
                Some(o) => clone_opt_string(&o.window_title),
                None => None,
            },
            to_title: clone_opt_string(&w.window_title),
            timestamp: now_ms,
            duration_ms: duration,
        };
        assert(ev == spec_event_for(old(self).spec_current(), w, now_ms));
        let ghost old_ever = self.events_ever@;
        let ghost old_hist = self.switch_history@;
        self.switch_history.push(clone_event(&ev));
        if self.switch_history.len() > SWITCH_HISTORY_CAP {
            self.switch_history.remove(0);
            assert(self.switch_history@ =~= old_hist.drop_first().push(ev));
        }
        proof {
            self.events_ever@ = old_ever.push(ev);
        }
        let ghost sessions_before = self.session_history@;
        if let Some(o) = &old_cur {
            if self.session_history.len() > 0 {
                let last_idx = self.session_history.len() - 1;
                let matches_id = opt_str_eq(&self.session_history[last_idx].app_name, &o.app_name)
                    && opt_str_eq(&self.session_history[last_idx].window_title, &o.window_title);
                if matches_id {
                    let start = self.session_history[last_idx].start_time;
                    let dur: u64 = if now_ms >= start {
                        now_ms - start
                    } else {
                        0
                    };
                    let mut closed = clone_session(&self.session_history[last_idx]);
                    closed.end_time = Some(now_ms);
                    closed.duration_ms = dur;
                    let name_opt = clone_opt_string(&closed.app_name);
                    self.session_history[last_idx] = closed;
                    assert(self.session_history@ =~= spec_close_last_session(
                        sessions_before,
                        *o,
                        now_ms,
                    ));
                    if let Some(nm) = &name_opt {
                        proof {
                            assert(self.app_usage@ == old(self).spec_usage());
                            lemma_bump_usage_unique(self.app_usage@, *nm, dur);
                        }
                        self.bump_usage(nm, dur);
                    }
                }
            }
        }
        assert(self.app_usage@ == spec_usage_after(
            sessions_before,
            old(self).spec_usage(),
            old(self).spec_current(),
            now_ms,
        ));
        let ghost closed_sessions = self.session_history@;
        self.session_history.push(
            WindowSession {
                app_name: clone_opt_string(&w.app_name),
                window_title: clone_opt_string(&w.window_title),
                start_time: now_ms,
                end_time: None,
                duration_ms: 0,
            },
        );
        if self.session_history.len() > SESSION_HISTORY_CAP {
            self.session_history.remove(0);
            assert(self.session_history@ =~= closed_sessions.drop_first().push(
                spec_new_session(w, now_ms),
            ));
        }
        proof {
            self.lemma_wf_after_switch(*old(self), ev, old_hist, old_ever);
        }
        Some(w)
    }

    /// Re-establishes well-formedness after one switch was recorded.
    proof fn lemma_wf_after_switch(
        &self,
        prev: WindowTracker,
        ev: WindowSwitchEvent,
        old_hist: Seq<WindowSwitchEvent>,
        old_ever: Seq<WindowSwitchEvent>,
    )
        requires
            prev.wf(),
            old_hist == prev.spec_history(),
            old_ever == prev.spec_events_ever(),
            ev.timestamp >= prev.spec_last_event_time(),
            self.spec_events_ever() == old_ever.push(ev),
            self.spec_history() == spec_fifo_push(old_hist, ev, SWITCH_HISTORY_CAP as int),
            self.spec_sessions().len() <= SESSION_HISTORY_CAP,
            forall|i: int, j: int|
                0 <= i < j < self.spec_usage().len() ==> (#[trigger] self.spec_usage()[i]).0@ != (
                #[trigger] self.spec_usage()[j]).0@,
        ensures
            self.wf(),
    {
        let ever = self.spec_events_ever();
        let hist = self.spec_history();
        assert forall|i: int, j: int| 0 <= i < j < ever.len() implies (
        #[trigger] ever[i]).timestamp <= (#[trigger] ever[j]).timestamp by {
            if j < ever.len() - 1 {
                assert(ever[i] == old_ever[i] && ever[j] == old_ever[j]);
            } else {
                assert(ever[j] == ev);
                if i < old_ever.len() {
                    assert(ever[i] == old_ever[i]);
                    if old_ever.len() > 0 {
                        if i < old_ever.len() - 1 {
                            assert(old_ever[i].timestamp <= old_ever[old_ever.len()
                                - 1].timestamp);
                        }
                    }
                }
            }
        }
        if old_hist.len() < SWITCH_HISTORY_CAP {
            assert(old_ever.len() == old_hist.len());
            assert(old_hist =~= old_ever);
            assert(hist =~= ever.subrange(ever.len() - hist.len(), ever.len() as int));
        } else {
            assert(hist == old_hist.drop_first().push(ev));
            assert forall|k: int| 0 <= k < hist.len() implies #[trigger] hist[k] == ever[ever.len()
                - hist.len() + k] by {
                if k < hist.len() - 1 {
                    assert(hist[k] == old_hist[k + 1]);
                    assert(old_hist[k + 1] == old_ever[old_ever.len() - old_hist.len() + k + 1]);
                }
            }
            assert(hist =~= ever.subrange(ever.len() - hist.len(), ever.len() as int));
        }
    }

    /// The stored switch events, oldest first: all of them, or the most
    /// recent `limit`.
    pub fn get_switch_history(&self, limit: Option<usize>) -> (r: Vec<WindowSwitchEvent>)
        ensures
            ({
                let len = self.spec_history().len() as int;
                let take = match limit {
                    None => len,
                    Some(k) => if k < len {
                        k as int
                    } else {
                        len
                    },
                };
                r@ == self.spec_history().subrange(len - take, len)
            }),
    {
        let n = self.switch_history.len();
        let take = match limit {
            None => n,
            Some(k) => if k < n {
                k
            } else {
                n
            },
        };
        let mut out: Vec<WindowSwitchEvent> = Vec::new();
        let mut i: usize = n - take;
        while i < n
            invariant
                n - take <= i <= n == self.spec_history().len(),
                take <= n,
                out@ =~= self.spec_history().subrange(n - take, i as int),
            decreases n - i,
        {
            out.push(clone_event(&self.switch_history[i]));
            assert(out@ =~= self.spec_history().subrange(n - take, i + 1));
            i = i + 1;
        }
        out
    }
}


/// Folding a duration into the totals keeps the app names unique.
proof fn lemma_bump_usage_unique(usage: Seq<(String, u64)>, name: String, dur: u64)
    requires
        forall|i: int, j: int|
            0 <= i < j < usage.len() ==> (#[trigger] usage[i]).0@ != (#[trigger] usage[j]).0@,
    ensures
        ({
            let r = spec_bump_usage(usage, name, dur);
            forall|i: int, j: int|
                0 <= i < j < r.len() ==> (#[trigger] r[i]).0@ != (#[trigger] r[j]).0@
        }),
{
    lemma_find_key_bounds(usage, name@);
    let r = spec_bump_usage(usage, name, dur);
    let f = spec_find_key(usage, name@);
    if f < usage.len() {
        assert forall|i: int, j: int| 0 <= i < j < r.len() implies (#[trigger] r[i]).0@ != (
        #[trigger] r[j]).0@ by {
            assert(r[i].0 == usage[i].0);
            assert(r[j].0 == usage[j].0);
            assert(usage[i].0@ != usage[j].0@);
        }
    } else {
        assert forall|i: int, j: int| 0 <= i < j < r.len() implies (#[trigger] r[i]).0@ != (
        #[trigger] r[j]).0@ by {
            if j < usage.len() {
                assert(r[i] == usage[i] && r[j] == usage[j]);
                assert(usage[i].0@ != usage[j].0@);
            } else {
                assert(r[j] == (name, dur));
                assert(r[i] == usage[i]);
                assert(usage[i].0@ != name@);
            }
        }
    }
}

/// Whether entry `i` outranks entry `j`: strictly more cumulative time, or
/// the same time seen earlier.
pub open spec fn spec_better(usage: Seq<(String, u64)>, i: int, j: int) -> bool {
    usage[i].1 > usage[j].1 || (usage[i].1 == usage[j].1 && i < j)
}

/// `idx` witnesses that `r` is the usage ranking: entries of `usage` in rank
/// order, and everything left out ranks below everything taken.
pub open spec fn spec_top_apps_witness(
    usage: Seq<(String, u64)>,
    r: Seq<(String, u64)>,
    idx: Seq<int>,
    cap: int,
) -> bool {
    &&& idx.len() == r.len()
    &&& r.len() == (if usage.len() < cap {
        usage.len() as int
    } else {
        cap
    })
    &&& forall|k: int| 0 <= k < idx.len() ==> 0 <= #[trigger] idx[k] < usage.len()
    &&& forall|k: int| 0 <= k < idx.len() ==> r[k] == usage[#[trigger] idx[k]]
    &&& forall|k: int, l: int|
        #![trigger idx[k], idx[l]]
        0 <= k < l < idx.len() ==> spec_better(usage, idx[k], idx[l])
    &&& forall|j: int, k: int|
        #![trigger idx.contains(j), idx[k]]
        0 <= j < usage.len() && !idx.contains(j) && 0 <= k < idx.len() ==> spec_better(
            usage,
            idx[k],
            j,
        )
}

/// `r` ranks the top apps of `usage`: by cumulative duration, descending,
/// ties broken by first-seen order, at most `TOP_APPS` entries.
pub open spec fn spec_is_top_apps(
    usage: Seq<(String, u64)>,
    r: Seq<(String, u64)>,
    cap: int,
) -> bool {
    exists|idx: Seq<int>| spec_top_apps_witness(usage, r, idx, cap)
}

spec fn spec_count_true(s: Seq<bool>) -> int
    decreases s.len(),
{
    if s.len() == 0 {
        0
    } else {
        spec_count_true(s.drop_last()) + (if s.last() {
            1int
        } else {
            0int
        })
    }
}

proof fn lemma_count_true_all(s: Seq<bool>)
    requires
        forall|i: int| 0 <= i < s.len() ==> s[i],
    ensures
        spec_count_true(s) == s.len(),
    decreases s.len(),
{
    if s.len() > 0 {
        assert(forall|i: int| 0 <= i < s.drop_last().len() ==> s.drop_last()[i] == s[i]);
        lemma_count_true_all(s.drop_last());
    }
}

proof fn lemma_count_true_none(s: Seq<bool>)
    requires
        forall|i: int| 0 <= i < s.len() ==> !s[i],
    ensures
        spec_count_true(s) == 0,
    decreases s.len(),
{
    if s.len() > 0 {
        assert(forall|i: int| 0 <= i < s.drop_last().len() ==> s.drop_last()[i] == s[i]);
        lemma_count_true_none(s.drop_last());
    }
}

proof fn lemma_count_true_update(s: Seq<bool>, i: int)
    requires
        0 <= i < s.len(),
        !s[i],
    ensures
        spec_count_true(s.update(i, true)) == spec_count_true(s) + 1,
    decreases s.len(),
{
    if i == s.len() - 1 {
        assert(s.update(i, true).drop_last() =~= s.drop_last());
    } else {
        assert(s.update(i, true).drop_last() =~= s.drop_last().update(i, true));
        assert(s.update(i, true).last() == s.last());
        lemma_count_true_update(s.drop_last(), i);
    }
}

/// The usage ranking: entries ordered by cumulative duration descending,
/// ties by first-seen order, truncated to `cap`.
#[verifier::rlimit(100)]
pub fn rank_top_apps(usage: &Vec<(String, u64)>, cap: usize) -> (r: Vec<(String, u64)>)
    ensures
        spec_is_top_apps(usage@, r@, cap as int),
{
    let n = usage.len();
    let want = if n < cap {
        n
    } else {
        cap
    };
    let mut taken: Vec<bool> = Vec::new();
    let mut f: usize = 0;
    while f < n
        invariant
            0 <= f <= n,
            taken@.len() == f,
            forall|k: int| 0 <= k < f ==> !(#[trigger] taken@[k]),
        decreases n - f,
    {
        taken.push(false);
        f = f + 1;
    }
    proof {
        lemma_count_true_none(taken@);
    }
    let mut out: Vec<(String, u64)> = Vec::new();
    let ghost mut idx: Seq<int> = Seq::empty();
    while out.len() < want
        invariant
            want <= n == usage@.len() == taken@.len(),
            want == (if n < cap {
                n as int
            } else {
                cap as int
            }),
            out@.len() == idx.len() <= want,
            spec_count_true(taken@) == idx.len(),
            forall|k: int| 0 <= k < idx.len() ==> 0 <= #[trigger] idx[k] < n,
            forall|k: int| 0 <= k < idx.len() ==> out@[k] == usage@[#[trigger] idx[k]],
            forall|j: int| 0 <= j < n ==> ((#[trigger] taken@[j]) <==> idx.contains(j)),
            forall|k: int, l: int|
                #![trigger idx[k], idx[l]]
                0 <= k < l < idx.len() ==> spec_better(usage@, idx[k], idx[l]),
            forall|j: int, k: int|
                #![trigger taken@[j], idx[k]]
                0 <= j < n && !taken@[j] && 0 <= k < idx.len() ==> spec_better(
                    usage@,
                    idx[k],
                    j,
                ),
        decreases want - out.len(),
    {
        let mut best: usize = 0;
        let mut found: bool = false;
        let mut j: usize = 0;
        while j < n
            invariant
                0 <= j <= n == usage@.len() == taken@.len(),
                found ==> 0 <= best < j && !taken@[best as int],
                found ==> forall|m: int|
                    0 <= m < j && !(#[trigger] taken@[m]) && m != best ==> spec_better(
                        usage@,
                        best as int,
                        m,
                    ),
                !found ==> forall|m: int| 0 <= m < j ==> #[trigger] taken@[m],
            decreases n - j,
        {
            if !taken[j] {
                if !found {
                    best = j;
                    found = true;
                } else if usage[j].1 > usage[best].1 {
                    let ghost prev_best = best as int;
                    best = j;
                    assert forall|m: int|
                        0 <= m < j + 1 && !(#[trigger] taken@[m]) && m != best implies spec_better(
                            usage@,
                            best as int,
                            m,
                        ) by {
                        if m != prev_best && m < j {
                            assert(spec_better(usage@, prev_best, m));
                        }
                    }
                }
            }
            j = j + 1;
        }
        assert(found) by {
            if !found {
                assert(forall|m: int| 0 <= m < n ==> #[trigger] taken@[m]);
                lemma_count_true_all(taken@);
            }
        }
        let entry = (usage[best].0.clone(), usage[best].1);
        let ghost taken_before = taken@;
        let ghost idx_before = idx;
        proof {
            lemma_count_true_update(taken@, best as int);
        }
        taken[best] = true;
        out.push(entry);
        proof {
            idx = idx.push(best as int);
            assert(!idx_before.contains(best as int));
            assert forall|j2: int| 0 <= j2 < n implies ((#[trigger] taken@[j2]) <==> idx.contains(
                j2,
            )) by {
                if j2 == best {
                    assert(idx[idx.len() - 1] == best as int);
                    assert(idx.contains(best as int));
                } else {
                    if idx.contains(j2) {
                        let w = choose|w: int| 0 <= w < idx.len() && idx[w] == j2;
                        assert(idx_before[w] == j2);
                        assert(idx_before.contains(j2));
                    }
                    if idx_before.contains(j2) {
                        let w = choose|w: int| 0 <= w < idx_before.len() && idx_before[w] == j2;
                        assert(idx[w] == j2);
                        assert(idx.contains(j2));
                    }
                }
            }
            assert forall|k: int, l: int|
                #![trigger idx[k], idx[l]]
                0 <= k < l < idx.len() implies spec_better(usage@, idx[k], idx[l]) by {
                if l == idx.len() - 1 {
                    assert(idx[l] == best as int);
                    assert(idx[k] == idx_before[k]);
                    assert(!taken_before[best as int]);
                    assert(spec_better(usage@, idx_before[k], best as int));
                } else {
                    assert(idx[k] == idx_before[k] && idx[l] == idx_before[l]);
                }
            }
            assert forall|j2: int, k: int|
                #![trigger taken@[j2], idx[k]]
                0 <= j2 < n && !taken@[j2] && 0 <= k < idx.len() implies spec_better(
                usage@,
                idx[k],
                j2,
            ) by {
                assert(!taken_before[j2]);
                assert(j2 != best);
                if k == idx.len() - 1 {
                    assert(idx[k] == best as int);
                    assert(spec_better(usage@, best as int, j2));
                } else {
                    assert(idx[k] == idx_before[k]);
                    assert(spec_better(usage@, idx_before[k], j2));
                }
            }
        }
    }
    proof {
        assert forall|j: int, k: int|
            #![trigger idx.contains(j), idx[k]]
            0 <= j < usage@.len() && !idx.contains(j) && 0 <= k < idx.len() implies spec_better(
            usage@,
            idx[k],
            j,
        ) by {
            assert(taken@[j] <==> idx.contains(j));
        }
        assert(spec_top_apps_witness(usage@, out@, idx, cap as int));
    }
    out
}

impl WindowTracker {
    /// The derived statistics, recomputed on demand: the number of stored
    /// switches, the usage ranking, how long the still-open session has run,
    /// and the newest switch's timestamp.
    pub fn get_stats(&self, now_ms: u64) -> (st: WindowSwitchStats)
        requires
            self.wf(),
        ensures
            st.total_switches == self.spec_history().len(),
            spec_is_top_apps(self.spec_usage(), st.most_used_apps@, TOP_APPS as int),
            st.current_session_duration_ms == ({
                let ss = self.spec_sessions();
                if ss.len() > 0 && ss.last().end_time is None {
                    sat_sub(now_ms, ss.last().start_time)
                } else {
                    0
                }
            }),
            st.last_switch_time == (if self.spec_history().len() == 0 {
                None::<u64>
            } else {
                Some(self.spec_history().last().timestamp)
            }),
    {
        let total = self.switch_history.len();
        let most_used_apps = rank_top_apps(&self.app_usage, TOP_APPS);
        let current_session_duration_ms: u64 = if self.session_history.len() > 0 {
            let last = self.session_history.len() - 1;
            match self.session_history[last].end_time {
                None => {
                    let start = self.session_history[last].start_time;
                    if now_ms >= start {
                        now_ms - start
                    } else {
                        0
                    }
                },
                Some(_) => 0,
            }
        } else {
            0
        };
        let last_switch_time = if total == 0 {
            None
        } else {
            Some(self.switch_history[total - 1].timestamp)
        };
        WindowSwitchStats {
            total_switches: total as u32,
            most_used_apps,
            current_session_duration_ms,
            last_switch_time,
        }
    }
}

/// Switch-history bound: the tracker stores at most the cap of events; once
/// more focus changes than the cap have happened, exactly the most recent
/// cap of them are stored, oldest first, in non-decreasing time order.
pub proof fn lemma_switch_history_bound(t: &WindowTracker)
    requires
        t.wf(),
    ensures
        t.spec_history().len() <= SWITCH_HISTORY_CAP,
        t.spec_events_ever().len() >= SWITCH_HISTORY_CAP ==> t.spec_history()
            == t.spec_events_ever().subrange(
            t.spec_events_ever().len() - SWITCH_HISTORY_CAP,
            t.spec_events_ever().len() as int,
        ),
        forall|i: int, j: int|
            0 <= i < j < t.spec_history().len() ==> (#[trigger] t.spec_history()[i]).timestamp <= (
            #[trigger] t.spec_history()[j]).timestamp,
{
    let ever = t.spec_events_ever();
    let hist = t.spec_history();
    let off = ever.len() - hist.len();
    assert forall|i: int, j: int| 0 <= i < j < hist.len() implies (
    #[trigger] hist[i]).timestamp <= (#[trigger] hist[j]).timestamp by {
        assert(hist[i] == ever.subrange(off, ever.len() as int)[i]);
        assert(hist[j] == ever.subrange(off, ever.len() as int)[j]);
        assert(ever[off + i].timestamp <= ever[off + j].timestamp);
    }
}


/// The first `|` at or after `pos`, or the length when there is none.
pub open spec fn pipe_pos(s: Seq<u8>, pos: int) -> int
    decreases s.len() - pos,
{
    if pos < 0 || pos >= s.len() || s[pos] == 124 {
        pos
    } else {
        pipe_pos(s, pos + 1)
    }
}

/// The five fields of a focus-query output line, still as bytes.
pub struct WindowQueryParts {
    pub app: Seq<u8>,
    pub title: Seq<u8>,
    pub pid: Seq<u8>,
    pub pos_part: Seq<u8>,
    pub size_part: Seq<u8>,
}

/// Splits a query line `app|title|pid|x,y|w,h` at its first four `|`s;
/// `None` when it has fewer than five fields.
pub open spec fn spec_split_window_query(s: Seq<u8>) -> Option<WindowQueryParts> {
    let p1 = pipe_pos(s, 0);
    if p1 < s.len() {
        let p2 = pipe_pos(s, p1 + 1);
        if p2 < s.len() {
            let p3 = pipe_pos(s, p2 + 1);
            if p3 < s.len() {
                let p4 = pipe_pos(s, p3 + 1);
                if p4 < s.len() {
                    let p5 = pipe_pos(s, p4 + 1);
                    Some(
                        WindowQueryParts {
                            app: s.subrange(0, p1),
                            title: s.subrange(p1 + 1, p2),
                            pid: s.subrange(p2 + 1, p3),
                            pos_part: s.subrange(p3 + 1, p4),
                            size_part: s.subrange(p4 + 1, p5),
                        },
                    )
                } else {
                    None
                }
            } else {
                None
            }
        } else {
            None
        }
    } else {
        None
    }
}

/// A whole field as one `u32`: digits only, value in range.
pub open spec fn spec_parse_u32_all(s: Seq<u8>) -> Option<u32> {
    if s.len() > 0 && crate::num::digit_run_end(s, 0) == s.len() && crate::num::dec_value(
        s.subrange(0, s.len() as int),
    ) <= u32::MAX {
        Some(crate::num::dec_value(s.subrange(0, s.len() as int)) as u32)
    } else {
        None
    }
}

fn find_pipe(buf: &Vec<u8>, pos: usize) -> (r: usize)
    requires
        pos <= buf@.len(),
    ensures
        r == pipe_pos(buf@, pos as int),
        pos <= r <= buf@.len(),
{
    let n = buf.len();
    let mut i: usize = pos;
    while i < n && buf[i] != 124
        invariant
            pos <= i <= n == buf@.len(),
            pipe_pos(buf@, pos as int) == pipe_pos(buf@, i as int),
        decreases n - i,
    {
        i = i + 1;
    }
    i
}

fn parse_u32_all(buf: &Vec<u8>) -> (r: Option<u32>)
    ensures
        r == spec_parse_u32_all(buf@),
{
    if buf.len() == 0 {
        return None;
    }
    match crate::num::parse_dec_u64(buf, 0) {
        None => {
            proof {
                if crate::num::digit_run_end(buf@, 0) == buf@.len() {
                    assert(buf@.subrange(0, buf@.len() as int) =~= buf@);
                }
            }
            None
        },
        Some((v, e)) => {
            proof {
                if e == buf@.len() {
                    assert(buf@.subrange(0, buf@.len() as int) =~= buf@);
                }
            }
            if e == buf.len() && v <= 0xffff_ffff {
                Some(v as u32)
            } else {
                None
            }
        },
    }
}

/// Parses one focus-query output line (whitespace already trimmed by the
/// caller) into a focus sample stamped with `now_ms`. Empty app or title
/// fields mean the query could not name them; a malformed process id or
/// bounds field only loses that field.
pub fn parse_window_query_output(line: &str, now_ms: u64) -> (r: Option<EnhancedWindowInfo>)
    ensures
        match spec_split_window_query(line.spec_bytes()) {
            None => r is None,
            Some(q) => {
                if vstd::utf8::valid_utf8(q.app) && vstd::utf8::valid_utf8(q.title) {
                    &&& r is Some
                    &&& r->0.app_name.deep_view() == (if q.app.len() == 0 {
                        None::<Seq<char>>
                    } else {
                        Some(vstd::utf8::decode_utf8(q.app))
                    })
                    &&& r->0.window_title.deep_view() == (if q.title.len() == 0 {
                        None::<Seq<char>>
                    } else {
                        Some(vstd::utf8::decode_utf8(q.title))
                    })
                    &&& r->0.process_id == spec_parse_u32_all(q.pid)
                    &&& r->0.bounds == crate::screen::spec_parse_window_bounds(
                        q.pos_part,
                        q.size_part,
                    )
                    &&& r->0.timestamp == now_ms
                    &&& r->0.is_focus_changed
                } else {
                    r is None
                }
            },
        },
{
    let bytes = line.as_bytes_vec();
    let n = bytes.len();
    let p1 = find_pipe(&bytes, 0);
    if !(p1 < n) {
        return None;
    }
    let p2 = find_pipe(&bytes, p1 + 1);
    if !(p2 < n) {
        return None;
    }
    let p3 = find_pipe(&bytes, p2 + 1);
    if !(p3 < n) {
        return None;
    }
    let p4 = find_pipe(&bytes, p3 + 1);
    if !(p4 < n) {
        return None;
    }
    let p5 = find_pipe(&bytes, p4 + 1);
    let app_bytes = crate::codec::copy_range(&bytes, 0, p1);
    let title_bytes = crate::codec::copy_range(&bytes, p1 + 1, p2 - (p1 + 1));
    let pid_bytes = crate::codec::copy_range(&bytes, p2 + 1, p3 - (p2 + 1));
    let pos_bytes = crate::codec::copy_range(&bytes, p3 + 1, p4 - (p3 + 1));
    let size_bytes = crate::codec::copy_range(&bytes, p4 + 1, p5 - (p4 + 1));
    let app_empty = app_bytes.len() == 0;
    let title_empty = title_bytes.len() == 0;
    let app_name = if app_empty {
        None
    } else {
        match crate::codec::bytes_to_string(app_bytes) {
            None => {
                return None;
            },
            Some(s) => Some(s),
        }
    };
    let window_title = if title_empty {
        None
    } else {
        match crate::codec::bytes_to_string(title_bytes) {
            None => {
                return None;
            },
            Some(s) => Some(s),
        }
    };
    proof {
        assert(vstd::utf8::valid_utf8(Seq::<u8>::empty())) by {
            reveal_with_fuel(vstd::utf8::valid_utf8, 1);
        }
    }
    let process_id = parse_u32_all(&pid_bytes);
    let bounds = crate::screen::parse_window_bounds_bytes(&pos_bytes, &size_bytes);
    Some(
        EnhancedWindowInfo {
            app_name,
            window_title,
            bounds,
            timestamp: now_ms,
            process_id,
            is_focus_changed: true,
        },
    )
}


} // verus!
