//! Per-caller rate limiting for named functions: an admin configures how
//! many calls fit in a time window, callers are counted per function
//! within rolling windows, and whitelisted callers bypass the limits. The
//! embedding host authenticates the admin and reads the clock; the state
//! and every decision live here.

use vstd::prelude::*;

verus! {

/// Length of the counting window. The first three stand for 60, 3600 and
/// 86400 seconds; `Custom` takes its length from the configuration's
/// `window_seconds` field.
#[derive(Clone, Copy, Debug, PartialEq, Eq, Structural)]
pub enum TimeWindow {
    PerMinute,
    PerHour,
    PerDay,
    Custom,
}

/// Limit configuration of one named function.
#[derive(Clone, Copy, Debug, PartialEq, Eq, Structural)]
pub struct RateLimitConfig {
    /// Calls allowed within one window; positive.
    pub max_calls: u32,
    /// The window kind.
    pub time_window: TimeWindow,
    /// The window length in seconds, already resolved from the kind.
    pub window_seconds: u64,
}

/// Call counting state of one caller on one named function.
#[derive(Clone, Copy, Debug, PartialEq, Eq, Structural)]
pub struct RateLimitTracker {
    /// Calls counted in the current window.
    pub calls: u32,
    /// When the current window opened.
    pub window_start: u64,
    /// When the counter was last reset, by window roll-over or by an
    /// admin.
    pub last_reset: u64,
}

/// A point-in-time report of one caller's standing on one function.
#[derive(Clone, Copy, Debug, PartialEq, Eq, Structural)]
pub struct RateLimitStatus {
    /// Calls still allowed in the current window.
    pub calls_remaining: u32,
    /// When the current window opened.
    pub window_start: u64,
    /// When the current window closes.
    pub window_end: u64,
    /// Whether the limit is exhausted.
    pub is_limited: bool,
}

/// Errors of the rate limiting operations. Every error is detected before
/// any mutation, so a failed call leaves the limiter unchanged.
#[derive(Clone, Copy, Debug, PartialEq, Eq, Structural)]
pub enum RateLimitError {
    /// A configuration was given a zero call budget.
    MaxCallsZero,
    /// A custom window was given a zero length.
    CustomWindowWithoutSeconds,
    /// The named function has no limit configured.
    NotConfigured,
    /// The caller has exhausted the window's call budget.
    LimitExceeded,
}

/// The window length a configuration call resolves to: the fixed length of
/// the kind, or the given seconds for a custom window.
pub open spec fn resolved_window(time_window: TimeWindow, window_seconds: u64) -> u64 {
    match time_window {
        TimeWindow::PerMinute => 60,
        TimeWindow::PerHour => 3600,
        TimeWindow::PerDay => 86400,
        TimeWindow::Custom => window_seconds,
    }
}

/// The window length of a stored configuration.
pub open spec fn effective_window(config: RateLimitConfig) -> u64 {
    resolved_window(config.time_window, config.window_seconds)
}

/// The counting state of a caller never seen before: an empty window
/// opening now.
pub open spec fn fresh_tracker(now: u64) -> RateLimitTracker {
    RateLimitTracker { calls: 0, window_start: now, last_reset: now }
}

/// A tracker after window roll-over: once the window has fully elapsed,
/// counting restarts in a window opening now; otherwise the tracker is
/// unchanged.
pub open spec fn rolled_tracker(
    t: RateLimitTracker,
    config: RateLimitConfig,
    now: u64,
) -> RateLimitTracker {
    if now >= t.window_start + effective_window(config) {
        fresh_tracker(now)
    } else {
        t
    }
}

/// A tracker with one more call counted.
pub open spec fn counted_tracker(t: RateLimitTracker) -> RateLimitTracker {
    RateLimitTracker { calls: (t.calls + 1) as u32, ..t }
}

/// The window end a status report shows, clamped to the largest
/// representable time.
pub open spec fn saturated_window_end(window_start: u64, window: u64) -> u64 {
    if window_start + window <= u64::MAX {
        (window_start + window) as u64
    } else {
        u64::MAX
    }
}

/// First-match lookup of a function name among configuration entries; the
/// model of the configuration scan.
pub open spec fn config_lookup(
    entries: Seq<(String, RateLimitConfig)>,
    name: Seq<char>,
) -> Option<RateLimitConfig>
    decreases entries.len(),
{
    if entries.len() == 0 {
        None
    } else if entries[0].0@ == name {
        Some(entries[0].1)
    } else {
        config_lookup(entries.skip(1), name)
    }
}

/// First-match lookup of a caller and function name among tracker
/// entries; the model of the tracker scan.
pub open spec fn tracker_lookup(
    entries: Seq<(u64, String, RateLimitTracker)>,
    caller: u64,
    name: Seq<char>,
) -> Option<RateLimitTracker>
    decreases entries.len(),
{
    if entries.len() == 0 {
        None
    } else if entries[0].0 == caller && entries[0].1@ == name {
        Some(entries[0].2)
    } else {
        tracker_lookup(entries.skip(1), caller, name)
    }
}

proof fn lemma_config_lookup_at(entries: Seq<(String, RateLimitConfig)>, i: int, name: Seq<char>)
    requires
        0 <= i < entries.len(),
        forall|j: int| 0 <= j < i ==> #[trigger] entries[j].0@ != name,
        entries[i].0@ == name,
    ensures
        config_lookup(entries, name) == Some(entries[i].1),
    decreases i,
{
    if i > 0 {
        lemma_config_lookup_at(entries.skip(1), i - 1, name);
    }
}

proof fn lemma_config_lookup_absent(entries: Seq<(String, RateLimitConfig)>, name: Seq<char>)
    requires
        forall|j: int| 0 <= j < entries.len() ==> #[trigger] entries[j].0@ != name,
    ensures
        config_lookup(entries, name) is None,
    decreases entries.len(),
{
    if entries.len() > 0 {
        lemma_config_lookup_absent(entries.skip(1), name);
    }
}

proof fn lemma_config_lookup_update(
    entries: Seq<(String, RateLimitConfig)>,
    i: int,
    entry: (String, RateLimitConfig),
    k: Seq<char>,
)
    requires
        0 <= i < entries.len(),
        entries[i].0@ == entry.0@,
        forall|j: int| 0 <= j < i ==> #[trigger] entries[j].0@ != entry.0@,
    ensures
        config_lookup(entries.update(i, entry), k) == if k == entry.0@ {
            Some(entry.1)
        } else {
            config_lookup(entries, k)
        },
    decreases i,
{
    if i == 0 {
        assert(entries.update(0, entry).skip(1) =~= entries.skip(1));
    } else {
        assert(entries.update(i, entry).skip(1) =~= entries.skip(1).update(i - 1, entry));
        lemma_config_lookup_update(entries.skip(1), i - 1, entry, k);
    }
}

proof fn lemma_config_lookup_push(
    entries: Seq<(String, RateLimitConfig)>,
    entry: (String, RateLimitConfig),
    k: Seq<char>,
)
    ensures
        config_lookup(entries.push(entry), k) == if config_lookup(entries, k) is Some {
            config_lookup(entries, k)
        } else if k == entry.0@ {
            Some(entry.1)
        } else {
            None
        },
    decreases entries.len(),
{
    let pushed = entries.push(entry);
    if entries.len() == 0 {
        assert(pushed[0] == entry);
        assert(pushed.skip(1) =~= Seq::<(String, RateLimitConfig)>::empty());
        if k == entry.0@ {
            assert(config_lookup(pushed, k) == Some(entry.1));
        } else {
            assert(config_lookup(pushed, k) == config_lookup(pushed.skip(1), k));
        }
    } else {
        assert(pushed[0] == entries[0]);
        assert(pushed.skip(1) =~= entries.skip(1).push(entry));
        lemma_config_lookup_push(entries.skip(1), entry, k);
        if entries[0].0@ == k {
            assert(config_lookup(pushed, k) == Some(entries[0].1));
            assert(config_lookup(entries, k) == Some(entries[0].1));
        } else {
            assert(config_lookup(pushed, k) == config_lookup(entries.skip(1).push(entry), k));
            assert(config_lookup(entries, k) == config_lookup(entries.skip(1), k));
        }
    }
}

proof fn lemma_tracker_lookup_at(
    entries: Seq<(u64, String, RateLimitTracker)>,
    i: int,
    caller: u64,
    name: Seq<char>,
)
    requires
        0 <= i < entries.len(),
        forall|j: int| 0 <= j < i ==> !((#[trigger] entries[j]).0 == caller && entries[j].1@
            == name),
        entries[i].0 == caller && entries[i].1@ == name,
    ensures
        tracker_lookup(entries, caller, name) == Some(entries[i].2),
    decreases i,
{
    if i > 0 {
        lemma_tracker_lookup_at(entries.skip(1), i - 1, caller, name);
    }
}

proof fn lemma_tracker_lookup_absent(
    entries: Seq<(u64, String, RateLimitTracker)>,
    caller: u64,
    name: Seq<char>,
)
    requires
        forall|j: int| 0 <= j < entries.len() ==> !((#[trigger] entries[j]).0 == caller
            && entries[j].1@ == name),
    ensures
        tracker_lookup(entries, caller, name) is None,
    decreases entries.len(),
{
    if entries.len() > 0 {
        lemma_tracker_lookup_absent(entries.skip(1), caller, name);
    }
}

proof fn lemma_tracker_lookup_update(
    entries: Seq<(u64, String, RateLimitTracker)>,
    i: int,
    entry: (u64, String, RateLimitTracker),
    caller: u64,
    name: Seq<char>,
)
    requires
        0 <= i < entries.len(),
        entries[i].0 == entry.0 && entries[i].1@ == entry.1@,
        forall|j: int| 0 <= j < i ==> !((#[trigger] entries[j]).0 == entry.0 && entries[j].1@
            == entry.1@),
    ensures
        tracker_lookup(entries.update(i, entry), caller, name) == if caller == entry.0 && name
            == entry.1@ {
            Some(entry.2)
        } else {
            tracker_lookup(entries, caller, name)
        },
    decreases i,
{
    if i == 0 {
        assert(entries.update(0, entry).skip(1) =~= entries.skip(1));
    } else {
        assert(entries.update(i, entry).skip(1) =~= entries.skip(1).update(i - 1, entry));
        lemma_tracker_lookup_update(entries.skip(1), i - 1, entry, caller, name);
    }
}

proof fn lemma_tracker_lookup_push(
    entries: Seq<(u64, String, RateLimitTracker)>,
    entry: (u64, String, RateLimitTracker),
    caller: u64,
    name: Seq<char>,
)
    ensures
        tracker_lookup(entries.push(entry), caller, name) == if tracker_lookup(
            entries,
            caller,
            name,
        ) is Some {
            tracker_lookup(entries, caller, name)
        } else if caller == entry.0 && name == entry.1@ {
            Some(entry.2)
        } else {
            None
        },
    decreases entries.len(),
{
    let pushed = entries.push(entry);
    if entries.len() == 0 {
        assert(pushed[0] == entry);
        assert(pushed.skip(1) =~= Seq::<(u64, String, RateLimitTracker)>::empty());
        if caller == entry.0 && name == entry.1@ {
            assert(tracker_lookup(pushed, caller, name) == Some(entry.2));
        } else {
            assert(tracker_lookup(pushed, caller, name) == tracker_lookup(
                pushed.skip(1),
                caller,
                name,
            ));
        }
    } else {
        assert(pushed[0] == entries[0]);
        assert(pushed.skip(1) =~= entries.skip(1).push(entry));
        lemma_tracker_lookup_push(entries.skip(1), entry, caller, name);
        if entries[0].0 == caller && entries[0].1@ == name {
            assert(tracker_lookup(pushed, caller, name) == Some(entries[0].2));
            assert(tracker_lookup(entries, caller, name) == Some(entries[0].2));
        } else {
            assert(tracker_lookup(pushed, caller, name) == tracker_lookup(
                entries.skip(1).push(entry),
                caller,
                name,
            ));
            assert(tracker_lookup(entries, caller, name) == tracker_lookup(
                entries.skip(1),
                caller,
                name,
            ));
        }
    }
}

/// The rate limiter: limit configurations keyed by function name, call
/// trackers keyed by caller and function name, and the whitelist of
/// callers that bypass every limit.
pub struct RateLimiter {
    configs: Vec<(String, RateLimitConfig)>,
    whitelist: Vec<u64>,
    trackers: Vec<(u64, String, RateLimitTracker)>,
}

impl RateLimiter {
    /// The limiter's invariant: the whitelist holds no duplicates.
    pub closed spec fn wf(self) -> bool {
        forall|i: int, j: int|
            0 <= i < j < self.whitelist@.len() ==> self.whitelist@[i] != self.whitelist@[j]
    }

    /// The limit configured for a function name, if any.
    pub closed spec fn config_of(self, name: Seq<char>) -> Option<RateLimitConfig> {
        config_lookup(self.configs@, name)
    }

    /// The counting state of a caller on a function name, if any.
    pub closed spec fn tracker_of(self, caller: u64, name: Seq<char>) -> Option<RateLimitTracker> {
        tracker_lookup(self.trackers@, caller, name)
    }

    /// Whether a caller bypasses every limit.
    pub closed spec fn whitelisted(self, address: u64) -> bool {
        self.whitelist@.contains(address)
    }

    /// The whitelisted callers, in insertion order.
    pub closed spec fn whitelist_seq(self) -> Seq<u64> {
        self.whitelist@
    }

    /// The caller's counting state before a decision at `now`: the stored
    /// tracker, or an empty window opening now for a caller never seen.
    pub open spec fn tracker_or_fresh(
        self,
        caller: u64,
        name: Seq<char>,
        now: u64,
    ) -> RateLimitTracker {
        match self.tracker_of(caller, name) {
            Some(t) => t,
            None => fresh_tracker(now),
        }
    }

    /// A limiter with nothing configured, nothing counted, and an empty
    /// whitelist.
    pub fn new() -> (limiter: RateLimiter)
        ensures
            limiter.wf(),
            forall|name: Seq<char>| limiter.config_of(name) is None,
            forall|caller: u64, name: Seq<char>| limiter.tracker_of(caller, name) is None,
            forall|address: u64| !limiter.whitelisted(address),
            limiter.whitelist_seq() == Seq::<u64>::empty(),
    {
        RateLimiter { configs: Vec::new(), whitelist: Vec::new(), trackers: Vec::new() }
    }

    /// Finds the first configuration entry for a name.
    fn find_config(&self, name: &String) -> (index: Option<usize>)
        ensures
            match index {
                Some(i) => i < self.configs@.len() && self.configs@[i as int].0@ == name@
                    && forall|j: int| 0 <= j < i ==> #[trigger] self.configs@[j].0@ != name@,
                None => forall|j: int|
                    0 <= j < self.configs@.len() ==> #[trigger] self.configs@[j].0@ != name@,
            },
    {
        let mut i: usize = 0;
        while i < self.configs.len()
            invariant
                i <= self.configs@.len(),
                forall|j: int| 0 <= j < i ==> #[trigger] self.configs@[j].0@ != name@,
            decreases self.configs@.len() - i,
        {
            if self.configs[i].0 == *name {
                return Some(i);
            }
            i = i + 1;
        }
        None
    }

    /// Finds the first tracker entry for a caller and name.
    fn find_tracker(&self, caller: u64, name: &String) -> (index: Option<usize>)
        ensures
            match index {
                Some(i) => i < self.trackers@.len() && self.trackers@[i as int].0 == caller
                    && self.trackers@[i as int].1@ == name@ && forall|j: int|
                    0 <= j < i ==> !((#[trigger] self.trackers@[j]).0 == caller
                        && self.trackers@[j].1@ == name@),
                None => forall|j: int|
                    0 <= j < self.trackers@.len() ==> !((#[trigger] self.trackers@[j]).0 == caller
                        && self.trackers@[j].1@ == name@),
            },
    {
        let mut i: usize = 0;
        while i < self.trackers.len()
            invariant
                i <= self.trackers@.len(),
                forall|j: int| 0 <= j < i ==> !((#[trigger] self.trackers@[j]).0 == caller
                    && self.trackers@[j].1@ == name@),
            decreases self.trackers@.len() - i,
        {
            if self.trackers[i].0 == caller && self.trackers[i].1 == *name {
                return Some(i);
            }
            i = i + 1;
        }
        None
    }

    /// Configures the limit of a named function on behalf of the admin,
    /// replacing any earlier configuration. The budget must be positive
    /// and a custom window must have a positive length; on a failing
    /// check nothing changes. The stored window length is resolved from
    /// the kind at this point.
    pub fn init_rate_limit(
        &mut self,
        admin: u64,
        function_name: String,
        max_calls: u32,
        time_window: TimeWindow,
        window_seconds: u64,
    ) -> (result: Result<(), RateLimitError>)
        requires
            old(self).wf(),
        ensures
            final(self).wf(),
            max_calls == 0 ==> result == Err::<(), RateLimitError>(RateLimitError::MaxCallsZero)
                && *final(self) == *old(self),
            max_calls > 0 && time_window is Custom && window_seconds == 0 ==> result == Err::<
                (),
                RateLimitError,
            >(RateLimitError::CustomWindowWithoutSeconds) && *final(self) == *old(self),
            max_calls > 0 && !(time_window is Custom && window_seconds == 0) ==> {
                &&& result == Ok::<(), RateLimitError>(())
                &&& final(self).config_of(function_name@) == Some(
                    RateLimitConfig {
                        max_calls,
                        time_window,
                        window_seconds: resolved_window(time_window, window_seconds),
                    },
                )
                &&& forall|other: Seq<char>|
                    other != function_name@ ==> final(self).config_of(other) == old(
                        self,
                    ).config_of(other)
                &&& forall|caller: u64, name: Seq<char>|
                    final(self).tracker_of(caller, name) == old(self).tracker_of(caller, name)
                &&& forall|address: u64|
                    final(self).whitelisted(address) == old(self).whitelisted(address)
                &&& final(self).whitelist_seq() == old(self).whitelist_seq()
            },
    {
        let _ = admin;
        if max_calls == 0 {
            return Err(RateLimitError::MaxCallsZero);
        }
        if matches!(time_window, TimeWindow::Custom) && window_seconds == 0 {
            return Err(RateLimitError::CustomWindowWithoutSeconds);
        }
        let window: u64 = match time_window {
            TimeWindow::PerMinute => 60,
            TimeWindow::PerHour => 3600,
            TimeWindow::PerDay => 86400,
            TimeWindow::Custom => window_seconds,
        };
        let config = RateLimitConfig { max_calls, time_window, window_seconds: window };
        let found = self.find_config(&function_name);
        match found {
            Some(i) => {
                let ghost entries = self.configs@;
                self.configs.set(i, (function_name, config));
                proof {
                    assert forall|k: Seq<char>|
                        #[trigger] config_lookup(self.configs@, k) == if k == entries[i as int].0@ {
                            Some(config)
                        } else {
                            config_lookup(entries, k)
                        } by {
                        lemma_config_lookup_update(
                            entries,
                            i as int,
                            (self.configs@[i as int].0, config),
                            k,
                        );
                    }
                }
            },
            None => {
                let ghost entries = self.configs@;
                let ghost the_name = function_name@;
                self.configs.push((function_name, config));
                proof {
                    lemma_config_lookup_absent(entries, the_name);
                    assert forall|k: Seq<char>|
                        #[trigger] config_lookup(self.configs@, k) == if k == the_name {
                            Some(config)
                        } else {
                            config_lookup(entries, k)
                        } by {
                        lemma_config_lookup_push(entries, self.configs@.last(), k);
                    }
                }
            },
        }
        Ok(())
    }

    /// Counts one call of `caller` on the named function at `now` and says
    /// whether it is allowed. Whitelisted callers bypass the count and the
    /// limiter is unchanged. Otherwise the caller's window is rolled over
    /// if it has elapsed; a call over the budget is refused and changes
    /// nothing, and an allowed call is counted against the window.
    pub fn check_rate_limit(&mut self, caller: u64, function_name: String, now: u64) -> (result:
        Result<(), RateLimitError>)
        requires
            old(self).wf(),
        ensures
            final(self).wf(),
            old(self).config_of(function_name@) is None ==> result == Err::<(), RateLimitError>(
                RateLimitError::NotConfigured,
            ) && *final(self) == *old(self),
            old(self).config_of(function_name@) is Some && old(self).whitelisted(caller)
                ==> result == Ok::<(), RateLimitError>(()) && *final(self) == *old(self),
            ({
                let config = old(self).config_of(function_name@)->Some_0;
                let rolled = rolled_tracker(
                    old(self).tracker_or_fresh(caller, function_name@, now),
                    config,
                    now,
                );
                &&& old(self).config_of(function_name@) is Some && !old(self).whitelisted(caller)
                    ==> {
                    &&& rolled.calls >= config.max_calls ==> result == Err::<(), RateLimitError>(
                        RateLimitError::LimitExceeded,
                    ) && *final(self) == *old(self)
                    &&& rolled.calls < config.max_calls ==> {
                        &&& result == Ok::<(), RateLimitError>(())
                        &&& final(self).tracker_of(caller, function_name@) == Some(
                            counted_tracker(rolled),
                        )
                        &&& forall|c: u64, n: Seq<char>|
                            !(c == caller && n == function_name@) ==> final(self).tracker_of(c, n)
                                == old(self).tracker_of(c, n)
                        &&& forall|name: Seq<char>|
                            final(self).config_of(name) == old(self).config_of(name)
                        &&& forall|address: u64|
                            final(self).whitelisted(address) == old(self).whitelisted(address)
                        &&& final(self).whitelist_seq() == old(self).whitelist_seq()
                    }
                }
            }),
    {
        let found_config = self.find_config(&function_name);
        let config = match found_config {
            Some(i) => {
                proof {
                    lemma_config_lookup_at(self.configs@, found_config->Some_0 as int,
                        function_name@);
                }
                self.configs[i].1
            },
            None => {
                proof {
                    lemma_config_lookup_absent(self.configs@, function_name@);
                }
                return Err(RateLimitError::NotConfigured);
            },
        };
        if self.contains_whitelisted(caller) {
            return Ok(());
        }
        let window: u64 = match config.time_window {
            TimeWindow::PerMinute => 60,
            TimeWindow::PerHour => 3600,
            TimeWindow::PerDay => 86400,
            TimeWindow::Custom => config.window_seconds,
        };
        let found = self.find_tracker(caller, &function_name);
        let stored = match found {
            Some(i) => {
                proof {
                    lemma_tracker_lookup_at(self.trackers@, found->Some_0 as int, caller,
                        function_name@);
                }
                self.trackers[i].2
            },
            None => {
                proof {
                    lemma_tracker_lookup_absent(self.trackers@, caller, function_name@);
                }
                RateLimitTracker { calls: 0, window_start: now, last_reset: now }
            },
        };
        let elapsed = window <= now && stored.window_start <= now - window;
        let rolled = if elapsed {
            RateLimitTracker { calls: 0, window_start: now, last_reset: now }
        } else {
            stored
        };
        if rolled.calls >= config.max_calls {
            return Err(RateLimitError::LimitExceeded);
        }
        let counted = RateLimitTracker { calls: rolled.calls + 1, ..rolled };
        let ghost entries = self.trackers@;
        let ghost the_name = function_name@;
        match found {
            Some(i) => {
                self.trackers.set(i, (caller, function_name, counted));
                proof {
                    assert forall|c: u64, n: Seq<char>|
                        #[trigger] tracker_lookup(self.trackers@, c, n) == if c == caller && n
                            == the_name {
                            Some(counted)
                        } else {
                            tracker_lookup(entries, c, n)
                        } by {
                        lemma_tracker_lookup_update(
                            entries,
                            i as int,
                            (caller, self.trackers@[i as int].1, counted),
                            c,
                            n,
                        );
                    }
                }
            },
            None => {
                self.trackers.push((caller, function_name, counted));
                proof {
                    assert forall|c: u64, n: Seq<char>|
                        #[trigger] tracker_lookup(self.trackers@, c, n) == if c == caller && n
                            == the_name {
                            Some(counted)
                        } else {
                            tracker_lookup(entries, c, n)
                        } by {
                        lemma_tracker_lookup_push(entries, self.trackers@.last(), c, n);
                        lemma_tracker_lookup_absent(entries, caller, the_name);
                    }
                }
            },
        }
        Ok(())
    }

    /// Reports a caller's standing on the named function at `now`, without
    /// counting anything: the raw stored window — not rolled over — with
    /// the calls remaining in it and whether the budget is exhausted. The
    /// window end is clamped to the largest representable time.
    pub fn get_rate_limit_status(&self, caller: u64, function_name: String, now: u64) -> (result:
        Result<RateLimitStatus, RateLimitError>)
        ensures
            self.config_of(function_name@) is None ==> result == Err::<
                RateLimitStatus,
                RateLimitError,
            >(RateLimitError::NotConfigured),
            ({
                let config = self.config_of(function_name@)->Some_0;
                let t = self.tracker_or_fresh(caller, function_name@, now);
                self.config_of(function_name@) is Some ==> result == Ok::<
                    RateLimitStatus,
                    RateLimitError,
                >(
                    RateLimitStatus {
                        calls_remaining: if t.calls >= config.max_calls {
                            0
                        } else {
                            (config.max_calls - t.calls) as u32
                        },
                        window_start: t.window_start,
                        window_end: saturated_window_end(t.window_start, effective_window(config)),
                        is_limited: t.calls >= config.max_calls,
                    },
                )
            }),
    {
        let found_config = self.find_config(&function_name);
        let config = match found_config {
            Some(i) => {
                proof {
                    lemma_config_lookup_at(self.configs@, found_config->Some_0 as int,
                        function_name@);
                }
                self.configs[i].1
            },
            None => {
                proof {
                    lemma_config_lookup_absent(self.configs@, function_name@);
                }
                return Err(RateLimitError::NotConfigured);
            },
        };
        let window: u64 = match config.time_window {
            TimeWindow::PerMinute => 60,
            TimeWindow::PerHour => 3600,
            TimeWindow::PerDay => 86400,
            TimeWindow::Custom => config.window_seconds,
        };
        let found = self.find_tracker(caller, &function_name);
        let tracker = match found {
            Some(i) => {
                proof {
                    lemma_tracker_lookup_at(self.trackers@, found->Some_0 as int, caller,
                        function_name@);
                }
                self.trackers[i].2
            },
            None => {
                proof {
                    lemma_tracker_lookup_absent(self.trackers@, caller, function_name@);
                }
                RateLimitTracker { calls: 0, window_start: now, last_reset: now }
            },
        };
        let window_end = if tracker.window_start <= u64::MAX - window {
            tracker.window_start + window
        } else {
            u64::MAX
        };
        let calls_remaining = if tracker.calls >= config.max_calls {
            0
        } else {
            config.max_calls - tracker.calls
        };
        Ok(
            RateLimitStatus {
                calls_remaining,
                window_start: tracker.window_start,
                window_end,
                is_limited: tracker.calls >= config.max_calls,
            },
        )
    }

    /// Whether a caller is on the whitelist; scans the list.
    fn contains_whitelisted(&self, address: u64) -> (found: bool)
        ensures
            found == self.whitelisted(address),
    {
        let mut i: usize = 0;
        while i < self.whitelist.len()
            invariant
                i <= self.whitelist@.len(),
                forall|j: int| 0 <= j < i ==> self.whitelist@[j] != address,
            decreases self.whitelist@.len() - i,
        {
            if self.whitelist[i] == address {
                assert(self.whitelisted(address));
                return true;
            }
            i = i + 1;
        }
        assert(!self.whitelisted(address));
        false
    }

    /// Puts a caller on the whitelist, on behalf of the admin; callers on
    /// it bypass every limit. Adding a caller twice changes nothing.
    pub fn add_to_whitelist(&mut self, admin: u64, address: u64) -> (result: bool)
        requires
            old(self).wf(),
        ensures
            final(self).wf(),
            result,
            final(self).whitelisted(address),
            forall|a: u64| a != address ==> final(self).whitelisted(a) == old(self).whitelisted(a),
            forall|name: Seq<char>| final(self).config_of(name) == old(self).config_of(name),
            forall|c: u64, n: Seq<char>|
                final(self).tracker_of(c, n) == old(self).tracker_of(c, n),
    {
        let _ = admin;
        if !self.contains_whitelisted(address) {
            let ghost entries = self.whitelist@;
            self.whitelist.push(address);
            proof {
                assert(forall|j: int| 0 <= j < entries.len() ==> self.whitelist@[j] == entries[j]);
                assert(self.whitelist@[entries.len() as int] == address);
                assert(forall|j: int| 0 <= j < entries.len() ==> entries[j] != address);
                assert forall|p: int, q: int|
                    0 <= p < q < self.whitelist@.len() implies self.whitelist@[p] != self
                    .whitelist@[q] by {
                    if q < entries.len() {
                        assert(entries[p] != entries[q]);
                    } else {
                        assert(self.whitelist@[q] == address);
                        assert(entries[p] != address);
                    }
                }
                assert forall|a: u64| a != address implies self.whitelisted(a) == entries.contains(
                    a,
                ) by {
                    if entries.contains(a) {
                        let w = choose|j: int| 0 <= j < entries.len() && entries[j] == a;
                        assert(self.whitelist@[w] == a);
                    }
                    if self.whitelist@.contains(a) {
                        let w = choose|j: int|
                            0 <= j < self.whitelist@.len() && self.whitelist@[j] == a;
                        assert(w < entries.len());
                        assert(entries[w] == a);
                    }
                }
            }
        }
        true
    }

    /// Takes a caller off the whitelist, on behalf of the admin. Removing
    /// an absent caller changes nothing.
    pub fn remove_from_whitelist(&mut self, admin: u64, address: u64) -> (result: bool)
        requires
            old(self).wf(),
        ensures
            final(self).wf(),
            result,
            !final(self).whitelisted(address),
            forall|a: u64| a != address ==> final(self).whitelisted(a) == old(self).whitelisted(a),
            forall|name: Seq<char>| final(self).config_of(name) == old(self).config_of(name),
            forall|c: u64, n: Seq<char>|
                final(self).tracker_of(c, n) == old(self).tracker_of(c, n),
    {
        let _ = admin;
        let mut i: usize = 0;
        while i < self.whitelist.len()
            invariant
                old(self).wf(),
                *old(self) == *self,
                i <= self.whitelist@.len(),
                forall|j: int| 0 <= j < i ==> self.whitelist@[j] != address,
            decreases self.whitelist@.len() - i,
        {
            if self.whitelist[i] == address {
                let ghost entries = self.whitelist@;
                self.whitelist.remove(i);
                proof {
                    entries.remove_ensures(i as int);
                    assert(entries[i as int] == address);
                    assert forall|p: int, q: int|
                        0 <= p < q < self.whitelist@.len() implies self.whitelist@[p] != self
                        .whitelist@[q] by {
                        let p0: int = if p < i {
                            p
                        } else {
                            p + 1
                        };
                        let q0: int = if q < i {
                            q
                        } else {
                            q + 1
                        };
                        assert(self.whitelist@[p] == entries[p0]);
                        assert(self.whitelist@[q] == entries[q0]);
                        assert(entries[p0] != entries[q0]);
                    }
                    assert forall|a: u64| self.whitelisted(a) implies a != address
                        && entries.contains(a) by {
                        let w = choose|j: int|
                            0 <= j < self.whitelist@.len() && self.whitelist@[j] == a;
                        if w < i {
                            assert(entries[w] == a);
                            assert(entries[w] != entries[i as int]);
                        } else {
                            assert(entries[w + 1] == a);
                            assert(entries[w + 1] != entries[i as int]);
                        }
                    }
                    assert forall|a: u64| a != address && entries.contains(a) implies
                        self.whitelisted(a) by {
                        let w = choose|j: int| 0 <= j < entries.len() && entries[j] == a;
                        if w < i {
                            assert(self.whitelist@[w] == a);
                        } else {
                            assert(w != i);
                            assert(self.whitelist@[w - 1] == a);
                        }
                    }
                }
                return true;
            }
            i = i + 1;
        }
        proof {
            assert(!self.whitelisted(address));
        }
        true
    }

    /// Resets a caller's counter on the named function to an empty window
    /// opening at `now`, on behalf of the admin.
    pub fn reset_rate_limit(
        &mut self,
        admin: u64,
        caller: u64,
        function_name: String,
        now: u64,
    ) -> (result: bool)
        requires
            old(self).wf(),
        ensures
            final(self).wf(),
            result,
            final(self).tracker_of(caller, function_name@) == Some(fresh_tracker(now)),
            forall|c: u64, n: Seq<char>|
                !(c == caller && n == function_name@) ==> final(self).tracker_of(c, n) == old(
                    self,
                ).tracker_of(c, n),
            forall|name: Seq<char>| final(self).config_of(name) == old(self).config_of(name),
            forall|address: u64| final(self).whitelisted(address) == old(self).whitelisted(address),
            final(self).whitelist_seq() == old(self).whitelist_seq(),
    {
        let _ = admin;
        let zeroed = RateLimitTracker { calls: 0, window_start: now, last_reset: now };
        let found = self.find_tracker(caller, &function_name);
        let ghost entries = self.trackers@;
        let ghost the_name = function_name@;
        match found {
            Some(i) => {
                self.trackers.set(i, (caller, function_name, zeroed));
                proof {
                    assert forall|c: u64, n: Seq<char>|
                        #[trigger] tracker_lookup(self.trackers@, c, n) == if c == caller && n
                            == the_name {
                            Some(zeroed)
                        } else {
                            tracker_lookup(entries, c, n)
                        } by {
                        lemma_tracker_lookup_update(
                            entries,
                            i as int,
                            (caller, self.trackers@[i as int].1, zeroed),
                            c,
                            n,
                        );
                    }
                }
            },
            None => {
                self.trackers.push((caller, function_name, zeroed));
                proof {
                    assert forall|c: u64, n: Seq<char>|
                        #[trigger] tracker_lookup(self.trackers@, c, n) == if c == caller && n
                            == the_name {
                            Some(zeroed)
                        } else {
                            tracker_lookup(entries, c, n)
                        } by {
                        lemma_tracker_lookup_push(entries, self.trackers@.last(), c, n);
                        lemma_tracker_lookup_absent(entries, caller, the_name);
                    }
                }
            },
        }
        true
    }

    /// Whether a caller is whitelisted.
    pub fn is_whitelisted(&self, address: u64) -> (found: bool)
        ensures
            found == self.whitelisted(address),
    {
        self.contains_whitelisted(address)
    }

    /// The whitelisted callers, in insertion order.
    pub fn get_whitelist(&self) -> (result: Vec<u64>)
        ensures
            result@ == self.whitelist_seq(),
    {
        let mut result: Vec<u64> = Vec::new();
        let mut i: usize = 0;
        while i < self.whitelist.len()
            invariant
                i <= self.whitelist@.len(),
                result@ == self.whitelist@.take(i as int),
            decreases self.whitelist@.len() - i,
        {
            result.push(self.whitelist[i]);
            proof {
                assert(self.whitelist@.take(i as int).push(self.whitelist@[i as int]) =~= self
                    .whitelist@.take(i as int + 1));
            }
            i = i + 1;
        }
        proof {
            assert(self.whitelist@.take(self.whitelist@.len() as int) =~= self.whitelist@);
        }
        result
    }
}

} // verus!
