//! Rate limiting: each client address may make a bounded number of requests
//! in each window of time.

use vstd::prelude::*;
use crate::text::{str_eq, to_chars, parse_u32, parse_u64, parse_unsigned};

verus! {

/// How many requests a client may make in a window.
#[derive(Debug, Clone, Copy)]
pub struct RateLimitConfig {
    pub max_requests: u32,
    /// Length of a window, in nanoseconds.
    pub window_nanos: u64,
    pub enabled: bool,
}

/// A number from the environment when it parses, or the default.
pub open spec fn env_number(v: Option<String>, max: nat, default: nat) -> nat {
    match v {
        Some(s) => match parse_unsigned(s@, max) {
            Some(n) => n,
            None => default,
        },
        None => default,
    }
}

impl RateLimitConfig {
    /// The configuration that the environment gives: `RMDADM_RATE_LIMIT_MAX`
    /// requests (100 by default) in `RMDADM_RATE_LIMIT_WINDOW` seconds (60 by
    /// default), on unless `RMDADM_DISABLE_RATE_LIMIT` is set.
    pub fn from_env(max: &Option<String>, window: &Option<String>, disable: &Option<String>) -> (c: RateLimitConfig)
        requires
            env_number(*window, u64::MAX as nat, 60) * 1_000_000_000 <= u64::MAX,
        ensures
            c.max_requests == env_number(*max, u32::MAX as nat, 100),
            c.window_nanos == env_number(*window, u64::MAX as nat, 60) * 1_000_000_000,
            c.enabled == disable is None,
    {
        let max_requests = match max {
            Some(s) => match parse_u32(to_chars(s.as_str()).as_slice()) {
                Some(n) => n,
                None => 100,
            },
            None => 100,
        };
        let secs: u64 = match window {
            Some(s) => match parse_u64(to_chars(s.as_str()).as_slice()) {
                Some(n) => n,
                None => 60,
            },
            None => 60,
        };
        RateLimitConfig { max_requests, window_nanos: secs * 1_000_000_000, enabled: disable.is_none() }
    }
}

/// The requests of one client in its current window.
#[derive(Debug, Clone, Copy, PartialEq, Eq, Structural)]
pub struct RequestTracker {
    pub count: u32,
    /// When the window started, in nanoseconds of the monotonic clock.
    pub window_start: u64,
}

/// A refused request: when to try again, in seconds, and the limit.
#[derive(Debug, Clone, Copy, PartialEq, Eq, Structural)]
pub struct RateLimitError {
    pub retry_after: u64,
    pub limit: u32,
}

/// The limiter: its configuration and a tracker for each client address.
#[derive(Debug)]
pub struct RateLimiter {
    pub config: RateLimitConfig,
    pub trackers: Vec<(String, RequestTracker)>,
}

/// Time from `start` to `now`, nothing when `now` is earlier.
pub open spec fn elapsed(now: u64, start: u64) -> nat {
    if now >= start { (now - start) as nat } else { 0 }
}

/// The tracker of `ip` in a list of trackers: the last one with that address.
pub open spec fn lookup(v: Seq<(String, RequestTracker)>, ip: Seq<char>) -> Option<RequestTracker>
    decreases v.len(),
{
    if v.len() == 0 {
        None
    } else if v.last().0@ == ip {
        Some(v.last().1)
    } else {
        lookup(v.drop_last(), ip)
    }
}

/// Whether no address has two trackers in the list.
pub open spec fn unique(v: Seq<(String, RequestTracker)>) -> bool
    decreases v.len(),
{
    v.len() == 0 || (lookup(v.drop_last(), v.last().0@) is None && unique(v.drop_last()))
}

/// Whether a tracker is kept by a cleanup at `now`: its window started less
/// than `limit` before.
pub open spec fn kept(t: RequestTracker, now: u64, limit: u64) -> bool {
    elapsed(now, t.window_start) < limit
}

/// The trackers that a cleanup keeps, in order.
pub open spec fn filter_kept(v: Seq<(String, RequestTracker)>, now: u64, limit: u64) -> Seq<(String, RequestTracker)>
    decreases v.len(),
{
    if v.len() == 0 {
        Seq::empty()
    } else if kept(v.last().1, now, limit) {
        filter_kept(v.drop_last(), now, limit).push(v.last())
    } else {
        filter_kept(v.drop_last(), now, limit)
    }
}

/// An address held at some place of the list has a tracker; with no address
/// twice, it is the one at that place.
proof fn lemma_lookup_found(v: Seq<(String, RequestTracker)>, i: int)
    requires
        0 <= i < v.len(),
    ensures
        lookup(v, v[i].0@) is Some,
        unique(v) ==> lookup(v, v[i].0@) == Some(v[i].1),
    decreases v.len(),
{
    if i < v.len() - 1 {
        lemma_lookup_found(v.drop_last(), i);
        assert(v.drop_last()[i] == v[i]);
        if unique(v) && v.last().0@ == v[i].0@ {
            assert(lookup(v.drop_last(), v.last().0@) is None);
        }
    }
}

/// An address that no place of the list holds has no tracker.
proof fn lemma_lookup_absent(v: Seq<(String, RequestTracker)>, ip: Seq<char>)
    requires
        forall|i: int| 0 <= i < v.len() ==> #[trigger] v[i].0@ != ip,
    ensures
        lookup(v, ip) is None,
    decreases v.len(),
{
    if v.len() > 0 {
        assert(v[v.len() - 1].0@ != ip);
        assert forall|i: int| 0 <= i < v.drop_last().len() implies #[trigger] v.drop_last()[i].0@ != ip by {
            assert(v.drop_last()[i] == v[i]);
        }
        lemma_lookup_absent(v.drop_last(), ip);
    }
}

/// Replacing the tracker at the place of `ip` changes the tracker of `ip` only,
/// and keeps every address once.
proof fn lemma_lookup_update(v: Seq<(String, RequestTracker)>, idx: int, k: String, t: RequestTracker)
    requires
        unique(v),
        0 <= idx < v.len(),
        v[idx].0@ == k@,
    ensures
        unique(v.update(idx, (k, t))),
        forall|x: Seq<char>| #[trigger] lookup(v.update(idx, (k, t)), x) == (if x == k@ { Some(t) } else { lookup(v, x) }),
    decreases v.len(),
{
    let u = v.update(idx, (k, t));
    if idx == v.len() - 1 {
        assert(u.drop_last() =~= v.drop_last());
        assert forall|x: Seq<char>| #[trigger] lookup(u, x) == (if x == k@ { Some(t) } else { lookup(v, x) }) by {
        }
    } else {
        assert(u.drop_last() =~= v.drop_last().update(idx, (k, t)));
        assert(u.last() == v.last());
        lemma_lookup_update(v.drop_last(), idx, k, t);
        lemma_lookup_found(v.drop_last(), idx);
        assert(v.drop_last()[idx] == v[idx]);
        assert(v.last().0@ != k@);
        assert forall|x: Seq<char>| #[trigger] lookup(u, x) == (if x == k@ { Some(t) } else { lookup(v, x) }) by {
            assert(lookup(u.drop_last(), x) == (if x == k@ { Some(t) } else { lookup(v.drop_last(), x) }));
        }
    }
}

/// A cleanup keeps every address once, and keeps the tracker of an address
/// exactly when it is kept.
proof fn lemma_filter_kept(v: Seq<(String, RequestTracker)>, now: u64, limit: u64)
    requires
        unique(v),
    ensures
        unique(filter_kept(v, now, limit)),
        forall|x: Seq<char>| #[trigger] lookup(filter_kept(v, now, limit), x) == (match lookup(v, x) {
            Some(t) => if kept(t, now, limit) { Some(t) } else { None },
            None => None,
        }),
    decreases v.len(),
{
    if v.len() > 0 {
        let f = filter_kept(v.drop_last(), now, limit);
        lemma_filter_kept(v.drop_last(), now, limit);
        let last = v.last();
        assert(lookup(v.drop_last(), last.0@) is None);
        if kept(last.1, now, limit) {
            let g = f.push(last);
            assert(g.drop_last() =~= f);
            assert(lookup(f, last.0@) is None);
            assert forall|x: Seq<char>| #[trigger] lookup(g, x) == (match lookup(v, x) {
                Some(t) => if kept(t, now, limit) { Some(t) } else { None },
                None => None,
            }) by {
                assert(lookup(f, x) == (match lookup(v.drop_last(), x) {
                    Some(t) => if kept(t, now, limit) { Some(t) } else { None },
                    None => None,
                }));
            }
        } else {
            assert forall|x: Seq<char>| #[trigger] lookup(f, x) == (match lookup(v, x) {
                Some(t) => if kept(t, now, limit) { Some(t) } else { None },
                None => None,
            }) by {
                assert(lookup(f, x) == (match lookup(v.drop_last(), x) {
                    Some(t) => if kept(t, now, limit) { Some(t) } else { None },
                    None => None,
                }));
            }
        }
    }
}

/// What a request at `now` does to a client's tracker: a window that has run
/// out starts anew at `now`; a client under the limit is let through and
/// counted, one at the limit is refused.
pub open spec fn take_request(cfg: RateLimitConfig, t0: RequestTracker, now: u64) -> (RequestTracker, bool) {
    let t1 = if elapsed(now, t0.window_start) >= cfg.window_nanos {
        RequestTracker { count: 0, window_start: now }
    } else {
        t0
    };
    if t1.count >= cfg.max_requests {
        (t1, false)
    } else {
        (RequestTracker { count: (t1.count + 1) as u32, window_start: t1.window_start }, true)
    }
}

/// The tracker after requests at `times`, one after the other, and how many
/// of them were let through.
pub open spec fn take_requests(cfg: RateLimitConfig, t: RequestTracker, times: Seq<u64>) -> (RequestTracker, nat)
    decreases times.len(),
{
    if times.len() == 0 {
        (t, 0)
    } else {
        let (t2, ok) = take_request(cfg, t, times[0]);
        let (t3, n) = take_requests(cfg, t2, times.drop_first());
        (t3, n + if ok { 1nat } else { 0nat })
    }
}

/// Within one window, a client is let through at most the limit of requests:
/// the requests before and those at `times`, all inside the window that the
/// tracker has open, add up to no more than the limit.
pub proof fn lemma_at_most_limit_per_window(cfg: RateLimitConfig, t: RequestTracker, times: Seq<u64>)
    requires
        t.count <= cfg.max_requests,
        forall|i: int| 0 <= i < times.len() ==> t.window_start <= #[trigger] times[i]
            && times[i] - t.window_start < cfg.window_nanos,
    ensures
        t.count + take_requests(cfg, t, times).1 <= cfg.max_requests,
    decreases times.len(),
{
    if times.len() > 0 {
        let (t2, ok) = take_request(cfg, t, times[0]);
        assert(t.window_start <= times[0] && times[0] - t.window_start < cfg.window_nanos);
        assert(t2.window_start == t.window_start);
        assert forall|i: int| 0 <= i < times.drop_first().len() implies t2.window_start <= #[trigger] times.drop_first()[i]
            && times.drop_first()[i] - t2.window_start < cfg.window_nanos by {
            assert(times.drop_first()[i] == times[i + 1]);
        }
        lemma_at_most_limit_per_window(cfg, t2, times.drop_first());
    }
}

impl RateLimiter {
    /// The trackers, as a map from client address.
    pub closed spec fn trackers(&self) -> Map<Seq<char>, RequestTracker> {
        Map::new(|ip: Seq<char>| lookup(self.trackers@, ip) is Some, |ip: Seq<char>| lookup(self.trackers@, ip).unwrap())
    }

    /// No address has two trackers, and no tracker counts more requests than the limit.
    pub closed spec fn wf(&self) -> bool {
        &&& unique(self.trackers@)
        &&& forall|ip: Seq<char>| #[trigger] lookup(self.trackers@, ip) matches Some(t) ==> t.count <= self.config.max_requests
    }

    /// A limiter with no client seen yet.
    pub fn new(config: RateLimitConfig) -> (l: RateLimiter)
        ensures
            l.wf(),
            l.config == config,
            l.trackers() == Map::<Seq<char>, RequestTracker>::empty(),
    {
        let l = RateLimiter { config, trackers: Vec::new() };
        assert(l.trackers() =~= Map::<Seq<char>, RequestTracker>::empty());
        l
    }

    /// No tracker counts more requests than the limit.
    pub proof fn lemma_within_limit(&self, ip: Seq<char>)
        requires
            self.wf(),
            self.trackers().contains_key(ip),
        ensures
            self.trackers()[ip].count <= self.config.max_requests,
    {
    }

    /// Index of the tracker of `ip`.
    fn find(&self, ip: &str) -> (r: Option<usize>)
        requires
            self.wf(),
        ensures
            match r {
                Some(i) => i < self.trackers@.len() && self.trackers@[i as int].0@ == ip@
                    && lookup(self.trackers@, ip@) == Some(self.trackers@[i as int].1),
                None => lookup(self.trackers@, ip@) is None,
            },
    {
        let mut i: usize = 0;
        while i < self.trackers.len()
            invariant
                self.wf(),
                i <= self.trackers@.len(),
                forall|k: int| 0 <= k < i ==> #[trigger] self.trackers@[k].0@ != ip@,
            decreases self.trackers@.len() - i,
        {
            if str_eq(self.trackers[i].0.as_str(), ip) {
                proof {
                    lemma_lookup_found(self.trackers@, i as int);
                }
                return Some(i);
            }
            i = i + 1;
        }
        proof {
            lemma_lookup_absent(self.trackers@, ip@);
        }
        None
    }

    /// Checks a request from `ip` at `now` (nanoseconds of the monotonic clock).
    /// A disabled limiter lets everything through and remembers nothing.
    /// Otherwise the client's window starts anew when it has run out (or when
    /// the client is new); a client that has used up the limit in its window
    /// is refused, with the whole seconds left of the window; any other
    /// request is let through and counted.
    pub fn check_rate_limit(&mut self, ip: &str, now: u64) -> (r: Result<(), RateLimitError>)
        requires
            old(self).wf(),
        ensures
            final(self).wf(),
            final(self).config == old(self).config,
            !old(self).config.enabled ==> r is Ok && final(self).trackers() == old(self).trackers(),
            old(self).config.enabled ==> ({
                let cfg = old(self).config;
                let t0 = if old(self).trackers().contains_key(ip@) {
                    old(self).trackers()[ip@]
                } else {
                    RequestTracker { count: 0, window_start: now }
                };
                let (t2, ok) = take_request(cfg, t0, now);
                &&& final(self).trackers() == old(self).trackers().insert(ip@, t2)
                &&& ok ==> r is Ok
                &&& !ok ==> r == Err::<(), RateLimitError>(RateLimitError {
                    retry_after: ((cfg.window_nanos - elapsed(now, t2.window_start)) / 1_000_000_000) as u64,
                    limit: cfg.max_requests,
                })
            }),
    {
        if !self.config.enabled {
            return Ok(());
        }
        let ghost before = self.trackers@;
        let idx: usize = match self.find(ip) {
            Some(i) => i,
            None => {
                self.trackers.push((String::from_str(ip), RequestTracker { count: 0, window_start: now }));
                assert(self.trackers@.drop_last() =~= before);
                (self.trackers.len() - 1) as usize
            },
        };
        let ghost mid = self.trackers@;
        proof {
            assert(unique(mid));
            assert(forall|x: Seq<char>| #[trigger] lookup(mid, x) == (if x == ip@ { Some(mid[idx as int].1) } else { lookup(before, x) }));
        }
        let mut t = self.trackers[idx].1;
        let since = if now >= t.window_start { now - t.window_start } else { 0 };
        if since >= self.config.window_nanos {
            t = RequestTracker { count: 0, window_start: now };
        }
        let result = if t.count >= self.config.max_requests {
            let used = if now >= t.window_start { now - t.window_start } else { 0 };
            let left = if self.config.window_nanos >= used { self.config.window_nanos - used } else { 0 };
            Err(RateLimitError { retry_after: left / 1_000_000_000, limit: self.config.max_requests })
        } else {
            t.count = t.count + 1;
            Ok(())
        };
        let key = String::from_str(ip);
        self.trackers.set(idx, (key, t));
        proof {
            lemma_lookup_update(mid, idx as int, key, t);
            assert(self.trackers@ == mid.update(idx as int, (key, t)));
            assert(self.trackers() =~= old(self).trackers().insert(ip@, t));
        }
        result
    }

    /// Forgets the clients whose window started two windows or more before `now`.
    pub fn cleanup(&mut self, now: u64)
        requires
            old(self).wf(),
            old(self).config.window_nanos * 2 <= u64::MAX,
        ensures
            final(self).wf(),
            final(self).config == old(self).config,
            forall|ip: Seq<char>| #[trigger] final(self).trackers().contains_key(ip) <==>
                (old(self).trackers().contains_key(ip)
                    && elapsed(now, old(self).trackers()[ip].window_start) < old(self).config.window_nanos * 2),
            forall|ip: Seq<char>| #[trigger] final(self).trackers().contains_key(ip) ==>
                final(self).trackers()[ip] == old(self).trackers()[ip],
    {
        let limit = self.config.window_nanos * 2;
        let mut out: Vec<(String, RequestTracker)> = Vec::new();
        let mut i: usize = 0;
        while i < self.trackers.len()
            invariant
                i <= self.trackers@.len(),
                out@ == filter_kept(self.trackers@.subrange(0, i as int), now, limit),
            decreases self.trackers@.len() - i,
        {
            let t = self.trackers[i].1;
            assert(self.trackers@.subrange(0, i + 1).drop_last() =~= self.trackers@.subrange(0, i as int));
            let since = if now >= t.window_start { now - t.window_start } else { 0 };
            if since < limit {
                let k = self.trackers[i].0.clone();
                out.push((k, t));
            }
            i = i + 1;
        }
        proof {
            assert(self.trackers@.subrange(0, self.trackers@.len() as int) =~= self.trackers@);
            lemma_filter_kept(self.trackers@, now, limit);
        }
        self.trackers = out;
        proof {
            assert forall|ip: Seq<char>| #[trigger] lookup(self.trackers@, ip) is Some
                implies lookup(self.trackers@, ip).unwrap().count <= self.config.max_requests by {
                assert(lookup(old(self).trackers@, ip) is Some);
            }
            assert(self.wf());
        }
    }
}

} // verus!
