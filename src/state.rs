use vstd::prelude::*;

use crate::catalog::Catalog;
use crate::config::Config;
use crate::models::Station;

verus! {

/// Milliseconds per second.
pub const MILLIS_PER_SECOND: i64 = 1000;

/// How far in the past the last channel switch is placed at startup, so that
/// the first switch is due at once: two hours, in milliseconds.
pub const STARTUP_SWITCH_BACKDATE: i64 = 7_200_000;

/// A channel that some watched station uses and that the interface supports.
pub open spec fn spec_watchable(stations: Seq<Station>, supported: Seq<i32>, c: i32) -> bool {
    exists|i: int|
        0 <= i < stations.len() && (#[trigger] stations[i]).watch && stations[i].channel == c
            && supported.contains(c)
}

/// Strictly increasing: sorted and without duplicates.
pub open spec fn strictly_sorted(s: Seq<i32>) -> bool {
    forall|i: int, j: int| 0 <= i < j < s.len() ==> s[i] < s[j]
}

/// The ring position after one step over a ring of `len` channels.
pub open spec fn spec_next_index(i: int, len: int) -> int {
    if i + 1 >= len { 0 } else { i + 1 }
}

/// The ring position after `k` steps.
pub open spec fn spec_advance(i: int, len: int, k: nat) -> int
    decreases k,
{
    if k == 0 { i } else { spec_next_index(spec_advance(i, len, (k - 1) as nat), len) }
}

/// Whether more than `span` milliseconds separate `since` from `now`.
pub open spec fn spec_elapsed(now: i64, since: i64, span: int) -> bool {
    now as int - since as int > span
}

/// The state of the collector's main loop: the catalog mirror, the watched
/// channel ring and the clocks of the two schedules (all instants are
/// milliseconds since the Unix epoch).
pub struct AppState {
    pub config: Config,
    /// Mirror of the stored catalog.
    pub catalog: Catalog,
    /// Channels of watched stations, strictly increasing.
    pub watched_channels: Vec<i32>,
    /// Ring cursor into `watched_channels`.
    pub current_watched_channel: usize,
    /// When the channel was last changed.
    pub last_channel_switch: i64,
    /// When the last full sweep ended; `None` when a sweep is due at once.
    pub last_full_sweep: Option<i64>,
    /// How many supported channels the current sweep has visited.
    pub sweep_position: usize,
}

/// Whether `c` occurs in `s`.
pub fn slice_contains(s: &[i32], c: i32) -> (r: bool)
    ensures
        r == s@.contains(c),
{
    let mut i: usize = 0;
    while i < s.len()
        invariant
            i <= s@.len(),
            forall|j: int| 0 <= j < i ==> s@[j] != c,
        decreases s@.len() - i,
    {
        if s[i] == c {
            assert(s@[i as int] == c);
            return true;
        }
        i = i + 1;
    }
    false
}

/// Adds `c` to a strictly increasing list, keeping it so.
pub fn insert_sorted(w: &mut Vec<i32>, c: i32)
    requires
        strictly_sorted(old(w)@),
    ensures
        strictly_sorted(final(w)@),
        forall|x: i32| final(w)@.contains(x) <==> (old(w)@.contains(x) || x == c),
{
    let mut p: usize = 0;
    while p < w.len() && w[p] < c
        invariant
            p <= w@.len(),
            w@ == old(w)@,
            forall|j: int| 0 <= j < p ==> w@[j] < c,
        decreases w@.len() - p,
    {
        p = p + 1;
    }
    if p < w.len() && w[p] == c {
        return;
    }
    w.insert(p, c);
    proof {
        assert forall|x: i32| w@.contains(x) <==> (old(w)@.contains(x) || x == c) by {
            if w@.contains(x) {
                let k = choose|k: int| 0 <= k < w@.len() && w@[k] == x;
                if k < p {
                    assert(old(w)@[k] == x);
                } else if k > p {
                    assert(old(w)@[k - 1] == x);
                }
            }
            if old(w)@.contains(x) {
                let k = choose|k: int| 0 <= k < old(w)@.len() && old(w)@[k] == x;
                if k < p {
                    assert(w@[k] == x);
                } else {
                    assert(w@[k + 1] == x);
                }
            }
            if x == c {
                assert(w@[p as int] == c);
            }
        }
    }
}

impl AppState {
    /// The cursor points into the ring, or the ring is empty.
    pub open spec fn wf(&self) -> bool {
        &&& self.catalog.wf()
        &&& strictly_sorted(self.watched_channels@)
        &&& (self.watched_channels@.len() == 0 ==> self.current_watched_channel == 0)
        &&& (self.watched_channels@.len() > 0 ==> self.current_watched_channel < self.watched_channels@.len())
    }

    pub open spec fn spec_should_sweep(&self, now: i64) -> bool {
        match self.last_full_sweep {
            None => true,
            Some(t) => spec_elapsed(now, t, self.config.collector.time_between_sweeps * MILLIS_PER_SECOND),
        }
    }

    pub open spec fn spec_should_switch_channel(&self, now: i64) -> bool {
        let timeout = if self.spec_should_sweep(now) {
            self.config.collector.sweep_channel_switch_timeout
        } else {
            self.config.collector.channel_switch_timeout
        };
        spec_elapsed(now, self.last_channel_switch, timeout as int)
    }

    /// A fresh state at `now`: empty catalog and ring, the first channel
    /// switch due at once, and a sweep due at once when the configuration
    /// asks to sweep on startup.
    pub fn new(config: Config, now: i64) -> (r: AppState)
        ensures
            r.wf(),
            r.catalog.stations@.len() == 0,
            r.watched_channels@.len() == 0,
            r.last_channel_switch == if now >= i64::MIN + STARTUP_SWITCH_BACKDATE {
                now - STARTUP_SWITCH_BACKDATE
            } else {
                i64::MIN as int
            },
            r.last_full_sweep == if config.collector.sweep_on_startup {
                None
            } else {
                Some(now)
            },
            r.config == config,
            r.sweep_position == 0,
    {
        let last_channel_switch = if now >= i64::MIN + STARTUP_SWITCH_BACKDATE {
            now - STARTUP_SWITCH_BACKDATE
        } else {
            i64::MIN
        };
        let sweep_now = config.collector.sweep_on_startup;
        let mut state = AppState {
            config,
            catalog: Catalog::new(),
            watched_channels: Vec::new(),
            current_watched_channel: 0,
            last_channel_switch,
            last_full_sweep: Some(now),
            sweep_position: 0,
        };
        if sweep_now {
            state.schedule_sweep();
        }
        state
    }

    /// Takes over the catalog read from the store and derives the ring.
    pub fn init_state(&mut self, catalog: Catalog, supported_channels: &[i32])
        requires
            old(self).wf(),
            catalog.wf(),
        ensures
            final(self).wf(),
            final(self).catalog == catalog,
            strictly_sorted(final(self).watched_channels@),
            forall|c: i32|
                final(self).watched_channels@.contains(c) <==> spec_watchable(
                    catalog.stations@,
                    supported_channels@,
                    c,
                ),
    {
        self.catalog = catalog;
        self.update_watched_channels(supported_channels);
    }

    /// Whether a full sweep is due: more than `time_between_sweeps` seconds
    /// since the last one ended, or one was scheduled.
    pub fn should_sweep(&self, now: i64) -> (r: bool)
        ensures
            r == self.spec_should_sweep(now),
    {
        match self.last_full_sweep {
            None => true,
            Some(t) => {
                let secs = self.config.collector.time_between_sweeps as i128;
                proof {
                    assert(-0x1_0000_0000_0000_0000_0000 <= secs * 1000 <= 0x1_0000_0000_0000_0000_0000) by (nonlinear_arith)
                        requires
                            -0x8000_0000_0000_0000 <= secs <= 0x7fff_ffff_ffff_ffff,
                    ;
                }
                (now as i128) - (t as i128) > secs * (MILLIS_PER_SECOND as i128)
            },
        }
    }

    /// Makes the next `should_sweep` return true, whatever the time.
    pub fn schedule_sweep(&mut self)
        ensures
            final(self).last_full_sweep.is_none(),
            forall|now: i64| #[trigger] final(self).spec_should_sweep(now),
            final(self).config == old(self).config,
            final(self).catalog == old(self).catalog,
            final(self).watched_channels == old(self).watched_channels,
            final(self).current_watched_channel == old(self).current_watched_channel,
            final(self).last_channel_switch == old(self).last_channel_switch,
            final(self).sweep_position == old(self).sweep_position,
    {
        self.last_full_sweep = None;
    }

    /// Whether the dwell time on the current channel is over: the sweep
    /// timeout while a sweep is due, the watched-channel timeout otherwise.
    pub fn should_switch_channel(&self, now: i64) -> (r: bool)
        ensures
            r == self.spec_should_switch_channel(now),
    {
        let timeout = if self.should_sweep(now) {
            self.config.collector.sweep_channel_switch_timeout
        } else {
            self.config.collector.channel_switch_timeout
        };
        (now as i128) - (self.last_channel_switch as i128) > timeout as i128
    }

    /// Rebuilds the ring from the watched stations whose channel is
    /// supported: strictly increasing, each such channel once. An empty ring
    /// schedules a sweep.
    pub fn update_watched_channels(&mut self, supported_channels: &[i32])
        requires
            old(self).wf(),
        ensures
            final(self).wf(),
            strictly_sorted(final(self).watched_channels@),
            forall|c: i32|
                final(self).watched_channels@.contains(c) <==> spec_watchable(
                    old(self).catalog.stations@,
                    supported_channels@,
                    c,
                ),
            forall|c: i32| #[trigger] final(self).watched_channels@.contains(c) ==> supported_channels@.contains(c),
            final(self).watched_channels@.len() == 0 ==> final(self).last_full_sweep.is_none(),
            final(self).watched_channels@.len() > 0 ==> final(self).last_full_sweep == old(self).last_full_sweep,
            final(self).catalog == old(self).catalog,
            final(self).config == old(self).config,
            final(self).last_channel_switch == old(self).last_channel_switch,
            final(self).sweep_position == old(self).sweep_position,
    {
        let mut w: Vec<i32> = Vec::new();
        let mut i: usize = 0;
        let ghost stations = self.catalog.stations@;
        while i < self.catalog.stations.len()
            invariant
                self.catalog.stations@ == stations,
                i <= stations.len(),
                strictly_sorted(w@),
                forall|c: i32|
                    w@.contains(c) <==> exists|j: int|
                        0 <= j < i && (#[trigger] stations[j]).watch && stations[j].channel == c
                            && supported_channels@.contains(c),
            decreases stations.len() - i,
        {
            let watch = self.catalog.stations[i].watch;
            let c = self.catalog.stations[i].channel;
            if watch && slice_contains(supported_channels, c) {
                insert_sorted(&mut w, c);
            }
            proof {
                assert forall|x: i32|
                    w@.contains(x) <==> exists|j: int|
                        0 <= j < i + 1 && (#[trigger] stations[j]).watch && stations[j].channel == x
                            && supported_channels@.contains(x) by {
                    if exists|j: int|
                        0 <= j < i + 1 && (#[trigger] stations[j]).watch && stations[j].channel == x
                            && supported_channels@.contains(x) {
                        let j = choose|j: int|
                            0 <= j < i + 1 && (#[trigger] stations[j]).watch && stations[j].channel == x
                                && supported_channels@.contains(x);
                        if j < i {
                            assert(exists|j: int|
                                0 <= j < i && (#[trigger] stations[j]).watch && stations[j].channel == x
                                    && supported_channels@.contains(x));
                        }
                    }
                }
            }
            i = i + 1;
        }
        self.watched_channels = w;
        if self.current_watched_channel >= self.watched_channels.len() {
            self.current_watched_channel = 0;
        }
        if self.watched_channels.len() == 0 {
            self.schedule_sweep();
        }
    }

    /// The next channel to listen on outside a sweep: the fixed channel when
    /// one is configured; otherwise the next entry of the ring, wrapping
    /// around. An empty ring yields `None` and schedules a sweep.
    pub fn get_next_watched_channel(&mut self) -> (r: Option<i32>)
        requires
            old(self).wf(),
        ensures
            final(self).wf(),
            final(self).watched_channels == old(self).watched_channels,
            final(self).catalog == old(self).catalog,
            final(self).config == old(self).config,
            final(self).last_channel_switch == old(self).last_channel_switch,
            final(self).sweep_position == old(self).sweep_position,
            old(self).config.collector.fixed_channel matches Some(c) ==> {
                &&& r == Some(c)
                &&& final(self).current_watched_channel == old(self).current_watched_channel
                &&& final(self).last_full_sweep == old(self).last_full_sweep
            },
            old(self).config.collector.fixed_channel.is_none() && old(self).watched_channels@.len() == 0 ==> {
                &&& r.is_none()
                &&& final(self).last_full_sweep.is_none()
            },
            old(self).config.collector.fixed_channel.is_none() && old(self).watched_channels@.len() > 0 ==> {
                let len = old(self).watched_channels@.len() as int;
                let next = spec_next_index(old(self).current_watched_channel as int, len);
                &&& final(self).current_watched_channel == next
                &&& r == Some(old(self).watched_channels@[next])
                &&& final(self).last_full_sweep == old(self).last_full_sweep
            },
    {
        if let Some(channel) = self.config.collector.fixed_channel {
            return Some(channel);
        }
        if self.watched_channels.len() == 0 {
            self.schedule_sweep();
            return None;
        }
        let mut next = self.current_watched_channel + 1;
        if next >= self.watched_channels.len() {
            next = 0;
        }
        self.current_watched_channel = next;
        Some(self.watched_channels[next])
    }

    /// One scheduling decision of the main loop at `now`; returns the channel
    /// to tune to, if any, and stamps the switch.
    ///
    /// Outside a sweep, when the dwell time is over, the next watched channel
    /// is taken. In a sweep, when the dwell time is over, the next supported
    /// channel is taken; once all are visited the sweep ends: the ring is
    /// rebuilt, and either a new sweep is scheduled (`always_sweep`) or the
    /// end of the sweep is stamped.
    pub fn channel_step(&mut self, now: i64, supported_channels: &[i32], doing_sweep: bool) -> (r: Option<i32>)
        requires
            old(self).wf(),
        ensures
            final(self).wf(),
            final(self).catalog == old(self).catalog,
            final(self).config == old(self).config,
            !old(self).spec_should_switch_channel(now) ==> r.is_none() && final(self).last_channel_switch == old(self).last_channel_switch
                && final(self).sweep_position == old(self).sweep_position,
            r.is_some() ==> final(self).last_channel_switch == now,
            r.is_none() ==> final(self).last_channel_switch == old(self).last_channel_switch,
            doing_sweep && old(self).spec_should_switch_channel(now) && old(self).sweep_position < supported_channels@.len() ==> {
                &&& r == Some(supported_channels@[old(self).sweep_position as int])
                &&& final(self).sweep_position == old(self).sweep_position + 1
            },
            doing_sweep && old(self).spec_should_switch_channel(now) && old(self).sweep_position >= supported_channels@.len() ==> {
                &&& r.is_none()
                &&& final(self).sweep_position == 0
                &&& forall|c: i32|
                    final(self).watched_channels@.contains(c) <==> spec_watchable(
                        old(self).catalog.stations@,
                        supported_channels@,
                        c,
                    )
                &&& old(self).config.collector.always_sweep ==> final(self).last_full_sweep.is_none()
                &&& !old(self).config.collector.always_sweep ==> final(self).last_full_sweep == Some(now)
            },
            !doing_sweep && old(self).spec_should_switch_channel(now) ==> {
                &&& final(self).sweep_position == old(self).sweep_position
                &&& old(self).config.collector.fixed_channel matches Some(c) ==> r == Some(c)
                &&& old(self).config.collector.fixed_channel.is_none() && old(self).watched_channels@.len() > 0 ==> r == Some(
                    old(self).watched_channels@[spec_next_index(
                        old(self).current_watched_channel as int,
                        old(self).watched_channels@.len() as int,
                    )],
                )
                &&& old(self).config.collector.fixed_channel.is_none() && old(self).watched_channels@.len() == 0 ==> r.is_none()
                    && final(self).last_full_sweep.is_none()
            },
    {
        if !self.should_switch_channel(now) {
            return None;
        }
        if !doing_sweep {
            let next = self.get_next_watched_channel();
            if next.is_some() {
                self.last_channel_switch = now;
            }
            return next;
        }
        if self.sweep_position < supported_channels.len() {
            let channel = supported_channels[self.sweep_position];
            self.sweep_position = self.sweep_position + 1;
            self.last_channel_switch = now;
            return Some(channel);
        }
        self.sweep_position = 0;
        self.update_watched_channels(supported_channels);
        if self.config.collector.always_sweep {
            self.schedule_sweep();
        } else {
            self.last_full_sweep = Some(now);
        }
        None
    }
}

/// Stepping a ring of `len` channels `k` times from position `i` lands on
/// `(i + k) mod len`: successive calls cycle through the ring in order.
pub proof fn lemma_watched_cycle(i: int, len: int, k: nat)
    requires
        0 <= i < len,
    ensures
        spec_advance(i, len, k) == (i + k) % len,
    decreases k,
{
    if k == 0 {
        vstd::arithmetic::div_mod::lemma_small_mod(i as nat, len as nat);
    } else {
        lemma_watched_cycle(i, len, (k - 1) as nat);
        let prev = spec_advance(i, len, (k - 1) as nat);
        vstd::arithmetic::div_mod::lemma_add_mod_noop(i + k - 1, 1, len);
        if len > 1 {
            vstd::arithmetic::div_mod::lemma_small_mod(1, len as nat);
        }
        vstd::arithmetic::div_mod::lemma_mod_bound(i + k - 1, len);
        if prev + 1 >= len {
            assert(prev + 1 == len);
            vstd::arithmetic::div_mod::lemma_mod_self_0(len);
        } else {
            vstd::arithmetic::div_mod::lemma_small_mod((prev + 1) as nat, len as nat);
        }
    }
}

/// The switch timeout has not passed at the instant of the last switch and
/// has passed any positive margin after the timeout.
pub proof fn lemma_switch_timing(s: AppState, eps: i64)
    requires
        s.config.collector.sweep_channel_switch_timeout >= 0,
        s.config.collector.channel_switch_timeout >= 0,
        eps > 0,
        s.last_channel_switch as int + s.config.collector.sweep_channel_switch_timeout + eps <= i64::MAX,
        s.last_channel_switch as int + s.config.collector.channel_switch_timeout + eps <= i64::MAX,
    ensures
        !s.spec_should_switch_channel(s.last_channel_switch),
        s.spec_should_sweep((s.last_channel_switch + s.config.collector.sweep_channel_switch_timeout + eps) as i64)
            ==> s.spec_should_switch_channel((s.last_channel_switch + s.config.collector.sweep_channel_switch_timeout + eps) as i64),
        !s.spec_should_sweep((s.last_channel_switch + s.config.collector.channel_switch_timeout + eps) as i64)
            ==> s.spec_should_switch_channel((s.last_channel_switch + s.config.collector.channel_switch_timeout + eps) as i64),
{
}

} // verus!
