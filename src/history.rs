use vstd::prelude::*;

verus! {

/// Milliseconds in one day.
pub const DAY_MILLIS: u64 = 86_400_000;

/// Ninety days in milliseconds: the lookback used when the caller names none,
/// and the length of every window the remote history endpoints accept.
pub const DEFAULT_HISTORY_MILLIS: u64 = 7_776_000_000;

/// A half-open span `[start, end)` of instants, in milliseconds since the epoch.
#[derive(Clone, Copy, Debug, PartialEq, Eq, Structural)]
pub struct TimeWindow {
    pub start: u64,
    pub end: u64,
}

/// Why no plan of windows could be made.
#[derive(Clone, Copy, Debug, PartialEq, Eq, Structural)]
pub enum WindowError {
    /// The window length is zero, so no window could hold an instant.
    ZeroInterval,
    /// The oldest window would begin before the epoch.
    BeforeEpoch,
}

/// The records that one window's query returned, tagged with that window.
#[derive(Debug)]
pub struct RecordHistory<T> {
    pub start_at: u64,
    pub end_at: u64,
    pub records: Vec<T>,
}

impl<T> RecordHistory<T> {
    pub open spec fn window(&self) -> TimeWindow {
        TimeWindow { start: self.start_at, end: self.end_at }
    }
}

/// How many windows of `interval` walking back from an instant it takes until a
/// window ends at or before `total` earlier: the least `k` with `k * interval >= total`.
pub open spec fn window_count(total: int, interval: int) -> int {
    if total <= 0 {
        0
    } else {
        (total - 1) / interval + 1
    }
}

/// The `k`-th window walking back from `from`, the newest being the 0-th.
pub open spec fn window_at(from: int, interval: int, k: int) -> TimeWindow {
    TimeWindow { start: (from - (k + 1) * interval) as u64, end: (from - k * interval) as u64 }
}

pub open spec fn planned_windows(from: int, total: int, interval: int) -> Seq<TimeWindow> {
    Seq::new(window_count(total, interval) as nat, |k: int| window_at(from, interval, k))
}

/// The oldest planned window starts at or after the epoch.
pub open spec fn fits_after_epoch(from: int, total: int, interval: int) -> bool {
    window_count(total, interval) * interval <= from
}

/// The windows to query for a lookback of `total` from `from` in steps of
/// `interval`, newest first, or why there are none.
pub open spec fn plan_outcome(from: int, total: int, interval: int) -> Result<
    Seq<TimeWindow>,
    WindowError,
> {
    if interval <= 0 {
        Err(WindowError::ZeroInterval)
    } else if !fits_after_epoch(from, total, interval) {
        Err(WindowError::BeforeEpoch)
    } else {
        Ok(planned_windows(from, total, interval))
    }
}

/// Window `k` is queried exactly when its end lies after the cutoff `from - total`.
pub proof fn lemma_window_count(total: int, interval: int, k: int)
    requires
        interval > 0,
        0 <= k,
    ensures
        (k * interval < total) <==> (k < window_count(total, interval)),
{
    assert(0 <= k * interval) by (nonlinear_arith)
        requires
            interval > 0,
            0 <= k,
    ;
    if total > 0 {
        let q = (total - 1) / interval;
        let r = (total - 1) % interval;
        vstd::arithmetic::div_mod::lemma_fundamental_div_mod(total - 1, interval);
        vstd::arithmetic::div_mod::lemma_mod_bound(total - 1, interval);
        assert((k * interval < total) <==> (k <= q)) by (nonlinear_arith)
            requires
                interval > 0,
                total - 1 == interval * q + r,
                0 <= r < interval,
        ;
    }
}

/// Splits the lookback `[from - total, from)` into windows of `interval`,
/// newest first. The last window reaches back past the cutoff where `interval`
/// does not divide `total`.
pub fn plan_windows(from: u64, total: u64, interval: u64) -> (r: Result<Vec<TimeWindow>, WindowError>)
    ensures
        match r {
            Ok(ws) => plan_outcome(from as int, total as int, interval as int) == Ok::<
                Seq<TimeWindow>,
                WindowError,
            >(ws@),
            Err(e) => plan_outcome(from as int, total as int, interval as int) == Err::<
                Seq<TimeWindow>,
                WindowError,
            >(e),
        },
{
    if interval == 0 {
        return Err(WindowError::ZeroInterval);
    }
    let ghost count = window_count(total as int, interval as int);
    let mut windows: Vec<TimeWindow> = Vec::new();
    let mut back: u64 = 0;
    assert(0 * interval == 0) by (nonlinear_arith);
    while back < total
        invariant
            interval > 0,
            count == window_count(total as int, interval as int),
            back == windows@.len() * interval,
            back <= from,
            windows@.len() <= count,
            forall|k: int|
                0 <= k < windows@.len() ==> #[trigger] windows@[k] == window_at(
                    from as int,
                    interval as int,
                    k,
                ),
        decreases from - back,
    {
        let ghost k = windows@.len() as int;
        proof {
            lemma_window_count(total as int, interval as int, k);
            assert((k + 1) * interval == k * interval + interval) by (nonlinear_arith);
        }
        if interval > from - back {
            proof {
                assert(count * interval >= (k + 1) * interval) by (nonlinear_arith)
                    requires
                        count >= k + 1,
                        interval > 0,
                ;
            }
            return Err(WindowError::BeforeEpoch);
        }
        let end = from - back;
        let start = end - interval;
        windows.push(TimeWindow { start, end });
        back = back + interval;
    }
    proof {
        lemma_window_count(total as int, interval as int, windows@.len() as int);
        assert(windows@ == planned_windows(from as int, total as int, interval as int));
    }
    Ok(windows)
}

/// Windows newest first: each one non-empty, and each ending at or before the
/// start of every window planned before it.
pub open spec fn windows_newest_first(ws: Seq<TimeWindow>) -> bool {
    &&& forall|k: int| 0 <= k < ws.len() ==> #[trigger] ws[k].start < ws[k].end
    &&& forall|a: int, b: int| 0 <= a < b < ws.len() ==> #[trigger] ws[b].end <= #[trigger] ws[a].start
}

/// A planned lookback is newest first.
pub proof fn lemma_planned_newest_first(from: int, total: int, interval: int)
    requires
        interval > 0,
        from <= u64::MAX,
        fits_after_epoch(from, total, interval),
    ensures
        windows_newest_first(planned_windows(from, total, interval)),
{
    let ws = planned_windows(from, total, interval);
    let n = window_count(total, interval);
    assert(n >= 0) by (nonlinear_arith)
        requires
            interval > 0,
            n == window_count(total, interval),
    ;
    assert forall|k: int| 0 <= k < ws.len() implies #[trigger] ws[k].start < ws[k].end by {
        assert(0 <= (k + 1) * interval <= n * interval) by (nonlinear_arith)
            requires
                interval > 0,
                0 <= k < n,
        ;
        assert((k + 1) * interval == k * interval + interval) by (nonlinear_arith);
    }
    assert forall|a: int, b: int| 0 <= a < b < ws.len() implies #[trigger] ws[b].end
        <= #[trigger] ws[a].start by {
        assert(0 <= (a + 1) * interval <= b * interval <= n * interval) by (nonlinear_arith)
            requires
                interval > 0,
                0 <= a < b < n,
        ;
    }
}

/// One backward walk over a planned lookback: the windows still to query and
/// the non-empty pages collected so far. The caller performs each query; the
/// walk decides what to query next and what to keep.
pub struct HistoryWalk<T> {
    start_from: u64,
    windows: Vec<TimeWindow>,
    position: usize,
    batches: Vec<RecordHistory<T>>,
}

/// What a walk asks for next.
pub enum Next<T> {
    /// Query this window, then hand the outcome to the walk.
    Query(HistoryWalk<T>, TimeWindow),
    /// Every window was queried: the collected pages, newest window first.
    Done(Vec<RecordHistory<T>>),
}

impl<T> HistoryWalk<T> {
    /// The instant the walk starts from.
    pub closed spec fn origin(&self) -> u64 {
        self.start_from
    }

    /// Every window of the walk, newest first.
    pub closed spec fn windows(&self) -> Seq<TimeWindow> {
        self.windows@
    }

    /// How many windows were queried so far.
    pub closed spec fn position(&self) -> int {
        self.position as int
    }

    /// The non-empty pages collected so far.
    pub closed spec fn batches(&self) -> Seq<RecordHistory<T>> {
        self.batches@
    }

    pub closed spec fn wf(&self) -> bool {
        &&& self.position <= self.windows@.len()
        &&& windows_newest_first(self.windows@)
        &&& forall|i: int|
            0 <= i < self.batches@.len() ==> #[trigger] self.batches@[i].records@.len() > 0
        &&& forall|i: int|
            0 <= i < self.batches@.len() ==> self.windows@.subrange(0, self.position as int).contains(
                #[trigger] self.batches@[i].window(),
            )
        &&& forall|i: int, j: int|
            0 <= i < j < self.batches@.len() ==> #[trigger] self.batches@[j].end_at
                <= #[trigger] self.batches@[i].start_at
        &&& forall|i: int|
            0 <= i < self.batches@.len() && self.position < self.windows@.len() ==> self.windows@[self.position as int].end
                <= #[trigger] self.batches@[i].start_at
    }

    /// Plans a walk back from `start_from` over `total_duration` in windows of
    /// `interval`; nothing is queried yet.
    pub fn plan(start_from: u64, total_duration: u64, interval: u64) -> (r: Result<Self, WindowError>)
        ensures
            match r {
                Ok(w) => {
                    &&& plan_outcome(start_from as int, total_duration as int, interval as int)
                        == Ok::<Seq<TimeWindow>, WindowError>(w.windows())
                    &&& w.wf()
                    &&& w.origin() == start_from
                    &&& w.position() == 0
                    &&& w.batches() == Seq::<RecordHistory<T>>::empty()
                },
                Err(e) => plan_outcome(start_from as int, total_duration as int, interval as int)
                    == Err::<Seq<TimeWindow>, WindowError>(e),
            },
    {
        match plan_windows(start_from, total_duration, interval) {
            Ok(windows) => {
                proof {
                    lemma_planned_newest_first(
                        start_from as int,
                        total_duration as int,
                        interval as int,
                    );
                }
                Ok(HistoryWalk { start_from, windows, position: 0, batches: Vec::new() })
            },
            Err(e) => Err(e),
        }
    }

    /// Plans a walk with the defaults: from `now` when `start_from` is `None`,
    /// over ninety days when `total_duration` is `None`, in windows of ninety days.
    /// The caller reads the clock and hands its reading in as `now`.
    pub fn with_defaults(start_from: Option<u64>, total_duration: Option<u64>, now: u64) -> (r:
        Result<Self, WindowError>)
        ensures
            match r {
                Ok(w) => {
                    &&& w.origin() == default_start(start_from, now)
                    &&& plan_outcome(
                        w.origin() as int,
                        default_total(total_duration) as int,
                        DEFAULT_HISTORY_MILLIS as int,
                    ) == Ok::<Seq<TimeWindow>, WindowError>(w.windows())
                    &&& w.wf()
                    &&& w.position() == 0
                    &&& w.batches() == Seq::<RecordHistory<T>>::empty()
                },
                Err(e) => plan_outcome(
                    default_start(start_from, now) as int,
                    default_total(total_duration) as int,
                    DEFAULT_HISTORY_MILLIS as int,
                ) == Err::<Seq<TimeWindow>, WindowError>(e),
            },
    {
        let from = match start_from {
            Some(t) => t,
            None => now,
        };
        let total = match total_duration {
            Some(d) => d,
            None => DEFAULT_HISTORY_MILLIS,
        };
        Self::plan(from, total, DEFAULT_HISTORY_MILLIS)
    }

    /// The instant the walk starts from.
    pub fn start_from(&self) -> (r: u64)
        ensures
            r == self.origin(),
    {
        self.start_from
    }

    /// Decides the next step: the next window to query, or the collected pages
    /// once every window was queried.
    pub fn next_step(self) -> (r: Next<T>)
        requires
            self.wf(),
        ensures
            match r {
                Next::Query(w, window) => {
                    &&& self.position() < self.windows().len()
                    &&& window == self.windows()[self.position()]
                    &&& w == self
                },
                Next::Done(batches) => {
                    &&& self.position() == self.windows().len()
                    &&& batches@ == self.batches()
                },
            },
    {
        if self.position < self.windows.len() {
            let window = self.windows[self.position];
            Next::Query(self, window)
        } else {
            Next::Done(self.batches)
        }
    }

    /// Takes the outcome of the query of the current window. A failure ends
    /// the walk: the error comes back and the pages collected so far are dropped.
    /// An empty page is skipped; any other page is kept, tagged with the window.
    pub fn receive<E>(self, outcome: Result<Vec<T>, E>) -> (r: Result<Self, E>)
        requires
            self.wf(),
            self.position() < self.windows().len(),
        ensures
            match outcome {
                Err(e) => r == Err::<Self, E>(e),
                Ok(records) => r is Ok && {
                    let w = r->Ok_0;
                    let window = self.windows()[self.position()];
                    &&& w.wf()
                    &&& w.origin() == self.origin()
                    &&& w.windows() == self.windows()
                    &&& w.position() == self.position() + 1
                    &&& w.batches() == if records@.len() == 0 {
                        self.batches()
                    } else {
                        self.batches().push(
                            (RecordHistory { start_at: window.start, end_at: window.end, records }),
                        )
                    }
                },
            },
    {
        match outcome {
            Err(e) => Err(e),
            Ok(records) => {
                let HistoryWalk { start_from, windows, position, mut batches } = self;
                let window = windows[position];
                let count = windows.len();
                assert(position < count);
                let ghost old_batches = batches@;
                if records.len() > 0 {
                    batches.push(RecordHistory { start_at: window.start, end_at: window.end, records });
                }
                let next = HistoryWalk { start_from, windows, position: position + 1, batches };
                proof {
                    let p = position as int;
                    let ws = next.windows@;
                    assert forall|i: int| 0 <= i < next.batches@.len() implies ws.subrange(
                        0,
                        p + 1,
                    ).contains(#[trigger] next.batches@[i].window()) by {
                        if i < old_batches.len() {
                            assert(ws.subrange(0, p).contains(old_batches[i].window()));
                            let j = choose|j: int|
                                0 <= j < p && ws.subrange(0, p)[j] == old_batches[i].window();
                            assert(ws.subrange(0, p + 1)[j] == next.batches@[i].window());
                        } else {
                            assert(ws.subrange(0, p + 1)[p] == next.batches@[i].window());
                        }
                    }
                    assert forall|i: int|
                        0 <= i < next.batches@.len() && p + 1 < ws.len() implies ws[p + 1].end
                        <= #[trigger] next.batches@[i].start_at by {
                        assert(ws[p + 1].end <= ws[p].start);
                        if i < old_batches.len() {
                            assert(ws[p].end <= old_batches[i].start_at);
                        }
                    }
                    assert forall|i: int, j: int|
                        0 <= i < j < next.batches@.len() implies #[trigger] next.batches@[j].end_at
                        <= #[trigger] next.batches@[i].start_at by {
                        if j == old_batches.len() {
                            assert(ws[p].end <= old_batches[i].start_at);
                        }
                    }
                }
                Ok(next)
            },
        }
    }
}

/// The pages a walk hands back are ordered from the newest window to the
/// oldest, none of them is empty, and each is tagged with one of the windows
/// that the walk has already had queried.
pub proof fn lemma_batches_newest_first<T>(walk: HistoryWalk<T>)
    requires
        walk.wf(),
    ensures
        forall|i: int, j: int|
            0 <= i < j < walk.batches().len() ==> #[trigger] walk.batches()[j].end_at
                <= #[trigger] walk.batches()[i].start_at,
        forall|i: int|
            0 <= i < walk.batches().len() ==> #[trigger] walk.batches()[i].start_at
                < walk.batches()[i].end_at,
        forall|i: int|
            0 <= i < walk.batches().len() ==> walk.windows().subrange(0, walk.position()).contains(
                #[trigger] walk.batches()[i].window(),
            ),
        forall|i: int|
            0 <= i < walk.batches().len() ==> #[trigger] walk.batches()[i].records@.len() > 0,
{
    assert forall|i: int| 0 <= i < walk.batches().len() implies #[trigger] walk.batches()[i].start_at
        < walk.batches()[i].end_at by {
        let ws = walk.windows();
        let p = walk.position();
        assert(ws.subrange(0, p).contains(walk.batches()[i].window()));
        let k = choose|k: int| 0 <= k < p && ws.subrange(0, p)[k] == walk.batches()[i].window();
        assert(ws[k].start < ws[k].end);
    }
}

/// A lookback of 180 days from any instant `t` at least 180 days after the
/// epoch, in windows of 90 days, is exactly two windows: `[t - 90d, t)` and then
/// `[t - 180d, t - 90d)`.
pub proof fn lemma_two_windows_cover_180_days(t: u64)
    requires
        t >= 2 * DEFAULT_HISTORY_MILLIS,
    ensures
        plan_outcome(t as int, 2 * DEFAULT_HISTORY_MILLIS, DEFAULT_HISTORY_MILLIS as int) == Ok::<
            Seq<TimeWindow>,
            WindowError,
        >(
            seq![
                TimeWindow { start: (t - DEFAULT_HISTORY_MILLIS) as u64, end: t },
                TimeWindow {
                    start: (t - 2 * DEFAULT_HISTORY_MILLIS) as u64,
                    end: (t - DEFAULT_HISTORY_MILLIS) as u64,
                },
            ],
        ),
{
    let d = DEFAULT_HISTORY_MILLIS as int;
    assert(window_count(2 * d, d) == 2);
    let ws = planned_windows(t as int, 2 * d, d);
    assert(ws =~= seq![
        TimeWindow { start: (t - d) as u64, end: t },
        TimeWindow { start: (t - 2 * d) as u64, end: (t - d) as u64 },
    ]);
}

/// With the lookback left to its default and the fixed ninety-day interval, a
/// walk from any instant `t` at least ninety days after the epoch queries
/// exactly one window, `[t - 90d, t)`.
pub proof fn lemma_default_lookback_is_one_window(t: u64)
    requires
        t >= DEFAULT_HISTORY_MILLIS,
    ensures
        plan_outcome(t as int, default_total(None) as int, DEFAULT_HISTORY_MILLIS as int) == Ok::<
            Seq<TimeWindow>,
            WindowError,
        >(seq![TimeWindow { start: (t - DEFAULT_HISTORY_MILLIS) as u64, end: t }]),
{
    let d = DEFAULT_HISTORY_MILLIS as int;
    assert(window_count(d, d) == 1);
    let ws = planned_windows(t as int, d, d);
    assert(ws =~= seq![TimeWindow { start: (t - d) as u64, end: t }]);
}

/// The instant a walk starts from: the one given, else the clock reading `now`.
pub open spec fn default_start(start_from: Option<u64>, now: u64) -> u64 {
    match start_from {
        Some(t) => t,
        None => now,
    }
}

/// The lookback used when the caller names none.
pub open spec fn default_total(total_duration: Option<u64>) -> u64 {
    match total_duration {
        Some(d) => d,
        None => DEFAULT_HISTORY_MILLIS,
    }
}

} // verus!
