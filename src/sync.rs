//! Price synchronisation: sync-state bookkeeping, reconciliation of fetched
//! bars against stored history, and the stored history of one instrument.
use vstd::prelude::*;
use crate::price::DailyPriceBar;

verus! {

/// Per-instrument record of the last considered trading date and whether its
/// bar is final.
#[derive(Clone, Copy, Debug, PartialEq, Eq, Structural)]
pub struct SyncState {
    /// Trading date as `YYYYMMDD`.
    pub date: u64,
    /// The bar for `date` is final and will not be revised.
    pub finalized: bool,
}

/// The record after `markPending`: a new pending record for `date` when none
/// exists, the existing record otherwise.
pub open spec fn spec_mark_pending(existing: Option<SyncState>, date: u64) -> SyncState {
    match existing {
        Some(s) => s,
        None => SyncState { date, finalized: false },
    }
}

/// Sync is already complete for `today`: the record is final for that date.
pub open spec fn spec_is_complete(state: Option<SyncState>, today: u64) -> bool {
    state matches Some(s) && s.finalized && s.date == today
}

/// Creates a pending record for `date` if none exists; keeps an existing one.
pub fn mark_pending(existing: Option<SyncState>, date: u64) -> (r: SyncState)
    ensures
        r == spec_mark_pending(existing, date),
{
    match existing {
        Some(s) => s,
        None => SyncState { date, finalized: false },
    }
}

/// The record after `markFinalized` for `date`.
pub fn mark_finalized(date: u64) -> (r: SyncState)
    ensures
        r == (SyncState { date, finalized: true }),
{
    SyncState { date, finalized: true }
}

/// Whether the stored series may be trusted for `today` without re-fetching.
pub fn is_complete(state: Option<SyncState>, today: u64) -> (r: bool)
    ensures
        r == spec_is_complete(state, today),
{
    match state {
        Some(s) => s.finalized && s.date == today,
        None => false,
    }
}

/// What a sync does first, from the record it read.
#[derive(Clone, Copy, Debug, PartialEq, Eq, Structural)]
pub enum SyncStart {
    /// Already final for today: no fetch and no storage work.
    Complete,
    /// No record yet: store this pending one, then go on.
    Create(SyncState),
    /// A record exists but is not final for today: go on.
    Continue,
}

/// The first step of a sync, from the record read for the instrument.
pub open spec fn spec_sync_start(state: Option<SyncState>, today: u64) -> SyncStart {
    if spec_is_complete(state, today) {
        SyncStart::Complete
    } else if state is None {
        SyncStart::Create(SyncState { date: today, finalized: false })
    } else {
        SyncStart::Continue
    }
}

/// Decides the first step of a sync.
pub fn sync_start(state: Option<SyncState>, today: u64) -> (r: SyncStart)
    ensures
        r == spec_sync_start(state, today),
{
    if is_complete(state, today) {
        SyncStart::Complete
    } else if state.is_none() {
        SyncStart::Create(mark_pending(state, today))
    } else {
        SyncStart::Continue
    }
}

/// Some bar of `s` is dated `d`.
pub open spec fn has_date(s: Seq<DailyPriceBar>, d: u64) -> bool {
    exists|i: int| 0 <= i < s.len() && (#[trigger] s[i]).date == d
}

/// No two bars of `s` share a date.
pub open spec fn unique_dates(s: Seq<DailyPriceBar>) -> bool {
    forall|i: int, j: int| 0 <= i < j < s.len() ==> (#[trigger] s[i]).date != (#[trigger] s[j]).date
}

/// The latest date among the bars of `s`; 0 when `s` is empty.
pub open spec fn latest(s: Seq<DailyPriceBar>) -> u64
    decreases s.len(),
{
    if s.len() == 0 {
        0
    } else {
        let l = latest(s.drop_last());
        if s.last().date > l { s.last().date } else { l }
    }
}

/// The fetched bars whose date is not stored, in fetched order.
pub open spec fn fresh_bars(stored: Seq<DailyPriceBar>, fetched: Seq<DailyPriceBar>) -> Seq<DailyPriceBar>
    decreases fetched.len(),
{
    if fetched.len() == 0 {
        Seq::empty()
    } else {
        let rest = fresh_bars(stored, fetched.drop_last());
        if has_date(stored, fetched.last().date) { rest } else { rest.push(fetched.last()) }
    }
}

/// The bars of `s` dated `d`, in order.
pub open spec fn bars_dated(s: Seq<DailyPriceBar>, d: u64) -> Seq<DailyPriceBar>
    decreases s.len(),
{
    if s.len() == 0 {
        Seq::empty()
    } else {
        let rest = bars_dated(s.drop_last(), d);
        if s.last().date == d { rest.push(s.last()) } else { rest }
    }
}

/// The fetched bars that overwrite stored ones: on an exchange with delayed
/// same-day finalisation, those dated as the latest stored bar.
pub open spec fn corrections(stored: Seq<DailyPriceBar>, fetched: Seq<DailyPriceBar>, delayed: bool) -> Seq<DailyPriceBar> {
    if delayed && stored.len() > 0 {
        bars_dated(fetched, latest(stored))
    } else {
        Seq::empty()
    }
}

/// Whether some bar of `bars` is dated `d`.
pub fn contains_date(bars: &Vec<DailyPriceBar>, d: u64) -> (r: bool)
    ensures
        r == has_date(bars@, d),
{
    let mut i: usize = 0;
    while i < bars.len()
        invariant
            i <= bars@.len(),
            forall|j: int| 0 <= j < i ==> (#[trigger] bars@[j]).date != d,
        decreases bars@.len() - i,
    {
        if bars[i].date == d {
            assert(bars@[i as int].date == d);
            return true;
        }
        i = i + 1;
    }
    false
}

/// The latest stored date, if any bar is stored.
pub fn latest_date(bars: &Vec<DailyPriceBar>) -> (r: Option<u64>)
    ensures
        r == (if bars@.len() == 0 { None } else { Some(latest(bars@)) }),
{
    let mut l: u64 = 0;
    let mut i: usize = 0;
    while i < bars.len()
        invariant
            i <= bars@.len(),
            l == latest(bars@.subrange(0, i as int)),
        decreases bars@.len() - i,
    {
        assert(bars@.subrange(0, i + 1).drop_last() == bars@.subrange(0, i as int));
        if bars[i].date > l {
            l = bars[i].date;
        }
        i = i + 1;
    }
    assert(bars@.subrange(0, bars@.len() as int) == bars@);
    if bars.len() == 0 {
        None
    } else {
        Some(l)
    }
}

/// A later bar of `s` carries the same date as bar `i`.
pub open spec fn superseded(s: Seq<DailyPriceBar>, i: int) -> bool {
    exists|j: int| i < j < s.len() && (#[trigger] s[j]).date == s[i].date
}

/// The bars among the first `n` of `s` that no later bar of `s` supersedes,
/// in order.
pub open spec fn kept_prefix(s: Seq<DailyPriceBar>, n: int) -> Seq<DailyPriceBar>
    decreases n,
{
    if n <= 0 {
        Seq::empty()
    } else {
        let r = kept_prefix(s, n - 1);
        if superseded(s, n - 1) { r } else { r.push(s[n - 1]) }
    }
}

/// The fetched series with one bar per date: where the source repeats a
/// date, its last bar for that date stands.
pub open spec fn latest_per_date(s: Seq<DailyPriceBar>) -> Seq<DailyPriceBar> {
    kept_prefix(s, s.len() as int)
}

/// The series with one bar per date, the last for each date, in order.
pub fn one_bar_per_date(s: &Vec<DailyPriceBar>) -> (r: Vec<DailyPriceBar>)
    ensures
        r@ == latest_per_date(s@),
{
    let n = s.len();
    let mut r: Vec<DailyPriceBar> = Vec::new();
    let mut i: usize = 0;
    while i < n
        invariant
            n == s@.len(),
            i <= n,
            r@ == kept_prefix(s@, i as int),
        decreases n - i,
    {
        let mut later = false;
        let mut j: usize = i + 1;
        while j < n
            invariant
                n == s@.len(),
                i < n,
                i + 1 <= j <= n,
                later == exists|k: int| i < k < j && (#[trigger] s@[k]).date == s@[i as int].date,
            decreases n - j,
        {
            if s[j].date == s[i].date {
                later = true;
            }
            j = j + 1;
        }
        if !later {
            r.push(s[i].clone());
        }
        i = i + 1;
    }
    r
}

proof fn lemma_kept_prefix(s: Seq<DailyPriceBar>, n: int)
    requires
        0 <= n <= s.len(),
    ensures
        forall|k: int| 0 <= k < kept_prefix(s, n).len() ==> exists|i: int|
            0 <= i < n && !superseded(s, i) && s[i] == #[trigger] kept_prefix(s, n)[k],
        unique_dates(kept_prefix(s, n)),
    decreases n,
{
    if n > 0 {
        lemma_kept_prefix(s, n - 1);
        let r = kept_prefix(s, n - 1);
        let q = kept_prefix(s, n);
        if !superseded(s, n - 1) {
            assert(q == r.push(s[n - 1]));
            assert forall|k: int| 0 <= k < q.len() implies exists|i: int|
                0 <= i < n && !superseded(s, i) && s[i] == #[trigger] q[k] by {
                if k < r.len() {
                    assert(q[k] == r[k]);
                } else {
                    assert(q[k] == s[n - 1]);
                }
            }
            assert forall|x: int, y: int| 0 <= x < y < q.len() implies
                (#[trigger] q[x]).date != (#[trigger] q[y]).date by {
                if y == r.len() {
                    assert(q[x] == r[x]);
                    let i = choose|i: int| 0 <= i < n - 1 && !superseded(s, i) && s[i] == #[trigger] r[x];
                    if s[i].date == s[n - 1].date {
                        assert(superseded(s, i));
                    }
                } else {
                    assert(q[x] == r[x] && q[y] == r[y]);
                }
            }
        }
    }
}

/// A series reduced to one bar per date has one bar per date.
pub proof fn lemma_latest_per_date_unique(s: Seq<DailyPriceBar>)
    ensures
        unique_dates(latest_per_date(s)),
{
    lemma_kept_prefix(s, s.len() as int);
}

/// A copy of `v`, bar by bar.
pub fn copy_bars(v: &Vec<DailyPriceBar>) -> (r: Vec<DailyPriceBar>)
    ensures
        r@ == v@,
{
    let mut r: Vec<DailyPriceBar> = Vec::new();
    let mut i: usize = 0;
    while i < v.len()
        invariant
            i <= v@.len(),
            r@ == v@.subrange(0, i as int),
        decreases v@.len() - i,
    {
        r.push(v[i].clone());
        assert(v@.subrange(0, i + 1) == v@.subrange(0, i as int).push(v@[i as int]));
        i = i + 1;
    }
    assert(v@.subrange(0, v@.len() as int) == v@);
    r
}

/// What reconciliation asks of the store.
pub struct ReconcilePlan {
    /// New bars, to insert in one batch.
    pub inserts: Vec<DailyPriceBar>,
    /// Bars that overwrite the stored bar of the same date.
    pub updates: Vec<DailyPriceBar>,
}

/// Reconciles fetched bars with the stored bars of the same instrument.
/// The fetched series is first reduced to one bar per date, the source's
/// last for each date. Then each bar whose date is not stored is queued for
/// insertion; on an exchange with delayed same-day finalisation the bar
/// dated as the latest stored bar is queued to overwrite it.
pub fn reconcile(stored: &Vec<DailyPriceBar>, fetched: &Vec<DailyPriceBar>, delayed: bool) -> (r: ReconcilePlan)
    ensures
        r.inserts@ == fresh_bars(stored@, latest_per_date(fetched@)),
        r.updates@ == corrections(stored@, latest_per_date(fetched@), delayed),
{
    let fetched = &one_bar_per_date(fetched);
    let last = latest_date(stored);
    let mut inserts: Vec<DailyPriceBar> = Vec::new();
    let mut updates: Vec<DailyPriceBar> = Vec::new();
    let mut i: usize = 0;
    while i < fetched.len()
        invariant
            i <= fetched@.len(),
            last == (if stored@.len() == 0 { None } else { Some(latest(stored@)) }),
            inserts@ == fresh_bars(stored@, fetched@.subrange(0, i as int)),
            delayed && stored@.len() > 0 ==> updates@ == bars_dated(fetched@.subrange(0, i as int), latest(stored@)),
            !(delayed && stored@.len() > 0) ==> updates@ == Seq::<DailyPriceBar>::empty(),
        decreases fetched@.len() - i,
    {
        let b = &fetched[i];
        assert(fetched@.subrange(0, i + 1).drop_last() == fetched@.subrange(0, i as int));
        assert(fetched@.subrange(0, i + 1).last() == fetched@[i as int]);
        if !contains_date(stored, b.date) {
            inserts.push(b.clone());
        }
        if delayed {
            match last {
                Some(d) => {
                    if b.date == d {
                        updates.push(b.clone());
                    }
                },
                None => {},
            }
        }
        i = i + 1;
    }
    assert(fetched@.subrange(0, fetched@.len() as int) == fetched@);
    ReconcilePlan { inserts, updates }
}

/// `h` after the store is asked to insert `b`: the key (instrument, date) is
/// unique, so a bar whose date is already stored is rejected.
pub open spec fn insert_one(h: Seq<DailyPriceBar>, b: DailyPriceBar) -> Seq<DailyPriceBar> {
    if has_date(h, b.date) { h } else { h.push(b) }
}

/// `h` after a batch insertion of `batch`, bar by bar.
pub open spec fn insert_all(h: Seq<DailyPriceBar>, batch: Seq<DailyPriceBar>) -> Seq<DailyPriceBar>
    decreases batch.len(),
{
    if batch.len() == 0 {
        h
    } else {
        insert_one(insert_all(h, batch.drop_last()), batch.last())
    }
}

/// `h` after `b` overwrites the stored bar of its date, if any.
pub open spec fn correct_one(h: Seq<DailyPriceBar>, b: DailyPriceBar) -> Seq<DailyPriceBar> {
    Seq::new(h.len(), |i: int| if h[i].date == b.date { b } else { h[i] })
}

/// `h` after each bar of `ups`, in order, overwrites the stored bar of its date.
pub open spec fn correct_all(h: Seq<DailyPriceBar>, ups: Seq<DailyPriceBar>) -> Seq<DailyPriceBar>
    decreases ups.len(),
{
    if ups.len() == 0 {
        h
    } else {
        correct_one(correct_all(h, ups.drop_last()), ups.last())
    }
}

/// The stored daily bars of one instrument, as the store holds them.
pub struct PriceHistory {
    pub bars: Vec<DailyPriceBar>,
}

impl PriceHistory {
    /// At most one bar per date.
    pub open spec fn wf(&self) -> bool {
        unique_dates(self.bars@)
    }

    /// An empty history.
    pub fn new() -> (r: PriceHistory)
        ensures
            r.bars@ == Seq::<DailyPriceBar>::empty(),
            r.wf(),
    {
        PriceHistory { bars: Vec::new() }
    }

    /// Inserts a batch in one operation; a bar whose date is already stored
    /// is rejected, and an empty batch changes nothing.
    pub fn insert_batch(&mut self, batch: &Vec<DailyPriceBar>)
        requires
            old(self).wf(),
        ensures
            final(self).bars@ == insert_all(old(self).bars@, batch@),
            final(self).wf(),
    {
        let mut i: usize = 0;
        while i < batch.len()
            invariant
                i <= batch@.len(),
                self.bars@ == insert_all(old(self).bars@, batch@.subrange(0, i as int)),
                self.wf(),
            decreases batch@.len() - i,
        {
            let b = &batch[i];
            assert(batch@.subrange(0, i + 1).drop_last() == batch@.subrange(0, i as int));
            assert(batch@.subrange(0, i + 1).last() == batch@[i as int]);
            if !contains_date(&self.bars, b.date) {
                let ghost before = self.bars@;
                self.bars.push(b.clone());
                assert forall|x: int, y: int| 0 <= x < y < self.bars@.len() implies
                    (#[trigger] self.bars@[x]).date != (#[trigger] self.bars@[y]).date by {
                    if y == before.len() {
                        assert(before[x].date != b.date);
                    } else {
                        assert(before[x] == self.bars@[x] && before[y] == self.bars@[y]);
                    }
                }
            }
            i = i + 1;
        }
        assert(batch@.subrange(0, batch@.len() as int) == batch@);
    }

    /// Overwrites the stored bar dated as `b`, if any.
    pub fn overwrite(&mut self, b: &DailyPriceBar)
        requires
            old(self).wf(),
        ensures
            final(self).bars@ == correct_one(old(self).bars@, *b),
            final(self).wf(),
    {
        let ghost start = self.bars@;
        let mut i: usize = 0;
        while i < self.bars.len()
            invariant
                i <= self.bars@.len(),
                self.bars@.len() == start.len(),
                forall|k: int| 0 <= k < i ==> #[trigger] self.bars@[k] == (if start[k].date == b.date { *b } else { start[k] }),
                forall|k: int| i <= k < start.len() ==> #[trigger] self.bars@[k] == start[k],
            decreases self.bars@.len() - i,
        {
            if self.bars[i].date == b.date {
                self.bars[i] = b.clone();
            }
            i = i + 1;
        }
        assert(self.bars@ == correct_one(start, *b));
        assert forall|x: int, y: int| 0 <= x < y < self.bars@.len() implies
            (#[trigger] self.bars@[x]).date != (#[trigger] self.bars@[y]).date by {
            assert(start[x].date != start[y].date);
        }
    }

    /// Overwrites, bar by bar in order, the stored bars dated as those of `ups`.
    pub fn apply_updates(&mut self, ups: &Vec<DailyPriceBar>)
        requires
            old(self).wf(),
        ensures
            final(self).bars@ == correct_all(old(self).bars@, ups@),
            final(self).wf(),
    {
        let mut i: usize = 0;
        while i < ups.len()
            invariant
                i <= ups@.len(),
                self.bars@ == correct_all(old(self).bars@, ups@.subrange(0, i as int)),
                self.wf(),
            decreases ups@.len() - i,
        {
            assert(ups@.subrange(0, i + 1).drop_last() == ups@.subrange(0, i as int));
            assert(ups@.subrange(0, i + 1).last() == ups@[i as int]);
            self.overwrite(&ups[i]);
            i = i + 1;
        }
        assert(ups@.subrange(0, ups@.len() as int) == ups@);
    }
}

/// Whether a sync may mark today final: a fetched bar is dated today, or
/// today is a non-trading day.
pub open spec fn spec_should_finalize(fetched: Seq<DailyPriceBar>, today: u64, today_non_trading: bool) -> bool {
    has_date(fetched, today) || today_non_trading
}

/// Decides whether a sync marks today final.
pub fn should_finalize(fetched: &Vec<DailyPriceBar>, today: u64, today_non_trading: bool) -> (r: bool)
    ensures
        r == spec_should_finalize(fetched@, today, today_non_trading),
{
    contains_date(fetched, today) || today_non_trading
}

/// Stored history after one sync that fetched `fetched`.
pub open spec fn spec_synced_history(
    h: Seq<DailyPriceBar>,
    state: Option<SyncState>,
    fetched: Seq<DailyPriceBar>,
    today: u64,
    delayed: bool,
) -> Seq<DailyPriceBar> {
    if spec_is_complete(state, today) {
        h
    } else {
        let g = latest_per_date(fetched);
        insert_all(correct_all(h, corrections(h, g, delayed)), fresh_bars(h, g))
    }
}

/// Sync record after one sync that fetched `fetched`.
pub open spec fn spec_synced_state(
    state: Option<SyncState>,
    fetched: Seq<DailyPriceBar>,
    today: u64,
    today_non_trading: bool,
) -> SyncState {
    if spec_is_complete(state, today) {
        state.unwrap()
    } else if spec_should_finalize(fetched, today, today_non_trading) {
        SyncState { date: today, finalized: true }
    } else {
        spec_mark_pending(state, today)
    }
}

/// One sync of an instrument's daily prices against its stored history:
/// nothing is done when the record is already final for today; otherwise
/// the record is created pending if absent, the fetched bars are reconciled
/// (one bar per date; overwrites, then one batch insertion), and the record is marked final
/// for today when a fetched bar is dated today or today is a non-trading day.
/// Returns the record as it stands afterwards. The steps are those of a
/// `SyncRun`, performed against the history held here.
pub fn sync_stock_daily_price(
    history: &mut PriceHistory,
    state: Option<SyncState>,
    fetched: &Vec<DailyPriceBar>,
    today: u64,
    today_non_trading: bool,
    delayed: bool,
) -> (r: SyncState)
    requires
        old(history).wf(),
    ensures
        final(history).wf(),
        final(history).bars@ == spec_synced_history(old(history).bars@, state, fetched@, today, delayed),
        r == spec_synced_state(state, fetched@, today, today_non_trading),
{
    let (run, action) = SyncRun::new(today, delayed);
    let (run, action) = run.step(SyncEvent::StateRead { state });
    let (run, action, pending) = match action {
        SyncAction::Done => {
            return state.unwrap();
        },
        SyncAction::CreateRecord { record } => {
            let (run, action) = run.step(SyncEvent::RecordCreated);
            (run, action, record)
        },
        _ => (run, action, mark_pending(state, today)),
    };
    assert(run.phase == SyncPhase::Loading && action is Load);
    let stored = copy_bars(&history.bars);
    let (run, action) = run.step(SyncEvent::Loaded { stored, fetched: copy_bars(fetched) });
    match action {
        SyncAction::Write { plan } => {
            history.apply_updates(&plan.updates);
            history.insert_batch(&plan.inserts);
        },
        _ => {},
    }
    let (run, action) = run.step(SyncEvent::Written);
    let (run, action) = match action {
        SyncAction::CheckNonTradingDay => run.step(SyncEvent::DayChecked { non_trading: today_non_trading }),
        _ => (run, action),
    };
    match action {
        SyncAction::MarkFinalized { record } => {
            let _ = run.step(SyncEvent::Finalized);
            record
        },
        _ => pending,
    }
}

/// Where one sync run against the store stands.
#[derive(Clone, Copy, Debug, PartialEq, Eq, Structural)]
pub enum SyncPhase {
    /// About to read the instrument's sync record.
    ReadingState,
    /// No record existed: a pending one is being stored.
    CreatingRecord,
    /// About to read the stored bars and fetch the source's series.
    Loading,
    /// The reconciliation is being written.
    Writing,
    /// No bar dated today was fetched: asking whether today trades.
    CheckingDay,
    /// The record is being marked final for today.
    Finalizing,
    /// Over.
    Done,
}

/// One sync run: the exchange-local date, the exchange's finalisation rule,
/// the phase, and whether a fetched bar is dated today.
#[derive(Clone, Copy, Debug, PartialEq, Eq, Structural)]
pub struct SyncRun {
    pub today: u64,
    pub delayed: bool,
    pub phase: SyncPhase,
    pub fetched_today: bool,
}

/// What the store and the source report back to a sync run.
pub enum SyncEvent {
    /// The sync record was read.
    StateRead { state: Option<SyncState> },
    /// The pending record was stored.
    RecordCreated,
    /// The stored bars (ascending by date) were read and the series fetched.
    Loaded { stored: Vec<DailyPriceBar>, fetched: Vec<DailyPriceBar> },
    /// The overwrites and then the batch insertion were written.
    Written,
    /// Whether today is a non-trading day.
    DayChecked { non_trading: bool },
    /// The final record was stored.
    Finalized,
}

/// What a sync run asks of the store and the source next.
pub enum SyncAction {
    ReadState,
    CreateRecord { record: SyncState },
    Load,
    /// Apply `plan.updates` in order, then insert `plan.inserts` in one batch.
    Write { plan: ReconcilePlan },
    CheckNonTradingDay,
    MarkFinalized { record: SyncState },
    /// The run is over.
    Done,
    /// The event does not fit the phase; nothing to do.
    Ignored,
}

impl SyncRun {
    /// A run for exchange-local date `today`.
    pub fn new(today: u64, delayed: bool) -> (r: (SyncRun, SyncAction))
        ensures
            r.0 == (SyncRun { today, delayed, phase: SyncPhase::ReadingState, fetched_today: false }),
            r.1 is ReadState,
    {
        (SyncRun { today, delayed, phase: SyncPhase::ReadingState, fetched_today: false }, SyncAction::ReadState)
    }

    /// The run with another phase.
    pub open spec fn at(self, phase: SyncPhase) -> SyncRun {
        SyncRun { phase, ..self }
    }

    /// Moves a sync run on by one event, in the order read record, create it
    /// if absent, load, write, check the day if needed, finalise: nothing is
    /// done past the record when it is already final for today, and the
    /// record is marked final when a fetched bar is dated today or today is a
    /// non-trading day.
    pub fn step(self, event: SyncEvent) -> (r: (SyncRun, SyncAction))
        ensures
            match (self.phase, event) {
                (SyncPhase::ReadingState, SyncEvent::StateRead { state }) => match spec_sync_start(state, self.today) {
                    SyncStart::Complete => r.0 == self.at(SyncPhase::Done) && r.1 is Done,
                    SyncStart::Create(record) => r.0 == self.at(SyncPhase::CreatingRecord)
                        && r.1 == (SyncAction::CreateRecord { record }),
                    SyncStart::Continue => r.0 == self.at(SyncPhase::Loading) && r.1 is Load,
                },
                (SyncPhase::CreatingRecord, SyncEvent::RecordCreated) => r.0 == self.at(SyncPhase::Loading) && r.1 is Load,
                (SyncPhase::Loading, SyncEvent::Loaded { stored, fetched }) => {
                    &&& r.0 == (SyncRun { phase: SyncPhase::Writing, fetched_today: has_date(fetched@, self.today), ..self })
                    &&& r.1 matches SyncAction::Write { plan }
                    &&& plan.inserts@ == fresh_bars(stored@, latest_per_date(fetched@))
                    &&& plan.updates@ == corrections(stored@, latest_per_date(fetched@), self.delayed)
                },
                (SyncPhase::Writing, SyncEvent::Written) => if self.fetched_today {
                    r.0 == self.at(SyncPhase::Finalizing)
                        && r.1 == (SyncAction::MarkFinalized { record: SyncState { date: self.today, finalized: true } })
                } else {
                    r.0 == self.at(SyncPhase::CheckingDay) && r.1 is CheckNonTradingDay
                },
                (SyncPhase::CheckingDay, SyncEvent::DayChecked { non_trading }) => if non_trading {
                    r.0 == self.at(SyncPhase::Finalizing)
                        && r.1 == (SyncAction::MarkFinalized { record: SyncState { date: self.today, finalized: true } })
                } else {
                    r.0 == self.at(SyncPhase::Done) && r.1 is Done
                },
                (SyncPhase::Finalizing, SyncEvent::Finalized) => r.0 == self.at(SyncPhase::Done) && r.1 is Done,
                _ => r.0 == self && r.1 is Ignored,
            },
    {
        let run = self;
        match (run.phase, event) {
            (SyncPhase::ReadingState, SyncEvent::StateRead { state }) => match sync_start(state, run.today) {
                SyncStart::Complete => (SyncRun { phase: SyncPhase::Done, ..run }, SyncAction::Done),
                SyncStart::Create(record) => (SyncRun { phase: SyncPhase::CreatingRecord, ..run }, SyncAction::CreateRecord { record }),
                SyncStart::Continue => (SyncRun { phase: SyncPhase::Loading, ..run }, SyncAction::Load),
            },
            (SyncPhase::CreatingRecord, SyncEvent::RecordCreated) => (SyncRun { phase: SyncPhase::Loading, ..run }, SyncAction::Load),
            (SyncPhase::Loading, SyncEvent::Loaded { stored, fetched }) => {
                let fetched_today = contains_date(&fetched, run.today);
                let plan = reconcile(&stored, &fetched, run.delayed);
                (SyncRun { phase: SyncPhase::Writing, fetched_today, ..run }, SyncAction::Write { plan })
            },
            (SyncPhase::Writing, SyncEvent::Written) => {
                if run.fetched_today {
                    (SyncRun { phase: SyncPhase::Finalizing, ..run }, SyncAction::MarkFinalized { record: mark_finalized(run.today) })
                } else {
                    (SyncRun { phase: SyncPhase::CheckingDay, ..run }, SyncAction::CheckNonTradingDay)
                }
            },
            (SyncPhase::CheckingDay, SyncEvent::DayChecked { non_trading }) => {
                if non_trading {
                    (SyncRun { phase: SyncPhase::Finalizing, ..run }, SyncAction::MarkFinalized { record: mark_finalized(run.today) })
                } else {
                    (SyncRun { phase: SyncPhase::Done, ..run }, SyncAction::Done)
                }
            },
            (SyncPhase::Finalizing, SyncEvent::Finalized) => (SyncRun { phase: SyncPhase::Done, ..run }, SyncAction::Done),
            _ => (run, SyncAction::Ignored),
        }
    }
}

proof fn lemma_latest_bounds(s: Seq<DailyPriceBar>, d: u64)
    ensures
        has_date(s, d) ==> d <= latest(s),
        s.len() > 0 ==> has_date(s, latest(s)),
    decreases s.len(),
{
    if s.len() > 0 {
        let p = s.drop_last();
        lemma_latest_bounds(p, d);
        if has_date(s, d) {
            let i = choose|i: int| 0 <= i < s.len() && (#[trigger] s[i]).date == d;
            if i < p.len() {
                assert(p[i] == s[i]);
            }
        }
        if p.len() > 0 {
            let j = choose|j: int| 0 <= j < p.len() && (#[trigger] p[j]).date == latest(p);
            assert(s[j] == p[j]);
        }
        assert(s[s.len() - 1] == s.last());
        if has_date(p, d) {
            let j = choose|j: int| 0 <= j < p.len() && (#[trigger] p[j]).date == d;
            assert(s[j] == p[j]);
        }
    }
}

proof fn lemma_correct_all_dates(h: Seq<DailyPriceBar>, ups: Seq<DailyPriceBar>)
    ensures
        correct_all(h, ups).len() == h.len(),
        forall|i: int| 0 <= i < h.len() ==> (#[trigger] correct_all(h, ups)[i]).date == h[i].date,
    decreases ups.len(),
{
    if ups.len() > 0 {
        lemma_correct_all_dates(h, ups.drop_last());
    }
}

proof fn lemma_correct_all_keeps(h: Seq<DailyPriceBar>, ups: Seq<DailyPriceBar>)
    ensures
        unique_dates(h) ==> unique_dates(correct_all(h, ups)),
        forall|d: u64| has_date(h, d) == #[trigger] has_date(correct_all(h, ups), d),
        h.len() > 0 ==> latest(correct_all(h, ups)) == latest(h),
{
    lemma_correct_all_dates(h, ups);
    let c = correct_all(h, ups);
    assert forall|d: u64| has_date(h, d) == #[trigger] has_date(c, d) by {
        if has_date(h, d) {
            let i = choose|i: int| 0 <= i < h.len() && (#[trigger] h[i]).date == d;
            assert(c[i].date == d);
        }
        if has_date(c, d) {
            let i = choose|i: int| 0 <= i < c.len() && (#[trigger] c[i]).date == d;
            assert(h[i].date == d);
        }
    }
    if h.len() > 0 {
        lemma_latest_bounds(h, latest(c));
        lemma_latest_bounds(c, latest(h));
    }
    if unique_dates(h) {
        assert forall|i: int, j: int| 0 <= i < j < c.len() implies (#[trigger] c[i]).date != (#[trigger] c[j]).date by {
            assert(h[i].date != h[j].date);
        }
    }
}

proof fn lemma_insert_all(h: Seq<DailyPriceBar>, batch: Seq<DailyPriceBar>)
    ensures
        insert_all(h, batch).len() >= h.len(),
        forall|i: int| 0 <= i < h.len() ==> #[trigger] insert_all(h, batch)[i] == h[i],
        forall|i: int| h.len() <= i < insert_all(h, batch).len() ==> batch.contains(#[trigger] insert_all(h, batch)[i]),
        forall|d: u64| #[trigger] has_date(insert_all(h, batch), d) == (has_date(h, d) || has_date(batch, d)),
        unique_dates(h) ==> unique_dates(insert_all(h, batch)),
    decreases batch.len(),
{
    if batch.len() > 0 {
        let p = batch.drop_last();
        let b = batch.last();
        let r0 = insert_all(h, p);
        lemma_insert_all(h, p);
        let r = insert_all(h, batch);
        assert(r == insert_one(r0, b));
        assert forall|i: int| h.len() <= i < r.len() implies batch.contains(#[trigger] r[i]) by {
            if i < r0.len() {
                assert(r[i] == r0[i]);
                let k = choose|k: int| 0 <= k < p.len() && p[k] == r0[i];
                assert(batch[k] == p[k]);
            } else {
                assert(r[i] == b);
                assert(batch[batch.len() - 1] == b);
            }
        }
        assert forall|d: u64| #[trigger] has_date(r, d) == (has_date(h, d) || has_date(batch, d)) by {
            if has_date(batch, d) {
                let k = choose|k: int| 0 <= k < batch.len() && (#[trigger] batch[k]).date == d;
                if k < p.len() {
                    assert(p[k] == batch[k]);
                    assert(has_date(p, d));
                } else {
                    if !has_date(r0, d) {
                        assert(r[r0.len() as int] == b);
                    }
                }
            }
            if has_date(p, d) {
                let k = choose|k: int| 0 <= k < p.len() && (#[trigger] p[k]).date == d;
                assert(batch[k] == p[k]);
            }
            if has_date(r, d) {
                let k = choose|k: int| 0 <= k < r.len() && (#[trigger] r[k]).date == d;
                if k < r0.len() {
                    assert(r[k] == r0[k]);
                } else {
                    assert(batch[batch.len() - 1] == b);
                }
            }
            if has_date(r0, d) {
                let k = choose|k: int| 0 <= k < r0.len() && (#[trigger] r0[k]).date == d;
                assert(r[k] == r0[k]);
            }
        }
        if unique_dates(h) {
            assert forall|i: int, j: int| 0 <= i < j < r.len() implies (#[trigger] r[i]).date != (#[trigger] r[j]).date by {
                if j >= r0.len() {
                    assert(r[i] == r0[i]);
                } else {
                    assert(r[i] == r0[i] && r[j] == r0[j]);
                }
            }
        }
    }
}

proof fn lemma_fresh_bars(stored: Seq<DailyPriceBar>, fetched: Seq<DailyPriceBar>)
    ensures
        forall|k: int| 0 <= k < fresh_bars(stored, fetched).len() ==>
            fetched.contains(#[trigger] fresh_bars(stored, fetched)[k]),
        forall|d: u64| #[trigger] has_date(fresh_bars(stored, fetched), d) == (has_date(fetched, d) && !has_date(stored, d)),
    decreases fetched.len(),
{
    if fetched.len() > 0 {
        let p = fetched.drop_last();
        let b = fetched.last();
        lemma_fresh_bars(stored, p);
        let f0 = fresh_bars(stored, p);
        let f = fresh_bars(stored, fetched);
        assert forall|k: int| 0 <= k < f.len() implies fetched.contains(#[trigger] f[k]) by {
            if k < f0.len() {
                assert(f[k] == f0[k]);
                let j = choose|j: int| 0 <= j < p.len() && p[j] == f0[k];
                assert(fetched[j] == p[j]);
            } else {
                assert(fetched[fetched.len() - 1] == b);
            }
        }
        assert forall|d: u64| #[trigger] has_date(f, d) == (has_date(fetched, d) && !has_date(stored, d)) by {
            if has_date(f, d) {
                let k = choose|k: int| 0 <= k < f.len() && (#[trigger] f[k]).date == d;
                if k < f0.len() {
                    assert(f[k] == f0[k]);
                    assert(has_date(f0, d));
                    let j = choose|j: int| 0 <= j < p.len() && (#[trigger] p[j]).date == d;
                    assert(fetched[j] == p[j]);
                } else {
                    assert(!has_date(stored, b.date));
                    assert(f == f0.push(b));
                    assert(f[k] == b);
                    assert(fetched[fetched.len() - 1] == b);
                }
            }
            if has_date(fetched, d) && !has_date(stored, d) {
                let j = choose|j: int| 0 <= j < fetched.len() && (#[trigger] fetched[j]).date == d;
                if j < p.len() {
                    assert(p[j] == fetched[j]);
                    assert(has_date(p, d));
                    assert(has_date(f0, d));
                    let k = choose|k: int| 0 <= k < f0.len() && (#[trigger] f0[k]).date == d;
                    assert(f[k] == f0[k]);
                } else {
                    assert(f[f0.len() as int] == b);
                }
            }
        }
    }
}

proof fn lemma_fresh_bars_none(stored: Seq<DailyPriceBar>, fetched: Seq<DailyPriceBar>)
    requires
        forall|j: int| 0 <= j < fetched.len() ==> has_date(stored, (#[trigger] fetched[j]).date),
    ensures
        fresh_bars(stored, fetched) == Seq::<DailyPriceBar>::empty(),
    decreases fetched.len(),
{
    if fetched.len() > 0 {
        let p = fetched.drop_last();
        assert forall|j: int| 0 <= j < p.len() implies has_date(stored, (#[trigger] p[j]).date) by {
            assert(p[j] == fetched[j]);
        }
        lemma_fresh_bars_none(stored, p);
        assert(fetched[fetched.len() - 1] == fetched.last());
    }
}

proof fn lemma_bars_dated(s: Seq<DailyPriceBar>, d: u64)
    ensures
        forall|k: int| 0 <= k < bars_dated(s, d).len() ==>
            (#[trigger] bars_dated(s, d)[k]).date == d && s.contains(bars_dated(s, d)[k]),
    decreases s.len(),
{
    if s.len() > 0 {
        let p = s.drop_last();
        lemma_bars_dated(p, d);
        let b0 = bars_dated(p, d);
        let b = bars_dated(s, d);
        assert forall|k: int| 0 <= k < b.len() implies (#[trigger] b[k]).date == d && s.contains(b[k]) by {
            if k < b0.len() {
                assert(b[k] == b0[k]);
                let j = choose|j: int| 0 <= j < p.len() && p[j] == b0[k];
                assert(s[j] == p[j]);
            } else {
                assert(s[s.len() - 1] == s.last());
            }
        }
    }
}

proof fn lemma_correct_all_noop(h: Seq<DailyPriceBar>, ups: Seq<DailyPriceBar>)
    requires
        unique_dates(h),
        forall|k: int| 0 <= k < ups.len() ==> h.contains(#[trigger] ups[k]),
    ensures
        correct_all(h, ups) == h,
    decreases ups.len(),
{
    if ups.len() > 0 {
        let p = ups.drop_last();
        assert forall|k: int| 0 <= k < p.len() implies h.contains(#[trigger] p[k]) by {
            assert(p[k] == ups[k]);
        }
        lemma_correct_all_noop(h, p);
        let u = ups.last();
        assert(ups[ups.len() - 1] == u);
        let i = choose|i: int| 0 <= i < h.len() && h[i] == u;
        assert forall|k: int| 0 <= k < h.len() implies #[trigger] correct_one(h, u)[k] == h[k] by {
            if h[k].date == u.date && k != i {
                if k < i {
                    assert(h[k].date != h[i].date);
                } else {
                    assert(h[i].date != h[k].date);
                }
            }
        }
        assert(correct_one(h, u) =~= h);
    }
}

proof fn lemma_correct_row(h: Seq<DailyPriceBar>, ups: Seq<DailyPriceBar>, i: int)
    requires
        ups.len() > 0,
        0 <= i < h.len(),
        ups.last().date == h[i].date,
    ensures
        correct_all(h, ups)[i] == ups.last(),
{
    lemma_correct_all_dates(h, ups.drop_last());
}

/// Syncing twice in succession with no new upstream data (the same fetched
/// series, on the same day) leaves the stored history and
/// the sync record as the first sync left them: at most one finalisation.
pub proof fn lemma_sync_idempotent(
    h: Seq<DailyPriceBar>,
    state: Option<SyncState>,
    fetched: Seq<DailyPriceBar>,
    today: u64,
    today_non_trading: bool,
    delayed: bool,
)
    requires
        unique_dates(h),
    ensures
        ({
            let h1 = spec_synced_history(h, state, fetched, today, delayed);
            let s1 = spec_synced_state(state, fetched, today, today_non_trading);
            &&& spec_synced_history(h1, Some(s1), fetched, today, delayed) == h1
            &&& spec_synced_state(Some(s1), fetched, today, today_non_trading) == s1
        }),
{
    let h1 = spec_synced_history(h, state, fetched, today, delayed);
    let s1 = spec_synced_state(state, fetched, today, today_non_trading);
    if spec_is_complete(state, today) || spec_is_complete(Some(s1), today) {
        return;
    }
    let g = latest_per_date(fetched);
    lemma_latest_per_date_unique(fetched);
    let ups = corrections(h, g, delayed);
    let hc = correct_all(h, ups);
    let fr = fresh_bars(h, g);
    lemma_correct_all_keeps(h, ups);
    lemma_correct_all_dates(h, ups);
    lemma_fresh_bars(h, g);
    lemma_insert_all(hc, fr);
    assert(h1 == insert_all(hc, fr));
    assert forall|j: int| 0 <= j < g.len() implies has_date(h1, (#[trigger] g[j]).date) by {
        let d = g[j].date;
        assert(has_date(g, d));
        if !has_date(h, d) {
            assert(has_date(fr, d));
        }
    }
    lemma_fresh_bars_none(h1, g);
    if delayed && h1.len() > 0 {
        let l1 = latest(h1);
        lemma_bars_dated(g, l1);
        let ups2 = bars_dated(g, l1);
        assert forall|k: int| 0 <= k < ups2.len() implies h1.contains(#[trigger] ups2[k]) by {
            let u = ups2[k];
            let j = choose|j: int| 0 <= j < g.len() && g[j] == u;
            assert(has_date(h1, (g[j]).date));
            let i = choose|i: int| 0 <= i < h1.len() && (#[trigger] h1[i]).date == l1;
            if has_date(h, l1) {
                lemma_latest_bounds(h, l1);
                lemma_latest_bounds(h1, latest(h));
                assert(has_date(hc, latest(h)));
                assert(l1 == latest(h));
                let ih = choose|ih: int| 0 <= ih < h.len() && (#[trigger] h[ih]).date == l1;
                assert(has_date(ups, l1)) by {
                    assert(bars_dated(g, l1).len() > 0);
                }
                assert(h1[ih] == hc[ih]);
                let last = ups.last();
                assert(ups[ups.len() - 1] == last);
                let jl = choose|jl: int| 0 <= jl < g.len() && g[jl] == last;
                if jl != j {
                    if jl < j {
                        assert(g[jl].date != g[j].date);
                    } else {
                        assert(g[j].date != g[jl].date);
                    }
                }
                lemma_correct_row(h, ups, ih);
                assert(h1[ih] == u);
            } else {
                if i < hc.len() {
                    assert(hc[i].date == h[i].date);
                    assert(false);
                }
                let j2 = choose|j2: int| 0 <= j2 < g.len() && g[j2] == h1[i];
                if j2 != j {
                    if j2 < j {
                        assert(g[j2].date != g[j].date);
                    } else {
                        assert(g[j].date != g[j2].date);
                    }
                }
            }
        }
        lemma_correct_all_noop(h1, ups2);
        assert(corrections(h1, g, delayed) == ups2);
    }
    assert(spec_synced_history(h1, Some(s1), fetched, today, delayed) == insert_all(correct_all(h1, corrections(h1, g, delayed)), Seq::<DailyPriceBar>::empty()));
}

/// A sync never turns a record that is final for a date back to pending for
/// that date; marking pending keeps an existing record as it is.
pub proof fn lemma_finalized_kept(
    state: SyncState,
    fetched: Seq<DailyPriceBar>,
    today: u64,
    today_non_trading: bool,
)
    requires
        state.finalized,
    ensures
        spec_mark_pending(Some(state), today) == state,
        ({
            let r = spec_synced_state(Some(state), fetched, today, today_non_trading);
            r.date == state.date ==> r.finalized
        }),
{
}

/// Two syncs of the same instrument that both read the same stored history,
/// then write their overwrites and insertions interleaved or one after the
/// other, never leave two stored bars with the same date.
pub proof fn lemma_concurrent_syncs_keep_keys_unique(
    h: Seq<DailyPriceBar>,
    fetched1: Seq<DailyPriceBar>,
    fetched2: Seq<DailyPriceBar>,
    delayed: bool,
)
    requires
        unique_dates(h),
    ensures
        ({
            let c1 = corrections(h, latest_per_date(fetched1), delayed);
            let c2 = corrections(h, latest_per_date(fetched2), delayed);
            let i1 = fresh_bars(h, latest_per_date(fetched1));
            let i2 = fresh_bars(h, latest_per_date(fetched2));
            &&& unique_dates(insert_all(insert_all(correct_all(correct_all(h, c1), c2), i1), i2))
            &&& unique_dates(insert_all(correct_all(insert_all(correct_all(h, c1), i1), c2), i2))
        }),
{
    let c1 = corrections(h, latest_per_date(fetched1), delayed);
    let c2 = corrections(h, latest_per_date(fetched2), delayed);
    let i1 = fresh_bars(h, latest_per_date(fetched1));
    let i2 = fresh_bars(h, latest_per_date(fetched2));
    lemma_correct_all_keeps(h, c1);
    lemma_correct_all_keeps(correct_all(h, c1), c2);
    lemma_insert_all(correct_all(correct_all(h, c1), c2), i1);
    lemma_insert_all(insert_all(correct_all(correct_all(h, c1), c2), i1), i2);
    lemma_insert_all(correct_all(h, c1), i1);
    lemma_correct_all_keeps(insert_all(correct_all(h, c1), i1), c2);
    lemma_insert_all(correct_all(insert_all(correct_all(h, c1), i1), c2), i2);
}

} // verus!
