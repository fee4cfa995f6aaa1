//! The lock state and the lock controller's rules: when a lock ends, in what
//! order its state is written, and what a status query answers.

use crate::number::{decimal, write_number};
use crate::proxy::PROXY_PORT;
use crate::text::string_of;
use vstd::prelude::*;
use vstd::string::StringExecFns;

verus! {

/// How many milliseconds a minute has.
pub const MS_PER_MINUTE: u64 = 60000;

/// Whether a lock is active, and when it ends, in milliseconds since the
/// epoch.
#[derive(Clone, Copy, Debug, PartialEq, Eq, Structural)]
pub struct LockState {
    pub active: bool,
    pub end_ms: u64,
}

/// One atomic write to the lock state.
#[derive(Clone, Copy, Debug, PartialEq, Eq, Structural)]
pub enum LockWrite {
    EndTime(u64),
    Active(bool),
}

/// The answer to a status query.
#[derive(Clone, Copy, Debug, PartialEq, Eq, Structural)]
pub struct LockStatus {
    pub remaining_ms: u64,
    pub can_finish: bool,
}

/// Why a lock could not be started.
#[derive(Clone, Copy, Debug, PartialEq, Eq, Structural)]
pub enum StartError {
    /// The end time cannot be computed: it lies beyond what the clock can
    /// hold.
    Clock,
}

/// One thing that the lock controller asks to be done. What it asks for is
/// to be done in the order in which it hands the actions out.
#[derive(Debug, PartialEq, Eq)]
pub enum Action {
    /// Make this write to the lock state.
    Write(LockWrite),
    /// Bring the host application's window to the foreground. A failure is
    /// passed over.
    FocusHost,
    /// Run the foreground guard in the background.
    RunGuard,
    /// Run the extension notifier in the background.
    RunNotifier,
    /// Point the system's proxy settings at this address. A failure ends the
    /// start and is reported to the caller.
    PointAtProxy(String),
    /// Run the filtering proxy in the background.
    RunProxy,
    /// Put the system's proxy settings back. A failure is passed over.
    RestoreProxy,
}

/// An action, with its address as characters.
pub enum ActionView {
    Write(LockWrite),
    FocusHost,
    RunGuard,
    RunNotifier,
    PointAtProxy(Seq<char>),
    RunProxy,
    RestoreProxy,
}

impl View for Action {
    type V = ActionView;

    open spec fn view(&self) -> ActionView {
        match self {
            Action::Write(write) => ActionView::Write(*write),
            Action::FocusHost => ActionView::FocusHost,
            Action::RunGuard => ActionView::RunGuard,
            Action::RunNotifier => ActionView::RunNotifier,
            Action::PointAtProxy(address) => ActionView::PointAtProxy(address@),
            Action::RunProxy => ActionView::RunProxy,
            Action::RestoreProxy => ActionView::RestoreProxy,
        }
    }
}

impl DeepView for Action {
    type V = ActionView;

    open spec fn deep_view(&self) -> ActionView {
        self.view()
    }
}

impl LockState {
    /// What every reader may rely on, at any moment: an active lock has an
    /// end time.
    pub open spec fn readable(self) -> bool {
        self.active ==> self.end_ms != 0
    }

    /// What holds between two operations: without a lock, both fields are
    /// zero.
    pub open spec fn settled(self) -> bool {
        self.readable() && (!self.active ==> self.end_ms == 0)
    }

    /// The state after the write `write`.
    pub open spec fn written(self, write: LockWrite) -> LockState {
        match write {
            LockWrite::EndTime(end_ms) => LockState { active: self.active, end_ms },
            LockWrite::Active(active) => LockState { active, end_ms: self.end_ms },
        }
    }

    /// The state after the writes `writes`, in order.
    pub open spec fn written_all(self, writes: Seq<LockWrite>) -> LockState
        decreases writes.len(),
    {
        if writes.len() == 0 {
            self
        } else {
            self.written_all(writes.drop_last()).written(writes.last())
        }
    }

    /// The state in which no lock is active.
    pub fn idle() -> (r: LockState)
        ensures
            r == (LockState { active: false, end_ms: 0 }),
            r.settled(),
    {
        LockState { active: false, end_ms: 0 }
    }

    /// The state after one write.
    pub fn apply(self, write: LockWrite) -> (r: LockState)
        ensures
            r == self.written(write),
    {
        match write {
            LockWrite::EndTime(end_ms) => LockState { active: self.active, end_ms },
            LockWrite::Active(active) => LockState { active, end_ms: self.end_ms },
        }
    }

    /// The answer to a status query at the time `now_ms`.
    pub fn status(&self, now_ms: u64) -> (r: LockStatus)
        ensures
            r == status_at(self.end_ms, now_ms),
    {
        lock_status(self.end_ms, now_ms)
    }
}

/// The writes that start a lock, in the order in which they are made: the
/// end time first, then the flag.
pub open spec fn start_sequence(end_ms: u64) -> Seq<LockWrite> {
    seq![LockWrite::EndTime(end_ms), LockWrite::Active(true)]
}

/// The writes that end a lock, in the order in which they are made: the flag
/// first, then the end time.
pub open spec fn stop_sequence() -> Seq<LockWrite> {
    seq![LockWrite::Active(false), LockWrite::EndTime(0)]
}

/// What is to be done on a start, in order, for a lock that ends at
/// `end_ms`; `filtering` says whether a domain allow-list is given.
pub open spec fn start_actions(end_ms: u64, filtering: bool) -> Seq<ActionView> {
    let always = seq![
        ActionView::Write(LockWrite::EndTime(end_ms)),
        ActionView::Write(LockWrite::Active(true)),
        ActionView::FocusHost,
        ActionView::RunGuard,
        ActionView::RunNotifier,
    ];
    if filtering {
        always + seq![ActionView::PointAtProxy(proxy_address_text()), ActionView::RunProxy]
    } else {
        always
    }
}

/// What is to be done on a stop, in order.
pub open spec fn stop_actions() -> Seq<ActionView> {
    seq![
        ActionView::Write(LockWrite::Active(false)),
        ActionView::Write(LockWrite::EndTime(0)),
        ActionView::RestoreProxy,
    ]
}

/// The writes among the actions `actions`, in order.
pub open spec fn writes_of(actions: Seq<ActionView>) -> Seq<LockWrite>
    decreases actions.len(),
{
    if actions.len() == 0 {
        Seq::<LockWrite>::empty()
    } else {
        match actions.last() {
            ActionView::Write(write) => writes_of(actions.drop_last()).push(write),
            _ => writes_of(actions.drop_last()),
        }
    }
}

/// When a lock that starts at `now_ms` and lasts `minutes` ends.
pub open spec fn end_time(now_ms: u64, minutes: u32) -> int {
    now_ms + minutes * MS_PER_MINUTE
}

/// The status of a lock that ends at `end_ms`, at the time `now_ms`.
pub open spec fn status_at(end_ms: u64, now_ms: u64) -> LockStatus {
    let remaining_ms: u64 = if end_ms > now_ms {
        (end_ms - now_ms) as u64
    } else {
        0
    };
    LockStatus { remaining_ms, can_finish: remaining_ms == 0 }
}

/// The address of the filtering proxy.
pub open spec fn proxy_address_text() -> Seq<char> {
    "127.0.0.1:"@ + decimal(PROXY_PORT as nat)
}

/// When a lock that starts at `now_ms` and lasts `minutes` ends; `None`
/// where that time cannot be held.
pub fn lock_end_ms(now_ms: u64, minutes: u32) -> (r: Option<u64>)
    ensures
        match r {
            Some(end_ms) => end_ms == end_time(now_ms, minutes),
            None => end_time(now_ms, minutes) > u64::MAX,
        },
{
    let span: u64 = minutes as u64 * MS_PER_MINUTE;
    now_ms.checked_add(span)
}

/// The answer to a status query at the time `now_ms`, for a lock that ends
/// at `end_ms`: what remains of it, and whether the activity can be finished.
pub fn lock_status(end_ms: u64, now_ms: u64) -> (r: LockStatus)
    ensures
        r == status_at(end_ms, now_ms),
{
    let remaining_ms: u64 = if end_ms > now_ms {
        end_ms - now_ms
    } else {
        0
    };
    LockStatus { remaining_ms, can_finish: remaining_ms == 0 }
}

/// The address on which the filtering proxy listens.
pub fn proxy_address() -> (r: String)
    ensures
        r@ == proxy_address_text(),
{
    let mut r: String = String::from_str("127.0.0.1:");
    let digits: Vec<char> = write_number(PROXY_PORT as u64);
    let port: String = string_of(digits.as_slice());
    r.append(port.as_str());
    r
}

/// Starts a lock at the time `now_ms`: the lock state is written, end time
/// first; the host window is brought forward; the guard and the notifier
/// run; and where a domain allow-list is given, the system is pointed at the
/// filtering proxy, which then runs. It fails only where the end time cannot
/// be held, and then nothing is to be done.
pub fn start_lock(now_ms: u64, minimum_lock_minutes: u32, allowed_domains: &[String]) -> (r: Result<
    Vec<Action>,
    StartError,
>)
    ensures
        match r {
            Ok(actions) => end_time(now_ms, minimum_lock_minutes) <= u64::MAX
                && actions.deep_view() == start_actions(
                end_time(now_ms, minimum_lock_minutes) as u64,
                allowed_domains@.len() > 0,
            ),
            Err(e) => e == StartError::Clock && end_time(now_ms, minimum_lock_minutes) > u64::MAX,
        },
{
    let end_ms: u64 = match lock_end_ms(now_ms, minimum_lock_minutes) {
        None => {
            return Err(StartError::Clock);
        },
        Some(end_ms) => end_ms,
    };
    let mut actions: Vec<Action> = Vec::new();
    actions.push(Action::Write(LockWrite::EndTime(end_ms)));
    actions.push(Action::Write(LockWrite::Active(true)));
    actions.push(Action::FocusHost);
    actions.push(Action::RunGuard);
    actions.push(Action::RunNotifier);
    if allowed_domains.len() > 0 {
        actions.push(Action::PointAtProxy(proxy_address()));
        actions.push(Action::RunProxy);
    }
    assert(actions.deep_view() =~= start_actions(end_ms, allowed_domains@.len() > 0));
    Ok(actions)
}

/// Ends the lock: the lock state is written, flag first, and the system's
/// proxy settings are put back.
pub fn end_lock() -> (r: Vec<Action>)
    ensures
        r.deep_view() == stop_actions(),
{
    let mut actions: Vec<Action> = Vec::new();
    actions.push(Action::Write(LockWrite::Active(false)));
    actions.push(Action::Write(LockWrite::EndTime(0)));
    actions.push(Action::RestoreProxy);
    assert(actions.deep_view() =~= stop_actions());
    actions
}

/// The writes among the actions of a start are the end time and then the
/// flag; those among the actions of a stop are the flag and then the end
/// time.
pub proof fn lemma_writes_in_order(end_ms: u64, filtering: bool)
    ensures
        writes_of(start_actions(end_ms, filtering)) == start_sequence(end_ms),
        writes_of(stop_actions()) == stop_sequence(),
{
    let none = Seq::<ActionView>::empty();
    let s1 = none.push(ActionView::Write(LockWrite::EndTime(end_ms)));
    let s2 = s1.push(ActionView::Write(LockWrite::Active(true)));
    let s3 = s2.push(ActionView::FocusHost);
    let s4 = s3.push(ActionView::RunGuard);
    let s5 = s4.push(ActionView::RunNotifier);
    let s6 = s5.push(ActionView::PointAtProxy(proxy_address_text()));
    let s7 = s6.push(ActionView::RunProxy);
    lemma_writes_of_push(none, s1.last());
    lemma_writes_of_push(s1, s2.last());
    lemma_writes_of_push(s2, s3.last());
    lemma_writes_of_push(s3, s4.last());
    lemma_writes_of_push(s4, s5.last());
    lemma_writes_of_push(s5, s6.last());
    lemma_writes_of_push(s6, s7.last());
    assert(start_actions(end_ms, false) =~= s5);
    assert(start_actions(end_ms, true) =~= s7);
    assert(writes_of(s2) =~= start_sequence(end_ms));

    let t1 = none.push(ActionView::Write(LockWrite::Active(false)));
    let t2 = t1.push(ActionView::Write(LockWrite::EndTime(0)));
    let t3 = t2.push(ActionView::RestoreProxy);
    lemma_writes_of_push(none, t1.last());
    lemma_writes_of_push(t1, t2.last());
    lemma_writes_of_push(t2, t3.last());
    assert(stop_actions() =~= t3);
    assert(writes_of(t2) =~= stop_sequence());
}

/// Every start runs the guard and the notifier. The filtering proxy runs
/// only where a domain allow-list is given, and then the system is pointed
/// at it before it runs.
pub proof fn lemma_proxy_runs_only_with_a_list(end_ms: u64, filtering: bool)
    ensures
        start_actions(end_ms, filtering).contains(ActionView::RunGuard),
        start_actions(end_ms, filtering).contains(ActionView::RunNotifier),
        start_actions(end_ms, filtering).contains(ActionView::RunProxy) <==> filtering,
        start_actions(end_ms, filtering).contains(ActionView::PointAtProxy(proxy_address_text()))
            <==> filtering,
        filtering ==> start_actions(end_ms, filtering).index_of(
            ActionView::PointAtProxy(proxy_address_text()),
        ) < start_actions(end_ms, filtering).index_of(ActionView::RunProxy),
{
    let actions = start_actions(end_ms, filtering);
    assert(actions[3] == ActionView::RunGuard);
    assert(actions[4] == ActionView::RunNotifier);
    if filtering {
        assert(actions[5] == ActionView::PointAtProxy(proxy_address_text()));
        assert(actions[6] == ActionView::RunProxy);
        let point = actions.index_of(ActionView::PointAtProxy(proxy_address_text()));
        let run = actions.index_of(ActionView::RunProxy);
        assert(point == 5);
        assert(run == 6);
    }
}

/// The writes among actions to which one more is added.
proof fn lemma_writes_of_push(actions: Seq<ActionView>, action: ActionView)
    ensures
        writes_of(actions.push(action)) == match action {
            ActionView::Write(write) => writes_of(actions).push(write),
            _ => writes_of(actions),
        },
{
    assert(actions.push(action).drop_last() =~= actions);
}

/// While a lock is started, a reader never finds the lock active without an
/// end time, whatever the state was before and however many of the writes
/// were made: the end time is written before the flag.
pub proof fn lemma_start_never_tears(state: LockState, end_ms: u64, done: int)
    requires
        end_ms != 0,
        1 <= done <= 2,
    ensures
        state.written_all(start_sequence(end_ms).take(done)).readable(),
        done == 2 ==> state.written_all(start_sequence(end_ms).take(done)) == (LockState {
            active: true,
            end_ms,
        }),
{
    let w = start_sequence(end_ms);
    lemma_two_writes(state, w[0], w[1]);
    assert(w.take(1) =~= seq![w[0]]);
    assert(w.take(2) =~= seq![w[0], w[1]]);
}

/// While a lock is ended, a reader never finds the lock active without an
/// end time, whatever the state was before and however many of the writes
/// were made: the flag is cleared before the end time.
pub proof fn lemma_stop_never_tears(state: LockState, done: int)
    requires
        1 <= done <= 2,
    ensures
        state.written_all(stop_sequence().take(done)).readable(),
        done == 2 ==> state.written_all(stop_sequence().take(done)) == (LockState {
            active: false,
            end_ms: 0,
        }),
        done == 2 ==> state.written_all(stop_sequence().take(done)).settled(),
{
    let w = stop_sequence();
    lemma_two_writes(state, w[0], w[1]);
    assert(w.take(1) =~= seq![w[0]]);
    assert(w.take(2) =~= seq![w[0], w[1]]);
}

/// The state after no write, after one and after two.
proof fn lemma_two_writes(state: LockState, first: LockWrite, second: LockWrite)
    ensures
        state.written_all(Seq::<LockWrite>::empty()) == state,
        state.written_all(seq![first]) == state.written(first),
        state.written_all(seq![first, second]) == state.written(first).written(second),
{
    assert(seq![first].drop_last() =~= Seq::<LockWrite>::empty());
    assert(seq![first, second].drop_last() =~= seq![first]);
    reveal_with_fuel(LockState::written_all, 3);
}

/// A lock that starts after the epoch has an end time other than zero.
pub proof fn lemma_end_time_is_set(now_ms: u64, minutes: u32)
    requires
        now_ms > 0,
    ensures
        end_time(now_ms, minutes) > 0,
{
}

/// After a lock was ended, a status query answers that nothing remains and
/// that the activity can be finished, whatever the state was and whatever the
/// time is.
pub proof fn lemma_status_after_stop(state: LockState, now_ms: u64)
    ensures
        status_at(state.written_all(stop_sequence()).end_ms, now_ms) == (LockStatus {
            remaining_ms: 0,
            can_finish: true,
        }),
{
    let w = stop_sequence();
    lemma_two_writes(state, w[0], w[1]);
    assert(w =~= seq![w[0], w[1]]);
}

/// While no lock is active a status query answers the same.
pub proof fn lemma_status_without_lock(state: LockState, now_ms: u64)
    requires
        state.settled(),
        !state.active,
    ensures
        status_at(state.end_ms, now_ms) == (LockStatus { remaining_ms: 0, can_finish: true }),
{
}

/// What remains is the time up to the end, and the activity can be finished
/// from the end time on.
pub proof fn lemma_status_counts_down(end_ms: u64, now_ms: u64)
    ensures
        now_ms < end_ms ==> status_at(end_ms, now_ms).remaining_ms == end_ms - now_ms && !status_at(
            end_ms,
            now_ms,
        ).can_finish,
        now_ms >= end_ms ==> status_at(end_ms, now_ms).remaining_ms == 0 && status_at(
            end_ms,
            now_ms,
        ).can_finish,
{
}

} // verus!
