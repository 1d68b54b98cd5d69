//! The kinds of task that the scheduler runs, and the step each takes when
//! its turn comes.

use vstd::prelude::*;
use vstd::arithmetic::div_mod::lemma_fundamental_div_mod;
use vstd::arithmetic::div_mod::lemma_fundamental_div_mod_converse;
use vstd::arithmetic::div_mod::lemma_mod_bound;
use crate::ticks::Ticks;

verus! {

/// What a pollable unit of work reports when it is polled.
#[derive(Copy, Clone, Debug, PartialEq, Eq, Structural)]
pub enum Poll {
    /// The unit has run to its end.
    Ready,
    /// The unit has more to do.
    NotReady,
    /// The unit has ended in failure.
    Failed,
}

/// What a pollable sequence reports when it is polled.
#[derive(Copy, Clone, Debug, PartialEq, Eq, Structural)]
pub enum SequencePoll {
    /// The sequence has yielded an item.
    Item,
    /// The sequence has nothing to yield at the moment.
    NotReady,
    /// The sequence has come to its end.
    Finished,
    /// The sequence has reported an error for this step.
    Failed,
}

/// A unit of work that is polled once per turn until it reports a terminal
/// outcome.
pub trait Pollable {
    /// The unit may be polled.
    spec fn callable(&self) -> bool;

    /// What holds once a poll of the unit has reported `outcome`.
    spec fn polled(&self, outcome: Poll) -> bool;

    fn poll(&mut self) -> (outcome: Poll)
        requires
            old(self).callable(),
        ensures
            final(self).callable(),
            old(self).polled(outcome),
    ;
}

/// A sequence that is polled once per turn until it reports its end.
pub trait PollableSequence {
    /// The sequence may be polled.
    spec fn callable(&self) -> bool;

    /// What holds once a poll of the sequence has reported `outcome`.
    spec fn polled(&self, outcome: SequencePoll) -> bool;

    fn poll(&mut self) -> (outcome: SequencePoll)
        requires
            old(self).callable(),
        ensures
            final(self).callable(),
            old(self).polled(outcome),
    ;
}

/// A unit of work as the scheduler keeps it.
pub struct Kept<P> {
    pub inner: P,
}

impl<P: Pollable> Pollable for Kept<P> {
    open spec fn callable(&self) -> bool {
        self.inner.callable()
    }

    open spec fn polled(&self, outcome: Poll) -> bool {
        self.inner.polled(outcome)
    }

    fn poll(&mut self) -> (outcome: Poll) {
        self.inner.poll()
    }
}

impl<S: PollableSequence> PollableSequence for Kept<S> {
    open spec fn callable(&self) -> bool {
        self.inner.callable()
    }

    open spec fn polled(&self, outcome: SequencePoll) -> bool {
        self.inner.polled(outcome)
    }

    fn poll(&mut self) -> (outcome: SequencePoll) {
        self.inner.poll()
    }
}

/// A closure in the place of a [`Pollable`]: a poll of the unit is a call
/// of the closure.
pub struct PollFn<F: FnMut() -> Poll> {
    pub func: F,
}

impl<F: FnMut() -> Poll> PollFn<F> {
    /// The unit of work whose poll is a call of `f`.
    pub fn new(f: F) -> (unit: Self)
        requires
            call_requires(f, ()),
        ensures
            unit.func == f,
            unit.callable(),
            forall|outcome: Poll| #[trigger] unit.polled(outcome) == call_ensures(f, (), outcome),
    {
        PollFn { func: f }
    }
}

impl<F: FnMut() -> Poll> Pollable for PollFn<F> {
    open spec fn callable(&self) -> bool {
        call_requires(self.func, ())
    }

    open spec fn polled(&self, outcome: Poll) -> bool {
        call_ensures(self.func, (), outcome)
    }

    fn poll(&mut self) -> (outcome: Poll) {
        (self.func)()
    }
}

/// A closure in the place of a [`PollableSequence`]: a poll of the sequence
/// is a call of the closure.
pub struct SequencePollFn<F: FnMut() -> SequencePoll> {
    pub func: F,
}

impl<F: FnMut() -> SequencePoll> SequencePollFn<F> {
    /// The sequence whose poll is a call of `f`.
    pub fn new(f: F) -> (sequence: Self)
        requires
            call_requires(f, ()),
        ensures
            sequence.func == f,
            sequence.callable(),
            forall|outcome: SequencePoll| #[trigger]
                sequence.polled(outcome) == call_ensures(f, (), outcome),
    {
        SequencePollFn { func: f }
    }
}

impl<F: FnMut() -> SequencePoll> PollableSequence for SequencePollFn<F> {
    open spec fn callable(&self) -> bool {
        call_requires(self.func, ())
    }

    open spec fn polled(&self, outcome: SequencePoll) -> bool {
        call_ensures(self.func, (), outcome)
    }

    fn poll(&mut self) -> (outcome: SequencePoll) {
        (self.func)()
    }
}

/// A callback that takes the present tick and the ticks elapsed since the
/// previous turn.
pub trait TurnCallback {
    /// The callback may be invoked with any arguments.
    spec fn callable(&self) -> bool;

    /// What holds once the callback has returned from a call with these
    /// arguments.
    spec fn returned(&self, now: Ticks, elapsed: Ticks) -> bool;

    fn call(&mut self, now: Ticks, elapsed: Ticks)
        requires
            old(self).callable(),
        ensures
            final(self).callable(),
            old(self).returned(now, elapsed),
    ;
}

/// A callback that takes the present tick.
pub trait ExpiryCallback {
    /// The callback may be invoked with any argument.
    spec fn callable(&self) -> bool;

    /// What holds once the callback has returned from a call with this
    /// argument.
    spec fn returned(&self, now: Ticks) -> bool;

    fn call(&mut self, now: Ticks)
        requires
            old(self).callable(),
        ensures
            final(self).callable(),
            old(self).returned(now),
    ;
}

/// A closure in the place of a [`TurnCallback`].
pub struct TurnFn<F: FnMut(Ticks, Ticks)> {
    pub func: F,
}

impl<F: FnMut(Ticks, Ticks)> TurnCallback for TurnFn<F> {
    open spec fn callable(&self) -> bool {
        forall|now: Ticks, elapsed: Ticks| call_requires(self.func, (now, elapsed))
    }

    open spec fn returned(&self, now: Ticks, elapsed: Ticks) -> bool {
        call_ensures(self.func, (now, elapsed), ())
    }

    fn call(&mut self, now: Ticks, elapsed: Ticks) {
        (self.func)(now, elapsed);
    }
}

/// A closure in the place of an [`ExpiryCallback`].
pub struct ExpiryFn<F: FnMut(Ticks)> {
    pub func: F,
}

impl<F: FnMut(Ticks)> ExpiryCallback for ExpiryFn<F> {
    open spec fn callable(&self) -> bool {
        forall|now: Ticks| call_requires(self.func, (now,))
    }

    open spec fn returned(&self, now: Ticks) -> bool {
        call_ensures(self.func, (now,), ())
    }

    fn call(&mut self, now: Ticks) {
        (self.func)(now);
    }
}

/// A callback that runs on every turn.
pub struct Every {
    pub func: Box<dyn TurnCallback>,
    /// The arguments of the calls that the scheduler has made, in order.
    pub calls: Ghost<Seq<(Ticks, Ticks)>>,
}

/// A pollable unit of work.
pub struct Unit {
    pub unit: Box<dyn Pollable>,
    /// What the polls that the scheduler has made have reported, in order.
    pub outcomes: Ghost<Seq<Poll>>,
}

/// A pollable sequence.
pub struct Sequence {
    pub sequence: Box<dyn PollableSequence>,
    /// What the polls that the scheduler has made have reported, in order.
    pub outcomes: Ghost<Seq<SequencePoll>>,
}

/// A callback that runs once a number of ticks has passed, and again every
/// `repeat` ticks where `repeat` is not zero.
pub struct Countdown {
    pub remaining_ticks: Ticks,
    pub repeat: Ticks,
    pub func: Box<dyn ExpiryCallback>,
    /// The arguments of the calls that the scheduler has made, in order.
    pub calls: Ghost<Seq<Ticks>>,
}

/// A countdown fires on a turn whose elapsed ticks exceed what remains.
pub open spec fn countdown_fires(remaining: Ticks, elapsed: Ticks) -> bool {
    elapsed.ticks > remaining.ticks
}

/// What remains of a countdown after a turn: the repeat interval when a
/// repeating countdown has fired, the old remainder less the elapsed ticks
/// when it has not fired, and the old remainder when a one-shot countdown
/// has fired.
pub open spec fn countdown_remaining(remaining: Ticks, repeat: Ticks, elapsed: Ticks) -> Ticks {
    if countdown_fires(remaining, elapsed) {
        if repeat.ticks != 0 {
            repeat
        } else {
            remaining
        }
    } else {
        Ticks { ticks: (remaining.ticks - elapsed.ticks) as u16 }
    }
}

/// A countdown is done once it has fired and does not repeat.
pub open spec fn countdown_completes(remaining: Ticks, repeat: Ticks, elapsed: Ticks) -> bool {
    countdown_fires(remaining, elapsed) && repeat.ticks == 0
}

/// Whether a unit of work that reported `outcome` is done: every terminal
/// outcome, success or failure, ends it.
pub open spec fn spec_unit_completes(outcome: Poll) -> bool {
    outcome != Poll::NotReady
}

/// Whether a sequence that reported `outcome` is done: only its end ends
/// it.
pub open spec fn spec_sequence_completes(outcome: SequencePoll) -> bool {
    outcome == SequencePoll::Finished
}

/// Whether a unit of work that reported `outcome` gives up its slot.
pub fn unit_completes(outcome: Poll) -> (completed: bool)
    ensures
        completed == spec_unit_completes(outcome),
{
    match outcome {
        Poll::Ready | Poll::Failed => true,
        Poll::NotReady => false,
    }
}

/// Whether a sequence that reported `outcome` gives up its slot.
pub fn sequence_completes(outcome: SequencePoll) -> (completed: bool)
    ensures
        completed == spec_sequence_completes(outcome),
{
    match outcome {
        SequencePoll::Finished => true,
        _ => false,
    }
}

/// A task in a slot of the scheduler.
pub enum SlotEntry {
    /// Runs the callback on every turn.
    Every(Every),
    /// Polls the unit of work on every turn.
    Future(Unit),
    /// Polls the sequence on every turn.
    Stream(Sequence),
    /// Runs the callback when the countdown expires.
    Countdown(Countdown),
}

impl SlotEntry {
    /// The callback that the task holds, if it holds one, may be invoked
    /// with any arguments.
    pub open spec fn callable(&self) -> bool {
        match *self {
            SlotEntry::Every(e) => e.func.callable(),
            SlotEntry::Future(u) => u.unit.callable(),
            SlotEntry::Stream(u) => u.sequence.callable(),
            SlotEntry::Countdown(c) => c.func.callable(),
        }
    }

    /// The step that `run` takes at tick `now`, `elapsed` ticks after the
    /// previous turn, relates the task before it to the task after it and
    /// to the verdict `completed`.
    ///
    /// A callback of every turn is called once, with `now` and `elapsed`,
    /// and is never done.  A countdown is called with `now` where it fires
    /// and not at all where it does not; what remains of it and whether it
    /// is done are as [`countdown_remaining`] and [`countdown_completes`]
    /// say.  A unit of work and a sequence are polled once; the outcome
    /// that is recorded is the one that the poll has reported, and it
    /// decides whether they are done.
    pub open spec fn steps_to(
        &self,
        after: SlotEntry,
        now: Ticks,
        elapsed: Ticks,
        completed: bool,
    ) -> bool {
        match *self {
            SlotEntry::Every(e) => {
                &&& after matches SlotEntry::Every(f)
                &&& e.func.returned(now, elapsed)
                &&& f.calls@ == e.calls@.push((now, elapsed))
                &&& !completed
            },
            SlotEntry::Future(u) => {
                &&& after matches SlotEntry::Future(v)
                &&& v.outcomes@.len() == u.outcomes@.len() + 1
                &&& v.outcomes@.drop_last() == u.outcomes@
                &&& u.unit.polled(v.outcomes@.last())
                &&& completed == spec_unit_completes(v.outcomes@.last())
            },
            SlotEntry::Stream(u) => {
                &&& after matches SlotEntry::Stream(v)
                &&& v.outcomes@.len() == u.outcomes@.len() + 1
                &&& v.outcomes@.drop_last() == u.outcomes@
                &&& u.sequence.polled(v.outcomes@.last())
                &&& completed == spec_sequence_completes(v.outcomes@.last())
            },
            SlotEntry::Countdown(c) => {
                &&& after matches SlotEntry::Countdown(d)
                &&& d.repeat == c.repeat
                &&& d.remaining_ticks == countdown_remaining(c.remaining_ticks, c.repeat, elapsed)
                &&& countdown_fires(c.remaining_ticks, elapsed) ==> c.func.returned(now)
                &&& d.calls@ == if countdown_fires(c.remaining_ticks, elapsed) {
                    c.calls@.push(now)
                } else {
                    c.calls@
                }
                &&& completed == countdown_completes(c.remaining_ticks, c.repeat, elapsed)
            },
        }
    }

    /// The task is a callback of every turn that stands for `f` and has not
    /// been called yet: a call of the task is a call of `f`.
    pub open spec fn is_every<F: FnMut(Ticks, Ticks)>(&self, f: F) -> bool {
        &&& *self matches SlotEntry::Every(e)
        &&& e.calls@.len() == 0
        &&& forall|now: Ticks, elapsed: Ticks| #[trigger]
            e.func.returned(now, elapsed) == call_ensures(f, (now, elapsed), ())
    }

    /// The task is a countdown with the given delay and interval whose
    /// callback stands for `f` and has not been called yet.
    pub open spec fn is_countdown<F: FnMut(Ticks)>(
        &self,
        f: F,
        remaining: Ticks,
        repeat: Ticks,
    ) -> bool {
        &&& *self matches SlotEntry::Countdown(c)
        &&& c.remaining_ticks == remaining
        &&& c.repeat == repeat
        &&& c.calls@.len() == 0
        &&& forall|now: Ticks| #[trigger] c.func.returned(now) == call_ensures(f, (now,), ())
    }

    /// The task is a unit of work that stands for `unit` and has not been
    /// polled yet: a poll of the task is a poll of `unit`.
    pub open spec fn is_future<P: Pollable>(&self, unit: P) -> bool {
        &&& *self matches SlotEntry::Future(u)
        &&& u.outcomes@.len() == 0
        &&& forall|outcome: Poll| #[trigger] u.unit.polled(outcome) == unit.polled(outcome)
    }

    /// The task is a sequence that stands for `sequence` and has not been
    /// polled yet: a poll of the task is a poll of `sequence`.
    pub open spec fn is_stream<S: PollableSequence>(&self, sequence: S) -> bool {
        &&& *self matches SlotEntry::Stream(u)
        &&& u.outcomes@.len() == 0
        &&& forall|outcome: SequencePoll| #[trigger]
            u.sequence.polled(outcome) == sequence.polled(outcome)
    }

    /// A task that runs `f` on every turn.
    pub fn every<F: FnMut(Ticks, Ticks) + 'static>(f: F) -> (entry: SlotEntry)
        requires
            forall|now: Ticks, elapsed: Ticks| call_requires(f, (now, elapsed)),
        ensures
            entry.is_every(f),
            entry.callable(),
    {
        SlotEntry::Every(Every { func: Box::new(TurnFn { func: f }), calls: Ghost(Seq::empty()) })
    }

    /// A task that polls `unit` on every turn until it is done.
    pub fn future<P: Pollable + 'static>(unit: P) -> (entry: SlotEntry)
        requires
            unit.callable(),
        ensures
            entry.is_future(unit),
            entry.callable(),
    {
        SlotEntry::Future(Unit { unit: Box::new(Kept { inner: unit }), outcomes: Ghost(Seq::empty()) })
    }

    /// A task that polls `sequence` on every turn until it ends.
    pub fn stream<S: PollableSequence + 'static>(sequence: S) -> (entry: SlotEntry)
        requires
            sequence.callable(),
        ensures
            entry.is_stream(sequence),
            entry.callable(),
    {
        SlotEntry::Stream(
            Sequence { sequence: Box::new(Kept { inner: sequence }), outcomes: Ghost(Seq::empty()) },
        )
    }

    /// A task that runs `f` once more than `remaining` ticks have passed,
    /// and then again every time more than `repeat` ticks have passed, or
    /// never again where `repeat` is zero.
    pub fn countdown<F: FnMut(Ticks) + 'static>(f: F, remaining: Ticks, repeat: Ticks) -> (entry:
        SlotEntry)
        requires
            forall|now: Ticks| call_requires(f, (now,)),
        ensures
            entry.is_countdown(f, remaining, repeat),
            entry.callable(),
    {
        SlotEntry::Countdown(
            Countdown {
                remaining_ticks: remaining,
                repeat,
                func: Box::new(ExpiryFn { func: f }),
                calls: Ghost(Seq::empty()),
            },
        )
    }

    /// Runs the task for one turn and says whether it is done.
    pub fn run(&mut self, now: Ticks, elapsed: Ticks) -> (completed: bool)
        requires
            old(self).callable(),
        ensures
            final(self).callable(),
            old(self).steps_to(*final(self), now, elapsed, completed),
    {
        match self {
            SlotEntry::Every(every) => {
                every.func.call(now, elapsed);
                proof {
                    every.calls = Ghost(every.calls@.push((now, elapsed)));
                }
                false
            },
            SlotEntry::Future(future) => {
                let outcome = future.unit.poll();
                proof {
                    let before = future.outcomes@;
                    future.outcomes = Ghost(before.push(outcome));
                    assert(future.outcomes@.drop_last() =~= before);
                }
                unit_completes(outcome)
            },
            SlotEntry::Stream(stream) => {
                let outcome = stream.sequence.poll();
                proof {
                    let before = stream.outcomes@;
                    stream.outcomes = Ghost(before.push(outcome));
                    assert(stream.outcomes@.drop_last() =~= before);
                }
                sequence_completes(outcome)
            },
            SlotEntry::Countdown(countdown) => {
                if elapsed.ticks > countdown.remaining_ticks.ticks {
                    countdown.func.call(now);
                    proof {
                        countdown.calls = Ghost(countdown.calls@.push(now));
                    }

                    if !countdown.repeat.is_zero() {
                        countdown.remaining_ticks = countdown.repeat;
                        return false;
                    }
                    return true;
                }
                countdown.remaining_ticks = countdown.remaining_ticks - elapsed;
                false
            },
        }
    }
}

/// What remains of a countdown after `turns` turns on each of which one
/// tick has passed.
pub open spec fn remaining_after(remaining: Ticks, repeat: Ticks, turns: nat) -> Ticks
    decreases turns,
{
    if turns == 0 {
        remaining
    } else {
        countdown_remaining(
            remaining_after(remaining, repeat, (turns - 1) as nat),
            repeat,
            Ticks { ticks: 1 },
        )
    }
}

/// Whether a countdown fires on the `turn`-th of a run of turns on each of
/// which one tick has passed, the first turn being turn 1.
pub open spec fn fires_on_turn(remaining: Ticks, repeat: Ticks, turn: nat) -> bool {
    turn >= 1 && countdown_fires(
        remaining_after(remaining, repeat, (turn - 1) as nat),
        Ticks { ticks: 1 },
    )
}

/// The remainder of a number and of its successor: the successor's is one
/// more, or zero where the number's is the greatest there is.
proof fn lemma_mod_successor(n: int, period: int)
    requires
        0 <= n,
        0 < period,
    ensures
        (n + 1) % period == if n % period == period - 1 {
            0
        } else {
            n % period + 1
        },
{
    lemma_mod_bound(n, period);
    lemma_fundamental_div_mod(n, period);
    let q = n / period;
    let r = n % period;
    if r == period - 1 {
        assert(n + 1 == (q + 1) * period + 0) by (nonlinear_arith)
            requires
                n == period * q + r,
                r == period - 1,
        ;
        lemma_fundamental_div_mod_converse(n + 1, period, q + 1, 0);
    } else {
        assert(n + 1 == q * period + (r + 1)) by (nonlinear_arith)
            requires
                n == period * q + r,
        ;
        lemma_fundamental_div_mod_converse(n + 1, period, q, r + 1);
    }
}

/// Under turns of one tick, what remains of a repeating countdown runs
/// down from its interval to zero and starts again from the interval on the
/// turn after.
pub proof fn lemma_repeating_countdown_remaining(every: Ticks, turns: nat)
    requires
        every.ticks > 0,
    ensures
        remaining_after(every, every, turns).ticks == every.ticks - (turns as int) % (every.ticks
            + 1),
    decreases turns,
{
    let period = every.ticks + 1;
    if turns == 0 {
        lemma_fundamental_div_mod_converse(0, period, 0, 0);
    } else {
        let before = (turns - 1) as nat;
        lemma_repeating_countdown_remaining(every, before);
        lemma_mod_bound(before as int, period);
        lemma_mod_successor(before as int, period);
    }
}

/// A repeating countdown that is driven by turns of one tick fires on the
/// turns whose number is a multiple of its interval plus one, and on no
/// other: the comparison is strict, so an interval of `n` ticks is over on
/// the turn after the `n`-th.
pub proof fn lemma_repeating_countdown_period(every: Ticks, turn: nat)
    requires
        every.ticks > 0,
        turn >= 1,
    ensures
        fires_on_turn(every, every, turn) <==> (turn as int) % (every.ticks + 1) == 0,
{
    let period = every.ticks + 1;
    let before = (turn - 1) as nat;
    lemma_repeating_countdown_remaining(every, before);
    lemma_mod_bound(before as int, period);
    lemma_mod_successor(before as int, period);
}

/// Under turns of one tick, what remains of a one-shot countdown goes down
/// by one per turn until it is zero.
pub proof fn lemma_one_shot_countdown_remaining(after: Ticks, turns: nat)
    requires
        turns <= after.ticks,
    ensures
        remaining_after(after, Ticks { ticks: 0 }, turns).ticks == after.ticks - turns,
    decreases turns,
{
    if turns > 0 {
        lemma_one_shot_countdown_remaining(after, (turns - 1) as nat);
    }
}

/// A one-shot countdown of `after` ticks that is driven by turns of one
/// tick fires on turn `after + 1`, not before, and is done on that turn.
pub proof fn lemma_one_shot_countdown_fires_once(after: Ticks, turn: nat)
    requires
        1 <= turn <= after.ticks + 1,
    ensures
        fires_on_turn(after, Ticks { ticks: 0 }, turn) <==> turn == after.ticks + 1,
        turn == after.ticks + 1 ==> countdown_completes(
            remaining_after(after, Ticks { ticks: 0 }, (turn - 1) as nat),
            Ticks { ticks: 0 },
            Ticks { ticks: 1 },
        ),
{
    lemma_one_shot_countdown_remaining(after, (turn - 1) as nat);
}

/// The ticks that have passed over the turns of `elapsed` together.
pub open spec fn total(elapsed: Seq<Ticks>) -> int
    decreases elapsed.len(),
{
    if elapsed.len() == 0 {
        0
    } else {
        total(elapsed.drop_last()) + elapsed.last().ticks
    }
}

/// What remains of a countdown after the turns of `elapsed`, on each of
/// which the given ticks have passed.
pub open spec fn remaining_over(remaining: Ticks, repeat: Ticks, elapsed: Seq<Ticks>) -> Ticks
    decreases elapsed.len(),
{
    if elapsed.len() == 0 {
        remaining
    } else {
        countdown_remaining(
            remaining_over(remaining, repeat, elapsed.drop_last()),
            repeat,
            elapsed.last(),
        )
    }
}

/// A countdown that has not fired has gone down by the ticks that have
/// passed, whatever the turns were, and it fires on the first turn that
/// brings the ticks that have passed in all above its delay: the delay is
/// the least time that passes before the callback runs.
pub proof fn lemma_countdown_fires_on_excess(
    after: Ticks,
    repeat: Ticks,
    elapsed: Seq<Ticks>,
    next: Ticks,
)
    requires
        total(elapsed) <= after.ticks,
    ensures
        remaining_over(after, repeat, elapsed).ticks == after.ticks - total(elapsed),
        countdown_fires(remaining_over(after, repeat, elapsed), next) <==> total(elapsed)
            + next.ticks > after.ticks,
    decreases elapsed.len(),
{
    if elapsed.len() > 0 {
        lemma_total_is_not_negative(elapsed.drop_last());
        lemma_countdown_fires_on_excess(after, repeat, elapsed.drop_last(), elapsed.last());
    }
}

/// The ticks that have passed are never fewer than none.
proof fn lemma_total_is_not_negative(elapsed: Seq<Ticks>)
    ensures
        0 <= total(elapsed),
    decreases elapsed.len(),
{
    if elapsed.len() > 0 {
        lemma_total_is_not_negative(elapsed.drop_last());
    }
}

} // verus!
