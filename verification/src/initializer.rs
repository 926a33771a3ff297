//! The callbacks handed to `init` and the image name it records: which
//! callbacks run, which wait for the worker and which are dropped when it
//! fails. The caller runs the worker and the callbacks it is handed back.

use vstd::prelude::*;
use vstd::string::*;
use vstd::multiset::Multiset;
use crate::startup::{end_transition, init_transition, on_init, on_worker_end, InitCall, InitState};

verus! {

/// Where initialization stands, with the callbacks it holds and the image
/// name the first call gave.
pub struct Initializer<C> {
    /// Idle, running or done
    pub state: InitState,
    /// Callbacks waiting for the running worker, in call order
    pub queued: Vec<C>,
    /// The image name the first call of `init` gave
    pub target: Option<String>,
}

/// What a call of `init` does with its callback.
pub enum InitStep<C> {
    /// Run it now: initialization already completed
    RunNow(C),
    /// It was queued for the running worker
    Queued,
    /// It was queued, and the worker must be started
    StartWorker,
}

/// One thing that happens to an initializer: a call of `init` with an
/// image name and a callback, or the end of the worker.
pub enum InitEvent<C> {
    /// `init(target, callback)`
    Call(Seq<char>, C),
    /// The worker ended, successfully or not
    End(bool),
}

/// An initializer as the laws see it, with every callback run and every
/// callback dropped so far.
pub struct InitTrace<C> {
    pub state: InitState,
    pub target: Option<Seq<char>>,
    pub queued: Seq<C>,
    pub ran: Seq<C>,
    pub dropped: Seq<C>,
}

/// An optional string by its characters.
pub open spec fn target_view(t: Option<String>) -> Option<Seq<char>> {
    match t {
        Some(s) => Some(s@),
        None => None,
    }
}

/// A fresh initializer: idle, with nothing queued, run or dropped and no
/// image name.
pub open spec fn fresh<C>() -> InitTrace<C> {
    InitTrace {
        state: InitState::Idle,
        target: None,
        queued: Seq::empty(),
        ran: Seq::empty(),
        dropped: Seq::empty(),
    }
}

/// What one event does. A call records its image name unless one is
/// recorded already, and runs its callback at once after a completed
/// initialization or queues it otherwise. The end of the worker runs the
/// queued callbacks in call order when it succeeded, and drops them when
/// it failed.
pub open spec fn step<C>(m: InitTrace<C>, e: InitEvent<C>) -> InitTrace<C> {
    match e {
        InitEvent::Call(t, c) => {
            let target = if m.target is None {
                Some(t)
            } else {
                m.target
            };
            let next = init_transition(m.state);
            if next.1 is RunNow {
                InitTrace { state: next.0, target, ran: m.ran.push(c), ..m }
            } else {
                InitTrace { state: next.0, target, queued: m.queued.push(c), ..m }
            }
        },
        InitEvent::End(success) => InitTrace {
            state: end_transition(success),
            queued: Seq::empty(),
            ran: if success {
                m.ran + m.queued
            } else {
                m.ran
            },
            dropped: if success {
                m.dropped
            } else {
                m.dropped + m.queued
            },
            ..m
        },
    }
}

/// The initializer after `events`, in order.
pub open spec fn run<C>(m: InitTrace<C>, events: Seq<InitEvent<C>>) -> InitTrace<C>
    decreases events.len(),
{
    if events.len() == 0 {
        m
    } else {
        step(run(m, events.drop_last()), events.last())
    }
}

/// The callbacks handed over by the calls among `events`, in call order.
pub open spec fn given<C>(events: Seq<InitEvent<C>>) -> Seq<C>
    decreases events.len(),
{
    if events.len() == 0 {
        Seq::empty()
    } else {
        match events.last() {
            InitEvent::Call(_, c) => given(events.drop_last()).push(c),
            InitEvent::End(_) => given(events.drop_last()),
        }
    }
}

/// Every event is a call of `init`.
pub open spec fn only_calls<C>(events: Seq<InitEvent<C>>) -> bool {
    forall|i: int| 0 <= i < events.len() ==> #[trigger] events[i] is Call
}

impl<C> Initializer<C> {
    /// The initializer as the laws see it (nothing run or dropped yet).
    pub open spec fn trace(&self) -> InitTrace<C> {
        InitTrace {
            state: self.state,
            target: target_view(self.target),
            queued: self.queued@,
            ran: Seq::empty(),
            dropped: Seq::empty(),
        }
    }

    /// An idle initializer with no callback and no image name.
    pub fn new() -> (r: Self)
        ensures
            r.trace() == fresh::<C>(),
    {
        Initializer { state: InitState::Idle, queued: Vec::new(), target: None }
    }

    /// A call of `init(target, callback)`. Returns what to do with the
    /// callback, and whether `target` became the recorded image name (it
    /// does only when none was recorded).
    pub fn call(&mut self, target: &str, callback: C) -> (r: (InitStep<C>, bool))
        ensures
            r.1 == (old(self).target is None),
            r.0 == match init_transition(old(self).state).1 {
                InitCall::RunNow => InitStep::RunNow(callback),
                InitCall::Queue => InitStep::<C>::Queued,
                InitCall::StartWorker => InitStep::<C>::StartWorker,
            },
            step(old(self).trace(), InitEvent::Call(target@, callback)) == (InitTrace {
                ran: match r.0 {
                    InitStep::RunNow(c) => seq![c],
                    _ => Seq::empty(),
                },
                ..final(self).trace()
            }),
    {
        let newly = self.target.is_none();
        if newly {
            self.target = Some(String::from_str(target));
        }
        let r = match on_init(&mut self.state) {
            InitCall::RunNow => InitStep::RunNow(callback),
            InitCall::Queue => {
                self.queued.push(callback);
                InitStep::Queued
            },
            InitCall::StartWorker => {
                self.queued.push(callback);
                InitStep::StartWorker
            },
        };
        proof {
            assert(final(self).trace().ran =~= Seq::<C>::empty());
            if r is RunNow {
                assert(seq![callback] =~= Seq::<C>::empty().push(callback));
            }
        }
        (r, newly)
    }

    /// The worker ended. Returns the queued callbacks to run, in call
    /// order, when it succeeded; when it failed they are dropped and
    /// nothing is returned.
    pub fn worker_ended(&mut self, success: bool) -> (ran: Vec<C>)
        ensures
            step(old(self).trace(), InitEvent::End(success)) == (InitTrace {
                ran: ran@,
                dropped: if success {
                    Seq::empty()
                } else {
                    old(self).queued@
                },
                ..final(self).trace()
            }),
    {
        on_worker_end(&mut self.state, success);
        let mut queued: Vec<C> = Vec::new();
        std::mem::swap(&mut queued, &mut self.queued);
        proof {
            assert(Seq::<C>::empty() + queued@ =~= queued@);
        }
        if success {
            queued
        } else {
            Vec::new()
        }
    }
}

/// Running `a` and then `b` is running `a + b`.
pub proof fn lemma_run_append<C>(m: InitTrace<C>, a: Seq<InitEvent<C>>, b: Seq<InitEvent<C>>)
    ensures
        run(m, a + b) == run(run(m, a), b),
        given(a + b) == given(a) + given(b),
    decreases b.len(),
{
    if b.len() == 0 {
        assert(a + b =~= a);
        assert(given(a) + given(b) =~= given(a));
    } else {
        lemma_run_append(m, a, b.drop_last());
        assert((a + b).drop_last() =~= a + b.drop_last());
        assert((a + b).last() == b.last());
        match b.last() {
            InitEvent::Call(_, c) => {
                assert(given(a) + given(b.drop_last()).push(c) =~= (given(a) + given(
                    b.drop_last(),
                )).push(c));
            },
            InitEvent::End(_) => {},
        }
    }
}

/// No callback is lost or duplicated: each callback ever handed to `init`
/// has, at every moment, either run once, been dropped once with a failed
/// worker, or is still queued. So with a fresh start a callback runs at
/// most as often as it was handed over, and only callbacks handed over
/// run.
pub proof fn law_callbacks_conserved<C>(m: InitTrace<C>, events: Seq<InitEvent<C>>)
    ensures
        ({
            let r = run(m, events);
            r.ran.to_multiset().add(r.queued.to_multiset()).add(r.dropped.to_multiset())
                =~= m.ran.to_multiset().add(m.queued.to_multiset()).add(
                m.dropped.to_multiset(),
            ).add(given(events).to_multiset())
        }),
        m == fresh::<C>() ==> forall|x: C| #[trigger]
            run(m, events).ran.to_multiset().count(x) <= given(events).to_multiset().count(x),
    decreases events.len(),
{
    broadcast use vstd::seq_lib::group_to_multiset_ensures;
    broadcast use vstd::multiset::group_multiset_axioms;

    if events.len() == 0 {
        assert(given(events).to_multiset() =~= Multiset::<C>::empty());
    } else {
        let p = run(m, events.drop_last());
        let r = run(m, events);
        let g = given(events.drop_last());
        let m0 = m.ran.to_multiset().add(m.queued.to_multiset()).add(m.dropped.to_multiset());
        law_callbacks_conserved(m, events.drop_last());
        match events.last() {
            InitEvent::Call(t, c) => {
                assert(given(events) == g.push(c));
                assert(given(events).to_multiset() =~= g.to_multiset().insert(c));
                if init_transition(p.state).1 is RunNow {
                    assert(r.ran == p.ran.push(c));
                    assert(r.ran.to_multiset() =~= p.ran.to_multiset().insert(c));
                    assert(r.queued == p.queued && r.dropped == p.dropped);
                } else {
                    assert(r.queued == p.queued.push(c));
                    assert(r.queued.to_multiset() =~= p.queued.to_multiset().insert(c));
                    assert(r.ran == p.ran && r.dropped == p.dropped);
                }
                assert(r.ran.to_multiset().add(r.queued.to_multiset()).add(r.dropped.to_multiset())
                    =~= p.ran.to_multiset().add(p.queued.to_multiset()).add(
                    p.dropped.to_multiset(),
                ).insert(c));
                assert(m0.add(g.to_multiset().insert(c)) =~= m0.add(g.to_multiset()).insert(c));
            },
            InitEvent::End(success) => {
                assert(given(events) == g);
                vstd::seq_lib::lemma_multiset_commutative(p.ran, p.queued);
                vstd::seq_lib::lemma_multiset_commutative(p.dropped, p.queued);
                assert(r.queued.to_multiset() =~= Multiset::<C>::empty());
                assert(r.ran.to_multiset().add(r.queued.to_multiset()).add(r.dropped.to_multiset())
                    =~= p.ran.to_multiset().add(p.queued.to_multiset()).add(
                    p.dropped.to_multiset(),
                ));
            },
        }
    }
    if m == fresh::<C>() {
        let r = run(m, events);
        assert(m.ran.to_multiset() =~= Multiset::<C>::empty());
        assert(m.queued.to_multiset() =~= Multiset::<C>::empty());
        assert(m.dropped.to_multiset() =~= Multiset::<C>::empty());
        assert(m.ran.to_multiset().add(m.queued.to_multiset()).add(m.dropped.to_multiset()).add(
            given(events).to_multiset(),
        ) =~= given(events).to_multiset());
        assert forall|x: C| #[trigger]
            r.ran.to_multiset().count(x) <= given(events).to_multiset().count(x) by {
            assert(r.ran.to_multiset().add(r.queued.to_multiset()).add(r.dropped.to_multiset()).count(
                x,
            ) == given(events).to_multiset().count(x));
        }
    }
}

/// While the worker runs, calls only queue their callbacks, in call order:
/// nothing runs, nothing is dropped, and the worker keeps running.
pub proof fn law_running_queues_in_order<C>(m: InitTrace<C>, events: Seq<InitEvent<C>>)
    requires
        m.state is Running,
        only_calls(events),
    ensures
        run(m, events).state is Running,
        run(m, events).queued == m.queued + given(events),
        run(m, events).ran == m.ran,
        run(m, events).dropped == m.dropped,
    decreases events.len(),
{
    if events.len() == 0 {
        assert(m.queued + given(events) =~= m.queued);
    } else {
        assert(only_calls(events.drop_last()) && events.last() is Call) by {
            assert forall|i: int| 0 <= i < events.drop_last().len() implies #[trigger] events.drop_last()[i] is Call by {
                assert(events.drop_last()[i] == events[i]);
            }
            assert(events[events.len() - 1] is Call);
        }
        law_running_queues_in_order(m, events.drop_last());
        let c = events.last()->Call_1;
        assert(m.queued + given(events.drop_last()).push(c) =~= (m.queued + given(
            events.drop_last(),
        )).push(c));
    }
}

/// After a completed initialization every call runs its callback at once,
/// in call order, and the state stays done.
pub proof fn law_done_runs_each_call<C>(m: InitTrace<C>, events: Seq<InitEvent<C>>)
    requires
        m.state is Done,
        only_calls(events),
    ensures
        run(m, events).state is Done,
        run(m, events).ran == m.ran + given(events),
        run(m, events).queued == m.queued,
        run(m, events).dropped == m.dropped,
    decreases events.len(),
{
    if events.len() == 0 {
        assert(m.ran + given(events) =~= m.ran);
    } else {
        assert(only_calls(events.drop_last()) && events.last() is Call) by {
            assert forall|i: int| 0 <= i < events.drop_last().len() implies #[trigger] events.drop_last()[i] is Call by {
                assert(events.drop_last()[i] == events[i]);
            }
            assert(events[events.len() - 1] is Call);
        }
        law_done_runs_each_call(m, events.drop_last());
        let c = events.last()->Call_1;
        assert(m.ran + given(events.drop_last()).push(c) =~= (m.ran + given(
            events.drop_last(),
        )).push(c));
    }
}

/// From an idle start, the callbacks of the calls made until the worker
/// ends run in call order when it succeeds and are all dropped when it
/// fails; either way none stays queued, and the state is done after
/// success and idle again after failure.
pub proof fn law_worker_settles_queue<C>(
    m: InitTrace<C>,
    calls: Seq<InitEvent<C>>,
    success: bool,
)
    requires
        m.state is Idle,
        m.queued.len() == 0,
        calls.len() > 0,
        only_calls(calls),
    ensures
        ({
            let r = run(m, calls.push(InitEvent::End(success)));
            &&& r.state == end_transition(success)
            &&& r.queued.len() == 0
            &&& r.ran == if success {
                m.ran + given(calls)
            } else {
                m.ran
            }
            &&& r.dropped == if success {
                m.dropped
            } else {
                m.dropped + given(calls)
            }
        }),
{
    let first = seq![calls[0]];
    let rest = calls.subrange(1, calls.len() as int);
    assert(calls =~= first + rest);
    lemma_run_append(m, first, rest);
    assert(first.drop_last() =~= Seq::<InitEvent<C>>::empty());
    assert(run(m, first.drop_last()) == m);
    assert(first.last() == calls[0]);
    let m1 = run(m, first);
    assert(m1 == step(m, calls[0]));
    assert(calls[0] is Call);
    assert(only_calls(rest)) by {
        assert forall|i: int| 0 <= i < rest.len() implies #[trigger] rest[i] is Call by {
            assert(rest[i] == calls[i + 1]);
            assert(calls[i + 1] is Call);
        }
    }
    law_running_queues_in_order(m1, rest);
    let c = calls[0]->Call_1;
    assert(given(first) == given(first.drop_last()).push(c));
    assert(given(first.drop_last()) =~= Seq::<C>::empty());
    assert(m.queued.push(c) + given(rest) =~= given(first) + given(rest));
    assert(calls.push(InitEvent::End(success)).drop_last() =~= calls);
    assert(m.ran + (m.queued.push(c) + given(rest)) =~= m.ran + given(calls));
    assert(m.dropped + (m.queued.push(c) + given(rest)) =~= m.dropped + given(calls));
}

/// The recorded image name is the one the first call gave: later calls
/// never change it.
pub proof fn law_first_target_kept<C>(m: InitTrace<C>, events: Seq<InitEvent<C>>)
    requires
        m.target is None,
        events.len() > 0,
        events[0] is Call,
    ensures
        run(m, events).target == Some(events[0]->Call_0),
{
    let first = seq![events[0]];
    let rest = events.subrange(1, events.len() as int);
    assert(events =~= first + rest);
    lemma_run_append(m, first, rest);
    assert(first.drop_last() =~= Seq::<InitEvent<C>>::empty());
    assert(run(m, first.drop_last()) == m);
    assert(first.last() == events[0]);
    assert(run(m, first) == step(m, events[0]));
    lemma_target_stays(run(m, first), rest);
}

/// A recorded image name stays through any events.
proof fn lemma_target_stays<C>(m: InitTrace<C>, events: Seq<InitEvent<C>>)
    requires
        m.target is Some,
    ensures
        run(m, events).target == m.target,
    decreases events.len(),
{
    if events.len() > 0 {
        lemma_target_stays(m, events.drop_last());
    }
}

} // verus!
