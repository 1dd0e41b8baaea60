use vstd::prelude::*;

verus! {

/// An opaque completion-callback payload, two machine words wide.
pub struct CWaker {
    pub _unknown: [u8; 16],
}

impl CWaker {
    /// A bit-for-bit copy of the payload.
    pub fn unsafe_bitcopy(&self) -> (r: CWaker)
        ensures
            r == *self,
    {
        CWaker { _unknown: self._unknown }
    }
}

/// A value that a poll may or may not have produced.
pub enum MaybeData<T> {
    Nothing,
    Just(T),
}

/// What a pending computation answers to a verb: `flag` is zero unless the
/// computation reports an inconsistency, and `output` holds the value once
/// it is ready.
pub struct Result<T> {
    pub flag: u8,
    pub output: MaybeData<T>,
}

impl<T> Result<T> {
    /// The answer "no value yet".
    pub fn pending() -> (r: Self)
        ensures
            r.flag == 0,
            r.output is Nothing,
    {
        Result { flag: 0, output: MaybeData::Nothing }
    }

    /// The answer "value ready".
    pub fn ready(value: T) -> (r: Self)
        ensures
            r.flag == 0,
            r.output == MaybeData::Just(value),
    {
        Result { flag: 0, output: MaybeData::Just(value) }
    }
}

/// The verbs a consumer sends to a pending computation. `V` is the handle of
/// the wake/free/clone function table.
pub enum CBReason<V> {
    /// Install the function table, once, before any poll; makes no progress.
    SealWakerVTable { vtable: V },
    /// Ask whether the value is ready; never blocks.
    PollCollect,
    /// A fresh completion-callback payload.
    Waker { waker: CWaker },
    /// Teardown before completion.
    Abort,
    /// Teardown after the value was collected.
    Cleanup,
}

/// Flag bit of a consumer: the value was collected.
pub const COLLECTED: u8 = 4;

/// The consumer side of the protocol: whether the value was collected, and
/// the identity (data and table addresses) of the last wake handle delivered.
pub struct FFIFuture {
    flags: u8,
    last_waker_data: usize,
    last_waker_vtable: usize,
}

/// What one poll of the consumer came to.
pub enum PollStep<T> {
    Pending,
    Ready(T),
    /// The computation set a nonzero flag without a value: the asynchronous
    /// contract is broken.
    Glitch,
}

/// The verb a consumer sends when it is dropped.
pub enum Terminal {
    Cleanup,
    Abort,
}

impl FFIFuture {
    pub closed spec fn collected(&self) -> bool {
        self.flags & COLLECTED != 0
    }

    pub closed spec fn last_waker(&self) -> (usize, usize) {
        (self.last_waker_data, self.last_waker_vtable)
    }

    /// A consumer that has sealed the table and delivered no wake handle yet.
    pub fn new() -> (r: Self)
        ensures
            !r.collected(),
            r.last_waker() == (0usize, 0usize),
    {
        assert(0u8 & 4u8 == 0) by (bit_vector);
        FFIFuture { flags: 0, last_waker_data: 0, last_waker_vtable: 0 }
    }

    /// Whether the polling environment's wake handle, identified by its data
    /// and table addresses, differs from the last one delivered; it is
    /// recorded as the last one either way.
    pub fn waker_changed(&mut self, data: usize, vtable: usize) -> (r: bool)
        ensures
            r == (old(self).last_waker() != (data, vtable)),
            final(self).last_waker() == (data, vtable),
            final(self).collected() == old(self).collected(),
    {
        if self.last_waker_data != data || self.last_waker_vtable != vtable {
            self.last_waker_data = data;
            self.last_waker_vtable = vtable;
            true
        } else {
            false
        }
    }

    /// Reads the answer to a `PollCollect`: a value makes the poll ready and
    /// marks it collected; no value with a zero flag leaves it pending; no
    /// value with a nonzero flag is a broken contract.
    pub fn on_collect<T>(&mut self, out: Result<T>) -> (r: PollStep<T>)
        ensures
            final(self).last_waker() == old(self).last_waker(),
            out.output matches MaybeData::Just(v) ==> r == PollStep::Ready(v)
                && final(self).collected(),
            out.output is Nothing && out.flag != 0 ==> r is Glitch && final(self).collected()
                == old(self).collected(),
            out.output is Nothing && out.flag == 0 ==> r is Pending && final(self).collected()
                == old(self).collected(),
    {
        match out.output {
            MaybeData::Just(v) => {
                let f = self.flags;
                assert((f | 4u8) & 4u8 != 0) by (bit_vector);
                self.flags = f | COLLECTED;
                PollStep::Ready(v)
            },
            MaybeData::Nothing => {
                if out.flag != 0 {
                    PollStep::Glitch
                } else {
                    PollStep::Pending
                }
            },
        }
    }

    /// The single verb sent on drop: `Cleanup` once the value was
    /// collected, `Abort` otherwise.
    pub fn terminal(&self) -> (r: Terminal)
        ensures
            self.collected() ==> r is Cleanup,
            !self.collected() ==> r is Abort,
    {
        if self.flags & COLLECTED != 0 {
            Terminal::Cleanup
        } else {
            Terminal::Abort
        }
    }
}

/// Where a pending computation stands in the protocol.
pub enum BridgePhase {
    Fresh,
    /// The function table is installed.
    Sealed,
    /// The last poll found no value.
    Polling,
    /// A fresh wake handle was delivered.
    WakerDelivered,
    /// A poll collected the value.
    Completed,
    /// Torn down before completion.
    Aborted,
    /// Torn down after completion.
    Cleaned,
}

/// A verb as the protocol sees it; a poll is told apart by its answer.
pub enum Verb {
    Seal,
    Waker,
    PollPending,
    PollReady,
    Cleanup,
    Abort,
}

pub open spec fn is_live(p: BridgePhase) -> bool {
    p is Sealed || p is Polling || p is WakerDelivered
}

pub open spec fn is_terminal_verb(v: Verb) -> bool {
    v is Cleanup || v is Abort
}

/// The phase after verb `v` in phase `p`, or `None` when the protocol
/// forbids `v` there.
pub open spec fn next_phase(p: BridgePhase, v: Verb) -> Option<BridgePhase> {
    match v {
        Verb::Seal => if p is Fresh {
            Some(BridgePhase::Sealed)
        } else {
            None
        },
        Verb::Waker => if is_live(p) {
            Some(BridgePhase::WakerDelivered)
        } else {
            None
        },
        Verb::PollPending => if is_live(p) {
            Some(BridgePhase::Polling)
        } else {
            None
        },
        Verb::PollReady => if is_live(p) {
            Some(BridgePhase::Completed)
        } else {
            None
        },
        Verb::Cleanup => if p is Completed {
            Some(BridgePhase::Cleaned)
        } else {
            None
        },
        Verb::Abort => if is_live(p) {
            Some(BridgePhase::Aborted)
        } else {
            None
        },
    }
}

/// Accepts verb `v` in phase `p`: the next phase, or `None` for a verb the
/// protocol forbids there.
pub fn advance(p: BridgePhase, v: Verb) -> (r: Option<BridgePhase>)
    ensures
        r == next_phase(p, v),
{
    let live = match p {
        BridgePhase::Sealed | BridgePhase::Polling | BridgePhase::WakerDelivered => true,
        _ => false,
    };
    match v {
        Verb::Seal => match p {
            BridgePhase::Fresh => Some(BridgePhase::Sealed),
            _ => None,
        },
        Verb::Waker => if live {
            Some(BridgePhase::WakerDelivered)
        } else {
            None
        },
        Verb::PollPending => if live {
            Some(BridgePhase::Polling)
        } else {
            None
        },
        Verb::PollReady => if live {
            Some(BridgePhase::Completed)
        } else {
            None
        },
        Verb::Cleanup => match p {
            BridgePhase::Completed => Some(BridgePhase::Cleaned),
            _ => None,
        },
        Verb::Abort => if live {
            Some(BridgePhase::Aborted)
        } else {
            None
        },
    }
}

/// The phase after the verbs of `vs`, in order, or `None` when one of them
/// was forbidden.
pub open spec fn run_verbs(p: BridgePhase, vs: Seq<Verb>) -> Option<BridgePhase>
    decreases vs.len(),
{
    if vs.len() == 0 {
        Some(p)
    } else {
        match run_verbs(p, vs.drop_last()) {
            Some(q) => next_phase(q, vs.last()),
            None => None,
        }
    }
}

proof fn lemma_prefix_accepted(vs: Seq<Verb>, k: int)
    requires
        run_verbs(BridgePhase::Fresh, vs) is Some,
        0 <= k <= vs.len(),
    ensures
        run_verbs(BridgePhase::Fresh, vs.take(k)) is Some,
    decreases vs.len(),
{
    if k == vs.len() {
        assert(vs.take(k) =~= vs);
    } else {
        let p = vs.drop_last();
        lemma_prefix_accepted(p, k);
        assert(p.take(k) =~= vs.take(k));
    }
}

proof fn lemma_run_prefix(vs: Seq<Verb>, i: int)
    requires
        run_verbs(BridgePhase::Fresh, vs) is Some,
        0 <= i < vs.len(),
    ensures
        run_verbs(BridgePhase::Fresh, vs.take(i)) is Some,
        run_verbs(BridgePhase::Fresh, vs.take(i + 1)) == next_phase(
            run_verbs(BridgePhase::Fresh, vs.take(i))->0,
            vs[i],
        ),
        run_verbs(BridgePhase::Fresh, vs.take(i + 1)) is Some,
        i > 0 ==> !(run_verbs(BridgePhase::Fresh, vs.take(i))->0 is Fresh),
    decreases vs.len(),
{
    lemma_prefix_accepted(vs, i);
    lemma_prefix_accepted(vs, i + 1);
    let p = vs.drop_last();
    if i < vs.len() - 1 {
        assert(run_verbs(BridgePhase::Fresh, p) is Some);
        lemma_run_prefix(p, i);
        assert(p.take(i) =~= vs.take(i));
        assert(p.take(i + 1) =~= vs.take(i + 1));
    } else {
        assert(vs.take(i) =~= p);
        assert(vs.take(i + 1) =~= vs);
        if i > 0 {
            lemma_run_prefix(p, i - 1);
            assert(p.take(i) =~= p);
        }
    }
}

/// In every run that the protocol accepts, the table is sealed by the first
/// verb and never again.
pub proof fn lemma_seal_first_and_once(vs: Seq<Verb>)
    requires
        run_verbs(BridgePhase::Fresh, vs) is Some,
        vs.len() > 0,
    ensures
        vs[0] is Seal,
        forall|i: int| 0 < i < vs.len() ==> !(#[trigger] vs[i] is Seal),
{
    lemma_run_prefix(vs, 0);
    assert(vs.take(0) =~= Seq::<Verb>::empty());
    assert forall|i: int| 0 < i < vs.len() implies !(#[trigger] vs[i] is Seal) by {
        lemma_run_prefix(vs, i);
    }
}

/// In every run that the protocol accepts, `Cleanup` or `Abort` comes at
/// most once, and only as the last verb.
pub proof fn lemma_terminate_once(vs: Seq<Verb>)
    requires
        run_verbs(BridgePhase::Fresh, vs) is Some,
    ensures
        forall|i: int| 0 <= i < vs.len() - 1 ==> !is_terminal_verb(#[trigger] vs[i]),
{
    assert forall|i: int| 0 <= i < vs.len() - 1 implies !is_terminal_verb(#[trigger] vs[i]) by {
        lemma_run_prefix(vs, i);
        lemma_run_prefix(vs, i + 1);
    }
}

} // verus!
