use vstd::prelude::*;

verus! {

/// What the capture source delivered on one wait.
#[derive(Clone, Copy, Debug, PartialEq, Eq, Structural)]
pub enum CaptureEvent {
    /// A frame arrived.
    Frame,
    /// No frame arrived within the read timeout.
    Timeout,
    /// The capture was cancelled from outside.
    Cancelled,
}

/// What the loop does in answer to an event.
#[derive(Clone, Copy, Debug, PartialEq, Eq, Structural)]
pub enum LoopAction {
    /// Dissect and print the frame, then wait for the next one.
    Dissect,
    /// Dissect and print the frame, then print the statistics and stop.
    DissectAndStop,
    /// Report that no frame came, then wait again.
    ReportTimeout,
    /// Print the statistics and stop.
    Stop,
    /// The loop has stopped; nothing is done.
    Ignore,
}

/// The abstract state of the capture loop.
pub ghost struct DriverModel {
    /// Frames to capture; zero means no bound.
    pub requested: nat,
    /// Frames dissected so far.
    pub processed: nat,
    pub stopped: bool,
}

/// Decides, frame by frame, what the capture loop does, and when it stops.
pub struct CaptureDriver {
    requested: u32,
    processed: u32,
    stopped: bool,
}

impl View for CaptureDriver {
    type V = DriverModel;

    closed spec fn view(&self) -> DriverModel {
        DriverModel { requested: self.requested as nat, processed: self.processed as nat, stopped: self.stopped }
    }
}

/// The count of a running bounded loop has not been reached yet.
pub open spec fn driver_wf(m: DriverModel) -> bool {
    &&& m.processed <= m.requested
    &&& (!m.stopped && m.requested > 0 ==> m.processed < m.requested)
}

/// The state of a loop that has not yet seen an event.
pub open spec fn initial(requested: nat) -> DriverModel {
    DriverModel { requested, processed: 0, stopped: false }
}

/// One step: a stopped loop ignores everything; a cancellation stops it; a
/// timeout is reported; a frame is dissected, and stops the loop when it is
/// the last one of a bounded count.
pub open spec fn step(m: DriverModel, ev: CaptureEvent) -> (DriverModel, LoopAction) {
    if m.stopped {
        (m, LoopAction::Ignore)
    } else {
        match ev {
            CaptureEvent::Cancelled => (DriverModel { stopped: true, ..m }, LoopAction::Stop),
            CaptureEvent::Timeout => (m, LoopAction::ReportTimeout),
            CaptureEvent::Frame => {
                let bounded = m.requested > 0;
                let processed = if bounded { m.processed + 1 } else { m.processed };
                if bounded && processed >= m.requested {
                    (DriverModel { processed, stopped: true, ..m }, LoopAction::DissectAndStop)
                } else {
                    (DriverModel { processed, ..m }, LoopAction::Dissect)
                }
            },
        }
    }
}

/// The state after a sequence of events, and the actions taken in order.
pub open spec fn run(m: DriverModel, evs: Seq<CaptureEvent>) -> (DriverModel, Seq<LoopAction>)
    decreases evs.len(),
{
    if evs.len() == 0 {
        (m, seq![])
    } else {
        let before = run(m, evs.drop_last());
        let after = step(before.0, evs.last());
        (after.0, before.1.push(after.1))
    }
}

pub open spec fn prints_statistics(a: LoopAction) -> bool {
    a == LoopAction::DissectAndStop || a == LoopAction::Stop
}

/// How many of the actions print the statistics.
pub open spec fn statistics_count(acts: Seq<LoopAction>) -> nat
    decreases acts.len(),
{
    if acts.len() == 0 {
        0
    } else {
        statistics_count(acts.drop_last()) + if prints_statistics(acts.last()) { 1nat } else { 0nat }
    }
}

impl CaptureDriver {
    /// A running loop that captures `requested` frames, or frames without
    /// bound where `requested` is zero.
    pub fn new(requested: u32) -> (r: Self)
        ensures
            r@ == initial(requested as nat),
            driver_wf(r@),
    {
        CaptureDriver { requested, processed: 0, stopped: false }
    }

    /// Whether the loop has stopped.
    pub fn is_stopped(&self) -> (r: bool)
        ensures
            r == self@.stopped,
    {
        self.stopped
    }

    /// The number of frames dissected so far under a bounded count.
    pub fn processed(&self) -> (r: u32)
        ensures
            r as nat == self@.processed,
    {
        self.processed
    }

    /// Answers one event.
    pub fn on_event(&mut self, ev: CaptureEvent) -> (a: LoopAction)
        requires
            driver_wf(old(self)@),
        ensures
            (final(self)@, a) == step(old(self)@, ev),
            driver_wf(final(self)@),
    {
        if self.stopped {
            return LoopAction::Ignore;
        }
        match ev {
            CaptureEvent::Cancelled => {
                self.stopped = true;
                LoopAction::Stop
            },
            CaptureEvent::Timeout => LoopAction::ReportTimeout,
            CaptureEvent::Frame => {
                if self.requested > 0 {
                    self.processed = self.processed + 1;
                    if self.processed >= self.requested {
                        self.stopped = true;
                        return LoopAction::DissectAndStop;
                    }
                }
                LoopAction::Dissect
            },
        }
    }
}

proof fn lemma_statistics_push(acts: Seq<LoopAction>, a: LoopAction)
    ensures
        statistics_count(acts.push(a)) == statistics_count(acts) + if prints_statistics(a) { 1nat } else { 0nat },
{
    assert(acts.push(a).drop_last() =~= acts);
}

/// A loop started with any count prints the statistics once when it has
/// stopped and not before, whatever events come and however many arrive
/// after it stopped.
pub proof fn lemma_statistics_once(requested: nat, evs: Seq<CaptureEvent>)
    ensures
        statistics_count(run(initial(requested), evs).1) == if run(initial(requested), evs).0.stopped { 1nat } else { 0nat },
        run(initial(requested), evs).1.len() == evs.len(),
    decreases evs.len(),
{
    if evs.len() > 0 {
        lemma_statistics_once(requested, evs.drop_last());
        let before = run(initial(requested), evs.drop_last());
        lemma_statistics_push(before.1, step(before.0, evs.last()).1);
    }
}

/// Under a count of `n` frames, `n` frames make the loop dissect each one,
/// stop at the last, and print the statistics exactly once.
pub proof fn lemma_bounded_run(n: nat)
    requires
        n > 0,
    ensures
        ({
            let r = run(initial(n), Seq::new(n, |i: int| CaptureEvent::Frame));
            &&& r.0.stopped
            &&& r.0.processed == n
            &&& r.1.len() == n
            &&& forall|i: int| 0 <= i < n - 1 ==> r.1[i] == LoopAction::Dissect
            &&& r.1[n - 1] == LoopAction::DissectAndStop
            &&& statistics_count(r.1) == 1
        }),
{
    lemma_frames_before_bound(n, (n - 1) as nat);
    let evs = Seq::new(n, |i: int| CaptureEvent::Frame);
    assert(evs.drop_last() =~= Seq::new((n - 1) as nat, |i: int| CaptureEvent::Frame));
    lemma_statistics_once(n, evs);
}

proof fn lemma_frames_before_bound(n: nat, k: nat)
    requires
        k < n,
    ensures
        ({
            let r = run(initial(n), Seq::new(k, |i: int| CaptureEvent::Frame));
            &&& !r.0.stopped
            &&& r.0.processed == k
            &&& r.0.requested == n
            &&& r.1.len() == k
            &&& forall|i: int| 0 <= i < k ==> r.1[i] == LoopAction::Dissect
        }),
    decreases k,
{
    let evs = Seq::new(k, |i: int| CaptureEvent::Frame);
    if k > 0 {
        lemma_frames_before_bound(n, (k - 1) as nat);
        assert(evs.drop_last() =~= Seq::new((k - 1) as nat, |i: int| CaptureEvent::Frame));
    } else {
        assert(evs =~= seq![]);
    }
}

/// With no bound on the count, the loop stops only on a cancellation.
pub proof fn lemma_unbounded_runs_until_cancelled(evs: Seq<CaptureEvent>)
    requires
        forall|i: int| 0 <= i < evs.len() ==> evs[i] != CaptureEvent::Cancelled,
    ensures
        !run(initial(0), evs).0.stopped,
        run(initial(0), evs).0.requested == 0,
    decreases evs.len(),
{
    if evs.len() > 0 {
        lemma_unbounded_runs_until_cancelled(evs.drop_last());
    }
}

} // verus!
