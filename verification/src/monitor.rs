//! The slot monitor: owns the subscription to new-slot notifications and
//! forwards each notified slot number into the slot queue.
//!
//! The subscription itself is held by the surrounding task; the loop below
//! decides, for each observed event, what the monitor does: on cancellation
//! it releases the subscription and ends with Termination; a notification
//! is forwarded, and if the queue's consumer is gone the loop ends with a
//! channel failure, releasing the subscription as well.

use vstd::prelude::*;
use crate::error::Error;

verus! {

/// What the monitor observes at the top of one iteration of its loop.
#[derive(Clone, Copy, Debug)]
pub enum MonitorEvent {
    /// The shared cancellation signal tripped.
    Cancelled,
    /// A slot notification arrived; the flag says whether the queue's
    /// consumer still existed, i.e. whether forwarding the slot succeeded.
    Notification(u64, bool),
}

/// What one run of the monitor's loop did: the slots it forwarded in
/// order, how it ended (`None`: the observed events ran out with the loop
/// still waiting), and whether it released its subscription.
#[derive(Debug)]
pub struct MonitorReport {
    pub forwarded: Vec<u64>,
    pub outcome: Option<Error>,
    pub unsubscribed: bool,
}

/// Whether an event lets the loop continue: a notification that was
/// delivered.
pub open spec fn event_delivered(e: MonitorEvent) -> bool {
    match e {
        MonitorEvent::Notification(_, delivered) => delivered,
        MonitorEvent::Cancelled => false,
    }
}

/// The slots forwarded: every notification before the first terminal
/// event, in arrival order.
pub open spec fn spec_forwarded(events: Seq<MonitorEvent>) -> Seq<u64>
    decreases events.len(),
{
    if events.len() == 0 {
        Seq::empty()
    } else {
        match events[0] {
            MonitorEvent::Cancelled => Seq::empty(),
            MonitorEvent::Notification(s, delivered) => if delivered {
                seq![s] + spec_forwarded(events.drop_first())
            } else {
                Seq::empty()
            },
        }
    }
}

/// The first event that ends the loop: a cancellation, or a notification
/// whose consumer was gone; `None` when every event lets the loop go on.
pub open spec fn first_terminal(events: Seq<MonitorEvent>) -> Option<MonitorEvent>
    decreases events.len(),
{
    if events.len() == 0 {
        None
    } else if event_delivered(events[0]) {
        first_terminal(events.drop_first())
    } else {
        Some(events[0])
    }
}

/// What the monitor must do for one observed event.
#[derive(Debug)]
pub enum MonitorStep {
    /// The notification was delivered: keep looping.
    Continue,
    /// Release the subscription and return this outcome.
    Stop(Error),
}

/// The monitor's decision for one event: cancellation releases the
/// subscription and terminates; a delivered notification continues the
/// loop; a notification whose consumer is gone releases the subscription
/// and fails with a channel failure.
pub fn monitor_decide(event: MonitorEvent) -> (r: MonitorStep)
    ensures
        (match event {
            MonitorEvent::Cancelled => r == MonitorStep::Stop(Error::Termination),
            MonitorEvent::Notification(_, delivered) => if delivered {
                r == MonitorStep::Continue
            } else {
                match r {
                    MonitorStep::Stop(e) => match e {
                        Error::ChannelFailed(source, detail) => source@ == "SlotMonitor"@
                            && detail@ == "channel closed"@,
                        _ => false,
                    },
                    _ => false,
                }
            },
        }),
{
    match event {
        MonitorEvent::Cancelled => MonitorStep::Stop(Error::Termination),
        MonitorEvent::Notification(_, true) => MonitorStep::Continue,
        MonitorEvent::Notification(_, false) => MonitorStep::Stop(Error::ChannelFailed(
            "SlotMonitor".to_owned(),
            "channel closed".to_owned(),
        )),
    }
}

/// Runs the monitor's loop over the observed events, taking
/// [`monitor_decide`]'s decision for each one: forwards each notified slot
/// in order; on cancellation, releases the subscription and ends with
/// Termination; when the queue's consumer is gone, ends with a channel
/// failure, the subscription released as well.
pub fn run_monitor(events: &Vec<MonitorEvent>) -> (r: MonitorReport)
    ensures
        r.forwarded@ == spec_forwarded(events@),
        (match first_terminal(events@) {
            Some(MonitorEvent::Cancelled) => r.outcome == Some(Error::Termination)
                && r.unsubscribed,
            Some(MonitorEvent::Notification(_, _)) => r.unsubscribed && (match r.outcome {
                Some(Error::ChannelFailed(source, detail)) => source@ == "SlotMonitor"@
                    && detail@ == "channel closed"@,
                _ => false,
            }),
            None => r.outcome == None::<Error> && !r.unsubscribed,
        }),
{
    let n = events.len();
    let mut forwarded: Vec<u64> = Vec::new();
    let mut k: usize = 0;
    proof {
        assert(events@.skip(0) =~= events@);
    }
    while k < n
        invariant
            n == events@.len(),
            k <= n,
            forall|i: int| 0 <= i < k ==> event_delivered(#[trigger] events@[i]),
            spec_forwarded(events@) == forwarded@ + spec_forwarded(events@.skip(k as int)),
            first_terminal(events@) == first_terminal(events@.skip(k as int)),
        decreases n - k,
    {
        proof {
            assert(events@.skip(k as int)[0] == events@[k as int]);
            assert(events@.skip(k as int).drop_first() =~= events@.skip(k + 1 as int));
        }
        let event = events[k];
        match monitor_decide(event) {
            MonitorStep::Continue => {
                match event {
                    MonitorEvent::Notification(slot, _) => {
                        forwarded.push(slot);
                        proof {
                            assert(forwarded@ + spec_forwarded(events@.skip(k + 1 as int))
                                =~= forwarded@.drop_last() + (seq![slot] + spec_forwarded(
                                events@.skip(k + 1 as int),
                            )));
                        }
                    },
                    MonitorEvent::Cancelled => {
                        proof {
                            assert(false);
                        }
                    },
                }
            },
            MonitorStep::Stop(outcome) => {
                return MonitorReport { forwarded, outcome: Some(outcome), unsubscribed: true };
            },
        }
        k = k + 1;
    }
    proof {
        assert(forwarded@ + spec_forwarded(events@.skip(n as int)) =~= forwarded@);
    }
    MonitorReport { forwarded, outcome: None, unsubscribed: false }
}

/// Cancellation: when the signal trips while every earlier notification
/// was delivered, the loop's run ends in Termination with the
/// subscription released (by [`run_monitor`]'s contract on a `Cancelled`
/// first terminal event).
pub proof fn lemma_cancellation(events: Seq<MonitorEvent>, k: int)
    requires
        0 <= k < events.len(),
        events[k] == MonitorEvent::Cancelled,
        forall|i: int| 0 <= i < k ==> event_delivered(#[trigger] events[i]),
    ensures
        first_terminal(events) == Some(MonitorEvent::Cancelled),
    decreases k,
{
    if k == 0 {
    } else {
        assert(event_delivered(events[0]));
        assert(events.drop_first()[k - 1] == events[k]);
        assert forall|i: int| 0 <= i < k - 1 implies event_delivered(
            #[trigger] events.drop_first()[i],
        ) by {
            assert(event_delivered(events[i + 1]));
        }
        lemma_cancellation(events.drop_first(), k - 1);
    }
}

} // verus!
