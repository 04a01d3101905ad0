//! What a tap hands to its subscribers.

use vstd::prelude::*;

verus! {

/// A log event, with the output that it came from.
#[derive(Debug, Clone, PartialEq, Eq)]
pub struct Log<L> {
    pub output_id: String,
    pub event: L,
}

/// A metric event, with the output that it came from.
#[derive(Debug, Clone, PartialEq, Eq)]
pub struct Metric<M> {
    pub output_id: String,
    pub event: M,
}

/// A trace event, with the output that it came from.
#[derive(Debug, Clone, PartialEq, Eq)]
pub struct Trace<T> {
    pub output_id: String,
    pub event: T,
}

/// What a notification says of a component.
#[derive(Debug, Clone, Copy, PartialEq, Eq, Structural)]
pub enum EventNotificationType {
    /// A component matched the pattern of the tap.
    Matched,
    /// No component matched the pattern of the tap.
    NotMatched,
}

/// A notification about a component.
#[derive(Debug, Clone, PartialEq, Eq)]
pub struct EventNotification {
    pub component_id: String,
    pub notification: EventNotificationType,
}

/// What a tap has to say of a component.
#[derive(Debug, Clone, Copy, PartialEq, Eq, Structural)]
pub enum TapNotification {
    Matched,
    NotMatched,
}

/// What a tap delivers at once: the events of one kind from one output, or
/// a notification.
#[derive(Debug, Clone, PartialEq, Eq)]
pub enum TapPayload<L, M, T> {
    Log(String, Vec<L>),
    Metric(String, Vec<M>),
    Notification(String, TapNotification),
    Trace(String, Vec<T>),
}

/// An event or a notification.
#[derive(Debug, Clone, PartialEq, Eq)]
pub enum OutputEventsPayload<L, M, T> {
    /// Log event
    Log(Log<L>),
    /// Metric event
    Metric(Metric<M>),
    /// Notification
    Notification(EventNotification),
    /// Trace event
    Trace(Trace<T>),
}

/// What a tap's notification becomes.
pub open spec fn notification_type(notification: TapNotification) -> EventNotificationType {
    match notification {
        TapNotification::Matched => EventNotificationType::Matched,
        TapNotification::NotMatched => EventNotificationType::NotMatched,
    }
}

/// Whether `payloads` is what `payload` unfolds to: one payload for each
/// event, in order and with the output of the batch, or the one
/// notification.
pub open spec fn unfolds_to<L, M, T>(
    payload: TapPayload<L, M, T>,
    payloads: Seq<OutputEventsPayload<L, M, T>>,
) -> bool {
    match payload {
        TapPayload::Log(output, events) => payloads.len() == events@.len() && forall|i: int|
            0 <= i < events@.len() ==> (#[trigger] payloads[i] matches OutputEventsPayload::Log(log)
                && log.output_id@ == output@ && log.event == events@[i]),
        TapPayload::Metric(output, events) => payloads.len() == events@.len() && forall|i: int|
            0 <= i < events@.len() ==> (#[trigger] payloads[i] matches OutputEventsPayload::Metric(
                metric,
            ) && metric.output_id@ == output@ && metric.event == events@[i]),
        TapPayload::Trace(output, events) => payloads.len() == events@.len() && forall|i: int|
            0 <= i < events@.len() ==> (#[trigger] payloads[i] matches OutputEventsPayload::Trace(
                trace,
            ) && trace.output_id@ == output@ && trace.event == events@[i]),
        TapPayload::Notification(component, notification) => {
            &&& payloads.len() == 1
            &&& payloads[0] matches OutputEventsPayload::Notification(event)
            &&& event.component_id@ == component@
            &&& event.notification == notification_type(notification)
        },
    }
}

/// The items of a vector, from the last to the first.
fn reversed<E>(items: Vec<E>) -> (r: Vec<E>)
    ensures
        r@ == items@.reverse(),
{
    let mut rest = items;
    let mut out: Vec<E> = Vec::new();
    while rest.len() > 0
        invariant
            rest@.len() <= items@.len(),
            out@.len() == items@.len() - rest@.len(),
            rest@ == items@.take(rest@.len() as int),
            forall|i: int| 0 <= i < out@.len() ==> out@[i] == items@[items@.len() - 1 - i],
        decreases rest@.len(),
    {
        let last = rest.pop().unwrap();
        out.push(last);
    }
    out
}

impl<L, M, T> TapPayload<L, M, T> {
    /// Unfolds what a tap delivered into one payload for each event.
    pub fn into_payloads(self) -> (payloads: Vec<OutputEventsPayload<L, M, T>>)
        ensures
            unfolds_to(self, payloads@),
    {
        match self {
            TapPayload::Log(output, events) => {
                let ghost all = events@;
                let mut rest = reversed(events);
                let mut out: Vec<OutputEventsPayload<L, M, T>> = Vec::new();
                while rest.len() > 0
                    invariant
                        out@.len() + rest@.len() == all.len(),
                        forall|i: int|
                            0 <= i < rest@.len() ==> rest@[i] == all[all.len() - 1 - i],
                        forall|i: int|
                            0 <= i < out@.len() ==> (#[trigger] out@[i]
                                matches OutputEventsPayload::Log(log) && log.output_id@ == output@
                                && log.event == all[i]),
                    decreases rest@.len(),
                {
                    let event = rest.pop().unwrap();
                    out.push(OutputEventsPayload::Log(Log { output_id: output.clone(), event }));
                }
                out
            },
            TapPayload::Metric(output, events) => {
                let ghost all = events@;
                let mut rest = reversed(events);
                let mut out: Vec<OutputEventsPayload<L, M, T>> = Vec::new();
                while rest.len() > 0
                    invariant
                        out@.len() + rest@.len() == all.len(),
                        forall|i: int|
                            0 <= i < rest@.len() ==> rest@[i] == all[all.len() - 1 - i],
                        forall|i: int|
                            0 <= i < out@.len() ==> (#[trigger] out@[i]
                                matches OutputEventsPayload::Metric(metric) && metric.output_id@
                                == output@ && metric.event == all[i]),
                    decreases rest@.len(),
                {
                    let event = rest.pop().unwrap();
                    out.push(
                        OutputEventsPayload::Metric(Metric { output_id: output.clone(), event }),
                    );
                }
                out
            },
            TapPayload::Notification(component, notification) => {
                let notification = match notification {
                    TapNotification::Matched => EventNotificationType::Matched,
                    TapNotification::NotMatched => EventNotificationType::NotMatched,
                };
                let mut out: Vec<OutputEventsPayload<L, M, T>> = Vec::new();
                out.push(
                    OutputEventsPayload::Notification(
                        EventNotification { component_id: component, notification },
                    ),
                );
                out
            },
            TapPayload::Trace(output, events) => {
                let ghost all = events@;
                let mut rest = reversed(events);
                let mut out: Vec<OutputEventsPayload<L, M, T>> = Vec::new();
                while rest.len() > 0
                    invariant
                        out@.len() + rest@.len() == all.len(),
                        forall|i: int|
                            0 <= i < rest@.len() ==> rest@[i] == all[all.len() - 1 - i],
                        forall|i: int|
                            0 <= i < out@.len() ==> (#[trigger] out@[i]
                                matches OutputEventsPayload::Trace(trace) && trace.output_id@
                                == output@ && trace.event == all[i]),
                    decreases rest@.len(),
                {
                    let event = rest.pop().unwrap();
                    out.push(OutputEventsPayload::Trace(Trace { output_id: output.clone(), event }));
                }
                out
            },
        }
    }
}

} // verus!
