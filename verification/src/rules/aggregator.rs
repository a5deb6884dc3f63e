//! When an event is worth a notification on its own.
use vstd::prelude::*;
use crate::domain::{NoticeEvent, NoticeEventType};

verus! {

/// What to do with an event.
#[derive(Debug, Clone, PartialEq, Eq)]
pub enum AggregationDecision {
    Record,
    NotifyNow(String),
    Aggregate,
}

/// Confirmations and finishes notify with the event's title; a failure notifies once
/// `consecutive_failures` reaches five and is aggregated before; starts are only recorded;
/// warnings and errors are aggregated.
pub fn decide(event: &NoticeEvent, consecutive_failures: i64) -> (r: AggregationDecision)
    ensures
        match event.event_type {
            NoticeEventType::UserConfirm | NoticeEventType::TaskFinish =>
                r matches AggregationDecision::NotifyNow(t) && t@ == event.title@,
            NoticeEventType::TaskFail => if consecutive_failures >= 5 {
                r matches AggregationDecision::NotifyNow(t) && t@ == "Continuous failures detected"@
            } else {
                r is Aggregate
            },
            NoticeEventType::TaskStart => r is Record,
            NoticeEventType::Warning | NoticeEventType::Error => r is Aggregate,
        },
{
    match event.event_type {
        NoticeEventType::UserConfirm => AggregationDecision::NotifyNow(event.title.clone()),
        NoticeEventType::TaskFinish => AggregationDecision::NotifyNow(event.title.clone()),
        NoticeEventType::TaskFail => {
            if consecutive_failures >= 5 {
                AggregationDecision::NotifyNow(String::from_str("Continuous failures detected"))
            } else {
                AggregationDecision::Aggregate
            }
        },
        NoticeEventType::TaskStart => AggregationDecision::Record,
        NoticeEventType::Warning | NoticeEventType::Error => AggregationDecision::Aggregate,
    }
}

} // verus!
