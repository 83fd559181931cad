//! Consuming Debezium notifications from Kafka: the decisions of the polling
//! loop. The consumer itself is outside work; [`consume_step`] says what to
//! do before each poll and [`poll_outcome`] what a poll gave.
use vstd::prelude::*;
use crate::document::{json_bytes_parse, parse_json_bytes};
use crate::error::Error;
use crate::json::JsonValue;
use crate::text::concat2;

verus! {

broadcast use vstd::string::group_string_axioms;

/// A notification monitor's settings and whether its consumer is running.
pub struct NotificationMonitor {
    pub bootstrap_servers: String,
    pub notification_topic: String,
    pub started: bool,
}

/// What the polling loop does next.
pub enum ConsumeAction {
    /// Give up with this error.
    Fail(Error),
    /// The time limit has passed: stop the consumer and return.
    Finish,
    /// Poll for the next message.
    Poll,
}

impl NotificationMonitor {
    /// A monitor of `notification_topic`, not started.
    pub fn new(bootstrap_servers: String, notification_topic: String) -> (r: NotificationMonitor)
        ensures
            r.bootstrap_servers@ == bootstrap_servers@,
            r.notification_topic@ == notification_topic@,
            !r.started,
    {
        NotificationMonitor { bootstrap_servers, notification_topic, started: false }
    }

    /// The topic the monitor reads.
    pub fn notification_topic(&self) -> (r: &str)
        ensures
            r@ == self.notification_topic@,
    {
        self.notification_topic.as_str()
    }

    /// Records that the consumer is running.
    pub fn start(&mut self)
        ensures
            final(self).started,
            final(self).bootstrap_servers == old(self).bootstrap_servers,
            final(self).notification_topic == old(self).notification_topic,
    {
        self.started = true;
    }

    /// Records that the consumer is stopped.
    pub fn stop(&mut self)
        ensures
            !final(self).started,
            final(self).bootstrap_servers == old(self).bootstrap_servers,
            final(self).notification_topic == old(self).notification_topic,
    {
        self.started = false;
    }
}

/// Before each poll: fail when the consumer is not running, finish once more
/// than `limit_nanos` have passed (never without a limit), poll otherwise.
pub fn consume_step(monitor: &NotificationMonitor, elapsed_nanos: u128, limit_nanos: Option<u128>) -> (r:
    ConsumeAction)
    ensures
        !monitor.started ==> r matches ConsumeAction::Fail(Error::MonitorNotStarted),
        monitor.started ==> match limit_nanos {
            Some(l) => if elapsed_nanos > l {
                r is Finish
            } else {
                r is Poll
            },
            None => r is Poll,
        },
{
    if !monitor.started {
        return ConsumeAction::Fail(Error::MonitorNotStarted);
    }
    match limit_nanos {
        Some(l) => if elapsed_nanos > l {
            ConsumeAction::Finish
        } else {
            ConsumeAction::Poll
        },
        None => ConsumeAction::Poll,
    }
}

/// The notification a message payload carries: its JSON, `None` when it is
/// not JSON.
pub fn decode_notification(payload: &[u8]) -> (r: Option<JsonValue>)
    ensures
        match json_bytes_parse(payload@) {
            Ok(t) => r matches Some(v) && v@ == t,
            Err(_) => r is None,
        },
{
    match parse_json_bytes(payload) {
        Ok(v) => Some(v),
        Err(_) => None,
    }
}

/// What one poll gave: no message (`None`), a consumer error, or a message
/// with or without a payload. A message is a notification only when its
/// payload is JSON.
pub fn poll_outcome(polled: Option<Result<Option<Vec<u8>>, String>>) -> (r: Result<Option<JsonValue>, Error>)
    ensures
        match polled {
            None => r matches Ok(None),
            Some(Err(reason)) => r matches Err(Error::Kafka { reason: m }) && m@ == "consumer poll failed: "@
                + reason@,
            Some(Ok(None)) => r matches Ok(None),
            Some(Ok(Some(payload))) => match json_bytes_parse(payload@) {
                Ok(t) => r matches Ok(Some(v)) && v@ == t,
                Err(_) => r matches Ok(None),
            },
        },
{
    match polled {
        None => Ok(None),
        Some(Err(reason)) => Err(Error::Kafka { reason: concat2("consumer poll failed: ", reason.as_str()) }),
        Some(Ok(None)) => Ok(None),
        Some(Ok(Some(payload))) => Ok(decode_notification(payload.as_slice())),
    }
}

/// The error of a consumer that could not be created.
pub fn consumer_create_failure(reason: &str) -> (r: Error)
    ensures
        r matches Error::Kafka { reason: m } && m@ == "cannot create consumer: "@ + reason@,
{
    Error::Kafka { reason: concat2("cannot create consumer: ", reason) }
}

/// The error of a consumer that could not subscribe to the topic.
pub fn subscribe_failure(topic: &str, reason: &str) -> (r: Error)
    ensures
        r matches Error::Kafka { reason: m } && m@ == "cannot subscribe to "@ + topic@ + ": "@ + reason@,
{
    Error::Kafka { reason: crate::text::concat4("cannot subscribe to ", topic, ": ", reason) }
}

} // verus!
