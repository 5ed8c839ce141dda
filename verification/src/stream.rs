//! The stream of events that a visitor is sent: busy visitors get one event and then silence;
//! players get what they are told of the table until they disconnect.
use axum::response::sse::Event;
use std::time::Duration;
use vstd::prelude::*;

use crate::text;

verus! {

/// Seconds after which a busy visitor is to try again.
pub const BUSY_RETRY: u64 = 30;

/// `axum::response::sse::Event`, one server-sent event.
#[verifier::external_type_specification]
#[verifier::external_body]
pub struct ExEvent(Event);

/// The fields that have been set on an event, in their order, each with what it was set to.
pub uninterp spec fn event_fields(event: Event) -> Seq<(Seq<char>, Seq<char>)>;

/// Whether a field has been set.
pub open spec fn has_field(fields: Seq<(Seq<char>, Seq<char>)>, name: Seq<char>) -> bool {
    exists|i: int| 0 <= i < fields.len() && (#[trigger] fields[i]).0 == name
}

/// `Event::default`: an event on which no field has been set.
#[verifier::external_body]
fn blank_event() -> (event: Event)
    ensures
        event_fields(event) == Seq::<(Seq<char>, Seq<char>)>::empty(),
{
    Event::default()
}

/// `Event::retry` with a whole number of seconds: sets the field `retry` to that time in
/// milliseconds. It panics where the field has been set.
#[verifier::external_body]
fn with_retry(event: Event, secs: u64) -> (changed: Event)
    requires
        !has_field(event_fields(event), "retry"@),
    ensures
        event_fields(changed) == event_fields(event).push(
            ("retry"@, text::decimal(secs as nat * 1000)),
        ),
{
    event.retry(Duration::from_secs(secs))
}

/// `Event::data`: sets the field `data` to a text, or sets nothing where the text is empty.
/// It panics where the field has been set.
#[verifier::external_body]
fn with_data(event: Event, data: &str) -> (changed: Event)
    requires
        !has_field(event_fields(event), "data"@),
    ensures
        event_fields(changed) == if data@.len() == 0 {
            event_fields(event)
        } else {
            event_fields(event).push(("data"@, data@))
        },
{
    event.data(data)
}

/// The fields of the event that a busy visitor is sent.
pub open spec fn busy_fields() -> Seq<(Seq<char>, Seq<char>)> {
    seq![
        ("retry"@, text::decimal(BUSY_RETRY as nat * 1000)),
        ("data"@, "{\"phase\":\"busy\"}"@),
    ]
}

/// The event that a busy visitor is sent.
pub fn busy_event() -> (event: Event)
    ensures
        event_fields(event) == busy_fields(),
{
    proof {
        reveal_strlit("retry");
        reveal_strlit("data");
        reveal_strlit("{\"phase\":\"busy\"}");
    }
    let event = with_retry(blank_event(), BUSY_RETRY);
    assert("retry"@.len() != "data"@.len());
    with_data(event, "{\"phase\":\"busy\"}")
}

/// The fields of the event that carries a message.
pub open spec fn message_fields(msg: Seq<char>) -> Seq<(Seq<char>, Seq<char>)> {
    if msg.len() == 0 {
        Seq::empty()
    } else {
        seq![("data"@, msg)]
    }
}

/// The event that carries a message.
pub fn message_event(msg: &str) -> (event: Event)
    ensures
        event_fields(event) == message_fields(msg@),
{
    let event = with_data(blank_event(), msg);
    event
}

/// Where a stream stands.
pub struct EventStream {
    busy: bool,
    busy_sent: bool,
}

/// What a stream does when it is asked for its next event.
pub enum StreamStep {
    /// Hand out this event.
    Emit(Event),
    /// Hand out nothing; pings keep the connection open.
    Wait,
    /// Hand out what comes next from the table.
    Forward,
}

/// Where a stream stands: whether it is that of a visitor for whom there is no seat, and
/// whether the one event of such a visitor has been handed out.
pub struct StreamView {
    pub busy: bool,
    pub told: bool,
}

impl StreamView {
    /// Whether the stream hands out the event for a busy visitor when asked for the next.
    pub open spec fn emits(self) -> bool {
        self.busy && !self.told
    }

    /// The stream once it has been asked for the next event.
    pub open spec fn polled(self) -> StreamView {
        StreamView { told: self.told || self.busy, ..self }
    }

    /// The stream once it has been asked `n` times.
    pub open spec fn polled_times(self, n: nat) -> StreamView
        decreases n,
    {
        if n == 0 {
            self
        } else {
            self.polled_times((n - 1) as nat).polled()
        }
    }
}

impl View for EventStream {
    type V = StreamView;

    closed spec fn view(&self) -> StreamView {
        StreamView { busy: self.busy, told: self.busy_sent }
    }
}

impl EventStream {
    /// The stream of a player.
    pub fn for_player() -> (stream: EventStream)
        ensures
            stream@ == (StreamView { busy: false, told: false }),
    {
        EventStream { busy: false, busy_sent: false }
    }

    /// The stream of a visitor for whom there is no seat.
    pub fn for_busy() -> (stream: EventStream)
        ensures
            stream@ == (StreamView { busy: true, told: false }),
    {
        EventStream { busy: true, busy_sent: false }
    }

    /// What to do when asked for the next event.
    pub fn poll_next(&mut self) -> (step: StreamStep)
        ensures
            final(self)@ == old(self)@.polled(),
            match step {
                StreamStep::Emit(event) => old(self)@.emits() && event_fields(event)
                    == busy_fields(),
                StreamStep::Wait => old(self)@.busy && old(self)@.told,
                StreamStep::Forward => !old(self)@.busy,
            },
    {
        if self.busy {
            if !self.busy_sent {
                self.busy_sent = true;
                return StreamStep::Emit(busy_event());
            }
            return StreamStep::Wait;
        }
        StreamStep::Forward
    }
}

/// A busy visitor gets one event and then silence: the stream hands out the event when first
/// asked and never again, and forwards nothing.
pub proof fn law_busy_told_once(n: nat)
    ensures
        (StreamView { busy: true, told: false }).polled_times(n).busy,
        (StreamView { busy: true, told: false }).polled_times(n).emits() <==> n == 0,
    decreases n,
{
    if n > 0 {
        law_busy_told_once((n - 1) as nat);
    }
}

/// A player's stream forwards what comes from the table, however often it is asked.
pub proof fn law_player_forwards(n: nat)
    ensures
        !(StreamView { busy: false, told: false }).polled_times(n).busy,
    decreases n,
{
    if n > 0 {
        law_player_forwards((n - 1) as nat);
    }
}

/// The next event of a player's stream from what comes next from the table; the stream ends
/// when nothing will come any more.
pub fn forward(msg: Option<String>) -> (event: Option<Event>)
    ensures
        match msg {
            Some(m) => event is Some && event_fields(event->0) == message_fields(m@),
            None => event is None,
        },
{
    match msg {
        Some(m) => Some(message_event(m.as_str())),
        None => None,
    }
}

}
