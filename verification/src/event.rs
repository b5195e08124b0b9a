//! The event bus: protocol events with millisecond timestamps, broadcast
//! synchronously to registered observers in registration order.
//!
//! Observers are owned by the bus; registration returns a handle, and
//! removal by handle hands the observer back.  Two observers come built
//! in: a collector that appends every event to a vector, and a tracer
//! that prints one line per event matching a filter.

use std::io::Write;

use vstd::prelude::*;
use vstd::slice::slice_to_vec;
use vstd::string::StringExecFns;

use crate::command::Command;

verus! {

/// A protocol event.  Byte payloads are owned copies of what went over
/// the wire.
#[derive(Debug, PartialEq, Eq)]
pub enum Event {
    /// The reset sequence ran.
    Reset,
    /// Raw bytes arrived on the serial line.
    SerialRead(Vec<u8>),
    /// Raw bytes were written to the serial line.
    SerialWrite(Vec<u8>),
    /// A line of text arrived.
    SerialLine(Vec<u8>),
    /// A SLIP frame was decoded.
    SlipRead(Vec<u8>),
    /// A payload was SLIP-framed and sent.
    SlipWrite(Vec<u8>),
    /// A command was issued, with its raw data payload.
    Command(Command, Vec<u8>),
    /// The command with this opcode timed out.
    CommandTimeout(u8),
    /// A response arrived: opcode echo, status, error, value, data.
    Response(u8, u8, u8, u32, Vec<u8>),
    /// A frame that did not parse as a response.
    InvalidResponse(Vec<u8>),
}

/// The mathematical model of an event: the same variants over byte
/// sequences.
pub enum EventModel {
    Reset,
    SerialRead(Seq<u8>),
    SerialWrite(Seq<u8>),
    SerialLine(Seq<u8>),
    SlipRead(Seq<u8>),
    SlipWrite(Seq<u8>),
    Command(Command, Seq<u8>),
    CommandTimeout(u8),
    Response(u8, u8, u8, u32, Seq<u8>),
    InvalidResponse(Seq<u8>),
}

impl View for Event {
    type V = EventModel;

    open spec fn view(&self) -> EventModel {
        match self {
            Event::Reset => EventModel::Reset,
            Event::SerialRead(data) => EventModel::SerialRead(data@),
            Event::SerialWrite(data) => EventModel::SerialWrite(data@),
            Event::SerialLine(data) => EventModel::SerialLine(data@),
            Event::SlipRead(data) => EventModel::SlipRead(data@),
            Event::SlipWrite(data) => EventModel::SlipWrite(data@),
            Event::Command(cmd, data) => EventModel::Command(*cmd, data@),
            Event::CommandTimeout(code) => EventModel::CommandTimeout(*code),
            Event::Response(code, status, error, value, data) => EventModel::Response(
                *code,
                *status,
                *error,
                *value,
                data@,
            ),
            Event::InvalidResponse(data) => EventModel::InvalidResponse(data@),
        }
    }
}

impl Clone for Event {
    /// A clone carries the same model.
    fn clone(&self) -> (r: Event)
        ensures
            r@ == self@,
    {
        match self {
            Event::Reset => Event::Reset,
            Event::SerialRead(data) => Event::SerialRead(slice_to_vec(data.as_slice())),
            Event::SerialWrite(data) => Event::SerialWrite(slice_to_vec(data.as_slice())),
            Event::SerialLine(data) => Event::SerialLine(slice_to_vec(data.as_slice())),
            Event::SlipRead(data) => Event::SlipRead(slice_to_vec(data.as_slice())),
            Event::SlipWrite(data) => Event::SlipWrite(slice_to_vec(data.as_slice())),
            Event::Command(cmd, data) => Event::Command(*cmd, slice_to_vec(data.as_slice())),
            Event::CommandTimeout(code) => Event::CommandTimeout(*code),
            Event::Response(code, status, error, value, data) => Event::Response(
                *code,
                *status,
                *error,
                *value,
                slice_to_vec(data.as_slice()),
            ),
            Event::InvalidResponse(data) => Event::InvalidResponse(slice_to_vec(data.as_slice())),
        }
    }
}

impl Event {
    /// The event as an owned value; payloads are owned already, so this
    /// is the identity.
    pub fn into_owned(self) -> (r: Event)
        ensures
            r == self,
    {
        self
    }

    /// A one-line human-readable account of the event.
    pub fn describe(&self) -> (r: String) {
        match self {
            Event::Reset => String::from_str("Reset"),
            Event::SerialRead(data) => describe_bytes("Read ", data.len()),
            Event::SerialWrite(data) => describe_bytes("Write ", data.len()),
            Event::SerialLine(data) => describe_bytes("Read line of ", data.len()),
            Event::SlipRead(data) => describe_bytes("Read packet of ", data.len()),
            Event::SlipWrite(data) => describe_bytes("Write packet of ", data.len()),
            Event::Command(cmd, data) => {
                let mut s = String::from_str("Command ");
                s.append(Command::name_from_code(cmd.code()));
                s.append(" (");
                let h = hex_byte(cmd.code());
                s.append(h.as_str());
                s.append(")");
                if data.len() > 0 {
                    let t = describe_bytes(" with ", data.len());
                    s.append(t.as_str());
                }
                s
            },
            Event::CommandTimeout(code) => {
                let mut s = String::from_str("Command timeout ");
                s.append(Command::name_from_code(*code));
                s.append(" (");
                let h = hex_byte(*code);
                s.append(h.as_str());
                s.append(")");
                s
            },
            Event::Response(code, status, error, value, data) => {
                let mut s = String::from_str("Response ");
                s.append(Command::name_from_code(*code));
                s.append(" status=");
                let hs = hex_byte(*status);
                s.append(hs.as_str());
                s.append(" error=");
                let he = hex_byte(*error);
                s.append(he.as_str());
                s.append(" value=");
                let hv = hex_u32(*value);
                s.append(hv.as_str());
                if data.len() > 0 {
                    let t = describe_bytes(" with ", data.len());
                    s.append(t.as_str());
                }
                s
            },
            Event::InvalidResponse(data) => describe_bytes("Invalid response of ", data.len()),
        }
    }
}

/// `prefix` followed by a byte count.
fn describe_bytes(prefix: &str, n: usize) -> (r: String) {
    let mut s = String::from_str(prefix);
    let d = usize_dec(n);
    s.append(d.as_str());
    s.append(" bytes");
    s
}

// ---------------------------------------------------------------------------
// Number formatting
// ---------------------------------------------------------------------------

/// The decimal digit character of `d`.
pub open spec fn dec_char(d: int) -> char {
    if d == 0 {
        '0'
    } else if d == 1 {
        '1'
    } else if d == 2 {
        '2'
    } else if d == 3 {
        '3'
    } else if d == 4 {
        '4'
    } else if d == 5 {
        '5'
    } else if d == 6 {
        '6'
    } else if d == 7 {
        '7'
    } else if d == 8 {
        '8'
    } else {
        '9'
    }
}

/// The decimal digit characters of `v`, most significant first.
pub open spec fn dec_chars(v: int) -> Seq<char>
    decreases v,
{
    if v < 10 {
        seq![dec_char(v)]
    } else {
        dec_chars(v / 10) + seq![dec_char(v % 10)]
    }
}

/// The single-character string of decimal digit `d`.
fn dec_digit_str(d: u64) -> (r: &'static str)
    requires
        d < 10,
    ensures
        r@ == seq![dec_char(d as int)],
{
    let r = if d == 0 {
        proof {
            reveal_strlit("0");
        }
        "0"
    } else if d == 1 {
        proof {
            reveal_strlit("1");
        }
        "1"
    } else if d == 2 {
        proof {
            reveal_strlit("2");
        }
        "2"
    } else if d == 3 {
        proof {
            reveal_strlit("3");
        }
        "3"
    } else if d == 4 {
        proof {
            reveal_strlit("4");
        }
        "4"
    } else if d == 5 {
        proof {
            reveal_strlit("5");
        }
        "5"
    } else if d == 6 {
        proof {
            reveal_strlit("6");
        }
        "6"
    } else if d == 7 {
        proof {
            reveal_strlit("7");
        }
        "7"
    } else if d == 8 {
        proof {
            reveal_strlit("8");
        }
        "8"
    } else {
        proof {
            reveal_strlit("9");
        }
        "9"
    };
    proof {
        assert(r@ =~= seq![dec_char(d as int)]);
    }
    r
}

/// `v` in decimal.
pub fn u64_dec(v: u64) -> (r: String)
    ensures
        r@ == dec_chars(v as int),
    decreases v,
{
    if v < 10 {
        String::from_str(dec_digit_str(v))
    } else {
        let mut s = u64_dec(v / 10);
        s.append(dec_digit_str(v % 10));
        s
    }
}

/// `v` in decimal.
pub fn usize_dec(v: usize) -> (r: String)
    ensures
        r@ == dec_chars(v as int),
{
    u64_dec(v as u64)
}

/// The hexadecimal digit character of `d`.
pub open spec fn hex_char(d: int) -> char {
    if d < 10 {
        dec_char(d)
    } else if d == 10 {
        'A'
    } else if d == 11 {
        'B'
    } else if d == 12 {
        'C'
    } else if d == 13 {
        'D'
    } else if d == 14 {
        'E'
    } else {
        'F'
    }
}

/// The two hexadecimal digit characters of a byte.
pub open spec fn hex_chars(b: u8) -> Seq<char> {
    seq![hex_char(b as int / 16), hex_char(b as int % 16)]
}

/// The single-character string of hexadecimal digit `d`.
fn hex_digit_str(d: u8) -> (r: &'static str)
    requires
        d < 16,
    ensures
        r@ == seq![hex_char(d as int)],
{
    if d < 10 {
        dec_digit_str(d as u64)
    } else {
        let r = if d == 10 {
            proof {
                reveal_strlit("A");
            }
            "A"
        } else if d == 11 {
            proof {
                reveal_strlit("B");
            }
            "B"
        } else if d == 12 {
            proof {
                reveal_strlit("C");
            }
            "C"
        } else if d == 13 {
            proof {
                reveal_strlit("D");
            }
            "D"
        } else if d == 14 {
            proof {
                reveal_strlit("E");
            }
            "E"
        } else {
            proof {
                reveal_strlit("F");
            }
            "F"
        };
        proof {
            assert(r@ =~= seq![hex_char(d as int)]);
        }
        r
    }
}

/// A byte as two upper-case hexadecimal digits.
pub fn hex_byte(b: u8) -> (r: String)
    ensures
        r@ == hex_chars(b),
{
    let mut s = String::from_str(hex_digit_str(b / 16));
    s.append(hex_digit_str(b % 16));
    proof {
        assert(s@ =~= hex_chars(b));
    }
    s
}

/// A word as eight upper-case hexadecimal digits.
pub fn hex_u32(v: u32) -> (r: String)
    ensures
        r@ == hex_chars((v >> 24) as u8) + hex_chars(((v >> 16) & 0xFF) as u8) + hex_chars(
            ((v >> 8) & 0xFF) as u8,
        ) + hex_chars((v & 0xFF) as u8),
{
    proof {
        assert((v >> 24) < 0x100) by (bit_vector);
    }
    let mut s = hex_byte((v >> 24u32) as u8);
    let b2 = hex_byte(((v >> 16u32) & 0xFF) as u8);
    s.append(b2.as_str());
    let b1 = hex_byte(((v >> 8u32) & 0xFF) as u8);
    s.append(b1.as_str());
    let b0 = hex_byte((v & 0xFF) as u8);
    s.append(b0.as_str());
    s
}

/// A hex dump of `data`: two digits per byte followed by a separator,
/// sixteen bytes per line.
pub fn format_data(data: &[u8]) -> (r: String)
    ensures
        r@.len() == 3 * data@.len(),
{
    let mut s = String::new();
    let mut i: usize = 0;
    while i < data.len()
        invariant
            i <= data@.len(),
            s@.len() == 3 * i,
        decreases data@.len() - i,
    {
        let h = hex_byte(data[i]);
        s.append(h.as_str());
        if i % 16 == 15 {
            proof {
                reveal_strlit("\n");
            }
            s.append("\n");
        } else {
            proof {
                reveal_strlit(" ");
            }
            s.append(" ");
        }
        i = i + 1;
    }
    s
}

// ---------------------------------------------------------------------------
// The bus
// ---------------------------------------------------------------------------

/// Something that watches the bus.  Notification is synchronous; a
/// notified observer must not re-enter the session.
pub trait EventObserver: Sized {
    /// What one notification does to the observer: how the state after
    /// (`self`) relates to the state before (`prev`), the timestamp and
    /// the event delivered.  An observer that promises nothing may leave
    /// the default.
    open spec fn notified(&self, prev: Self, timestamp_ms: u64, event: Event) -> bool {
        true
    }

    /// Receive one event.
    fn notify(&mut self, timestamp_ms: u64, event: &Event)
        ensures
            final(self).notified(*old(self), timestamp_ms, *event),
    ;
}

/// The broadcast point: one producer, any number of owned observers,
/// notified in registration order.  A removed observer leaves its slot
/// empty so that the handles of the others stay valid.
pub struct EventProvider<O> {
    pub observers: Vec<Option<O>>,
}

impl<O: EventObserver> EventProvider<O> {
    /// An empty bus.
    pub fn new() -> (r: Self)
        ensures
            r.observers@.len() == 0,
    {
        EventProvider { observers: Vec::new() }
    }

    /// Register an observer; the returned handle removes it again.
    pub fn add_observer(&mut self, observer: O) -> (handle: usize)
        ensures
            final(self).observers@ == old(self).observers@.push(Some(observer)),
            handle == old(self).observers@.len(),
    {
        let handle = self.observers.len();
        self.observers.push(Some(observer));
        handle
    }

    /// Remove the observer behind `handle` and hand it back; an empty or
    /// out-of-range slot yields nothing.
    pub fn remove_observer(&mut self, handle: usize) -> (r: Option<O>)
        ensures
            handle < old(self).observers@.len() ==> final(self).observers@ == old(
                self,
            ).observers@.update(handle as int, None) && r == old(self).observers@[handle as int],
            handle >= old(self).observers@.len() ==> *final(self) == *old(self) && r is None,
    {
        if handle < self.observers.len() {
            let slot = self.observers.remove(handle);
            self.observers.insert(handle, None);
            proof {
                assert(self.observers@ =~= old(self).observers@.update(handle as int, None));
            }
            slot
        } else {
            None
        }
    }

    /// Broadcast one event to every registered observer, in order:
    /// afterwards every slot that held an observer holds that observer
    /// notified once with this timestamp and event, and every empty
    /// slot is still empty.
    pub fn send_event(&mut self, timestamp_ms: u64, event: &Event)
        ensures
            final(self).observers@.len() == old(self).observers@.len(),
            forall|k: int|
                0 <= k < old(self).observers@.len() ==> match old(self).observers@[k] {
                    Some(o) => (#[trigger] final(self).observers@[k]) matches Some(o2)
                        && o2.notified(o, timestamp_ms, *event),
                    None => final(self).observers@[k] is None,
                },
    {
        let n = self.observers.len();
        let mut i: usize = 0;
        while i < n
            invariant
                i <= n,
                self.observers@.len() == n,
                old(self).observers@.len() == n,
                forall|k: int|
                    0 <= k < i ==> match old(self).observers@[k] {
                        Some(o) => (#[trigger] self.observers@[k]) matches Some(o2)
                            && o2.notified(o, timestamp_ms, *event),
                        None => self.observers@[k] is None,
                    },
                forall|k: int|
                    i <= k < n ==> #[trigger] self.observers@[k] == old(self).observers@[k],
            decreases n - i,
        {
            let ghost before = self.observers@;
            let slot = self.observers.remove(i);
            match slot {
                Some(mut observer) => {
                    observer.notify(timestamp_ms, event);
                    let ghost notified_observer = observer;
                    self.observers.insert(i, Some(observer));
                    proof {
                        assert(self.observers@ =~= before.update(
                            i as int,
                            Some(notified_observer),
                        ));
                    }
                },
                None => {
                    self.observers.insert(i, None);
                    proof {
                        assert(self.observers@ =~= before);
                    }
                },
            }
            i = i + 1;
        }
    }
}

// ---------------------------------------------------------------------------
// Built-in observers
// ---------------------------------------------------------------------------

/// The observer half of the collector: appends every event.
pub struct EventCollectorObserver {
    pub events: Vec<(u64, Event)>,
}

impl EventObserver for EventCollectorObserver {
    /// A notification appends exactly one pair: the timestamp and an
    /// event with the delivered event's model; everything already
    /// collected stays as it was.
    open spec fn notified(&self, prev: Self, timestamp_ms: u64, event: Event) -> bool {
        &&& self.events@.len() == prev.events@.len() + 1
        &&& self.events@.subrange(0, prev.events@.len() as int) == prev.events@
        &&& self.events@.last().0 == timestamp_ms
        &&& self.events@.last().1@ == event@
    }

    fn notify(&mut self, timestamp_ms: u64, event: &Event) {
        self.events.push((timestamp_ms, event.clone()));
        proof {
            assert(self.events@.subrange(0, old(self).events@.len() as int) =~= old(
                self,
            ).events@);
        }
    }
}

/// Collects `(timestamp, event)` pairs for later inspection.
pub struct EventCollector {
    pub observer: EventCollectorObserver,
}

impl EventCollector {
    /// An empty collector.
    pub fn new() -> (r: Self)
        ensures
            r.observer.events@.len() == 0,
    {
        EventCollector { observer: EventCollectorObserver { events: Vec::new() } }
    }

    /// The observer to register with the bus.
    pub fn observer(self) -> (r: EventCollectorObserver)
        ensures
            r == self.observer,
    {
        self.observer
    }

    /// Drain an observer that has been removed from the bus again.
    pub fn collect(observer: EventCollectorObserver) -> (r: Vec<(u64, Event)>)
        ensures
            r == observer.events,
    {
        observer.events
    }
}

/// Which event classes a tracer reports.
#[derive(Clone, Copy, Debug, PartialEq, Eq, Structural)]
pub struct EventFilter {
    pub serial: bool,
    pub line: bool,
    pub slip: bool,
    pub command: bool,
}

/// Whether the filter selects the event.
pub open spec fn filter_passes(f: EventFilter, e: Event) -> bool {
    match e {
        Event::Reset => f.command,
        Event::SerialRead(_) => f.serial,
        Event::SerialWrite(_) => f.serial,
        Event::SerialLine(_) => f.line,
        Event::SlipRead(_) => f.slip,
        Event::SlipWrite(_) => f.slip,
        Event::Command(_, _) => f.command,
        Event::CommandTimeout(_) => f.command,
        Event::Response(_, _, _, _, _) => f.command,
        Event::InvalidResponse(_) => f.command,
    }
}

impl EventFilter {
    /// Whether this filter selects `event`.
    pub fn passes(&self, event: &Event) -> (r: bool)
        ensures
            r == filter_passes(*self, *event),
    {
        match event {
            Event::Reset => self.command,
            Event::SerialRead(_) | Event::SerialWrite(_) => self.serial,
            Event::SerialLine(_) => self.line,
            Event::SlipRead(_) | Event::SlipWrite(_) => self.slip,
            Event::Command(_, _) | Event::CommandTimeout(_) | Event::Response(_, _, _, _, _)
                | Event::InvalidResponse(_) => self.command,
        }
    }
}

/// The observer half of the tracer: prints one line per selected event,
/// prefixed with the time elapsed since the previous emission.
pub struct EventTracerObserver {
    pub filter: EventFilter,
    pub last_ms: Option<u64>,
}

/// Relies on writeln to the standard error stream: emits one line of
/// trace output.
#[verifier::external_body]
fn emit_trace_line(line: &String) {
    let _ = writeln!(std::io::stderr(), "{}", line);
}

impl EventObserver for EventTracerObserver {
    /// A notification keeps the filter and, when the event passes it,
    /// records the timestamp as the last emission.
    open spec fn notified(&self, prev: Self, timestamp_ms: u64, event: Event) -> bool {
        &&& self.filter == prev.filter
        &&& self.last_ms == if filter_passes(prev.filter, event) {
            Some(timestamp_ms)
        } else {
            prev.last_ms
        }
    }

    fn notify(&mut self, timestamp_ms: u64, event: &Event) {
        if self.filter.passes(event) {
            let delta: u64 = match self.last_ms {
                Some(t) => if timestamp_ms >= t {
                    timestamp_ms - t
                } else {
                    0
                },
                None => 0,
            };
            self.last_ms = Some(timestamp_ms);
            let mut line = String::from_str("TRACE +");
            let d = u64_dec(delta);
            line.append(d.as_str());
            line.append("ms ");
            let e = event.describe();
            line.append(e.as_str());
            emit_trace_line(&line);
        }
    }
}

/// Prints a line per event matching the filter.
pub struct EventTracer {
    pub observer: EventTracerObserver,
}

impl EventTracer {
    /// A tracer that reports the classes selected by `filter`.
    pub fn new(filter: EventFilter) -> (r: Self)
        ensures
            r.observer.filter == filter,
            r.observer.last_ms is None,
    {
        EventTracer { observer: EventTracerObserver { filter, last_ms: None } }
    }

    /// The observer to register with the bus.
    pub fn observer(self) -> (r: EventTracerObserver)
        ensures
            r == self.observer,
    {
        self.observer
    }
}

} // verus!
