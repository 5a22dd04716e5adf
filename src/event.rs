//! The decisions of the event loop: which hotplug events start a new
//! resolution cycle, and what to do next on each event of the transport.
use vstd::prelude::*;
use crate::text::str_eq;

verus! {

/// The number of successful connections that the loop lets pass before it
/// acts on events, so as not to react to the burst of events that the
/// compositor sends while it starts.
pub const WARMUP_ROUNDS: u32 = 100;

/// The event name of a transport line: what precedes the first `>>`, or the
/// whole line where there is none.
pub open spec fn event_name(s: Seq<char>) -> Seq<char>
    decreases s.len(),
{
    if s.len() < 2 {
        s
    } else if s[0] == '>' && s[1] == '>' {
        Seq::empty()
    } else {
        seq![s[0]] + event_name(s.drop_first())
    }
}

/// The event names after which the monitors are looked at again.
pub open spec fn is_trigger(name: Seq<char>) -> bool {
    name == "monitoradded"@ || name == "monitoraddedv2"@ || name == "monitorremoved"@ || name
        == "monitorremovedv2"@
}

/// The event name of the transport line `line`.
pub fn event_name_of(line: &str) -> (r: String)
    ensures
        r@ == event_name(line@),
{
    let n = line.unicode_len();
    let mut i: usize = 0;
    proof {
        assert(line@.skip(0) =~= line@);
        assert(line@.subrange(0, 0) + event_name(line@.skip(0)) =~= event_name(line@));
    }
    while n - i >= 2
        invariant
            n == line@.len(),
            i <= n,
            line@.subrange(0, i as int) + event_name(line@.skip(i as int)) == event_name(line@),
        decreases n - i,
    {
        let ghost t = line@.skip(i as int);
        if line.get_char(i) == '>' && line.get_char(i + 1) == '>' {
            proof {
                assert(line@.subrange(0, i as int) + Seq::<char>::empty() =~= line@.subrange(
                    0,
                    i as int,
                ));
            }
            return line.substring_char(0, i).to_owned();
        }
        proof {
            assert(t.drop_first() =~= line@.skip(i + 1));
            assert(line@.subrange(0, i + 1) =~= line@.subrange(0, i as int).push(t[0]));
            assert(line@.subrange(0, i + 1) + event_name(line@.skip(i + 1)) =~= line@.subrange(
                0,
                i as int,
            ) + (seq![t[0]] + event_name(t.drop_first())));
        }
        i = i + 1;
    }
    proof {
        assert(line@.skip(i as int).len() < 2);
        assert(line@.subrange(0, i as int) + line@.skip(i as int) =~= line@);
    }
    line.to_owned()
}

/// Whether the event named `name` starts a new resolution cycle.
pub fn event_triggers(name: &str) -> (r: bool)
    ensures
        r == is_trigger(name@),
{
    str_eq(name, "monitoradded") || str_eq(name, "monitoraddedv2") || str_eq(name, "monitorremoved")
        || str_eq(name, "monitorremovedv2")
}

/// Whether the transport line `line` starts a new resolution cycle.
pub fn on_event(line: &str) -> (r: bool)
    ensures
        r == is_trigger(event_name(line@)),
{
    let name = event_name_of(line);
    event_triggers(name.as_str())
}

/// Where the loop stands.
#[derive(Debug, Clone, Copy, PartialEq, Eq, Structural)]
pub enum LoopPhase {
    /// Nothing has run yet.
    Starting,
    /// Waiting for the transport to connect.
    Connecting,
    /// Reading lines from the transport.
    Listening,
}

/// What happens on the loop's side.
pub enum LoopEvent {
    /// The process has started.
    Started,
    /// The transport connected.
    Connected,
    /// The transport could not be connected.
    ConnectFailed,
    /// The transport delivered a line.
    Line(String),
    /// The transport closed.
    Closed,
}

/// What the loop asks to be done next.
#[derive(Debug, Clone, Copy, PartialEq, Eq, Structural)]
pub enum LoopAction {
    /// Run a resolution cycle and its commands, then go on.
    RunCycle,
    /// (Re)connect the transport.
    Connect,
    /// Read the next line of the transport.
    Listen,
}

/// The state of the event loop: its phase and the connections made while
/// warming up.
#[derive(Debug, Clone, Copy, PartialEq, Eq, Structural)]
pub struct EventLoop {
    pub phase: LoopPhase,
    pub pause: u32,
}

/// The state after `ev`, and the action it asks for.
pub open spec fn step_spec(s: EventLoop, ev: LoopEvent) -> (EventLoop, LoopAction) {
    match (s.phase, ev) {
        (LoopPhase::Starting, LoopEvent::Started) => (
            EventLoop { phase: LoopPhase::Connecting, ..s },
            LoopAction::RunCycle,
        ),
        (LoopPhase::Starting, _) => (s, LoopAction::RunCycle),
        (LoopPhase::Connecting, LoopEvent::Connected) => if s.pause > WARMUP_ROUNDS {
            (EventLoop { phase: LoopPhase::Listening, ..s }, LoopAction::Listen)
        } else {
            (EventLoop { pause: (s.pause + 1) as u32, ..s }, LoopAction::Connect)
        },
        (LoopPhase::Connecting, _) => (s, LoopAction::Connect),
        (LoopPhase::Listening, LoopEvent::Line(l)) => if is_trigger(event_name(l@)) {
            (s, LoopAction::RunCycle)
        } else {
            (s, LoopAction::Listen)
        },
        (LoopPhase::Listening, LoopEvent::Closed) => (
            EventLoop { phase: LoopPhase::Connecting, ..s },
            LoopAction::Connect,
        ),
        (LoopPhase::Listening, _) => (s, LoopAction::Listen),
    }
}

pub open spec fn loop_wf(s: EventLoop) -> bool {
    s.pause <= WARMUP_ROUNDS + 1
}

impl EventLoop {
    pub fn new() -> (r: EventLoop)
        ensures
            r.phase == LoopPhase::Starting,
            r.pause == 0,
    {
        EventLoop { phase: LoopPhase::Starting, pause: 0 }
    }

    /// Takes the event `ev` and says what to do next.
    pub fn step(&mut self, ev: &LoopEvent) -> (r: LoopAction)
        requires
            loop_wf(*old(self)),
        ensures
            (*final(self), r) == step_spec(*old(self), *ev),
            loop_wf(*final(self)),
    {
        match self.phase {
            LoopPhase::Starting => {
                if let LoopEvent::Started = ev {
                    self.phase = LoopPhase::Connecting;
                }
                LoopAction::RunCycle
            },
            LoopPhase::Connecting => {
                if let LoopEvent::Connected = ev {
                    if self.pause > WARMUP_ROUNDS {
                        self.phase = LoopPhase::Listening;
                        return LoopAction::Listen;
                    }
                    self.pause = self.pause + 1;
                }
                LoopAction::Connect
            },
            LoopPhase::Listening => match ev {
                LoopEvent::Line(l) => {
                    if on_event(l.as_str()) {
                        LoopAction::RunCycle
                    } else {
                        LoopAction::Listen
                    }
                },
                LoopEvent::Closed => {
                    self.phase = LoopPhase::Connecting;
                    LoopAction::Connect
                },
                _ => LoopAction::Listen,
            },
        }
    }
}

} // verus!
