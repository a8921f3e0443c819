//! The decisions of a daemon session: the protocol handshake on both sides,
//! what each client message does to the serve loop, and where a changed cell
//! of a shipped frame lands on the client's terminal.

use vstd::prelude::*;

use crate::daemon::PROTO_VERSION;
use crate::text::{decimal, push_decimal};

verus! {

/// The daemon's answer to a client's `Hello { proto }`: accepted when the
/// protocol versions agree, else the reason for refusing.
pub fn check_hello(proto: u32) -> (r: Result<(), String>)
    ensures
        proto == PROTO_VERSION ==> r is Ok,
        proto != PROTO_VERSION ==> (r matches Err(m) && m@ == "client proto "@ + decimal(proto as nat)
            + " \u{2260} daemon proto "@ + decimal(PROTO_VERSION as nat)),
{
    if proto == PROTO_VERSION {
        return Ok(());
    }
    let mut m = String::from_str("client proto ");
    push_decimal(&mut m, proto as u64);
    m.append(" \u{2260} daemon proto ");
    push_decimal(&mut m, PROTO_VERSION as u64);
    Err(m)
}

/// The client's check of the daemon's `Welcome { proto }`.
pub fn check_welcome(proto: u32) -> (r: Result<(), String>)
    ensures
        proto == PROTO_VERSION ==> r is Ok,
        proto != PROTO_VERSION ==> (r matches Err(m) && m@ == "daemon protocol "@ + decimal(proto as nat)
            + " \u{2260} client protocol "@ + decimal(PROTO_VERSION as nat)
            + "; run `quran-tui --stop` and retry"@),
{
    if proto == PROTO_VERSION {
        return Ok(());
    }
    let mut m = String::from_str("daemon protocol ");
    push_decimal(&mut m, proto as u64);
    m.append(" \u{2260} client protocol ");
    push_decimal(&mut m, PROTO_VERSION as u64);
    m.append("; run `quran-tui --stop` and retry");
    Err(m)
}

/// The size the daemon renders at for a client terminal of `w` x `h`: never
/// below one cell either way.
pub fn render_size(w: u16, h: u16) -> (r: (u16, u16))
    ensures
        r.0 == (if w >= 1 { w } else { 1 }),
        r.1 == (if h >= 1 { h } else { 1 }),
{
    (if w >= 1 {
        w
    } else {
        1
    }, if h >= 1 {
        h
    } else {
        1
    })
}

/// What the serve loop took from the attached client's message queue.
#[derive(Debug, Clone, Copy, PartialEq, Eq)]
pub enum ClientEvent {
    /// A forwarded key.
    Key,
    /// The client's terminal is now `w` x `h`.
    Resize { w: u16, h: u16 },
    /// `--stop`: stop the audio and exit.
    Shutdown,
    /// A second `Hello`, after the handshake.
    LateHello,
    /// No message is waiting.
    Empty,
    /// The client went away.
    Disconnected,
}

/// What the serve loop does with one client event.
#[derive(Debug, Clone, Copy, PartialEq, Eq)]
pub struct ServeStep {
    /// Hand the key to the application.
    pub handle_key: bool,
    /// Resize the render target and send the next frame whole.
    pub resize: Option<(u16, u16)>,
    /// Take the next message in this round.
    pub keep_draining: bool,
    /// Drop the client (the daemon and its audio stay).
    pub detach: bool,
    /// Leave the serve loop and exit.
    pub shutdown: bool,
}

/// One client event's effect on the serve loop: keys go to the application,
/// a resize re-renders at the new size, a late `Hello` is ignored; the round
/// of draining ends when the queue is empty, when the client is gone (which
/// detaches it) or on `Shutdown` (which ends the daemon).
pub fn serve_step(event: ClientEvent) -> (r: ServeStep)
    ensures
        r.handle_key == (event == ClientEvent::Key),
        r.resize == (match event {
            ClientEvent::Resize { w, h } => Some((w, h)),
            _ => None,
        }),
        r.keep_draining == (event is Key || event is Resize || event is LateHello),
        r.detach == (event == ClientEvent::Disconnected),
        r.shutdown == (event == ClientEvent::Shutdown),
{
    let none = ServeStep { handle_key: false, resize: None, keep_draining: true, detach: false, shutdown: false };
    match event {
        ClientEvent::Key => ServeStep { handle_key: true, ..none },
        ClientEvent::Resize { w, h } => ServeStep { resize: Some((w, h)), ..none },
        ClientEvent::LateHello => none,
        ClientEvent::Shutdown => ServeStep { keep_draining: false, shutdown: true, ..none },
        ClientEvent::Empty => ServeStep { keep_draining: false, ..none },
        ClientEvent::Disconnected => ServeStep { keep_draining: false, detach: true, ..none },
    }
}

/// What the client took from the daemon's frame queue.
#[derive(Debug, Clone, Copy, PartialEq, Eq)]
pub enum DaemonEvent {
    /// A rendered frame.
    Frame,
    /// A repeated `Welcome`, after the handshake.
    LateWelcome,
    /// The daemon said goodbye.
    Bye,
    /// No message is waiting.
    Empty,
    /// The daemon went away.
    Disconnected,
}

/// Where the client stands while draining one burst of queued messages.
#[derive(Debug, Clone, Copy, PartialEq, Eq)]
pub struct Burst {
    /// The position in the burst of the frame to draw, if any.
    pub latest: Option<usize>,
    /// The burst is over: take no further message this round.
    pub stopped: bool,
    /// The session is over: draw what was taken, then leave.
    pub done: bool,
}

/// A burst before its first message.
pub open spec fn burst_start() -> Burst {
    Burst { latest: None, stopped: false, done: false }
}

/// The event ends a burst.
pub open spec fn ends_burst(e: DaemonEvent) -> bool {
    e is Bye || e is Empty || e is Disconnected
}

/// One queued message, the `index`-th of its burst, taken into `b`.
pub open spec fn burst_step_spec(b: Burst, e: DaemonEvent, index: usize) -> Burst {
    if b.stopped {
        b
    } else {
        match e {
            DaemonEvent::Frame => Burst { latest: Some(index), ..b },
            DaemonEvent::LateWelcome => b,
            DaemonEvent::Empty => Burst { stopped: true, ..b },
            DaemonEvent::Bye => Burst { stopped: true, done: true, ..b },
            DaemonEvent::Disconnected => Burst { stopped: true, done: true, ..b },
        }
    }
}

/// The burst state after taking `events` in order, each at its position.
pub open spec fn burst_run(events: Seq<DaemonEvent>) -> Burst
    decreases events.len(),
{
    if events.len() == 0 {
        burst_start()
    } else {
        burst_step_spec(burst_run(events.drop_last()), events.last(), (events.len() - 1) as usize)
    }
}

impl Burst {
    /// A burst before its first message.
    pub fn start() -> (r: Burst)
        ensures
            r == burst_start(),
    {
        Burst { latest: None, stopped: false, done: false }
    }

    /// Take the `index`-th queued message of the burst: a frame becomes the
    /// one to draw (the latest of a burst wins), a late `Welcome` is ignored,
    /// an empty queue ends the burst, and `Bye` or a lost daemon ends the
    /// session. Nothing changes once the burst has stopped.
    pub fn step(self, e: DaemonEvent, index: usize) -> (r: Burst)
        ensures
            r == burst_step_spec(self, e, index),
    {
        if self.stopped {
            return self;
        }
        match e {
            DaemonEvent::Frame => Burst { latest: Some(index), ..self },
            DaemonEvent::LateWelcome => self,
            DaemonEvent::Empty => Burst { stopped: true, ..self },
            DaemonEvent::Bye => Burst { stopped: true, done: true, ..self },
            DaemonEvent::Disconnected => Burst { stopped: true, done: true, ..self },
        }
    }
}

/// The position of the first event that ends the burst, or the length when
/// none does.
pub open spec fn first_end(events: Seq<DaemonEvent>) -> int
    decreases events.len(),
{
    if events.len() == 0 {
        0
    } else {
        let p = first_end(events.drop_last());
        if p < events.len() - 1 {
            p
        } else if ends_burst(events.last()) {
            events.len() - 1
        } else {
            events.len() as int
        }
    }
}

/// Law: after a burst of queued messages, the frame drawn is the last frame
/// before the first message that ends the burst (none when there is no such
/// frame); the burst has stopped exactly when such a message came, and the
/// session ends exactly when that message is `Bye` or a lost daemon.
pub proof fn lemma_latest_frame_wins(events: Seq<DaemonEvent>)
    requires
        events.len() <= usize::MAX,
    ensures
        ({
            let b = burst_run(events);
            let end = first_end(events);
            &&& 0 <= end <= events.len()
            &&& forall|k: int| 0 <= k < end ==> !ends_burst(#[trigger] events[k])
            &&& end < events.len() ==> ends_burst(events[end])
            &&& (b.latest matches Some(i) ==> i < end && events[i as int] is Frame && forall|k: int|
                i < k < end ==> !(#[trigger] events[k] is Frame))
            &&& (b.latest is None ==> forall|k: int| 0 <= k < end ==> !(#[trigger] events[k] is Frame))
            &&& b.stopped == (end < events.len())
            &&& b.done == (end < events.len() && !(events[end] is Empty))
        }),
    decreases events.len(),
{
    if events.len() > 0 {
        let d = events.drop_last();
        lemma_latest_frame_wins(d);
        let n = events.len() - 1;
        assert forall|k: int| 0 <= k < d.len() implies d[k] == events[k] by {}
    }
}

/// Where cell `i` of a frame whose area starts at (`x`, `y`) and is `width`
/// cells wide lands: the index is taken as a `u16`, then split into column
/// and row.
pub fn cell_position(x: u16, y: u16, width: u16, i: usize) -> (r: (u16, u16))
    requires
        width > 0,
        x + (i as int % 65536) % (width as int) <= u16::MAX,
        y + (i as int % 65536) / (width as int) <= u16::MAX,
    ensures
        r.0 == x + (i as int % 65536) % (width as int),
        r.1 == y + (i as int % 65536) / (width as int),
{
    let k: u16 = (i % 65536) as u16;
    (x + k % width, y + k / width)
}

} // verus!
