//! Status LED: the command each network phase sends, its colour and
//! blink rate, the bounded command queue, and the blink state machine the
//! LED task steps every 50 ms.

use vstd::prelude::*;

use crate::bounded::{queue_dequeue, queue_enqueue, queue_len, queue_new, queued};

verus! {

/// What the status LED should show.
#[derive(Debug, Clone, Copy, PartialEq, Eq, Structural)]
pub enum LedCommand {
    WifiConnecting,
    MqttConnecting,
    WeatherFetching,
    Connected,
    Error,
}

/// An RGB colour with eight bits per channel.
#[derive(Debug, Clone, Copy, PartialEq, Eq, Structural)]
pub struct Rgb8 {
    pub r: u8,
    pub g: u8,
    pub b: u8,
}

/// The colour shown for each command.
pub open spec fn command_color(cmd: LedCommand) -> Rgb8 {
    match cmd {
        LedCommand::WifiConnecting => Rgb8 { r: 0, g: 0, b: 255 },
        LedCommand::MqttConnecting => Rgb8 { r: 255, g: 128, b: 0 },
        LedCommand::WeatherFetching => Rgb8 { r: 255, g: 32, b: 128 },
        LedCommand::Connected => Rgb8 { r: 0, g: 0, b: 0 },
        LedCommand::Error => Rgb8 { r: 255, g: 0, b: 0 },
    }
}

/// The blink half-period of each command in milliseconds; `None` for a
/// steady light.
pub open spec fn blink_interval_spec(cmd: LedCommand) -> Option<u64> {
    match cmd {
        LedCommand::WifiConnecting => Some(250),
        LedCommand::MqttConnecting => Some(500),
        LedCommand::WeatherFetching => None,
        LedCommand::Connected => None,
        LedCommand::Error => Some(500),
    }
}

/// The colour of a command: blue while joining WiFi, orange while
/// connecting to the broker, pink while fetching weather, off once
/// connected, red on error.
pub fn command_to_rgb(cmd: LedCommand) -> (res: Rgb8)
    ensures
        res == command_color(cmd),
{
    match cmd {
        LedCommand::WifiConnecting => Rgb8 { r: 0, g: 0, b: 255 },
        LedCommand::MqttConnecting => Rgb8 { r: 255, g: 128, b: 0 },
        LedCommand::WeatherFetching => Rgb8 { r: 255, g: 32, b: 128 },
        LedCommand::Connected => Rgb8 { r: 0, g: 0, b: 0 },
        LedCommand::Error => Rgb8 { r: 255, g: 0, b: 0 },
    }
}

/// How often the LED toggles for a command, in milliseconds.
pub fn blink_interval_ms(cmd: LedCommand) -> (res: Option<u64>)
    ensures
        res == blink_interval_spec(cmd),
{
    match cmd {
        LedCommand::WifiConnecting => Some(250),
        LedCommand::MqttConnecting => Some(500),
        LedCommand::WeatherFetching => None,
        LedCommand::Connected => None,
        LedCommand::Error => Some(500),
    }
}

/// How many commands the queue holds before new ones are dropped.
pub const LED_QUEUE_CAPACITY: usize = 7;

/// The queue of LED commands from the network task to the LED task:
/// first in, first out, holding at most `LED_QUEUE_CAPACITY` commands.
pub struct LedQueue {
    items: heapless::spsc::Queue<LedCommand, 8>,
}

impl View for LedQueue {
    type V = Seq<LedCommand>;

    closed spec fn view(&self) -> Seq<LedCommand> {
        queued(self.items)
    }
}

impl LedQueue {
    /// Bounded size: the queue never holds more than its capacity.
    pub closed spec fn wf(&self) -> bool {
        queued(self.items).len() <= LED_QUEUE_CAPACITY
    }

    /// An empty queue.
    pub fn new() -> (res: Self)
        ensures
            res@ == Seq::<LedCommand>::empty(),
            res.wf(),
    {
        LedQueue { items: queue_new() }
    }

    /// Number of queued commands.
    pub fn len(&self) -> (res: usize)
        ensures
            res == self@.len(),
    {
        queue_len(&self.items)
    }
}

/// The queue after sending `cmd`: appended when there is room.
pub open spec fn send_spec(q: Seq<LedCommand>, cmd: LedCommand) -> Seq<LedCommand> {
    if q.len() < LED_QUEUE_CAPACITY {
        q.push(cmd)
    } else {
        q
    }
}

/// Receiving from `q`: the oldest command and the rest of the queue.
pub open spec fn recv_spec(q: Seq<LedCommand>) -> (Option<LedCommand>, Seq<LedCommand>) {
    if q.len() == 0 {
        (None, q)
    } else {
        (Some(q[0]), q.drop_first())
    }
}

/// Queues `cmd` for the LED task; dropped when the queue is full.
pub fn send_led_command(queue: &mut LedQueue, cmd: LedCommand)
    requires
        old(queue).wf(),
    ensures
        final(queue).wf(),
        final(queue)@ == send_spec(old(queue)@, cmd),
{
    let _ = queue_enqueue(&mut queue.items, cmd);
}

/// Takes the oldest queued command, if any.
pub fn recv_led_command(queue: &mut LedQueue) -> (res: Option<LedCommand>)
    requires
        old(queue).wf(),
    ensures
        final(queue).wf(),
        (res, final(queue)@) == recv_spec(old(queue)@),
{
    queue_dequeue(&mut queue.items)
}

/// Tells the LED task what to show (the network task's shorthand for
/// `send_led_command`).
pub fn led_command(queue: &mut LedQueue, cmd: LedCommand)
    requires
        old(queue).wf(),
    ensures
        final(queue).wf(),
        final(queue)@ == send_spec(old(queue)@, cmd),
{
    send_led_command(queue, cmd);
}

/// The queue after sending each of `cmds` in turn.
pub open spec fn send_all(q: Seq<LedCommand>, cmds: Seq<LedCommand>) -> Seq<LedCommand>
    decreases cmds.len(),
{
    if cmds.len() == 0 {
        q
    } else {
        send_spec(send_all(q, cmds.drop_last()), cmds.last())
    }
}

/// What repeated receiving from `q` returns before the first `None`.
pub open spec fn recv_all(q: Seq<LedCommand>) -> Seq<LedCommand>
    decreases q.len(),
{
    if q.len() == 0 {
        Seq::empty()
    } else {
        let (c, rest) = recv_spec(q);
        seq![c->0] + recv_all(rest)
    }
}

proof fn lemma_send_all_fits(cmds: Seq<LedCommand>)
    requires
        cmds.len() <= LED_QUEUE_CAPACITY,
    ensures
        send_all(Seq::empty(), cmds) == cmds,
    decreases cmds.len(),
{
    if cmds.len() > 0 {
        lemma_send_all_fits(cmds.drop_last());
        assert(cmds.drop_last().push(cmds.last()) =~= cmds);
    }
}

proof fn lemma_recv_all(q: Seq<LedCommand>)
    ensures
        recv_all(q) == q,
    decreases q.len(),
{
    if q.len() > 0 {
        lemma_recv_all(q.drop_first());
        assert(seq![q[0]] + q.drop_first() =~= q);
    }
}

/// Up to seven commands sent into an empty queue come out, one receive at
/// a time, in the order they were sent, followed by `None`; a command sent
/// to a full queue is dropped and leaves it unchanged.
pub proof fn law_led_queue_keeps_order(cmds: Seq<LedCommand>, full: Seq<LedCommand>, c: LedCommand)
    requires
        cmds.len() <= LED_QUEUE_CAPACITY,
        full.len() == LED_QUEUE_CAPACITY,
    ensures
        send_all(Seq::empty(), cmds) == cmds,
        recv_all(send_all(Seq::empty(), cmds)) == cmds,
        forall|i: int|
            0 <= i < cmds.len() ==> #[trigger] recv_spec(cmds.skip(i)) == (Some(cmds[i]), cmds.skip(i + 1)),
        recv_spec(cmds.skip(cmds.len() as int)).0 is None,
        send_spec(full, c) == full,
{
    lemma_send_all_fits(cmds);
    lemma_recv_all(cmds);
    assert forall|i: int| 0 <= i < cmds.len() implies #[trigger] recv_spec(cmds.skip(i)) == (Some(cmds[i]), cmds.skip(i + 1)) by {
        assert(cmds.skip(i).drop_first() =~= cmds.skip(i + 1));
    }
    assert(cmds.skip(cmds.len() as int).len() == 0);
}

/// The LED task's state: the command being shown, whether a blinking
/// light is currently lit, and when it last toggled (microseconds).
pub struct LedBlinker {
    pub current: LedCommand,
    pub blink_on: bool,
    pub last_toggle_us: u64,
}

/// The LED state and colour after a tick at `now`: a new command restarts
/// the blink phase lit; a blinking command toggles once more than its
/// interval has passed since the last toggle; the colour shown is the
/// command's, or off in a dark phase.
pub open spec fn blink_step(b: LedBlinker, received: Option<LedCommand>, now: u64) -> (LedBlinker, Rgb8) {
    let (cmd, on0, t0) = match received {
        Some(c) => (c, true, now),
        None => (b.current, b.blink_on, b.last_toggle_us),
    };
    match blink_interval_spec(cmd) {
        Some(ms) => {
            let toggle = now - t0 > ms * 1000;
            let on = if toggle {
                !on0
            } else {
                on0
            };
            (
                LedBlinker { current: cmd, blink_on: on, last_toggle_us: if toggle {
                    now
                } else {
                    t0
                } },
                if on {
                    command_color(cmd)
                } else {
                    Rgb8 { r: 0, g: 0, b: 0 }
                },
            )
        },
        None => (LedBlinker { current: cmd, blink_on: on0, last_toggle_us: t0 }, command_color(cmd)),
    }
}

/// A blinking light keeps each phase for longer than the command's
/// interval: after a toggle at `now1`, a tick at `now2` within the
/// interval shows the same phase; a steady command never goes dark.
pub proof fn law_blink_phases_last_their_interval(
    b: LedBlinker,
    received: Option<LedCommand>,
    now1: u64,
    now2: u64,
)
    requires
        b.last_toggle_us <= now1 <= now2,
    ensures
        ({
            let (b1, rgb1) = blink_step(b, received, now1);
            let (b2, rgb2) = blink_step(b1, None, now2);
            &&& (blink_interval_spec(b1.current) matches Some(ms) && b1.last_toggle_us == now1
                && now2 - now1 <= ms * 1000) ==> b2.blink_on == b1.blink_on && rgb2 == rgb1
            &&& blink_interval_spec(b1.current) is None ==> rgb2 == command_color(b1.current)
        }),
{
}

impl LedBlinker {
    /// Starts on `WifiConnecting`, lit, last toggled at `now_us`.
    pub fn new(now_us: u64) -> (res: Self)
        ensures
            res.current == LedCommand::WifiConnecting,
            res.blink_on,
            res.last_toggle_us == now_us,
    {
        LedBlinker { current: LedCommand::WifiConnecting, blink_on: true, last_toggle_us: now_us }
    }

    /// One LED tick at time `now_us`, with the command just received, if
    /// any (see `blink_step`).
    pub fn step(&mut self, received: Option<LedCommand>, now_us: u64) -> (rgb: Rgb8)
        requires
            old(self).last_toggle_us <= now_us,
        ensures
            (*final(self), rgb) == blink_step(*old(self), received, now_us),
            final(self).last_toggle_us <= now_us,
    {
        if let Some(cmd) = received {
            self.current = cmd;
            self.blink_on = true;
            self.last_toggle_us = now_us;
        }
        match blink_interval_ms(self.current) {
            Some(ms) => {
                if now_us - self.last_toggle_us > ms * 1000 {
                    self.blink_on = !self.blink_on;
                    self.last_toggle_us = now_us;
                }
                if self.blink_on {
                    command_to_rgb(self.current)
                } else {
                    Rgb8 { r: 0, g: 0, b: 0 }
                }
            },
            None => command_to_rgb(self.current),
        }
    }
}

} // verus!
