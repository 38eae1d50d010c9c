use vstd::prelude::*;

verus! {

/// Event type the OS delivers in place of an input event after it disabled
/// the tap because a callback took too long.
pub const TAP_DISABLED_BY_TIMEOUT: u32 = 0xFFFF_FFFE;

/// Event type the OS delivers in place of an input event after it disabled
/// the tap in response to user input.
pub const TAP_DISABLED_BY_USER_INPUT: u32 = 0xFFFF_FFFF;

/// Event type of a modifier-flags change, the only input event the tap asks for.
pub const FLAGS_CHANGED: u32 = 12;

/// Bit of the modifier-flags mask that reports the trigger (Fn / Globe) key.
pub const TRIGGER_FLAG: u64 = 0x0080_0000;

/// Destination chosen when the trigger key goes down.
#[derive(Clone, Copy, Debug, PartialEq, Eq, Structural)]
pub enum Mode {
    Idle,
    Chat,
    Global,
}

/// Edge notification handed to the host's event bus.
#[derive(Clone, Copy, Debug, PartialEq, Eq, Structural)]
pub enum Signal {
    StartChat,
    StartGlobal,
    StopChat,
    StopGlobal,
}

/// What the tap callback must do after the state machine saw one raw event.
#[derive(Clone, Copy, Debug, PartialEq, Eq, Structural)]
pub enum Reaction {
    /// The OS disabled the tap: turn it back on, nothing else changes.
    ReEnable,
    /// Deliver this signal (for `StartGlobal`, after positioning the indicator).
    Emit(Signal),
    /// No edge of the trigger key: nothing to do.
    Nothing,
}

/// One raw event as the tap reports it: its type code and modifier flags.
#[derive(Clone, Copy, Debug, PartialEq, Eq, Structural)]
pub struct TapEvent {
    pub raw_type: u32,
    pub flags: u64,
}

impl Signal {
    pub open spec fn is_start(self) -> bool {
        self is StartChat || self is StartGlobal
    }

    pub open spec fn is_stop(self) -> bool {
        self is StopChat || self is StopGlobal
    }

    /// Name of the event on the host's bus.
    pub open spec fn name_spec(self) -> Seq<char> {
        match self {
            Signal::StartChat => "dictation:start-chat"@,
            Signal::StartGlobal => "dictation:start-global"@,
            Signal::StopChat => "dictation:stop-chat"@,
            Signal::StopGlobal => "dictation:stop-global"@,
        }
    }

    pub fn event_name(&self) -> (r: &'static str)
        ensures
            r@ == self.name_spec(),
    {
        match self {
            Signal::StartChat => "dictation:start-chat",
            Signal::StartGlobal => "dictation:start-global",
            Signal::StopChat => "dictation:stop-chat",
            Signal::StopGlobal => "dictation:stop-global",
        }
    }
}

/// The start signal for a press, given whether the trigger window had focus.
pub open spec fn start_for(focused: bool) -> Signal {
    if focused {
        Signal::StartChat
    } else {
        Signal::StartGlobal
    }
}

/// The mode a press locks in, given whether the trigger window had focus.
pub open spec fn mode_for(focused: bool) -> Mode {
    if focused {
        Mode::Chat
    } else {
        Mode::Global
    }
}

/// The stop signal owed when a hold in mode `m` ends (none when idle).
pub open spec fn stop_for(m: Mode) -> Option<Signal> {
    match m {
        Mode::Idle => None,
        Mode::Chat => Some(Signal::StopChat),
        Mode::Global => Some(Signal::StopGlobal),
    }
}

/// The stop signal that closes the hold opened by start signal `s`.
pub open spec fn stop_matching(s: Signal) -> Signal {
    if s is StartChat {
        Signal::StopChat
    } else {
        Signal::StopGlobal
    }
}

impl TapEvent {
    pub open spec fn is_disable_marker(self) -> bool {
        self.raw_type == TAP_DISABLED_BY_TIMEOUT || self.raw_type == TAP_DISABLED_BY_USER_INPUT
    }

    pub open spec fn trigger_set(self) -> bool {
        self.flags & TRIGGER_FLAG != 0
    }

    /// A flags-changed event with the given modifier mask.
    pub fn flags_changed(flags: u64) -> (r: TapEvent)
        ensures
            r.raw_type == FLAGS_CHANGED,
            r.flags == flags,
            !r.is_disable_marker(),
    {
        TapEvent { raw_type: FLAGS_CHANGED, flags }
    }

    /// Whether this event is one of the OS's "tap disabled" markers.
    pub fn disabled_marker(&self) -> (r: bool)
        ensures
            r == self.is_disable_marker(),
    {
        self.raw_type == TAP_DISABLED_BY_TIMEOUT || self.raw_type == TAP_DISABLED_BY_USER_INPUT
    }

    /// Whether the trigger key's bit is set in this event's flags.
    pub fn trigger_flag(&self) -> (r: bool)
        ensures
            r == self.trigger_set(),
    {
        self.flags & TRIGGER_FLAG != 0
    }
}

/// Mathematical model of the trigger state.
pub struct TriggerView {
    pub key_down: bool,
    pub mode: Mode,
}

impl TriggerView {
    pub open spec fn idle() -> TriggerView {
        TriggerView { key_down: false, mode: Mode::Idle }
    }

    /// A mode is active exactly while the key is held.
    pub open spec fn wf(self) -> bool {
        (self.mode == Mode::Idle) <==> !self.key_down
    }

    pub open spec fn is_down_edge(self, ev: TapEvent) -> bool {
        !ev.is_disable_marker() && ev.trigger_set() && !self.key_down
    }

    pub open spec fn is_up_edge(self, ev: TapEvent) -> bool {
        !ev.is_disable_marker() && !ev.trigger_set() && self.key_down
    }

    /// One transition: the next state and the signal emitted, if any. Focus is
    /// consulted only on a down-edge.
    pub open spec fn step(self, ev: TapEvent, focused: bool) -> (TriggerView, Option<Signal>) {
        if self.is_down_edge(ev) {
            (TriggerView { key_down: true, mode: mode_for(focused) }, Some(start_for(focused)))
        } else if self.is_up_edge(ev) {
            (TriggerView { key_down: false, mode: Mode::Idle }, stop_for(self.mode))
        } else {
            (self, None)
        }
    }
}

/// The signal a reaction delivers, if any.
pub open spec fn signal_of(r: Reaction) -> Option<Signal> {
    match r {
        Reaction::Emit(s) => Some(s),
        _ => None,
    }
}

/// The signals emitted by one step: none or one.
pub open spec fn opt_seq(o: Option<Signal>) -> Seq<Signal> {
    match o {
        Some(s) => seq![s],
        None => Seq::empty(),
    }
}

/// Feeding `evs` from state `s`, with `focus[i]` the focus answer at event `i`:
/// the final state and every signal emitted, in order.
pub open spec fn run(s: TriggerView, evs: Seq<TapEvent>, focus: Seq<bool>) -> (
    TriggerView,
    Seq<Signal>,
)
    decreases evs.len(),
{
    if evs.len() == 0 {
        (s, Seq::empty())
    } else {
        let n = evs.len() - 1;
        let prev = run(s, evs.subrange(0, n), focus.subrange(0, n));
        let next = prev.0.step(evs[n], focus[n]);
        (next.0, prev.1 + opt_seq(next.1))
    }
}

/// The trigger state machine: last observed key state and the mode locked at
/// the last press. Every change goes through `&mut self`, so the press and the
/// release (which takes the mode and resets it) are each one indivisible step.
pub struct TriggerState {
    key_is_down: bool,
    active_mode: Mode,
}

impl View for TriggerState {
    type V = TriggerView;

    closed spec fn view(&self) -> TriggerView {
        TriggerView { key_down: self.key_is_down, mode: self.active_mode }
    }
}

impl TriggerState {
    pub fn new() -> (r: TriggerState)
        ensures
            r@ == TriggerView::idle(),
    {
        TriggerState { key_is_down: false, active_mode: Mode::Idle }
    }

    pub fn key_is_down(&self) -> (r: bool)
        ensures
            r == self@.key_down,
    {
        self.key_is_down
    }

    pub fn active_mode(&self) -> (r: Mode)
        ensures
            r == self@.mode,
    {
        self.active_mode
    }

    /// Whether `ev` would be a down-edge, the one case where the caller must
    /// ask the focus probe before calling `handle`.
    pub fn is_down_edge(&self, ev: &TapEvent) -> (r: bool)
        ensures
            r == self@.is_down_edge(*ev),
    {
        !ev.disabled_marker() && ev.trigger_flag() && !self.key_is_down
    }

    /// Apply one raw event. `focused` is whether the trigger window had focus
    /// when the event arrived; it only matters on a down-edge.
    pub fn handle(&mut self, ev: TapEvent, focused: bool) -> (r: Reaction)
        ensures
            (final(self)@, signal_of(r)) == old(self)@.step(ev, focused),
            ev.is_disable_marker() ==> r == Reaction::ReEnable && final(self)@ == old(self)@,
            !ev.is_disable_marker() ==> r != Reaction::ReEnable,
            old(self)@.wf() ==> final(self)@.wf(),
    {
        if ev.disabled_marker() {
            return Reaction::ReEnable;
        }
        let down = ev.trigger_flag();
        if down && !self.key_is_down {
            self.key_is_down = true;
            if focused {
                self.active_mode = Mode::Chat;
                Reaction::Emit(Signal::StartChat)
            } else {
                self.active_mode = Mode::Global;
                Reaction::Emit(Signal::StartGlobal)
            }
        } else if !down && self.key_is_down {
            self.key_is_down = false;
            let taken = self.take_mode();
            match taken {
                Mode::Chat => Reaction::Emit(Signal::StopChat),
                Mode::Global => Reaction::Emit(Signal::StopGlobal),
                Mode::Idle => Reaction::Nothing,
            }
        } else {
            Reaction::Nothing
        }
    }

    /// Apply a whole sequence of raw events, `focus[i]` being the focus answer
    /// at event `i`; returns every signal emitted, in order.
    pub fn feed(&mut self, events: &Vec<TapEvent>, focus: &Vec<bool>) -> (r: Vec<Signal>)
        requires
            focus.len() == events.len(),
        ensures
            (final(self)@, r@) == run(old(self)@, events@, focus@),
    {
        let ghost start = self@;
        let mut out: Vec<Signal> = Vec::new();
        let mut i: usize = 0;
        while i < events.len()
            invariant
                i <= events.len(),
                focus.len() == events.len(),
                (self@, out@) == run(start, events@.subrange(0, i as int), focus@.subrange(0, i as int)),
            decreases events.len() - i,
        {
            let ghost before = out@;
            let r = self.handle(events[i], focus[i]);
            if let Reaction::Emit(sig) = r {
                out.push(sig);
            }
            proof {
                let evs = events@.subrange(0, i + 1);
                let fs = focus@.subrange(0, i + 1);
                assert(evs.subrange(0, i as int) =~= events@.subrange(0, i as int));
                assert(fs.subrange(0, i as int) =~= focus@.subrange(0, i as int));
                assert(out@ =~= before + opt_seq(signal_of(r)));
            }
            i += 1;
        }
        proof {
            assert(events@.subrange(0, events.len() as int) =~= events@);
            assert(focus@.subrange(0, focus.len() as int) =~= focus@);
        }
        out
    }

    /// Read the active mode and reset it to `Idle` in one step.
    fn take_mode(&mut self) -> (r: Mode)
        ensures
            r == old(self).active_mode,
            final(self).active_mode == Mode::Idle,
            final(self).key_is_down == old(self).key_is_down,
    {
        let m = self.active_mode;
        self.active_mode = Mode::Idle;
        m
    }
}

} // verus!
