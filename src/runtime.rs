use vstd::prelude::*;

use crate::device::{count_down, key_spec, random_byte, step_spec, Device, Fault, KeyWait, Machine};

verus! {

/// Most instructions executed in one frame.
pub const CYCLES_PER_FRAME: usize = 12;

/// What the host sends to the runtime: the presentation surface once and
/// first, any number of key changes, then the stop.
pub enum Event<S> {
    /// The host hands over its presentation surface.
    On(S),
    /// Key `0x0..=0xF` was pressed (`true`) or released (`false`).
    Key(u8, bool),
    /// The host shuts down.
    Off,
}

/// A host that broke the event protocol.
#[derive(Clone, Copy, PartialEq, Eq, Structural, Debug)]
pub enum ProtocolError {
    /// The first event was not `On`.
    NotStartedFirst,
    /// `On` came a second time.
    StartedTwice,
    /// A key index beyond `0xF`.
    KeyOutOfRange,
}

/// Whether the runtime loop goes on after an event.
#[derive(Clone, Copy, PartialEq, Eq, Structural, Debug)]
pub enum Control {
    /// Keep running.
    Continue,
    /// Leave the loop.
    Stop,
}

/// Whether a new frame is due `elapsed_nanos` nanoseconds after the last
/// frame boundary: at least a sixtieth of a second has passed.
pub fn frame_due(elapsed_nanos: u128) -> (due: bool)
    ensures
        due == (elapsed_nanos * 60 >= 1_000_000_000),
{
    elapsed_nanos >= 16_666_667
}

/// Takes the first event of a session: it must be `On`, whose surface is
/// returned.
pub fn boot<S>(event: Event<S>) -> (r: Result<S, ProtocolError>)
    ensures
        match event {
            Event::On(surface) => r == Ok::<S, ProtocolError>(surface),
            _ => r == Err::<S, ProtocolError>(ProtocolError::NotStartedFirst),
        },
{
    match event {
        Event::On(surface) => Ok(surface),
        _ => Err(ProtocolError::NotStartedFirst),
    }
}

/// The instruction burst of a frame, with `rnds[k]` standing for the random
/// byte of the `k`-th step: at most `budget` steps, ending early after a
/// step that affected the grid, when the machine waits for a key, or on a
/// fault.
pub open spec fn burst(s: Machine, rnds: Seq<u8>, budget: nat) -> (Machine, Result<(), Fault>)
    decreases budget,
{
    if budget == 0 || s.wait matches KeyWait::Waiting(_) {
        (s, Ok(()))
    } else {
        let (t, r) = step_spec(s, rnds[0]);
        match r {
            Err(f) => (t, Err(f)),
            Ok(true) => (t, Ok(())),
            Ok(false) => burst(t, rnds.drop_first(), (budget - 1) as nat),
        }
    }
}

/// One frame: the burst, then both timers count down. The result tells
/// whether the sound timer was running.
pub open spec fn frame_spec(s: Machine, rnds: Seq<u8>) -> (Machine, Result<bool, Fault>) {
    let (t, r) = burst(s, rnds, 12);
    match r {
        Err(f) => (t, Err(f)),
        Ok(_) => (
            Machine { delay: count_down(t.delay), sound: count_down(t.sound), ..t },
            Ok(t.sound > 0),
        ),
    }
}

/// One step of a burst, with its random byte taken off the front.
proof fn lemma_burst_unfold(s: Machine, b: u8, rest: Seq<u8>, k: nat)
    ensures
        burst(s, seq![b] + rest, k + 1) == if s.wait matches KeyWait::Waiting(_) {
            (s, Ok(()))
        } else {
            let (t, r) = step_spec(s, b);
            match r {
                Err(f) => (t, Err(f)),
                Ok(true) => (t, Ok(())),
                Ok(false) => burst(t, rest, k),
            }
        },
{
    assert((seq![b] + rest).drop_first() =~= rest);
    assert((seq![b] + rest)[0] == b);
}

impl Device {
    /// Runs one frame: up to twelve instructions, stopping after one that
    /// affected the grid or when the machine waits for a key; then counts
    /// both timers down. Returns whether the tone sounds during the frame.
    pub fn run_frame(&mut self) -> (r: Result<bool, Fault>)
        requires
            old(self).wf(),
        ensures
            final(self).wf(),
            exists|rnds: Seq<u8>|
                rnds.len() == 12 && frame_spec(old(self)@, rnds) == (final(self)@, r),
    {
        let ghost s0 = self@;
        let ghost mut used: Seq<u8> = Seq::empty();
        let mut outcome: Result<(), Fault> = Ok(());
        let mut done = false;
        let mut cycles: usize = 0;
        while cycles < CYCLES_PER_FRAME && !done
            invariant
                self.wf(),
                s0 == old(self)@,
                cycles <= 12,
                used.len() == cycles,
                !done ==> outcome == Ok::<(), Fault>(()),
                forall|rest: Seq<u8>|
                    rest.len() == 12 - cycles ==> #[trigger] burst(s0, used + rest, 12) == if done {
                        (self@, outcome)
                    } else {
                        burst(self@, rest, (12 - cycles) as nat)
                    },
            decreases 12 - cycles + if done {
                0int
            } else {
                1int
            },
        {
            if let KeyWait::Waiting(_) = self.key_wait() {
                done = true;
            } else {
                let ghost before = self@;
                let ghost k = (11 - cycles) as nat;
                let b = random_byte();
                let step = self.step(b);
                proof {
                    assert forall|rest: Seq<u8>| rest.len() == 11 - cycles implies burst(
                        before,
                        seq![b] + rest,
                        k + 1,
                    ) == match step {
                        Err(f) => (self@, Err::<(), Fault>(f)),
                        Ok(true) => (self@, Ok::<(), Fault>(())),
                        Ok(false) => burst(self@, rest, k),
                    } by {
                        lemma_burst_unfold(before, b, rest, k);
                    }
                    assert forall|rest: Seq<u8>| rest.len() == 11 - cycles implies #[trigger] (
                    used.push(b) + rest) == used + (seq![b] + rest) by {
                        assert(used.push(b) + rest =~= used + (seq![b] + rest));
                    }
                    assert forall|rest: Seq<u8>| rest.len() == 11 - cycles implies burst(
                        s0,
                        #[trigger] (used.push(b) + rest),
                        12,
                    ) == burst(before, seq![b] + rest, k + 1) by {
                        assert((seq![b] + rest).len() == 12 - cycles);
                    }
                    used = used.push(b);
                }
                match step {
                    Ok(true) => {
                        done = true;
                    },
                    Ok(false) => {},
                    Err(f) => {
                        outcome = Err(f);
                        done = true;
                    },
                }
                cycles += 1;
            }
        }
        let ghost rest = Seq::new((12 - cycles) as nat, |j: int| 0u8);
        let ghost rnds = used + rest;
        assert(burst(s0, rnds, 12) == (self@, outcome));
        match outcome {
            Err(f) => {
                assert(frame_spec(s0, rnds) == (self@, Err::<bool, Fault>(f)));
                Err(f)
            },
            Ok(()) => {
                self.handle_delay();
                let sounding = self.handle_sound();
                assert(frame_spec(s0, rnds) == (self@, Ok::<bool, Fault>(sounding)));
                Ok(sounding)
            },
        }
    }

    /// Applies an event after the session started: a key change is recorded
    /// and execution goes on, `Off` stops the loop. A second `On` or a key
    /// beyond `0xF` breaks the protocol and changes nothing.
    pub fn handle_event<S>(&mut self, event: Event<S>) -> (r: Result<Control, ProtocolError>)
        requires
            old(self).wf(),
        ensures
            final(self).wf(),
            match event {
                Event::On(_) => r == Err::<Control, ProtocolError>(ProtocolError::StartedTwice)
                    && final(self)@ == old(self)@,
                Event::Key(key, pressed) => if key < 16 {
                    r == Ok::<Control, ProtocolError>(Control::Continue) && final(self)@
                        == key_spec(old(self)@, key, pressed)
                } else {
                    r == Err::<Control, ProtocolError>(ProtocolError::KeyOutOfRange) && final(self)@
                        == old(self)@
                },
                Event::Off => r == Ok::<Control, ProtocolError>(Control::Stop) && final(self)@
                    == old(self)@,
            },
    {
        match event {
            Event::On(_) => Err(ProtocolError::StartedTwice),
            Event::Key(key, pressed) => {
                if key >= 16 {
                    return Err(ProtocolError::KeyOutOfRange);
                }
                self.handle_key(key, pressed);
                Ok(Control::Continue)
            },
            Event::Off => Ok(Control::Stop),
        }
    }
}

} // verus!
