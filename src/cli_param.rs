//! Commands that install the parameters of a component, each checked by
//! reading the parameters back.
use crate::envelope::envelope_of;
use crate::payload::{Payload, PayloadSpec};
use crate::protocol::{request_of, Operation, OperationKind, Phase, Request};
use vstd::prelude::*;

verus! {

pub const HOUSE_LIGHT: &'static str = "house-light";
pub const PECK_LEDS_LEFT: &'static str = "peck-leds-left";
pub const PECK_LEDS_RIGHT: &'static str = "peck-leds-right";
pub const PECK_LEDS_CENTER: &'static str = "peck-leds-center";
pub const PECK_KEYS: &'static str = "peck-keys";
pub const STEPPER_MOTOR: &'static str = "stepper-motor";
pub const SOUND_ALSA: &'static str = "sound-alsa";

/// `op` and `q` start setting the parameters of `component` to `p`.
pub open spec fn starts_set(op: Operation, q: Request, component: Seq<char>, p: PayloadSpec) -> bool {
    &&& op.wf()
    &&& op.phase == Phase::AwaitAck
    &&& op.component@ == component
    &&& op.envelope@ == envelope_of(p)
    &&& q@ == request_of(OperationKind::SetParameters, component, envelope_of(p))
}

/// Sets the house light's clock interval, in seconds (300 is the usual value).
pub fn set_hl(interval: i64) -> (r: (Operation, Request))
    ensures
        starts_set(r.0, r.1, HOUSE_LIGHT@, PayloadSpec::HouseLightParams { clock_interval: interval }),
{
    proof { reveal_strlit("house-light"); }
    Operation::begin_set(HOUSE_LIGHT, &Payload::HouseLightParams { clock_interval: interval })
}

/// Sets the (empty) parameters of the three peckboard LED groups: left,
/// right and center, in that order.
pub fn set_pbled() -> (r: Vec<(Operation, Request)>)
    ensures
        r@.len() == 3,
        starts_set(r@[0].0, r@[0].1, PECK_LEDS_LEFT@, PayloadSpec::LedParams),
        starts_set(r@[1].0, r@[1].1, PECK_LEDS_RIGHT@, PayloadSpec::LedParams),
        starts_set(r@[2].0, r@[2].1, PECK_LEDS_CENTER@, PayloadSpec::LedParams),
{
    proof { reveal_strlit("peck-leds-left"); }
    proof { reveal_strlit("peck-leds-right"); }
    proof { reveal_strlit("peck-leds-center"); }
    let mut ops: Vec<(Operation, Request)> = Vec::new();
    ops.push(Operation::begin_set(PECK_LEDS_LEFT, &Payload::LedParams));
    ops.push(Operation::begin_set(PECK_LEDS_RIGHT, &Payload::LedParams));
    ops.push(Operation::begin_set(PECK_LEDS_CENTER, &Payload::LedParams));
    ops
}

/// Sets the (empty) parameters of the peckboard keys.
pub fn set_pbkey() -> (r: (Operation, Request))
    ensures
        starts_set(r.0, r.1, PECK_KEYS@, PayloadSpec::KeyParams),
{
    proof { reveal_strlit("peck-keys"); }
    Operation::begin_set(PECK_KEYS, &Payload::KeyParams)
}

/// Sets how long, in milliseconds, the stepper motor runs after one signal
/// (1000 is the usual value).
pub fn set_sm(timeout: u64) -> (r: (Operation, Request))
    ensures
        starts_set(r.0, r.1, STEPPER_MOTOR@, PayloadSpec::StepperParams { timeout }),
{
    proof { reveal_strlit("stepper-motor"); }
    Operation::begin_set(STEPPER_MOTOR, &Payload::StepperParams { timeout })
}

/// Sets the (empty) parameters of audio playback.
pub fn set_playback() -> (r: (Operation, Request))
    ensures
        starts_set(r.0, r.1, SOUND_ALSA@, PayloadSpec::PlaybackParams),
{
    proof { reveal_strlit("sound-alsa"); }
    Operation::begin_set(SOUND_ALSA, &Payload::PlaybackParams)
}

} // verus!
