//! Commands that change the runtime state of a component. Each sends one
//! request and succeeds on the bare acknowledgement. A subscriber that must
//! see the broadcast of the change has to be in place before the request is
//! sent: the controller does not keep broadcasts for late subscribers.
use crate::cli_param::{HOUSE_LIGHT, SOUND_ALSA, STEPPER_MOTOR};
use crate::envelope::envelope_of;
use crate::error::ClientError;
use crate::payload::{Payload, PayloadSpec};
use crate::protocol::{request_of, Operation, OperationKind, Phase, Request};
use vstd::prelude::*;

verus! {

/// `op` and `q` start changing the state of `component` to `p`.
pub open spec fn starts_change(op: Operation, q: Request, component: Seq<char>, p: PayloadSpec) -> bool {
    &&& op.wf()
    &&& op.phase == Phase::AwaitStateAck
    &&& op.component@ == component
    &&& op.envelope@ == envelope_of(p)
    &&& q@ == request_of(OperationKind::ChangeState, component, envelope_of(p))
}

/// Changes the state of the house light.
pub fn set_hs(switch: bool, light_override: bool, fake_clock: bool, brightness: i32) -> (r: (
    Operation,
    Request,
))
    ensures
        starts_change(
            r.0,
            r.1,
            HOUSE_LIGHT@,
            PayloadSpec::HouseLightState { switch, light_override, fake_clock, brightness },
        ),
{
    proof { reveal_strlit("house-light"); }
    Operation::begin_change(
        HOUSE_LIGHT,
        &Payload::HouseLightState { switch, light_override, fake_clock, brightness },
    )
}

/// Changes the state of the LEDs at location `loc`.
pub fn set_pl(loc: &str, led_state: &str) -> (r: Result<(Operation, Request), ClientError>)
    ensures
        loc@.len() == 0 <==> r is Err,
        r is Err ==> r == Err::<(Operation, Request), ClientError>(ClientError::EmptyComponent),
        r matches Ok((op, q)) ==> starts_change(op, q, loc@, PayloadSpec::LedState { led_state: led_state@ }),
{
    Operation::change_state(loc, &Payload::LedState { led_state: led_state.to_string() })
}

/// Changes the state of the stepper motor.
pub fn set_sm(switch: bool, on: bool, direction: bool) -> (r: (Operation, Request))
    ensures
        starts_change(r.0, r.1, STEPPER_MOTOR@, PayloadSpec::StepperState { switch, on, direction }),
{
    proof { reveal_strlit("stepper-motor"); }
    Operation::begin_change(STEPPER_MOTOR, &Payload::StepperState { switch, on, direction })
}

/// Starts or stops playback of the stimulus `id`.
pub fn set_playback(id: &str, playback: i32) -> (r: (Operation, Request))
    ensures
        starts_change(
            r.0,
            r.1,
            SOUND_ALSA@,
            PayloadSpec::PlaybackState { audio_id: id@, playback },
        ),
{
    proof { reveal_strlit("sound-alsa"); }
    Operation::begin_change(
        SOUND_ALSA,
        &Payload::PlaybackState { audio_id: id.to_string(), playback },
    )
}

} // verus!
