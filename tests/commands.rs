use drc_lib::cli_param::{set_hl, set_pbkey, set_pbled, set_playback, set_sm, HOUSE_LIGHT};
use drc_lib::cli_state::{set_hs, set_pl};
use drc_lib::envelope::{
    build_envelope, open_envelope, schema_for, type_url, TypedEnvelope, HS_PARAMS_TYPE_URL,
    SM_PARAMS_TYPE_URL,
};
use drc_lib::error::ClientError;
use drc_lib::payload::{decode_payload, encode_payload, Payload, Schema};
use drc_lib::protocol::{
    build_request, check_ack, check_echo, decode_reply, encode_reply, envelope_from_bytes,
    envelope_to_bytes, get_request, request_frames, OperationKind, Phase, ReplyResult, Step,
};
use drc_lib::wire::{encode_fields, parse_fields, Field, FieldValue};

fn round_trip(p: Payload) {
    let s = drc_lib::envelope::schema_of_payload(&p);
    let bytes = encode_payload(&p);
    assert_eq!(decode_payload(s, &bytes), Some(p));
}

#[test]
fn payloads_round_trip() {
    round_trip(Payload::HouseLightParams { clock_interval: 300 });
    round_trip(Payload::HouseLightParams { clock_interval: -7 });
    round_trip(Payload::HouseLightParams { clock_interval: 0 });
    round_trip(Payload::HouseLightState {
        switch: true,
        light_override: false,
        fake_clock: true,
        brightness: -50,
    });
    round_trip(Payload::LedParams);
    round_trip(Payload::LedState { led_state: String::from("blue") });
    round_trip(Payload::LedState { led_state: String::new() });
    round_trip(Payload::KeyParams);
    round_trip(Payload::StepperParams { timeout: u64::MAX });
    round_trip(Payload::StepperState { switch: true, on: true, direction: false });
    round_trip(Payload::PlaybackParams);
    round_trip(Payload::PlaybackState { audio_id: String::from("song-é"), playback: 2 });
}

#[test]
fn house_light_params_bytes() {
    assert_eq!(
        encode_payload(&Payload::HouseLightParams { clock_interval: 300 }),
        vec![0x08, 0xAC, 0x02]
    );
    assert_eq!(encode_payload(&Payload::HouseLightParams { clock_interval: 0 }), Vec::<u8>::new());
}

#[test]
fn negative_int32_takes_ten_bytes() {
    let b = encode_payload(&Payload::HouseLightState {
        switch: false,
        light_override: false,
        fake_clock: false,
        brightness: -1,
    });
    assert_eq!(b, vec![0x20, 0xFF, 0xFF, 0xFF, 0xFF, 0xFF, 0xFF, 0xFF, 0xFF, 0xFF, 0x01]);
}

#[test]
fn text_field_bytes() {
    let b = encode_payload(&Payload::LedState { led_state: String::from("on") });
    assert_eq!(b, vec![0x0A, 0x02, b'o', b'n']);
}

#[test]
fn fields_round_trip() {
    let fs = vec![
        Field { tag: 1, value: FieldValue::Varint(150) },
        Field { tag: 2, value: FieldValue::Bytes(vec![1, 2, 3]) },
    ];
    let b = encode_fields(&fs);
    assert_eq!(b, vec![0x08, 0x96, 0x01, 0x12, 0x03, 1, 2, 3]);
    assert_eq!(parse_fields(&b), Some(fs));
}

#[test]
fn truncated_fields_are_refused() {
    assert_eq!(parse_fields(&[0x12, 0x05, 1, 2]), None);
    assert_eq!(parse_fields(&[0x80]), None);
}

#[test]
fn type_urls_name_their_schema() {
    assert_eq!(schema_for("melizalab.org/proto/house_light_params"), Some(Schema::HouseLightParams));
    assert_eq!(schema_for("melizalab.org/proto/stepper_state"), Some(Schema::StepperState));
    assert_eq!(schema_for("melizalab.org/proto/unknown"), None);
    assert_eq!(type_url(Schema::StepperParams), "melizalab.org/proto/stepper_params");
}

#[test]
fn envelope_opens_under_its_own_schema() {
    let p = Payload::StepperParams { timeout: 1000 };
    let env = build_envelope(&p);
    assert_eq!(env.type_url, SM_PARAMS_TYPE_URL);
    assert_eq!(open_envelope(&env), Ok(p));
}

#[test]
fn wrong_type_url_does_not_give_the_payload() {
    let env = build_envelope(&Payload::LedState { led_state: String::from("red") });
    let relabelled = TypedEnvelope {
        type_url: String::from(HS_PARAMS_TYPE_URL),
        value: env.value.clone(),
    };
    let opened = open_envelope(&relabelled);
    assert_ne!(opened, Ok(Payload::LedState { led_state: String::from("red") }));
    let unknown = TypedEnvelope { type_url: String::from("x/y"), value: env.value.clone() };
    assert_eq!(open_envelope(&unknown), Err(ClientError::Decode));
}

#[test]
fn envelope_bytes_are_any_message() {
    let env = TypedEnvelope { type_url: String::from("a"), value: vec![1] };
    let b = envelope_to_bytes(&env);
    assert_eq!(b, vec![0x0A, 0x01, b'a', 0x12, 0x01, 0x01]);
    assert_eq!(envelope_from_bytes(&b), Some(env));
}

#[test]
fn replies_round_trip() {
    let env = build_envelope(&Payload::HouseLightParams { clock_interval: 300 });
    for r in [
        ReplyResult::Ack,
        ReplyResult::Failure(String::from("no such component")),
        ReplyResult::Params(env),
    ] {
        let b = encode_reply(&r);
        assert_eq!(decode_reply(&b), Ok(r));
    }
    assert_eq!(encode_reply(&ReplyResult::Ack), vec![0x0A, 0x00]);
}

#[test]
fn malformed_reply_is_decode_error() {
    assert_eq!(decode_reply(&[]), Err(ClientError::Decode));
    assert_eq!(decode_reply(&[0xFF]), Err(ClientError::Decode));
    assert_eq!(decode_reply(&[0x08, 0x01]), Err(ClientError::Decode));
}

#[test]
fn request_needs_a_component() {
    let env = build_envelope(&Payload::KeyParams);
    assert_eq!(
        build_request(OperationKind::SetParameters, "", &env),
        Err(ClientError::EmptyComponent)
    );
    assert_eq!(get_request(""), Err(ClientError::EmptyComponent));
    assert!(matches!(set_pl("", "on"), Err(ClientError::EmptyComponent)));
}

#[test]
fn request_body_wraps_the_envelope() {
    let env = TypedEnvelope { type_url: String::from("a"), value: vec![1] };
    let q = build_request(OperationKind::ChangeState, "x", &env).unwrap();
    assert_eq!(q.kind, OperationKind::ChangeState);
    assert_eq!(q.component, "x");
    assert_eq!(q.body, vec![0x0A, 0x06, 0x0A, 0x01, b'a', 0x12, 0x01, 0x01]);
    let frames = request_frames(&q);
    assert_eq!(frames, vec![vec![3], vec![b'x'], q.body.clone()]);
}

#[test]
fn check_ack_outcomes() {
    assert_eq!(check_ack(Ok(ReplyResult::Ack)), Ok(()));
    assert_eq!(
        check_ack(Ok(ReplyResult::Failure(String::from("bad")))),
        Err(ClientError::RemoteFailure(String::from("bad")))
    );
    let env = build_envelope(&Payload::KeyParams);
    assert_eq!(check_ack(Ok(ReplyResult::Params(env))), Err(ClientError::ProtocolMismatch));
    assert_eq!(check_ack(Err(ClientError::Transport)), Err(ClientError::Transport));
}

#[test]
fn check_echo_outcomes() {
    let env = build_envelope(&Payload::StepperParams { timeout: 5 });
    let other = build_envelope(&Payload::StepperParams { timeout: 6 });
    assert_eq!(check_echo(Ok(ReplyResult::Params(env.clone())), &env), Ok(()));
    assert_eq!(check_echo(Ok(ReplyResult::Params(other)), &env), Err(ClientError::ProtocolMismatch));
    assert_eq!(check_echo(Ok(ReplyResult::Ack), &env), Err(ClientError::ProtocolMismatch));
}

#[test]
fn set_house_light_interval_300() {
    let (mut op, q) = set_hl(300);
    assert_eq!(q.kind, OperationKind::SetParameters);
    assert_eq!(q.component, HOUSE_LIGHT);
    assert_eq!(op.envelope.type_url, "melizalab.org/proto/house_light_params");
    let next = op.on_reply(Ok(ReplyResult::Ack));
    let get = match next {
        Step::Send(g) => g,
        other => panic!("expected a read-back request, got {:?}", other),
    };
    assert_eq!(get.kind, OperationKind::GetParameters);
    assert_eq!(get.component, "house-light");
    assert!(get.body.is_empty());
    let echoed = TypedEnvelope {
        type_url: String::from("melizalab.org/proto/house_light_params"),
        value: vec![0x08, 0xAC, 0x02],
    };
    assert_eq!(
        open_envelope(&echoed),
        Ok(Payload::HouseLightParams { clock_interval: 300 })
    );
    match op.on_reply(Ok(ReplyResult::Params(echoed))) {
        Step::Finished(r) => assert_eq!(r, Ok(())),
        other => panic!("expected the end, got {:?}", other),
    }
    assert_eq!(op.phase, Phase::Done);
}

#[test]
fn set_stepper_timeout_1000() {
    let (mut op, _q) = set_sm(1000);
    assert!(matches!(op.on_reply(Ok(ReplyResult::Ack)), Step::Send(_)));
    let echoed = TypedEnvelope {
        type_url: String::from("melizalab.org/proto/stepper_params"),
        value: vec![0x08, 0xE8, 0x07],
    };
    assert_eq!(open_envelope(&echoed), Ok(Payload::StepperParams { timeout: 1000 }));
    match op.on_reply(Ok(ReplyResult::Params(echoed))) {
        Step::Finished(r) => assert_eq!(r, Ok(())),
        other => panic!("expected the end, got {:?}", other),
    }
}

#[test]
fn set_with_different_echo_is_mismatch() {
    let (mut op, _q) = set_sm(1000);
    assert!(matches!(op.on_reply(Ok(ReplyResult::Ack)), Step::Send(_)));
    let wrong = build_envelope(&Payload::StepperParams { timeout: 999 });
    match op.on_reply(Ok(ReplyResult::Params(wrong))) {
        Step::Finished(r) => assert_eq!(r, Err(ClientError::ProtocolMismatch)),
        other => panic!("expected the end, got {:?}", other),
    }
}

#[test]
fn set_without_ack_stops() {
    let (mut op, _q) = set_pbkey();
    match op.on_reply(Ok(ReplyResult::Failure(String::from("busy")))) {
        Step::Finished(r) => assert_eq!(r, Err(ClientError::RemoteFailure(String::from("busy")))),
        other => panic!("expected the end, got {:?}", other),
    }
    assert_eq!(op.phase, Phase::Done);
}

#[test]
fn change_house_light_state() {
    let (mut op, q) = set_hs(true, false, false, 50);
    assert_eq!(q.kind, OperationKind::ChangeState);
    assert_eq!(q.component, "house-light");
    assert_eq!(op.envelope.type_url, "melizalab.org/proto/house_light_state");
    assert_eq!(op.envelope.value, vec![0x08, 0x01, 0x20, 0x32]);
    match op.on_reply(Ok(ReplyResult::Ack)) {
        Step::Finished(r) => assert_eq!(r, Ok(())),
        other => panic!("a change of state sends no second request, got {:?}", other),
    }
    assert_eq!(op.phase, Phase::Done);
}

#[test]
fn change_state_fails_on_anything_but_ack() {
    let (mut op, _q) = set_hs(true, false, false, 50);
    let env = build_envelope(&Payload::KeyParams);
    match op.on_reply(Ok(ReplyResult::Params(env))) {
        Step::Finished(r) => assert_eq!(r, Err(ClientError::ProtocolMismatch)),
        other => panic!("expected the end, got {:?}", other),
    }
}

#[test]
fn connection_refused_is_transport_error() {
    let (mut op, _q) = set_hl(300);
    match op.on_reply(Err(ClientError::Transport)) {
        Step::Finished(r) => assert_eq!(r, Err(ClientError::Transport)),
        other => panic!("expected the end, got {:?}", other),
    }
    assert_eq!(op.phase, Phase::Done);
    assert_eq!(op.component, "house-light");
    assert_eq!(op.envelope, build_envelope(&Payload::HouseLightParams { clock_interval: 300 }));
}

#[test]
fn led_params_cover_three_locations() {
    let ops = set_pbled();
    let names: Vec<&str> = ops.iter().map(|(op, _)| op.component.as_str()).collect();
    assert_eq!(names, vec!["peck-leds-left", "peck-leds-right", "peck-leds-center"]);
    for (op, q) in &ops {
        assert_eq!(op.envelope.type_url, "melizalab.org/proto/led_params");
        assert!(op.envelope.value.is_empty());
        assert_eq!(q.kind, OperationKind::SetParameters);
    }
}

#[test]
fn playback_commands() {
    let (op, _q) = set_playback();
    assert_eq!(op.envelope.type_url, "melizalab.org/proto/sound_alsa_params");
    let (op, q) = drc_lib::cli_state::set_playback("stim", 1);
    assert_eq!(q.component, "sound-alsa");
    assert_eq!(op.envelope.value, vec![0x0A, 0x04, b's', b't', b'i', b'm', 0x10, 0x01]);
    let (op, _q) = drc_lib::cli_state::set_sm(true, false, true);
    assert_eq!(op.envelope.value, vec![0x08, 0x01, 0x18, 0x01]);
    let (op, q) = set_pl("peck-leds-left", "on").unwrap();
    assert_eq!(q.component, "peck-leds-left");
    assert_eq!(op.envelope.type_url, "melizalab.org/proto/led_state");
}
