//! The payload schemas of the components: their fields on the wire, their
//! encoding, and their decoding.
use crate::wire::{
    encode_fields, field_wf, fields_bytes, fields_view, fields_wf, parse_fields, Field,
    FieldSpec, FieldValue, ValueSpec,
};
use vstd::prelude::*;
use vstd::utf8::{decode_utf8, encode_utf8, valid_utf8};

verus! {

/// The schema of a payload: one per component family and kind of value.
#[derive(Clone, Copy, Debug, PartialEq, Eq, Structural)]
pub enum Schema {
    HouseLightParams,
    HouseLightState,
    LedParams,
    LedState,
    KeyParams,
    StepperParams,
    StepperState,
    PlaybackParams,
    PlaybackState,
}

/// A component-specific value: the parameters or the state of one component.
#[derive(Clone, Debug, PartialEq, Eq)]
pub enum Payload {
    /// `clock_interval`: seconds between two updates of the light's clock.
    HouseLightParams { clock_interval: i64 },
    HouseLightState { switch: bool, light_override: bool, fake_clock: bool, brightness: i32 },
    LedParams,
    LedState { led_state: String },
    KeyParams,
    /// `timeout`: milliseconds the motor runs after one signal.
    StepperParams { timeout: u64 },
    StepperState { switch: bool, on: bool, direction: bool },
    PlaybackParams,
    PlaybackState { audio_id: String, playback: i32 },
}

/// The abstract value of a payload.
pub enum PayloadSpec {
    HouseLightParams { clock_interval: i64 },
    HouseLightState { switch: bool, light_override: bool, fake_clock: bool, brightness: i32 },
    LedParams,
    LedState { led_state: Seq<char> },
    KeyParams,
    StepperParams { timeout: u64 },
    StepperState { switch: bool, on: bool, direction: bool },
    PlaybackParams,
    PlaybackState { audio_id: Seq<char>, playback: i32 },
}

impl Payload {
    pub open spec fn view(&self) -> PayloadSpec {
        match self {
            Payload::HouseLightParams { clock_interval } => PayloadSpec::HouseLightParams {
                clock_interval: *clock_interval,
            },
            Payload::HouseLightState { switch, light_override, fake_clock, brightness } =>
                PayloadSpec::HouseLightState {
                switch: *switch,
                light_override: *light_override,
                fake_clock: *fake_clock,
                brightness: *brightness,
            },
            Payload::LedParams => PayloadSpec::LedParams,
            Payload::LedState { led_state } => PayloadSpec::LedState { led_state: led_state@ },
            Payload::KeyParams => PayloadSpec::KeyParams,
            Payload::StepperParams { timeout } => PayloadSpec::StepperParams { timeout: *timeout },
            Payload::StepperState { switch, on, direction } => PayloadSpec::StepperState {
                switch: *switch,
                on: *on,
                direction: *direction,
            },
            Payload::PlaybackParams => PayloadSpec::PlaybackParams,
            Payload::PlaybackState { audio_id, playback } => PayloadSpec::PlaybackState {
                audio_id: audio_id@,
                playback: *playback,
            },
        }
    }
}

/// The schema of a payload.
pub open spec fn schema_of(p: PayloadSpec) -> Schema {
    match p {
        PayloadSpec::HouseLightParams { .. } => Schema::HouseLightParams,
        PayloadSpec::HouseLightState { .. } => Schema::HouseLightState,
        PayloadSpec::LedParams => Schema::LedParams,
        PayloadSpec::LedState { .. } => Schema::LedState,
        PayloadSpec::KeyParams => Schema::KeyParams,
        PayloadSpec::StepperParams { .. } => Schema::StepperParams,
        PayloadSpec::StepperState { .. } => Schema::StepperState,
        PayloadSpec::PlaybackParams => Schema::PlaybackParams,
        PayloadSpec::PlaybackState { .. } => Schema::PlaybackState,
    }
}

/// The value of a schema with every field at its default.
pub open spec fn default_of(s: Schema) -> PayloadSpec {
    match s {
        Schema::HouseLightParams => PayloadSpec::HouseLightParams { clock_interval: 0 },
        Schema::HouseLightState => PayloadSpec::HouseLightState {
            switch: false,
            light_override: false,
            fake_clock: false,
            brightness: 0,
        },
        Schema::LedParams => PayloadSpec::LedParams,
        Schema::LedState => PayloadSpec::LedState { led_state: Seq::empty() },
        Schema::KeyParams => PayloadSpec::KeyParams,
        Schema::StepperParams => PayloadSpec::StepperParams { timeout: 0 },
        Schema::StepperState => PayloadSpec::StepperState {
            switch: false,
            on: false,
            direction: false,
        },
        Schema::PlaybackParams => PayloadSpec::PlaybackParams,
        Schema::PlaybackState => PayloadSpec::PlaybackState { audio_id: Seq::empty(), playback: 0 },
    }
}

/// A payload whose text fields fit a message.
pub open spec fn payload_wf(p: PayloadSpec) -> bool {
    match p {
        PayloadSpec::LedState { led_state } => encode_utf8(led_state).len() <= usize::MAX,
        PayloadSpec::PlaybackState { audio_id, .. } => encode_utf8(audio_id).len() <= usize::MAX,
        _ => true,
    }
}

pub open spec fn bool_field(tag: nat, b: bool) -> FieldSpec {
    FieldSpec { tag, value: ValueSpec::Varint(if b { 1nat } else { 0nat }) }
}

pub open spec fn int_field(tag: nat, v: u64) -> FieldSpec {
    FieldSpec { tag, value: ValueSpec::Varint(v as nat) }
}

pub open spec fn text_field(tag: nat, s: Seq<char>) -> FieldSpec {
    FieldSpec { tag, value: ValueSpec::Bytes(encode_utf8(s)) }
}

/// Appends `f` unless the field holds its default value, which is left out.
pub open spec fn push_unless_default(fs: Seq<FieldSpec>, is_default: bool, f: FieldSpec) -> Seq<
    FieldSpec,
> {
    if is_default {
        fs
    } else {
        fs.push(f)
    }
}

/// The fields of a payload, in tag order; fields at their default are left out.
pub open spec fn payload_fields(p: PayloadSpec) -> Seq<FieldSpec> {
    let e = Seq::<FieldSpec>::empty();
    match p {
        PayloadSpec::HouseLightParams { clock_interval } => push_unless_default(
            e,
            clock_interval == 0,
            int_field(1, clock_interval as u64),
        ),
        PayloadSpec::HouseLightState { switch, light_override, fake_clock, brightness } => {
            let f1 = push_unless_default(e, !switch, bool_field(1, switch));
            let f2 = push_unless_default(f1, !light_override, bool_field(2, light_override));
            let f3 = push_unless_default(f2, !fake_clock, bool_field(3, fake_clock));
            push_unless_default(f3, brightness == 0, int_field(4, brightness as i64 as u64))
        },
        PayloadSpec::LedState { led_state } => push_unless_default(
            e,
            led_state.len() == 0,
            text_field(1, led_state),
        ),
        PayloadSpec::StepperParams { timeout } => push_unless_default(
            e,
            timeout == 0,
            int_field(1, timeout),
        ),
        PayloadSpec::StepperState { switch, on, direction } => {
            let f1 = push_unless_default(e, !switch, bool_field(1, switch));
            let f2 = push_unless_default(f1, !on, bool_field(2, on));
            push_unless_default(f2, !direction, bool_field(3, direction))
        },
        PayloadSpec::PlaybackState { audio_id, playback } => {
            let f1 = push_unless_default(e, audio_id.len() == 0, text_field(1, audio_id));
            push_unless_default(f1, playback == 0, int_field(2, playback as i64 as u64))
        },
        _ => e,
    }
}

/// The bytes of a payload.
pub open spec fn payload_bytes(p: PayloadSpec) -> Seq<u8> {
    fields_bytes(payload_fields(p))
}

/// The integer that an integer field carries.
pub open spec fn varint_of(f: FieldSpec) -> Option<u64> {
    match f.value {
        ValueSpec::Varint(v) => Some(v as u64),
        ValueSpec::Bytes(_) => None,
    }
}

/// The text that a length-delimited field carries, if it is valid UTF-8.
pub open spec fn text_of(f: FieldSpec) -> Option<Seq<char>> {
    match f.value {
        ValueSpec::Bytes(b) => if valid_utf8(b) {
            Some(decode_utf8(b))
        } else {
            None
        },
        ValueSpec::Varint(_) => None,
    }
}

/// The payload `p` after reading the field `f`: a known tag with the wrong
/// wire type, or text that is not UTF-8, is an error; unknown tags are skipped.
pub open spec fn apply_field(p: PayloadSpec, f: FieldSpec) -> Option<PayloadSpec> {
    match p {
        PayloadSpec::HouseLightParams { clock_interval } => if f.tag == 1 {
            match varint_of(f) {
                Some(v) => Some(PayloadSpec::HouseLightParams { clock_interval: v as i64 }),
                None => None,
            }
        } else {
            Some(p)
        },
        PayloadSpec::HouseLightState { switch, light_override, fake_clock, brightness } => if 1
            <= f.tag <= 4 {
            match varint_of(f) {
                Some(v) => Some(
                    if f.tag == 1 {
                        PayloadSpec::HouseLightState {
                            switch: v != 0,
                            light_override,
                            fake_clock,
                            brightness,
                        }
                    } else if f.tag == 2 {
                        PayloadSpec::HouseLightState {
                            switch,
                            light_override: v != 0,
                            fake_clock,
                            brightness,
                        }
                    } else if f.tag == 3 {
                        PayloadSpec::HouseLightState {
                            switch,
                            light_override,
                            fake_clock: v != 0,
                            brightness,
                        }
                    } else {
                        PayloadSpec::HouseLightState {
                            switch,
                            light_override,
                            fake_clock,
                            brightness: v as i32,
                        }
                    },
                ),
                None => None,
            }
        } else {
            Some(p)
        },
        PayloadSpec::LedState { led_state } => if f.tag == 1 {
            match text_of(f) {
                Some(t) => Some(PayloadSpec::LedState { led_state: t }),
                None => None,
            }
        } else {
            Some(p)
        },
        PayloadSpec::StepperParams { timeout } => if f.tag == 1 {
            match varint_of(f) {
                Some(v) => Some(PayloadSpec::StepperParams { timeout: v }),
                None => None,
            }
        } else {
            Some(p)
        },
        PayloadSpec::StepperState { switch, on, direction } => if 1 <= f.tag <= 3 {
            match varint_of(f) {
                Some(v) => Some(
                    if f.tag == 1 {
                        PayloadSpec::StepperState { switch: v != 0, on, direction }
                    } else if f.tag == 2 {
                        PayloadSpec::StepperState { switch, on: v != 0, direction }
                    } else {
                        PayloadSpec::StepperState { switch, on, direction: v != 0 }
                    },
                ),
                None => None,
            }
        } else {
            Some(p)
        },
        PayloadSpec::PlaybackState { audio_id, playback } => if f.tag == 1 {
            match text_of(f) {
                Some(t) => Some(PayloadSpec::PlaybackState { audio_id: t, playback }),
                None => None,
            }
        } else if f.tag == 2 {
            match varint_of(f) {
                Some(v) => Some(PayloadSpec::PlaybackState { audio_id, playback: v as i32 }),
                None => None,
            }
        } else {
            Some(p)
        },
        _ => Some(p),
    }
}

/// The payload of schema `s` that the fields `fs` give, read in order from
/// the default value.
pub open spec fn decode_fields(s: Schema, fs: Seq<FieldSpec>) -> Option<PayloadSpec>
    decreases fs.len(),
{
    if fs.len() == 0 {
        Some(default_of(s))
    } else {
        match decode_fields(s, fs.drop_last()) {
            Some(p) => apply_field(p, fs.last()),
            None => None,
        }
    }
}

proof fn lemma_decode_push(s: Schema, fs: Seq<FieldSpec>, f: FieldSpec)
    ensures
        decode_fields(s, fs.push(f)) == (match decode_fields(s, fs) {
            Some(p) => apply_field(p, f),
            None => None,
        }),
{
    assert(fs.push(f).drop_last() =~= fs);
}

/// Round trip: the fields of a payload are well formed, and decoding them
/// under the payload's own schema gives the payload back.
pub proof fn lemma_payload_round_trip(p: PayloadSpec)
    requires
        payload_wf(p),
    ensures
        fields_wf(payload_fields(p)),
        decode_fields(schema_of(p), payload_fields(p)) == Some(p),
{
    lemma_payload_fields_wf(p);
    broadcast use vstd::utf8::encode_utf8_valid_utf8, vstd::utf8::encode_utf8_decode_utf8;

    let e = Seq::<FieldSpec>::empty();
    let s = schema_of(p);
    match p {
        PayloadSpec::HouseLightParams { clock_interval } => {
            lemma_decode_push(s, e, int_field(1, clock_interval as u64));
            assert((clock_interval as u64) as i64 == clock_interval) by (bit_vector);
        },
        PayloadSpec::HouseLightState { switch, light_override, fake_clock, brightness } => {
            let f1 = push_unless_default(e, !switch, bool_field(1, switch));
            let f2 = push_unless_default(f1, !light_override, bool_field(2, light_override));
            let f3 = push_unless_default(f2, !fake_clock, bool_field(3, fake_clock));
            lemma_decode_push(s, e, bool_field(1, switch));
            lemma_decode_push(s, f1, bool_field(2, light_override));
            lemma_decode_push(s, f2, bool_field(3, fake_clock));
            lemma_decode_push(s, f3, int_field(4, brightness as i64 as u64));
            assert((brightness as i64 as u64) as i32 == brightness) by (bit_vector);
        },
        PayloadSpec::LedState { led_state } => {
            lemma_decode_push(s, e, text_field(1, led_state));
        },
        PayloadSpec::StepperParams { timeout } => {
            lemma_decode_push(s, e, int_field(1, timeout));
        },
        PayloadSpec::StepperState { switch, on, direction } => {
            let f1 = push_unless_default(e, !switch, bool_field(1, switch));
            let f2 = push_unless_default(f1, !on, bool_field(2, on));
            lemma_decode_push(s, e, bool_field(1, switch));
            lemma_decode_push(s, f1, bool_field(2, on));
            lemma_decode_push(s, f2, bool_field(3, direction));
        },
        PayloadSpec::PlaybackState { audio_id, playback } => {
            let f1 = push_unless_default(e, audio_id.len() == 0, text_field(1, audio_id));
            lemma_decode_push(s, e, text_field(1, audio_id));
            lemma_decode_push(s, f1, int_field(2, playback as i64 as u64));
            assert((playback as i64 as u64) as i32 == playback) by (bit_vector);
            if audio_id.len() == 0 {
                assert(audio_id =~= Seq::<char>::empty());
            }
        },
        _ => {},
    }
}

/// Relies on String::from_utf8: the bytes become text exactly when they are
/// valid UTF-8, and the text is what they encode.
#[verifier::external_body]
pub(crate) fn text_from_utf8(b: Vec<u8>) -> (r: Option<String>)
    ensures
        r is Some <==> valid_utf8(b@),
        r matches Some(t) ==> t@ == decode_utf8(b@),
{
    String::from_utf8(b).ok()
}

/// The UTF-8 bytes of a text.
fn text_bytes(t: &String) -> (r: Vec<u8>)
    ensures
        r@ == encode_utf8(t@),
{
    vstd::slice::slice_to_vec(t.as_str().as_bytes())
}

fn push_bool(fs: &mut Vec<Field>, tag: u64, b: bool)
    ensures
        fields_view(final(fs)@) == push_unless_default(fields_view(old(fs)@), !b, bool_field(tag as nat, b)),
{
    if b {
        fs.push(Field { tag, value: FieldValue::Varint(1) });
        assert(fields_view(final(fs)@) =~= fields_view(old(fs)@).push(bool_field(tag as nat, b)));
    }
}

fn push_int(fs: &mut Vec<Field>, tag: u64, v: u64)
    ensures
        fields_view(final(fs)@) == push_unless_default(fields_view(old(fs)@), v == 0, int_field(tag as nat, v)),
{
    if v != 0 {
        fs.push(Field { tag, value: FieldValue::Varint(v) });
        assert(fields_view(final(fs)@) =~= fields_view(old(fs)@).push(int_field(tag as nat, v)));
    }
}

fn push_text(fs: &mut Vec<Field>, tag: u64, t: &String)
    ensures
        fields_view(final(fs)@) == push_unless_default(fields_view(old(fs)@), t@.len() == 0, text_field(tag as nat, t@)),
        encode_utf8(t@).len() <= usize::MAX,
{
    let b = text_bytes(t);
    if b.len() != 0 {
        fs.push(Field { tag, value: FieldValue::Bytes(b) });
        assert(t@.len() != 0);
        assert(fields_view(final(fs)@) =~= fields_view(old(fs)@).push(text_field(tag as nat, t@)));
    } else {
        proof {
            if t@.len() != 0 {
                vstd::utf8::encode_utf8_decode_utf8(t@);
                assert(decode_utf8(Seq::<u8>::empty()) =~= Seq::<char>::empty());
            }
        }
    }
}

/// The fields of a payload, as they go on the wire.
pub fn payload_to_fields(p: &Payload) -> (r: Vec<Field>)
    ensures
        fields_view(r@) == payload_fields(p@),
        payload_wf(p@),
{
    let mut fs: Vec<Field> = Vec::new();
    assert(fields_view(fs@) =~= Seq::<FieldSpec>::empty());
    match p {
        Payload::HouseLightParams { clock_interval } => {
            let v = *clock_interval;
            assert((v as u64 == 0) == (v == 0)) by (bit_vector);
            push_int(&mut fs, 1, v as u64);
        },
        Payload::HouseLightState { switch, light_override, fake_clock, brightness } => {
            push_bool(&mut fs, 1, *switch);
            push_bool(&mut fs, 2, *light_override);
            push_bool(&mut fs, 3, *fake_clock);
            let v = *brightness;
            assert((v as i64 as u64 == 0) == (v == 0)) by (bit_vector);
            push_int(&mut fs, 4, v as i64 as u64);
        },
        Payload::LedState { led_state } => {
            push_text(&mut fs, 1, led_state);
        },
        Payload::StepperParams { timeout } => {
            push_int(&mut fs, 1, *timeout);
        },
        Payload::StepperState { switch, on, direction } => {
            push_bool(&mut fs, 1, *switch);
            push_bool(&mut fs, 2, *on);
            push_bool(&mut fs, 3, *direction);
        },
        Payload::PlaybackState { audio_id, playback } => {
            push_text(&mut fs, 1, audio_id);
            let v = *playback;
            assert((v as i64 as u64 == 0) == (v == 0)) by (bit_vector);
            push_int(&mut fs, 2, v as i64 as u64);
        },
        _ => {},
    }
    fs
}

/// Every field of a payload can go on the wire.
pub proof fn lemma_payload_fields_wf(p: PayloadSpec)
    requires
        payload_wf(p),
    ensures
        fields_wf(payload_fields(p)),
{
    let fs = payload_fields(p);
    assert forall|i: int| 0 <= i < fs.len() implies #[trigger] field_wf(fs[i]) by {}
}

/// Serializes a payload with its schema.
pub fn encode_payload(p: &Payload) -> (r: Vec<u8>)
    ensures
        r@ == payload_bytes(p@),
        payload_wf(p@),
{
    let fs = payload_to_fields(p);
    proof {
        lemma_payload_fields_wf(p@);
    }
    encode_fields(&fs)
}

/// The abstract value of an optional payload.
pub open spec fn opt_view(r: Option<Payload>) -> Option<PayloadSpec> {
    match r {
        Some(q) => Some(q@),
        None => None,
    }
}

fn field_int(f: &Field) -> (r: Option<u64>)
    ensures
        r == varint_of(f@),
{
    match &f.value {
        FieldValue::Varint(v) => Some(*v),
        FieldValue::Bytes(_) => None,
    }
}

fn field_text(f: &Field) -> (r: Option<String>)
    ensures
        r matches Some(t) ==> text_of(f@) == Some(t@),
        r is None ==> text_of(f@) is None,
{
    match &f.value {
        FieldValue::Bytes(b) => text_from_utf8(b.clone()),
        FieldValue::Varint(_) => None,
    }
}

/// Reads one field into a payload.
fn read_field(p: Payload, f: &Field) -> (r: Option<Payload>)
    ensures
        opt_view(r) == apply_field(p@, f@),
{
    match p {
        Payload::HouseLightParams { clock_interval } => {
            if f.tag == 1 {
                match field_int(f) {
                    Some(v) => Some(Payload::HouseLightParams { clock_interval: v as i64 }),
                    None => None,
                }
            } else {
                Some(Payload::HouseLightParams { clock_interval })
            }
        },
        Payload::HouseLightState { switch, light_override, fake_clock, brightness } => {
            if 1 <= f.tag && f.tag <= 4 {
                match field_int(f) {
                    Some(v) => {
                        let (mut a, mut b, mut c, mut d) = (switch, light_override, fake_clock, brightness);
                        if f.tag == 1 {
                            a = v != 0;
                        } else if f.tag == 2 {
                            b = v != 0;
                        } else if f.tag == 3 {
                            c = v != 0;
                        } else {
                            d = v as i32;
                        }
                        Some(Payload::HouseLightState { switch: a, light_override: b, fake_clock: c, brightness: d })
                    },
                    None => None,
                }
            } else {
                Some(Payload::HouseLightState { switch, light_override, fake_clock, brightness })
            }
        },
        Payload::LedState { led_state } => {
            if f.tag == 1 {
                match field_text(f) {
                    Some(t) => Some(Payload::LedState { led_state: t }),
                    None => None,
                }
            } else {
                Some(Payload::LedState { led_state })
            }
        },
        Payload::StepperParams { timeout } => {
            if f.tag == 1 {
                match field_int(f) {
                    Some(v) => Some(Payload::StepperParams { timeout: v }),
                    None => None,
                }
            } else {
                Some(Payload::StepperParams { timeout })
            }
        },
        Payload::StepperState { switch, on, direction } => {
            if 1 <= f.tag && f.tag <= 3 {
                match field_int(f) {
                    Some(v) => {
                        let (mut a, mut b, mut c) = (switch, on, direction);
                        if f.tag == 1 {
                            a = v != 0;
                        } else if f.tag == 2 {
                            b = v != 0;
                        } else {
                            c = v != 0;
                        }
                        Some(Payload::StepperState { switch: a, on: b, direction: c })
                    },
                    None => None,
                }
            } else {
                Some(Payload::StepperState { switch, on, direction })
            }
        },
        Payload::PlaybackState { audio_id, playback } => {
            if f.tag == 1 {
                match field_text(f) {
                    Some(t) => Some(Payload::PlaybackState { audio_id: t, playback }),
                    None => None,
                }
            } else if f.tag == 2 {
                match field_int(f) {
                    Some(v) => Some(Payload::PlaybackState { audio_id, playback: v as i32 }),
                    None => None,
                }
            } else {
                Some(Payload::PlaybackState { audio_id, playback })
            }
        },
        Payload::LedParams => Some(Payload::LedParams),
        Payload::KeyParams => Some(Payload::KeyParams),
        Payload::PlaybackParams => Some(Payload::PlaybackParams),
    }
}

/// The value of schema `s` with every field at its default.
pub fn default_payload(s: Schema) -> (r: Payload)
    ensures
        r@ == default_of(s),
{
    match s {
        Schema::HouseLightParams => Payload::HouseLightParams { clock_interval: 0 },
        Schema::HouseLightState => Payload::HouseLightState {
            switch: false,
            light_override: false,
            fake_clock: false,
            brightness: 0,
        },
        Schema::LedParams => Payload::LedParams,
        Schema::LedState => {
            let t = String::new();
            Payload::LedState { led_state: t }
        },
        Schema::KeyParams => Payload::KeyParams,
        Schema::StepperParams => Payload::StepperParams { timeout: 0 },
        Schema::StepperState => Payload::StepperState { switch: false, on: false, direction: false },
        Schema::PlaybackParams => Payload::PlaybackParams,
        Schema::PlaybackState => {
            let t = String::new();
            Payload::PlaybackState { audio_id: t, playback: 0 }
        },
    }
}

/// Reads the fields, in order, into a payload of schema `s`.
pub fn payload_from_fields(s: Schema, fs: &Vec<Field>) -> (r: Option<Payload>)
    ensures
        opt_view(r) == decode_fields(s, fields_view(fs@)),
        r matches Some(q) ==> schema_of(q@) == s,
{
    let mut acc = default_payload(s);
    let mut i: usize = 0;
    assert(fields_view(fs@.take(0)) =~= Seq::<FieldSpec>::empty());
    while i < fs.len()
        invariant
            i <= fs@.len(),
            decode_fields(s, fields_view(fs@.take(i as int))) == Some(acc@),
            schema_of(acc@) == s,
        decreases fs@.len() - i,
    {
        proof {
            let pre = fields_view(fs@.take(i as int));
            assert(fields_view(fs@.take(i + 1)) =~= pre.push(fs@[i as int]@));
            assert(pre.push(fs@[i as int]@).drop_last() =~= pre);
        }
        match read_field(acc, &fs[i]) {
            Some(q) => {
                acc = q;
            },
            None => {
                proof {
                    let pre = fields_view(fs@.take(i as int));
                    assert(decode_fields(s, fields_view(fs@.take(i + 1))) is None);
                    assert forall|k: int| i + 1 <= k <= fs@.len() implies decode_fields(
                        s,
                        #[trigger] fields_view(fs@.take(k)),
                    ) is None by {
                        assert(fields_view(fs@.take(k)).take(i + 1) =~= fields_view(fs@.take(i + 1)));
                        lemma_decode_none_extends(s, fields_view(fs@.take(i + 1)), fields_view(fs@.take(k)));
                    }
                    assert(fs@.take(fs@.len() as int) =~= fs@);
                }
                return None;
            },
        }
        i = i + 1;
    }
    assert(fs@.take(i as int) =~= fs@);
    Some(acc)
}

proof fn lemma_decode_none_extends(s: Schema, a: Seq<FieldSpec>, b: Seq<FieldSpec>)
    requires
        decode_fields(s, a) is None,
        a.len() <= b.len(),
        a == b.take(a.len() as int),
    ensures
        decode_fields(s, b) is None,
    decreases b.len() - a.len(),
{
    if a.len() < b.len() {
        let c = b.take(b.len() - 1);
        assert(c.take(a.len() as int) =~= a);
        lemma_decode_none_extends(s, a, c);
        assert(b.drop_last() =~= c);
    } else {
        assert(a =~= b);
    }
}

/// Deserializes a payload under schema `s`. The bytes of any payload of that
/// schema give back that payload; whatever is returned has that schema.
pub fn decode_payload(s: Schema, bytes: &[u8]) -> (r: Option<Payload>)
    ensures
        r matches Some(q) ==> schema_of(q@) == s,
        forall|p: PayloadSpec|
            schema_of(p) == s && payload_wf(p) && #[trigger] payload_bytes(p) == bytes@ ==> (r matches Some(
                q,
            ) && q@ == p),
{
    let r = match parse_fields(bytes) {
        Some(fs) => payload_from_fields(s, &fs),
        None => None,
    };
    assert forall|p: PayloadSpec|
        schema_of(p) == s && payload_wf(p) && #[trigger] payload_bytes(p) == bytes@ implies (r matches Some(
        q,
    ) && q@ == p) by {
        lemma_payload_round_trip(p);
    }
    r
}

} // verus!
