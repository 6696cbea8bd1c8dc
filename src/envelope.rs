//! Typed envelopes: a payload tagged with the identifier of its schema, and
//! the registry of those identifiers.
use crate::error::ClientError;
use crate::payload::{
    decode_payload, encode_payload, payload_bytes, payload_wf, schema_of, Payload, PayloadSpec,
    Schema,
};
use vstd::prelude::*;

verus! {

pub const HS_PARAMS_TYPE_URL: &'static str = "melizalab.org/proto/house_light_params";
pub const HS_STATE_TYPE_URL: &'static str = "melizalab.org/proto/house_light_state";
pub const PL_PARAMS_TYPE_URL: &'static str = "melizalab.org/proto/led_params";
pub const PL_STATE_TYPE_URL: &'static str = "melizalab.org/proto/led_state";
pub const PK_PARAMS_TYPE_URL: &'static str = "melizalab.org/proto/key_params";
pub const SM_PARAMS_TYPE_URL: &'static str = "melizalab.org/proto/stepper_params";
pub const SM_STATE_TYPE_URL: &'static str = "melizalab.org/proto/stepper_state";
pub const PLB_PARAMS_TYPE_URL: &'static str = "melizalab.org/proto/sound_alsa_params";
pub const PLB_STATE_TYPE_URL: &'static str = "melizalab.org/proto/sound_alsa_state";

/// The type identifier of each schema.
pub open spec fn type_url_of(s: Schema) -> Seq<char> {
    match s {
        Schema::HouseLightParams => HS_PARAMS_TYPE_URL@,
        Schema::HouseLightState => HS_STATE_TYPE_URL@,
        Schema::LedParams => PL_PARAMS_TYPE_URL@,
        Schema::LedState => PL_STATE_TYPE_URL@,
        Schema::KeyParams => PK_PARAMS_TYPE_URL@,
        Schema::StepperParams => SM_PARAMS_TYPE_URL@,
        Schema::StepperState => SM_STATE_TYPE_URL@,
        Schema::PlaybackParams => PLB_PARAMS_TYPE_URL@,
        Schema::PlaybackState => PLB_STATE_TYPE_URL@,
    }
}

/// The type identifier of a schema.
pub fn type_url(s: Schema) -> (r: &'static str)
    ensures
        r@ == type_url_of(s),
{
    match s {
        Schema::HouseLightParams => HS_PARAMS_TYPE_URL,
        Schema::HouseLightState => HS_STATE_TYPE_URL,
        Schema::LedParams => PL_PARAMS_TYPE_URL,
        Schema::LedState => PL_STATE_TYPE_URL,
        Schema::KeyParams => PK_PARAMS_TYPE_URL,
        Schema::StepperParams => SM_PARAMS_TYPE_URL,
        Schema::StepperState => SM_STATE_TYPE_URL,
        Schema::PlaybackParams => PLB_PARAMS_TYPE_URL,
        Schema::PlaybackState => PLB_STATE_TYPE_URL,
    }
}

/// No two schemas share a type identifier: an identifier names one schema.
pub proof fn lemma_type_url_unique(s1: Schema, s2: Schema)
    requires
        type_url_of(s1) == type_url_of(s2),
    ensures
        s1 == s2,
{
    reveal_strlit("melizalab.org/proto/house_light_params");
    reveal_strlit("melizalab.org/proto/house_light_state");
    reveal_strlit("melizalab.org/proto/led_params");
    reveal_strlit("melizalab.org/proto/led_state");
    reveal_strlit("melizalab.org/proto/key_params");
    reveal_strlit("melizalab.org/proto/stepper_params");
    reveal_strlit("melizalab.org/proto/stepper_state");
    reveal_strlit("melizalab.org/proto/sound_alsa_params");
    reveal_strlit("melizalab.org/proto/sound_alsa_state");
    if s1 != s2 {
        let a = type_url_of(s1);
        let b = type_url_of(s2);
        assert(a.len() != b.len() || a[20] != b[20] || a[24] != b[24] || a[27] != b[27]);
    }
}

/// Whether two texts are equal, compared byte by byte.
pub fn text_eq(a: &str, b: &str) -> (r: bool)
    ensures
        r == (a@ == b@),
{
    let x = a.as_bytes();
    let y = b.as_bytes();
    let same = bytes_eq(x, y);
    proof {
        vstd::utf8::encode_utf8_decode_utf8(a@);
        vstd::utf8::encode_utf8_decode_utf8(b@);
    }
    same
}

/// Whether two byte strings are equal.
pub fn bytes_eq(x: &[u8], y: &[u8]) -> (r: bool)
    ensures
        r == (x@ == y@),
{
    if x.len() != y.len() {
        return false;
    }
    let mut i: usize = 0;
    while i < x.len()
        invariant
            x@.len() == y@.len(),
            i <= x@.len(),
            forall|k: int| 0 <= k < i ==> x@[k] == y@[k],
        decreases x@.len() - i,
    {
        if x[i] != y[i] {
            return false;
        }
        i = i + 1;
    }
    assert(x@ =~= y@);
    true
}

/// The schema that a type identifier names, if any.
pub fn schema_for(id: &str) -> (r: Option<Schema>)
    ensures
        forall|s: Schema| #![trigger type_url_of(s)] (r == Some(s)) <==> id@ == type_url_of(s),
{
    let all: [Schema; 9] = [
        Schema::HouseLightParams,
        Schema::HouseLightState,
        Schema::LedParams,
        Schema::LedState,
        Schema::KeyParams,
        Schema::StepperParams,
        Schema::StepperState,
        Schema::PlaybackParams,
        Schema::PlaybackState,
    ];
    let mut i: usize = 0;
    while i < 9
        invariant
            i <= 9,
            all@ == seq![
                Schema::HouseLightParams,
                Schema::HouseLightState,
                Schema::LedParams,
                Schema::LedState,
                Schema::KeyParams,
                Schema::StepperParams,
                Schema::StepperState,
                Schema::PlaybackParams,
                Schema::PlaybackState,
            ],
            forall|k: int| 0 <= k < i ==> id@ != type_url_of(#[trigger] all@[k]),
        decreases 9 - i,
    {
        let s = all[i];
        if text_eq(id, type_url(s)) {
            assert forall|t: Schema| #![trigger type_url_of(t)] (Some(s) == Some(t)) <==> id@
                == type_url_of(t) by {
                if id@ == type_url_of(t) {
                    lemma_type_url_unique(s, t);
                }
            }
            return Some(s);
        }
        i = i + 1;
    }
    assert forall|t: Schema| #![trigger type_url_of(t)] id@ != type_url_of(t) by {
        match t {
            Schema::HouseLightParams => assert(all@[0] == t),
            Schema::HouseLightState => assert(all@[1] == t),
            Schema::LedParams => assert(all@[2] == t),
            Schema::LedState => assert(all@[3] == t),
            Schema::KeyParams => assert(all@[4] == t),
            Schema::StepperParams => assert(all@[5] == t),
            Schema::StepperState => assert(all@[6] == t),
            Schema::PlaybackParams => assert(all@[7] == t),
            Schema::PlaybackState => assert(all@[8] == t),
        }
    }
    None
}

/// The abstract value of an envelope: a type identifier and opaque bytes.
pub struct EnvelopeSpec {
    pub type_url: Seq<char>,
    pub value: Seq<u8>,
}

/// A serialized payload paired with the identifier of its schema.
#[derive(Clone, Debug, PartialEq, Eq)]
pub struct TypedEnvelope {
    pub type_url: String,
    pub value: Vec<u8>,
}

impl TypedEnvelope {
    pub open spec fn view(&self) -> EnvelopeSpec {
        EnvelopeSpec { type_url: self.type_url@, value: self.value@ }
    }
}

/// The envelope of a payload: its schema's identifier and its bytes.
pub open spec fn envelope_of(p: PayloadSpec) -> EnvelopeSpec {
    EnvelopeSpec { type_url: type_url_of(schema_of(p)), value: payload_bytes(p) }
}

/// Wraps a payload in an envelope under the identifier of its schema.
pub fn build_envelope(p: &Payload) -> (r: TypedEnvelope)
    ensures
        r@ == envelope_of(p@),
{
    let value = encode_payload(p);
    let type_url = type_url(schema_of_payload(p)).to_string();
    TypedEnvelope { type_url, value }
}

/// The schema of a payload.
pub fn schema_of_payload(p: &Payload) -> (r: Schema)
    ensures
        r == schema_of(p@),
{
    match p {
        Payload::HouseLightParams { .. } => Schema::HouseLightParams,
        Payload::HouseLightState { .. } => Schema::HouseLightState,
        Payload::LedParams => Schema::LedParams,
        Payload::LedState { .. } => Schema::LedState,
        Payload::KeyParams => Schema::KeyParams,
        Payload::StepperParams { .. } => Schema::StepperParams,
        Payload::StepperState { .. } => Schema::StepperState,
        Payload::PlaybackParams => Schema::PlaybackParams,
        Payload::PlaybackState { .. } => Schema::PlaybackState,
    }
}

/// Whether two envelopes are byte-identical: same identifier, same bytes.
pub fn envelope_eq(a: &TypedEnvelope, b: &TypedEnvelope) -> (r: bool)
    ensures
        r == (a@ == b@),
{
    text_eq(a.type_url.as_str(), b.type_url.as_str()) && bytes_eq(a.value.as_slice(), b.value.as_slice())
}

/// Reads the payload out of an envelope, under the schema that its identifier
/// names. Whatever comes out has exactly that identifier; the envelope of a
/// payload gives that payload back.
pub fn open_envelope(env: &TypedEnvelope) -> (r: Result<Payload, ClientError>)
    ensures
        r matches Ok(q) ==> type_url_of(schema_of(q@)) == env@.type_url,
        r is Err ==> r == Err::<Payload, ClientError>(ClientError::Decode),
        forall|p: PayloadSpec| #![trigger envelope_of(p)]
            payload_wf(p) && env@ == envelope_of(p) ==> (r matches Ok(q) && q@ == p),
{
    match schema_for(env.type_url.as_str()) {
        None => Err(ClientError::Decode),
        Some(s) => match decode_payload(s, env.value.as_slice()) {
            Some(q) => Ok(q),
            None => Err(ClientError::Decode),
        },
    }
}

} // verus!
