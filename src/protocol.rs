//! Requests, replies, and the decisions of the request/reply protocol: what
//! to send, and when a command has succeeded.
use crate::envelope::{build_envelope, envelope_eq, envelope_of, EnvelopeSpec, TypedEnvelope};
use crate::error::ClientError;
use crate::payload::{push_unless_default, text_field, text_from_utf8, text_of, Payload};
use crate::wire::{
    encode_fields, field_wf, fields_bytes, fields_view, fields_wf, parse_fields, Field,
    FieldSpec, FieldValue, ValueSpec,
};
use prost::Message;
use vstd::prelude::*;
use vstd::utf8::encode_utf8;

verus! {

/// The fields of an envelope on the wire: the identifier as field 1, the
/// bytes as field 2, each left out when empty.
pub open spec fn envelope_fields(e: EnvelopeSpec) -> Seq<FieldSpec> {
    let f1 = push_unless_default(
        Seq::<FieldSpec>::empty(),
        e.type_url.len() == 0,
        text_field(1, e.type_url),
    );
    push_unless_default(
        f1,
        e.value.len() == 0,
        FieldSpec { tag: 2, value: ValueSpec::Bytes(e.value) },
    )
}

/// The bytes of an envelope.
pub open spec fn envelope_bytes(e: EnvelopeSpec) -> Seq<u8> {
    fields_bytes(envelope_fields(e))
}

/// An envelope whose parts fit a message.
pub open spec fn envelope_wf(e: EnvelopeSpec) -> bool {
    encode_utf8(e.type_url).len() <= usize::MAX && e.value.len() <= usize::MAX
}

/// Relies on prost's encoding of prost_types::Any: `type_url` as field 1 and
/// `value` as field 2, both length-delimited, each left out when empty.
#[verifier::external_body]
fn any_bytes(env: &TypedEnvelope) -> (r: Vec<u8>)
    ensures
        r@ == envelope_bytes(env@),
{
    prost_types::Any { type_url: env.type_url.clone(), value: env.value.clone() }.encode_to_vec()
}

/// The envelope `e` after reading the field `f`.
pub open spec fn apply_envelope_field(e: EnvelopeSpec, f: FieldSpec) -> Option<EnvelopeSpec> {
    if f.tag == 1 {
        match text_of(f) {
            Some(t) => Some(EnvelopeSpec { type_url: t, value: e.value }),
            None => None,
        }
    } else if f.tag == 2 {
        match f.value {
            ValueSpec::Bytes(b) => Some(EnvelopeSpec { type_url: e.type_url, value: b }),
            ValueSpec::Varint(_) => None,
        }
    } else {
        Some(e)
    }
}

/// The envelope that the fields give, read in order from the empty envelope.
pub open spec fn decode_envelope_fields(fs: Seq<FieldSpec>) -> Option<EnvelopeSpec>
    decreases fs.len(),
{
    if fs.len() == 0 {
        Some(EnvelopeSpec { type_url: Seq::empty(), value: Seq::empty() })
    } else {
        match decode_envelope_fields(fs.drop_last()) {
            Some(e) => apply_envelope_field(e, fs.last()),
            None => None,
        }
    }
}

proof fn lemma_envelope_push(fs: Seq<FieldSpec>, f: FieldSpec)
    ensures
        decode_envelope_fields(fs.push(f)) == (match decode_envelope_fields(fs) {
            Some(e) => apply_envelope_field(e, f),
            None => None,
        }),
{
    assert(fs.push(f).drop_last() =~= fs);
}

/// Decoding the fields of an envelope gives the envelope back.
pub proof fn lemma_envelope_round_trip(e: EnvelopeSpec)
    ensures
        decode_envelope_fields(envelope_fields(e)) == Some(e),
{
    broadcast use vstd::utf8::encode_utf8_valid_utf8, vstd::utf8::encode_utf8_decode_utf8;

    let f1 = push_unless_default(
        Seq::<FieldSpec>::empty(),
        e.type_url.len() == 0,
        text_field(1, e.type_url),
    );
    lemma_envelope_push(Seq::<FieldSpec>::empty(), text_field(1, e.type_url));
    lemma_envelope_push(f1, FieldSpec { tag: 2, value: ValueSpec::Bytes(e.value) });
    if e.type_url.len() == 0 {
        assert(e.type_url =~= Seq::<char>::empty());
    }
    if e.value.len() == 0 {
        assert(e.value =~= Seq::<u8>::empty());
    }
}

/// The envelope that the fields give.
fn envelope_from_fields(fs: &Vec<Field>) -> (r: Option<TypedEnvelope>)
    ensures
        match r {
            Some(x) => decode_envelope_fields(fields_view(fs@)) == Some(x@),
            None => decode_envelope_fields(fields_view(fs@)) is None,
        },
{
    let mut acc = TypedEnvelope { type_url: String::new(), value: Vec::new() };
    let mut i: usize = 0;
    assert(fields_view(fs@.take(0)) =~= Seq::<FieldSpec>::empty());
    assert(acc@ == EnvelopeSpec { type_url: Seq::<char>::empty(), value: Seq::<u8>::empty() }) by {
        assert(acc@.type_url =~= Seq::<char>::empty());
        assert(acc@.value =~= Seq::<u8>::empty());
    }
    while i < fs.len()
        invariant
            i <= fs@.len(),
            decode_envelope_fields(fields_view(fs@.take(i as int))) == Some(acc@),
        decreases fs@.len() - i,
    {
        let ghost pre = fields_view(fs@.take(i as int));
        proof {
            assert(fields_view(fs@.take(i + 1)) =~= pre.push(fs@[i as int]@));
            lemma_envelope_push(pre, fs@[i as int]@);
        }
        let f = &fs[i];
        if f.tag == 1 {
            let t = match &f.value {
                FieldValue::Bytes(b) => text_from_utf8(b.clone()),
                FieldValue::Varint(_) => None,
            };
            match t {
                Some(t) => {
                    acc = TypedEnvelope { type_url: t, value: acc.value };
                },
                None => {
                    proof {
                        lemma_envelope_none_extends(fields_view(fs@.take(i + 1)), fields_view(fs@));
                    }
                    return None;
                },
            }
        } else if f.tag == 2 {
            match &f.value {
                FieldValue::Bytes(b) => {
                    acc = TypedEnvelope { type_url: acc.type_url, value: b.clone() };
                },
                FieldValue::Varint(_) => {
                    proof {
                        lemma_envelope_none_extends(fields_view(fs@.take(i + 1)), fields_view(fs@));
                    }
                    return None;
                },
            }
        }
        i = i + 1;
    }
    assert(fs@.take(i as int) =~= fs@);
    Some(acc)
}

proof fn lemma_envelope_none_extends(a: Seq<FieldSpec>, b: Seq<FieldSpec>)
    requires
        decode_envelope_fields(a) is None,
        a.len() <= b.len(),
        a =~= b.take(a.len() as int),
    ensures
        decode_envelope_fields(b) is None,
    decreases b.len() - a.len(),
{
    if a.len() < b.len() {
        let c = b.take(b.len() - 1);
        assert(c.take(a.len() as int) =~= a);
        lemma_envelope_none_extends(a, c);
        assert(b.drop_last() =~= c);
    } else {
        assert(a =~= b);
    }
}

/// Reads an envelope from its bytes. The bytes of any envelope give it back.
pub fn envelope_from_bytes(b: &[u8]) -> (r: Option<TypedEnvelope>)
    ensures
        forall|e: EnvelopeSpec|
            envelope_wf(e) && #[trigger] envelope_bytes(e) == b@ ==> (r matches Some(x) && x@ == e),
{
    let r = match parse_fields(b) {
        Some(fs) => envelope_from_fields(&fs),
        None => None,
    };
    assert forall|e: EnvelopeSpec| envelope_wf(e) && #[trigger] envelope_bytes(e) == b@ implies (r matches Some(
        x,
    ) && x@ == e) by {
        lemma_envelope_round_trip(e);
        let fs = envelope_fields(e);
        assert forall|i: int| 0 <= i < fs.len() implies #[trigger] field_wf(fs[i]) by {}
    }
    r
}

/// Serializes an envelope.
pub fn envelope_to_bytes(env: &TypedEnvelope) -> (r: Vec<u8>)
    ensures
        r@ == envelope_bytes(env@),
{
    any_bytes(env)
}

/// What a request asks of a component.
#[derive(Clone, Copy, Debug, PartialEq, Eq, Structural)]
pub enum OperationKind {
    /// Install static configuration.
    SetParameters,
    /// Read back the installed configuration.
    GetParameters,
    /// Push a runtime state transition.
    ChangeState,
}

/// The abstract value of a request.
pub struct RequestSpec {
    pub kind: OperationKind,
    pub component: Seq<char>,
    pub body: Seq<u8>,
}

/// A request to the controller: an operation, the component it targets, and
/// the serialized container that carries its envelope.
#[derive(Clone, Debug, PartialEq, Eq)]
pub struct Request {
    pub kind: OperationKind,
    pub component: String,
    pub body: Vec<u8>,
}

impl Request {
    pub open spec fn view(&self) -> RequestSpec {
        RequestSpec { kind: self.kind, component: self.component@, body: self.body@ }
    }
}

/// The one-byte code of an operation on the transport.
pub open spec fn kind_code(k: OperationKind) -> u8 {
    match k {
        OperationKind::SetParameters => 1,
        OperationKind::GetParameters => 2,
        OperationKind::ChangeState => 3,
    }
}

/// The frames of one transport message that carries a request: the
/// operation's code, the component's name in UTF-8, and the body.
pub fn request_frames(q: &Request) -> (r: Vec<Vec<u8>>)
    ensures
        r@.len() == 3,
        r@[0]@ == seq![kind_code(q.kind)],
        r@[1]@ == encode_utf8(q.component@),
        r@[2]@ == q.body@,
{
    let code: u8 = match q.kind {
        OperationKind::SetParameters => 1,
        OperationKind::GetParameters => 2,
        OperationKind::ChangeState => 3,
    };
    let mut frames: Vec<Vec<u8>> = Vec::new();
    frames.push(vec![code]);
    frames.push(vstd::slice::slice_to_vec(q.component.as_str().as_bytes()));
    frames.push(vstd::slice::slice_to_vec(q.body.as_slice()));
    assert(frames@[0]@ =~= seq![kind_code(q.kind)]);
    frames
}

/// The container of an envelope: the envelope as field 1. Parameters and
/// state changes use containers of this one shape.
pub open spec fn container_bytes(e: EnvelopeSpec) -> Seq<u8> {
    fields_bytes(seq![FieldSpec { tag: 1, value: ValueSpec::Bytes(envelope_bytes(e)) }])
}

/// The request that carries `e` to `component` for the operation `op`.
pub open spec fn request_of(op: OperationKind, component: Seq<char>, e: EnvelopeSpec) -> RequestSpec {
    RequestSpec { kind: op, component, body: container_bytes(e) }
}

/// The request that reads back the parameters of `component`: it has no body.
pub open spec fn get_request_of(component: Seq<char>) -> RequestSpec {
    RequestSpec { kind: OperationKind::GetParameters, component, body: Seq::empty() }
}

/// Wraps an envelope in the container for `op` and addresses it to
/// `component`. A request must name a component.
pub fn build_request(op: OperationKind, component: &str, env: &TypedEnvelope) -> (r: Result<
    Request,
    ClientError,
>)
    ensures
        component@.len() == 0 <==> r is Err,
        r is Err ==> r == Err::<Request, ClientError>(ClientError::EmptyComponent),
        r matches Ok(q) ==> q@ == request_of(op, component@, env@),
{
    if component.is_empty() {
        return Err(ClientError::EmptyComponent);
    }
    let body = container_body(env);
    Ok(Request { kind: op, component: component.to_string(), body })
}

/// The serialized container of an envelope.
fn container_body(env: &TypedEnvelope) -> (r: Vec<u8>)
    ensures
        r@ == container_bytes(env@),
{
    let inner = any_bytes(env);
    let _n: usize = inner.len();
    let fs = vec![Field { tag: 1, value: FieldValue::Bytes(inner) }];
    proof {
        assert(fields_view(fs@) =~= seq![FieldSpec { tag: 1, value: ValueSpec::Bytes(envelope_bytes(env@)) }]);
        assert(field_wf(fields_view(fs@)[0]));
    }
    encode_fields(&fs)
}

/// The request that reads back the parameters of `component`.
pub fn get_request(component: &str) -> (r: Result<Request, ClientError>)
    ensures
        component@.len() == 0 <==> r is Err,
        r is Err ==> r == Err::<Request, ClientError>(ClientError::EmptyComponent),
        r matches Ok(q) ==> q@ == get_request_of(component@),
{
    if component.is_empty() {
        return Err(ClientError::EmptyComponent);
    }
    let body: Vec<u8> = Vec::new();
    assert(body@ =~= Seq::<u8>::empty());
    Ok(Request { kind: OperationKind::GetParameters, component: component.to_string(), body })
}

/// The abstract value of a reply.
pub enum ReplySpec {
    Ack,
    Params(EnvelopeSpec),
    Failure(Seq<char>),
}

/// What the controller answered: a bare acknowledgement, an envelope, or a
/// failure with its message.
#[derive(Clone, Debug, PartialEq, Eq)]
pub enum ReplyResult {
    Ack,
    Params(TypedEnvelope),
    Failure(String),
}

impl ReplyResult {
    pub open spec fn view(&self) -> ReplySpec {
        match self {
            ReplyResult::Ack => ReplySpec::Ack,
            ReplyResult::Params(e) => ReplySpec::Params(e@),
            ReplyResult::Failure(m) => ReplySpec::Failure(m@),
        }
    }
}

/// The one field of a reply: an empty message as field 1 for the
/// acknowledgement, the message text as field 2 for a failure, the envelope
/// as field 3.
pub open spec fn reply_field(r: ReplySpec) -> FieldSpec {
    match r {
        ReplySpec::Ack => FieldSpec { tag: 1, value: ValueSpec::Bytes(Seq::empty()) },
        ReplySpec::Failure(m) => text_field(2, m),
        ReplySpec::Params(e) => FieldSpec { tag: 3, value: ValueSpec::Bytes(envelope_bytes(e)) },
    }
}

/// The bytes of a reply.
pub open spec fn reply_bytes(r: ReplySpec) -> Seq<u8> {
    fields_bytes(seq![reply_field(r)])
}

/// A reply whose parts fit a message.
pub open spec fn reply_wf(r: ReplySpec) -> bool {
    match r {
        ReplySpec::Ack => true,
        ReplySpec::Failure(m) => encode_utf8(m).len() <= usize::MAX,
        ReplySpec::Params(e) => envelope_wf(e) && envelope_bytes(e).len() <= usize::MAX,
    }
}

/// Serializes a reply.
pub fn encode_reply(r: &ReplyResult) -> (b: Vec<u8>)
    ensures
        b@ == reply_bytes(r@),
{
    let f = match r {
        ReplyResult::Ack => Field { tag: 1, value: FieldValue::Bytes(Vec::new()) },
        ReplyResult::Failure(m) => Field {
            tag: 2,
            value: FieldValue::Bytes(vstd::slice::slice_to_vec(m.as_str().as_bytes())),
        },
        ReplyResult::Params(e) => Field { tag: 3, value: FieldValue::Bytes(any_bytes(e)) },
    };
    let _n: usize = match &f.value {
        FieldValue::Bytes(b) => b.len(),
        FieldValue::Varint(_) => 0,
    };
    let ghost g = f@;
    assert(g == reply_field(r@)) by {
        if r@ is Ack {
            assert(g.value->Bytes_0 =~= Seq::<u8>::empty());
        }
    }
    let fs = vec![f];
    proof {
        assert(fields_view(fs@) =~= seq![reply_field(r@)]);
        assert(field_wf(fields_view(fs@)[0]));
    }
    encode_fields(&fs)
}

/// Decodes the bytes of a reply. The bytes of any reply give it back; bytes
/// that hold no reply are a decode error.
pub fn decode_reply(bytes: &[u8]) -> (r: Result<ReplyResult, ClientError>)
    ensures
        r is Err ==> r == Err::<ReplyResult, ClientError>(ClientError::Decode),
        forall|x: ReplySpec|
            reply_wf(x) && #[trigger] reply_bytes(x) == bytes@ ==> (r matches Ok(y) && y@ == x),
{
    let r = match parse_fields(bytes) {
        None => Err(ClientError::Decode),
        Some(fs) => {
            if fs.len() == 0 {
                Err(ClientError::Decode)
            } else {
                let f = &fs[fs.len() - 1];
                match &f.value {
                    FieldValue::Varint(_) => Err(ClientError::Decode),
                    FieldValue::Bytes(b) => {
                        if f.tag == 1 {
                            Ok(ReplyResult::Ack)
                        } else if f.tag == 2 {
                            match text_from_utf8(b.clone()) {
                                Some(m) => Ok(ReplyResult::Failure(m)),
                                None => Err(ClientError::Decode),
                            }
                        } else if f.tag == 3 {
                            match envelope_from_bytes(b.as_slice()) {
                                Some(e) => Ok(ReplyResult::Params(e)),
                                None => Err(ClientError::Decode),
                            }
                        } else {
                            Err(ClientError::Decode)
                        }
                    },
                }
            }
        },
    };
    assert forall|x: ReplySpec| reply_wf(x) && #[trigger] reply_bytes(x) == bytes@ implies (r matches Ok(y)
        && y@ == x) by {
        broadcast use vstd::utf8::encode_utf8_valid_utf8, vstd::utf8::encode_utf8_decode_utf8;

        assert(field_wf(seq![reply_field(x)][0]));
        assert(fields_wf(seq![reply_field(x)]));
    }
    r
}

/// The outcome of a reply that should be the bare acknowledgement.
pub open spec fn ack_outcome(reply: Result<ReplyResult, ClientError>) -> Result<(), ClientError> {
    match reply {
        Ok(ReplyResult::Ack) => Ok(()),
        Ok(ReplyResult::Failure(m)) => Err(ClientError::RemoteFailure(m)),
        Ok(ReplyResult::Params(_)) => Err(ClientError::ProtocolMismatch),
        Err(e) => Err(e),
    }
}

/// The outcome of a reply that should echo the envelope `expected`.
pub open spec fn echo_outcome(reply: Result<ReplyResult, ClientError>, expected: EnvelopeSpec) -> Result<
    (),
    ClientError,
> {
    match reply {
        Ok(ReplyResult::Params(e)) => if e@ == expected {
            Ok(())
        } else {
            Err(ClientError::ProtocolMismatch)
        },
        Ok(ReplyResult::Ack) => Err(ClientError::ProtocolMismatch),
        Ok(ReplyResult::Failure(m)) => Err(ClientError::RemoteFailure(m)),
        Err(e) => Err(e),
    }
}

/// Checks that a reply is the bare acknowledgement.
pub fn check_ack(reply: Result<ReplyResult, ClientError>) -> (r: Result<(), ClientError>)
    ensures
        r == ack_outcome(reply),
{
    match reply {
        Ok(ReplyResult::Ack) => Ok(()),
        Ok(ReplyResult::Failure(m)) => Err(ClientError::RemoteFailure(m)),
        Ok(ReplyResult::Params(_)) => Err(ClientError::ProtocolMismatch),
        Err(e) => Err(e),
    }
}

/// Checks that a reply carries an envelope byte-identical to `expected`.
pub fn check_echo(reply: Result<ReplyResult, ClientError>, expected: &TypedEnvelope) -> (r: Result<
    (),
    ClientError,
>)
    ensures
        r == echo_outcome(reply, expected@),
{
    match reply {
        Ok(ReplyResult::Params(e)) => {
            if envelope_eq(&e, expected) {
                Ok(())
            } else {
                Err(ClientError::ProtocolMismatch)
            }
        },
        Ok(ReplyResult::Ack) => Err(ClientError::ProtocolMismatch),
        Ok(ReplyResult::Failure(m)) => Err(ClientError::RemoteFailure(m)),
        Err(e) => Err(e),
    }
}

/// Where a command stands in its exchange with the controller.
#[derive(Clone, Copy, Debug, PartialEq, Eq, Structural)]
pub enum Phase {
    /// A set-parameters request is out; its acknowledgement is awaited.
    AwaitAck,
    /// The read-back request is out; the echoed envelope is awaited.
    AwaitEcho,
    /// A change-state request is out; its acknowledgement is awaited.
    AwaitStateAck,
    /// The command has finished.
    Done,
}

/// The abstract value of a step.
pub enum StepSpec {
    Send(RequestSpec),
    Finished(Result<(), ClientError>),
}

/// What the caller does next: send one more request, or report the outcome.
#[derive(Debug)]
pub enum Step {
    Send(Request),
    Finished(Result<(), ClientError>),
}

impl Step {
    pub open spec fn view(&self) -> StepSpec {
        match self {
            Step::Send(q) => StepSpec::Send(q@),
            Step::Finished(r) => StepSpec::Finished(*r),
        }
    }
}

/// The next phase and step of a command in `phase`, for `component` and the
/// envelope `e`, once `reply` has come back.
pub open spec fn step_of(
    phase: Phase,
    component: Seq<char>,
    e: EnvelopeSpec,
    reply: Result<ReplyResult, ClientError>,
) -> (Phase, StepSpec) {
    match phase {
        Phase::AwaitAck => match ack_outcome(reply) {
            Ok(_) => (Phase::AwaitEcho, StepSpec::Send(get_request_of(component))),
            Err(err) => (Phase::Done, StepSpec::Finished(Err(err))),
        },
        Phase::AwaitEcho => (Phase::Done, StepSpec::Finished(echo_outcome(reply, e))),
        _ => (Phase::Done, StepSpec::Finished(ack_outcome(reply))),
    }
}

/// One command on one component: a set-parameters with its read-back, or a
/// change of state.
pub struct Operation {
    pub phase: Phase,
    pub component: String,
    pub envelope: TypedEnvelope,
}

impl Operation {
    /// An operation names a component.
    pub open spec fn wf(&self) -> bool {
        self.component@.len() > 0
    }

    /// Starts setting the parameters of a named `component` to `payload`:
    /// the operation and the first request to send.
    pub fn begin_set(component: &str, payload: &Payload) -> (r: (Operation, Request))
        requires
            component@.len() > 0,
        ensures
            r.0.wf(),
            r.0.phase == Phase::AwaitAck,
            r.0.component@ == component@,
            r.0.envelope@ == envelope_of(payload@),
            r.1@ == request_of(OperationKind::SetParameters, component@, envelope_of(payload@)),
    {
        let envelope = build_envelope(payload);
        let body = container_body(&envelope);
        let q = Request { kind: OperationKind::SetParameters, component: component.to_string(), body };
        (Operation { phase: Phase::AwaitAck, component: component.to_string(), envelope }, q)
    }

    /// Starts changing the state of a named `component` to `payload`: the
    /// operation and its one request. A subscriber that must see the
    /// resulting broadcast has to be in place before that request is sent:
    /// the controller does not keep broadcasts for late subscribers.
    pub fn begin_change(component: &str, payload: &Payload) -> (r: (Operation, Request))
        requires
            component@.len() > 0,
        ensures
            r.0.wf(),
            r.0.phase == Phase::AwaitStateAck,
            r.0.component@ == component@,
            r.0.envelope@ == envelope_of(payload@),
            r.1@ == request_of(OperationKind::ChangeState, component@, envelope_of(payload@)),
    {
        let envelope = build_envelope(payload);
        let body = container_body(&envelope);
        let q = Request { kind: OperationKind::ChangeState, component: component.to_string(), body };
        (Operation { phase: Phase::AwaitStateAck, component: component.to_string(), envelope }, q)
    }

    /// As `begin_set`, for a component given by the caller: a request must
    /// name a component.
    pub fn set_parameters(component: &str, payload: &Payload) -> (r: Result<(Operation, Request), ClientError>)
        ensures
            component@.len() == 0 <==> r is Err,
            r is Err ==> r == Err::<(Operation, Request), ClientError>(ClientError::EmptyComponent),
            r matches Ok((op, q)) ==> {
                &&& op.wf()
                &&& op.phase == Phase::AwaitAck
                &&& op.component@ == component@
                &&& op.envelope@ == envelope_of(payload@)
                &&& q@ == request_of(OperationKind::SetParameters, component@, envelope_of(payload@))
            },
    {
        if component.is_empty() {
            Err(ClientError::EmptyComponent)
        } else {
            Ok(Operation::begin_set(component, payload))
        }
    }

    /// As `begin_change`, for a component given by the caller: a request
    /// must name a component.
    pub fn change_state(component: &str, payload: &Payload) -> (r: Result<(Operation, Request), ClientError>)
        ensures
            component@.len() == 0 <==> r is Err,
            r is Err ==> r == Err::<(Operation, Request), ClientError>(ClientError::EmptyComponent),
            r matches Ok((op, q)) ==> {
                &&& op.wf()
                &&& op.phase == Phase::AwaitStateAck
                &&& op.component@ == component@
                &&& op.envelope@ == envelope_of(payload@)
                &&& q@ == request_of(OperationKind::ChangeState, component@, envelope_of(payload@))
            },
    {
        if component.is_empty() {
            Err(ClientError::EmptyComponent)
        } else {
            Ok(Operation::begin_change(component, payload))
        }
    }

    /// Takes the reply to the last request sent and decides what comes next.
    pub fn on_reply(&mut self, reply: Result<ReplyResult, ClientError>) -> (r: Step)
        requires
            old(self).wf(),
            old(self).phase != Phase::Done,
        ensures
            final(self).wf(),
            final(self).component == old(self).component,
            final(self).envelope == old(self).envelope,
            (final(self).phase, r@) == step_of(
                old(self).phase,
                old(self).component@,
                old(self).envelope@,
                reply,
            ),
    {
        match self.phase {
            Phase::AwaitAck => match check_ack(reply) {
                Ok(()) => {
                    match get_request(self.component.as_str()) {
                        Ok(q) => {
                            self.phase = Phase::AwaitEcho;
                            Step::Send(q)
                        },
                        Err(e) => {
                            self.phase = Phase::Done;
                            Step::Finished(Err(e))
                        },
                    }
                },
                Err(e) => {
                    self.phase = Phase::Done;
                    Step::Finished(Err(e))
                },
            },
            Phase::AwaitEcho => {
                self.phase = Phase::Done;
                Step::Finished(check_echo(reply, &self.envelope))
            },
            _ => {
                self.phase = Phase::Done;
                Step::Finished(check_ack(reply))
            },
        }
    }
}

/// Write-then-read consistency: a set-parameters operation sends, after the
/// acknowledgement, exactly the read-back request for the same component,
/// and finishes with success only when the reply to that read carries an
/// envelope byte-identical to the one that was set.
pub proof fn lemma_set_then_get(
    component: Seq<char>,
    e: EnvelopeSpec,
    first: Result<ReplyResult, ClientError>,
    second: Result<ReplyResult, ClientError>,
)
    ensures
        step_of(Phase::AwaitAck, component, e, first).1 matches StepSpec::Send(q) ==> (q
            == get_request_of(component) && first == Ok::<ReplyResult, ClientError>(ReplyResult::Ack)),
        step_of(Phase::AwaitAck, component, e, first).1 matches StepSpec::Finished(res) ==> res is Err,
        step_of(Phase::AwaitEcho, component, e, second).1 == StepSpec::Finished(Ok(())) <==> (second matches Ok(
            ReplyResult::Params(x),
        ) && x@ == e),
{
}

/// A change of state sends exactly one request: whatever the reply, the
/// operation finishes, and it succeeds exactly when the reply is the bare
/// acknowledgement.
pub proof fn lemma_change_state_single_exchange(
    component: Seq<char>,
    e: EnvelopeSpec,
    reply: Result<ReplyResult, ClientError>,
)
    ensures
        step_of(Phase::AwaitStateAck, component, e, reply).0 == Phase::Done,
        step_of(Phase::AwaitStateAck, component, e, reply).1 is Finished,
        step_of(Phase::AwaitStateAck, component, e, reply).1 == StepSpec::Finished(Ok(())) <==> reply
            == Ok::<ReplyResult, ClientError>(ReplyResult::Ack),
{
}

} // verus!
