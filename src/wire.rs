//! Field-level wire format: LEB128 integers, field keys, and messages seen as
//! a sequence of tagged fields.
use vstd::prelude::*;
use vstd::slice::slice_subrange;

verus! {

/// The LEB128 form of `n`: seven bits per byte, low bits first, the high bit
/// set on every byte but the last.
pub open spec fn varint(n: nat) -> Seq<u8>
    decreases n,
{
    if n < 128 {
        seq![n as u8]
    } else {
        seq![((n % 128) + 128) as u8] + varint(n / 128)
    }
}

/// The wire-type code of an integer field.
pub const WIRE_VARINT: u64 = 0;

/// The wire-type code of a length-delimited field.
pub const WIRE_LEN: u64 = 2;

/// The abstract value of one field.
pub enum ValueSpec {
    Varint(nat),
    Bytes(Seq<u8>),
}

/// The abstract value of one tagged field.
pub struct FieldSpec {
    pub tag: nat,
    pub value: ValueSpec,
}

/// The value carried by one field.
#[derive(Clone, Debug, PartialEq, Eq)]
pub enum FieldValue {
    Varint(u64),
    Bytes(Vec<u8>),
}

/// One tagged field of a message.
#[derive(Clone, Debug, PartialEq, Eq)]
pub struct Field {
    pub tag: u64,
    pub value: FieldValue,
}

impl FieldValue {
    pub open spec fn view(&self) -> ValueSpec {
        match self {
            FieldValue::Varint(v) => ValueSpec::Varint(*v as nat),
            FieldValue::Bytes(b) => ValueSpec::Bytes(b@),
        }
    }
}

impl Field {
    pub open spec fn view(&self) -> FieldSpec {
        FieldSpec { tag: self.tag as nat, value: self.value@ }
    }
}

/// The abstract fields of a sequence of fields.
pub open spec fn fields_view(fs: Seq<Field>) -> Seq<FieldSpec> {
    fs.map_values(|f: Field| f@)
}

/// A field that a message can carry: a tag from 1 up to the largest that
/// protobuf allows, and a payload whose length fits a 64-bit integer.
pub open spec fn field_wf(f: FieldSpec) -> bool {
    &&& 1 <= f.tag < 0x2000_0000
    &&& match f.value {
        ValueSpec::Varint(v) => v <= u64::MAX,
        ValueSpec::Bytes(b) => b.len() <= u64::MAX,
    }
}

pub open spec fn fields_wf(fs: Seq<FieldSpec>) -> bool {
    forall|i: int| 0 <= i < fs.len() ==> #[trigger] field_wf(fs[i])
}

/// The bytes of one field: its key (tag and wire type), then its value.
pub open spec fn field_bytes(f: FieldSpec) -> Seq<u8> {
    match f.value {
        ValueSpec::Varint(v) => varint(f.tag * 8) + varint(v),
        ValueSpec::Bytes(b) => varint(f.tag * 8 + 2) + varint(b.len()) + b,
    }
}

/// The bytes of a message made of the given fields, in order.
pub open spec fn fields_bytes(fs: Seq<FieldSpec>) -> Seq<u8>
    decreases fs.len(),
{
    if fs.len() == 0 {
        Seq::empty()
    } else {
        field_bytes(fs[0]) + fields_bytes(fs.drop_first())
    }
}

/// Relies on prost::encoding::encode_varint: appends the LEB128 form of
/// `value` to `buf`.
#[verifier::external_body]
fn put_varint(value: u64, buf: &mut Vec<u8>)
    ensures
        final(buf)@ == old(buf)@ + varint(value as nat),
{
    prost::encoding::encode_varint(value, buf)
}

/// Relies on prost::encoding::decode_varint: reads the LEB128 integer at the
/// front of `bytes`, and gives it with the number of bytes left after it.
#[verifier::external_body]
fn read_varint(bytes: &[u8]) -> (r: Option<(u64, usize)>)
    ensures
        forall|v: u64, tail: Seq<u8>|
            bytes@ == #[trigger] (varint(v as nat) + tail) ==> r == Some((v, tail.len() as usize)),
        r matches Some((_, left)) ==> left < bytes@.len(),
{
    let mut rest = bytes;
    match prost::encoding::decode_varint(&mut rest) {
        Ok(v) => Some((v, rest.len())),
        Err(_) => None,
    }
}

/// Appends one field to `buf`.
pub fn put_field(f: &Field, buf: &mut Vec<u8>)
    requires
        field_wf(f@),
    ensures
        final(buf)@ == old(buf)@ + field_bytes(f@),
{
    match &f.value {
        FieldValue::Varint(v) => {
            put_varint(f.tag * 8, buf);
            put_varint(*v, buf);
            assert(final(buf)@ =~= old(buf)@ + field_bytes(f@));
        },
        FieldValue::Bytes(b) => {
            put_varint(f.tag * 8 + 2, buf);
            put_varint(b.len() as u64, buf);
            buf.extend_from_slice(b.as_slice());
            assert(final(buf)@ =~= old(buf)@ + field_bytes(f@));
        },
    }
}

/// The key of a field: its tag and the code of its wire type.
pub open spec fn key_of(f: FieldSpec) -> nat {
    match f.value {
        ValueSpec::Varint(_) => f.tag * 8,
        ValueSpec::Bytes(_) => f.tag * 8 + 2,
    }
}

/// What follows the key of a field.
pub open spec fn after_key(f: FieldSpec) -> Seq<u8> {
    match f.value {
        ValueSpec::Varint(v) => varint(v),
        ValueSpec::Bytes(b) => varint(b.len()) + b,
    }
}

/// `bytes`, from `pos` on, holds the field `f` and then `tail`.
pub open spec fn field_at(bytes: Seq<u8>, pos: int, f: FieldSpec, tail: Seq<u8>) -> bool {
    &&& field_wf(f)
    &&& bytes.subrange(pos, bytes.len() as int) == field_bytes(f) + tail
}

/// `bytes`, from `pos` on, holds exactly the fields `fs`.
pub open spec fn fields_at(bytes: Seq<u8>, pos: int, fs: Seq<FieldSpec>) -> bool {
    &&& fields_wf(fs)
    &&& bytes.subrange(pos, bytes.len() as int) == fields_bytes(fs)
}

proof fn lemma_key(t: nat, w: nat)
    requires
        w < 8,
    ensures
        (t * 8 + w) / 8 == t,
        (t * 8 + w) % 8 == w,
{
    vstd::arithmetic::div_mod::lemma_fundamental_div_mod_converse((t * 8 + w) as int, 8, t as int, w as int);
}

proof fn lemma_field_split(f: FieldSpec)
    ensures
        field_bytes(f) == varint(key_of(f)) + after_key(f),
        field_bytes(f).len() > 0,
{
    match f.value {
        ValueSpec::Varint(v) => {},
        ValueSpec::Bytes(b) => {
            assert(field_bytes(f) =~= varint(key_of(f)) + after_key(f));
        },
    }
}

proof fn lemma_fields_bytes_push(fs: Seq<FieldSpec>, f: FieldSpec)
    ensures
        fields_bytes(fs.push(f)) == fields_bytes(fs) + field_bytes(f),
    decreases fs.len(),
{
    if fs.len() == 0 {
        assert(fs.push(f).drop_first() =~= Seq::<FieldSpec>::empty());
        assert(fs.push(f)[0] == f);
        assert(fields_bytes(fs.push(f).drop_first()) =~= Seq::<u8>::empty());
        assert(fields_bytes(fs.push(f)) =~= fields_bytes(fs) + field_bytes(f));
    } else {
        assert(fs.push(f).drop_first() =~= fs.drop_first().push(f));
        lemma_fields_bytes_push(fs.drop_first(), f);
        assert(fs.push(f)[0] == fs[0]);
        assert(fields_bytes(fs.push(f)) =~= fields_bytes(fs) + field_bytes(f));
    }
}

/// Encodes the fields, in order, as the bytes of one message.
pub fn encode_fields(fs: &Vec<Field>) -> (r: Vec<u8>)
    requires
        fields_wf(fields_view(fs@)),
    ensures
        r@ == fields_bytes(fields_view(fs@)),
{
    let mut buf: Vec<u8> = Vec::new();
    let mut i: usize = 0;
    while i < fs.len()
        invariant
            i <= fs@.len(),
            fields_wf(fields_view(fs@)),
            buf@ == fields_bytes(fields_view(fs@.take(i as int))),
        decreases fs@.len() - i,
    {
        assert(field_wf(fields_view(fs@)[i as int]));
        put_field(&fs[i], &mut buf);
        proof {
            lemma_fields_bytes_push(fields_view(fs@.take(i as int)), fs@[i as int]@);
            assert(fields_view(fs@.take(i + 1)) =~= fields_view(fs@.take(i as int)).push(
                fs@[i as int]@,
            ));
        }
        i = i + 1;
    }
    assert(fs@.take(i as int) =~= fs@);
    buf
}

/// Reads the field that starts at `pos`: the field and the position after it.
#[verifier::rlimit(40)]
fn parse_field(bytes: &[u8], pos: usize) -> (r: Option<(Field, usize)>)
    requires
        pos < bytes@.len(),
    ensures
        r matches Some((_, p)) ==> pos < p <= bytes@.len(),
        forall|f: FieldSpec, tail: Seq<u8>|
            #[trigger] field_at(bytes@, pos as int, f, tail) ==> (r matches Some((g, p)) && g@ == f
                && bytes@.subrange(p as int, bytes@.len() as int) == tail),
{
    let rest = slice_subrange(bytes, pos, bytes.len());
    let r1 = read_varint(rest);
    assert forall|f: FieldSpec, tail: Seq<u8>| #[trigger] field_at(bytes@, pos as int, f, tail) implies r1
        == Some((key_of(f) as u64, (after_key(f) + tail).len() as usize)) by {
        lemma_field_split(f);
        assert(rest@ =~= varint((key_of(f) as u64) as nat) + (after_key(f) + tail));
    }
    let (key, left) = match r1 {
        None => return None,
        Some(x) => x,
    };
    let key_end = bytes.len() - left;
    let tag = key / 8;
    let wt = key % 8;
    assert forall|f: FieldSpec, tail: Seq<u8>| #[trigger] field_at(bytes@, pos as int, f, tail) implies tag
        == f.tag && wt == (if f.value is Varint { 0nat } else { 2nat }) && bytes@.subrange(
        key_end as int,
        bytes@.len() as int,
    ) == after_key(f) + tail by {
        lemma_field_split(f);
        let w: nat = if f.value is Varint { 0nat } else { 2nat };
        lemma_key(f.tag, w);
        assert(bytes@.subrange(key_end as int, bytes@.len() as int) =~= rest@.subrange(
            rest@.len() - left,
            rest@.len() as int,
        ));
        assert(rest@ =~= varint(key_of(f)) + (after_key(f) + tail));
        assert(rest@.subrange(rest@.len() - left, rest@.len() as int) =~= after_key(f) + tail);
    }
    if tag == 0 || tag >= 0x2000_0000 || key_end == bytes.len() {
        return None;
    }
    let rest2 = slice_subrange(bytes, key_end, bytes.len());
    let r2 = read_varint(rest2);
    if wt == WIRE_VARINT {
        assert forall|f: FieldSpec, tail: Seq<u8>| #[trigger] field_at(bytes@, pos as int, f, tail) implies (
        f.value matches ValueSpec::Varint(v) && r2 == Some((v as u64, tail.len() as usize))) by {
            if let ValueSpec::Varint(v) = f.value {
                assert(rest2@ =~= varint((v as u64) as nat) + tail);
            }
        }
        match r2 {
            None => None,
            Some((v, left2)) => {
                let field_end = bytes.len() - left2;
                let g = Field { tag, value: FieldValue::Varint(v) };
                assert forall|f: FieldSpec, tail: Seq<u8>| #[trigger] field_at(bytes@, pos as int, f, tail) implies g@
                    == f && bytes@.subrange(field_end as int, bytes@.len() as int) == tail by {
                    assert(bytes@.subrange(field_end as int, bytes@.len() as int) =~= rest2@.subrange(
                        rest2@.len() - left2,
                        rest2@.len() as int,
                    ));
                    if let ValueSpec::Varint(fv) = f.value {
                        assert(rest2@ =~= varint((fv as u64) as nat) + tail);
                    }
                }
                Some((g, field_end))
            },
        }
    } else if wt == WIRE_LEN {
        assert forall|f: FieldSpec, tail: Seq<u8>| #[trigger] field_at(bytes@, pos as int, f, tail) implies (
        f.value matches ValueSpec::Bytes(b) && r2 == Some((b.len() as u64, (b + tail).len() as usize)))
            by {
            if let ValueSpec::Bytes(b) = f.value {
                assert(rest2@ =~= varint(((b.len() as u64) as nat)) + (b + tail));
            }
        }
        match r2 {
            None => None,
            Some((n, left2)) => {
                if n > left2 as u64 {
                    return None;
                }
                let value_start = bytes.len() - left2;
                let field_end = value_start + n as usize;
                let b = vstd::slice::slice_to_vec(slice_subrange(bytes, value_start, field_end));
                let g = Field { tag, value: FieldValue::Bytes(b) };
                assert forall|f: FieldSpec, tail: Seq<u8>| #[trigger] field_at(bytes@, pos as int, f, tail) implies g@
                    == f && bytes@.subrange(field_end as int, bytes@.len() as int) == tail by {
                    if let ValueSpec::Bytes(fb) = f.value {
                        assert(rest2@ =~= varint(((fb.len() as u64) as nat)) + (fb + tail));
                        assert(bytes@.subrange(value_start as int, bytes@.len() as int) =~= rest2@.subrange(
                            rest2@.len() - left2,
                            rest2@.len() as int,
                        ));
                        assert(bytes@.subrange(value_start as int, bytes@.len() as int) =~= fb + tail);
                        assert(b@ =~= fb);
                        assert(bytes@.subrange(field_end as int, bytes@.len() as int) =~= (fb + tail).subrange(
                            fb.len() as int,
                            (fb + tail).len() as int,
                        ));
                        assert(bytes@.subrange(field_end as int, bytes@.len() as int) =~= tail);
                    }
                }
                Some((g, field_end))
            },
        }
    } else {
        None
    }
}

/// Reads the fields from `pos` to the end of `bytes`.
fn parse_from(bytes: &[u8], pos: usize) -> (r: Option<Vec<Field>>)
    requires
        pos <= bytes@.len(),
    ensures
        forall|fs: Seq<FieldSpec>| #[trigger] fields_at(bytes@, pos as int, fs) ==> (r matches Some(v)
            && fields_view(v@) == fs),
    decreases bytes@.len() - pos,
{
    if pos == bytes.len() {
        let v: Vec<Field> = Vec::new();
        assert forall|fs: Seq<FieldSpec>| #[trigger] fields_at(bytes@, pos as int, fs) implies fields_view(
            v@,
        ) == fs by {
            if fs.len() > 0 {
                lemma_field_split(fs[0]);
                assert(fields_bytes(fs).len() > 0);
                assert(bytes@.subrange(pos as int, bytes@.len() as int).len() == 0);
            }
            assert(fields_view(v@) =~= fs);
        }
        return Some(v);
    }
    assert forall|fs: Seq<FieldSpec>| #[trigger] fields_at(bytes@, pos as int, fs) implies fs.len() > 0
        && field_at(bytes@, pos as int, fs[0], fields_bytes(fs.drop_first())) by {
        assert(bytes@.subrange(pos as int, bytes@.len() as int).len() > 0);
        assert(field_wf(fs[0]));
    }
    match parse_field(bytes, pos) {
        None => None,
        Some((f, p)) => {
            assert forall|fs: Seq<FieldSpec>| #[trigger] fields_at(bytes@, pos as int, fs) implies fields_at(
                bytes@,
                p as int,
                fs.drop_first(),
            ) by {
                assert(field_at(bytes@, pos as int, fs[0], fields_bytes(fs.drop_first())));
                assert forall|i: int| 0 <= i < fs.drop_first().len() implies #[trigger] field_wf(
                    fs.drop_first()[i],
                ) by {
                    assert(field_wf(fs[i + 1]));
                }
            }
            match parse_from(bytes, p) {
                None => None,
                Some(mut v) => {
                    let ghost old_v = v@;
                    v.insert(0, f);
                    assert forall|fs: Seq<FieldSpec>| #[trigger] fields_at(bytes@, pos as int, fs) implies fields_view(
                        v@,
                    ) == fs by {
                        assert(fields_at(bytes@, p as int, fs.drop_first()));
                        assert(field_at(bytes@, pos as int, fs[0], fields_bytes(fs.drop_first())));
                        assert(fields_view(v@) =~= seq![f@] + fields_view(old_v));
                        assert(fs =~= seq![fs[0]] + fs.drop_first());
                    }
                    Some(v)
                },
            }
        },
    }
}

/// Reads a whole message as its sequence of fields. The bytes of any
/// well-formed sequence of fields give back exactly those fields.
pub fn parse_fields(bytes: &[u8]) -> (r: Option<Vec<Field>>)
    ensures
        forall|fs: Seq<FieldSpec>|
            fields_wf(fs) && #[trigger] fields_bytes(fs) == bytes@ ==> (r matches Some(v)
                && fields_view(v@) == fs),
{
    let r = parse_from(bytes, 0);
    assert forall|fs: Seq<FieldSpec>| fields_wf(fs) && #[trigger] fields_bytes(fs) == bytes@ implies (r matches Some(
        v,
    ) && fields_view(v@) == fs) by {
        assert(bytes@.subrange(0, bytes@.len() as int) =~= bytes@);
        assert(fields_at(bytes@, 0, fs));
    }
    r
}

} // verus!
