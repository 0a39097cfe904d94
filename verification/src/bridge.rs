use vstd::prelude::*;

use base64::Engine;

use crate::datetime::format_datetime;
use crate::datetime::spec_format_datetime;
use crate::error::RpcErrV;
use crate::error::RpcError;
use crate::value::JsonNumber;
use crate::value::JsonV;
use crate::value::JsonValue;
use crate::value::NumV;
use crate::value::WireV;
use crate::value::WireValue;
use crate::value::json_elems_view;
use crate::value::json_elems_wf;
use crate::value::json_members_view;
use crate::value::json_members_wf;
use crate::value::json_wf;
use crate::value::lemma_wire_members_view;
use crate::value::wire_elems_view;
use crate::value::wire_elems_wf;
use crate::value::wire_members_view;
use crate::value::wire_members_wf;
use crate::value::wire_wf;

verus! {

/// Padded standard base64 text of a byte sequence; named, not spelled out:
/// stating the encoding would mean writing out its 64-entry alphabet.
pub uninterp spec fn base64_of(bytes: Seq<u8>) -> Seq<char>;

/// Bit pattern of the double obtained by converting a signed 64-bit integer
/// through a double-precision float; named, not spelled out: the rounding
/// rules take pages to state. Integers beyond the exact range of a double
/// lose precision here; that boundary is deliberate.
pub uninterp spec fn double_bits_of_int(i: int) -> u64;

/// Relies on base64's standard engine (`general_purpose::STANDARD`): padded
/// standard base64, a function of the bytes alone.
#[verifier::external_body]
fn base64_encode(data: &Vec<u8>) -> (r: String)
    ensures
        r@ == base64_of(data@),
{
    base64::engine::general_purpose::STANDARD.encode(data)
}

/// Relies on Rust's numeric cast from `i64` to a double-precision float
/// (rounds to nearest, ties to even) and on `f64::to_bits`; the bit pattern
/// is a function of the integer alone.
#[verifier::external_body]
fn int_double_bits(i: i64) -> (r: u64)
    ensures
        r == double_bits_of_int(i as int),
{
    // no float type may be spelled in this crate's sources, so the wire
    // crate's Double variant supplies the cast's target type
    match xmlrpc::Value::Double(i as _) {
        xmlrpc::Value::Double(d) => d.to_bits(),
        _ => 0,
    }
}

/// What `as_json` returns: every wire shape mapped onto a JSON shape.
/// Integers go through a double; timestamps and byte blobs become plain
/// strings, so their tagging is not recoverable from the JSON side.
pub open spec fn wire_to_json(w: WireV) -> JsonV
    decreases w,
{
    match w {
        WireV::Int32(i) => JsonV::Number(NumV::Float(double_bits_of_int(i))),
        WireV::Int64(i) => JsonV::Number(NumV::Float(double_bits_of_int(i))),
        WireV::Bool(b) => JsonV::Bool(b),
        WireV::Str(s) => JsonV::Str(s),
        WireV::Double(bits) => JsonV::Number(NumV::Float(bits)),
        WireV::DateTime(dt) => JsonV::Str(spec_format_datetime(dt)),
        WireV::Bytes(bs) => JsonV::Str(base64_of(bs)),
        WireV::Struct(ms) => JsonV::Object(members_to_json(ms)),
        WireV::Array(xs) => JsonV::Array(elems_to_json(xs)),
        WireV::Nil => JsonV::Null,
    }
}

pub open spec fn members_to_json(ms: Seq<(Seq<char>, WireV)>) -> Seq<(Seq<char>, JsonV)>
    decreases ms,
{
    if ms.len() == 0 {
        Seq::empty()
    } else {
        members_to_json(ms.drop_last()).push((ms.last().0, wire_to_json(ms.last().1)))
    }
}

pub open spec fn elems_to_json(xs: Seq<WireV>) -> Seq<JsonV>
    decreases xs,
{
    if xs.len() == 0 {
        Seq::empty()
    } else {
        elems_to_json(xs.drop_last()).push(wire_to_json(xs.last()))
    }
}

/// What `from_json` returns: the best-effort reverse mapping. An exact
/// integer number becomes `Int64`, any other number becomes `Double`; a
/// string always becomes `Str`, never `Bytes` or `DateTime`.
pub open spec fn json_to_wire(j: JsonV) -> WireV
    decreases j,
{
    match j {
        JsonV::Number(NumV::Int(i)) => WireV::Int64(i),
        JsonV::Number(NumV::Float(bits)) => WireV::Double(bits),
        JsonV::Bool(b) => WireV::Bool(b),
        JsonV::Str(s) => WireV::Str(s),
        JsonV::Object(ms) => WireV::Struct(members_to_wire(ms)),
        JsonV::Array(xs) => WireV::Array(elems_to_wire(xs)),
        JsonV::Null => WireV::Nil,
    }
}

pub open spec fn members_to_wire(ms: Seq<(Seq<char>, JsonV)>) -> Seq<(Seq<char>, WireV)>
    decreases ms,
{
    if ms.len() == 0 {
        Seq::empty()
    } else {
        members_to_wire(ms.drop_last()).push((ms.last().0, json_to_wire(ms.last().1)))
    }
}

pub open spec fn elems_to_wire(xs: Seq<JsonV>) -> Seq<WireV>
    decreases xs,
{
    if xs.len() == 0 {
        Seq::empty()
    } else {
        elems_to_wire(xs.drop_last()).push(json_to_wire(xs.last()))
    }
}

/// The member a key names in a wire struct, at its first occurrence.
pub open spec fn member_lookup(ms: Seq<(Seq<char>, WireV)>, key: Seq<char>) -> Option<WireV>
    decreases ms,
{
    if ms.len() == 0 {
        None
    } else if ms[0].0 == key {
        Some(ms[0].1)
    } else {
        member_lookup(ms.drop_first(), key)
    }
}

/// What `rpc_value` returns: the `Value` member of a response envelope on
/// success; the `ErrorDescription` member, rendered as JSON, as a fault;
/// anything else whole as a malformed response.
pub open spec fn spec_unwrap(w: WireV) -> Result<WireV, RpcErrV> {
    match w {
        WireV::Struct(ms) => match member_lookup(ms, "Value"@) {
            Some(v) => Ok(v),
            None => match member_lookup(ms, "ErrorDescription"@) {
                Some(e) => Err(RpcErrV::Fault(wire_to_json(e))),
                None => Err(RpcErrV::MalformedResponse(w)),
            },
        },
        _ => Err(RpcErrV::MalformedResponse(w)),
    }
}

/// Model of an unwrapped response.
pub open spec fn unwrap_view(r: Result<WireValue, RpcError>) -> Result<WireV, RpcErrV> {
    match r {
        Ok(v) => Ok(v@),
        Err(e) => Err(e@),
    }
}

/// No number in `j` is integer-tagged.
pub open spec fn floats_only(j: JsonV) -> bool
    decreases j,
{
    match j {
        JsonV::Number(n) => n is Float,
        JsonV::Bool(_) => true,
        JsonV::Str(_) => true,
        JsonV::Object(ms) => floats_only_members(ms),
        JsonV::Array(xs) => floats_only_elems(xs),
        JsonV::Null => true,
    }
}

pub open spec fn floats_only_members(ms: Seq<(Seq<char>, JsonV)>) -> bool
    decreases ms,
{
    if ms.len() == 0 {
        true
    } else {
        floats_only_members(ms.drop_last()) && floats_only(ms.last().1)
    }
}

pub open spec fn floats_only_elems(xs: Seq<JsonV>) -> bool
    decreases xs,
{
    if xs.len() == 0 {
        true
    } else {
        floats_only_elems(xs.drop_last()) && floats_only(xs.last())
    }
}

/// Law: taking a JSON value to the wire model and back is the identity, as
/// long as no number in it is integer-tagged. (An integer-tagged number goes
/// to `Int64` and comes back as the number of a double, so it is the one
/// JSON shape the trip does not preserve.)
pub proof fn lemma_json_round_trip(j: JsonV)
    requires
        floats_only(j),
    ensures
        wire_to_json(json_to_wire(j)) == j,
    decreases j,
{
    match j {
        JsonV::Object(ms) => {
            lemma_json_round_trip_members(ms);
        },
        JsonV::Array(xs) => {
            lemma_json_round_trip_elems(xs);
        },
        _ => {},
    }
}

proof fn lemma_json_round_trip_members(ms: Seq<(Seq<char>, JsonV)>)
    requires
        floats_only_members(ms),
    ensures
        members_to_json(members_to_wire(ms)) == ms,
    decreases ms,
{
    if ms.len() == 0 {
        assert(members_to_json(members_to_wire(ms)) =~= ms);
    } else {
        lemma_json_round_trip_members(ms.drop_last());
        lemma_json_round_trip(ms.last().1);
        let w = members_to_wire(ms);
        assert(w.drop_last() =~= members_to_wire(ms.drop_last()));
        assert(members_to_json(w) =~= ms);
    }
}

proof fn lemma_json_round_trip_elems(xs: Seq<JsonV>)
    requires
        floats_only_elems(xs),
    ensures
        elems_to_json(elems_to_wire(xs)) == xs,
    decreases xs,
{
    if xs.len() == 0 {
        assert(elems_to_json(elems_to_wire(xs)) =~= xs);
    } else {
        lemma_json_round_trip_elems(xs.drop_last());
        lemma_json_round_trip(xs.last());
        let w = elems_to_wire(xs);
        assert(w.drop_last() =~= elems_to_wire(xs.drop_last()));
        assert(elems_to_json(w) =~= xs);
    }
}

/// What one trip wire value to JSON and back leaves behind: integers become
/// the doubles they were rendered through, timestamps and byte blobs become
/// the plain strings they were rendered to — their tagging is lost by design
/// — and every other shape survives unchanged.
pub open spec fn spec_degrade(w: WireV) -> WireV
    decreases w,
{
    match w {
        WireV::Int32(i) => WireV::Double(double_bits_of_int(i)),
        WireV::Int64(i) => WireV::Double(double_bits_of_int(i)),
        WireV::Bool(b) => WireV::Bool(b),
        WireV::Str(s) => WireV::Str(s),
        WireV::Double(bits) => WireV::Double(bits),
        WireV::DateTime(dt) => WireV::Str(spec_format_datetime(dt)),
        WireV::Bytes(bs) => WireV::Str(base64_of(bs)),
        WireV::Struct(ms) => WireV::Struct(degrade_members(ms)),
        WireV::Array(xs) => WireV::Array(degrade_elems(xs)),
        WireV::Nil => WireV::Nil,
    }
}

pub open spec fn degrade_members(ms: Seq<(Seq<char>, WireV)>) -> Seq<(Seq<char>, WireV)>
    decreases ms,
{
    if ms.len() == 0 {
        Seq::empty()
    } else {
        degrade_members(ms.drop_last()).push((ms.last().0, spec_degrade(ms.last().1)))
    }
}

pub open spec fn degrade_elems(xs: Seq<WireV>) -> Seq<WireV>
    decreases xs,
{
    if xs.len() == 0 {
        Seq::empty()
    } else {
        degrade_elems(xs.drop_last()).push(spec_degrade(xs.last()))
    }
}

/// Law: taking a wire value to JSON and back yields exactly its degraded
/// form — in particular a `Bytes` or `DateTime` anywhere inside comes back
/// as a plain string, never as itself.
pub proof fn lemma_wire_round_trip(w: WireV)
    ensures
        json_to_wire(wire_to_json(w)) == spec_degrade(w),
    decreases w,
{
    match w {
        WireV::Struct(ms) => {
            lemma_wire_round_trip_members(ms);
        },
        WireV::Array(xs) => {
            lemma_wire_round_trip_elems(xs);
        },
        _ => {},
    }
}

proof fn lemma_wire_round_trip_members(ms: Seq<(Seq<char>, WireV)>)
    ensures
        members_to_wire(members_to_json(ms)) == degrade_members(ms),
    decreases ms,
{
    if ms.len() == 0 {
        assert(members_to_wire(members_to_json(ms)) =~= degrade_members(ms));
    } else {
        lemma_wire_round_trip_members(ms.drop_last());
        lemma_wire_round_trip(ms.last().1);
        let j = members_to_json(ms);
        assert(j.drop_last() =~= members_to_json(ms.drop_last()));
        assert(members_to_wire(j) =~= degrade_members(ms));
    }
}

proof fn lemma_wire_round_trip_elems(xs: Seq<WireV>)
    ensures
        elems_to_wire(elems_to_json(xs)) == degrade_elems(xs),
    decreases xs,
{
    if xs.len() == 0 {
        assert(elems_to_wire(elems_to_json(xs)) =~= degrade_elems(xs));
    } else {
        lemma_wire_round_trip_elems(xs.drop_last());
        lemma_wire_round_trip(xs.last());
        let j = elems_to_json(xs);
        assert(j.drop_last() =~= elems_to_json(xs.drop_last()));
        assert(elems_to_wire(j) =~= degrade_elems(xs));
    }
}

/// Pointwise reading of `members_to_json`.
pub proof fn lemma_members_to_json_index(ms: Seq<(Seq<char>, WireV)>)
    ensures
        members_to_json(ms).len() == ms.len(),
        forall|i: int|
            0 <= i < ms.len() ==> #[trigger] members_to_json(ms)[i] == (
            ms[i].0,
            wire_to_json(ms[i].1),
            ),
    decreases ms,
{
    if ms.len() > 0 {
        lemma_members_to_json_index(ms.drop_last());
    }
}

/// Pointwise reading of `members_to_wire`.
pub proof fn lemma_members_to_wire_index(ms: Seq<(Seq<char>, JsonV)>)
    ensures
        members_to_wire(ms).len() == ms.len(),
        forall|i: int|
            0 <= i < ms.len() ==> #[trigger] members_to_wire(ms)[i] == (
            ms[i].0,
            json_to_wire(ms[i].1),
            ),
    decreases ms,
{
    if ms.len() > 0 {
        lemma_members_to_wire_index(ms.drop_last());
    }
}

/// Law: conversion to JSON preserves well-formedness — member keys are
/// carried over unchanged, so the distinct keys of every struct stay
/// distinct in the object it becomes.
pub proof fn lemma_to_json_preserves_wf(w: WireV)
    requires
        wire_wf(w),
    ensures
        json_wf(wire_to_json(w)),
    decreases w,
{
    match w {
        WireV::Struct(ms) => {
            lemma_members_to_json_index(ms);
            lemma_to_json_members_wf(ms);
        },
        WireV::Array(xs) => {
            lemma_to_json_elems_wf(xs);
        },
        _ => {},
    }
}

proof fn lemma_to_json_members_wf(ms: Seq<(Seq<char>, WireV)>)
    requires
        wire_members_wf(ms),
    ensures
        json_members_wf(members_to_json(ms)),
    decreases ms,
{
    if ms.len() > 0 {
        lemma_to_json_members_wf(ms.drop_last());
        lemma_to_json_preserves_wf(ms.last().1);
        let j = members_to_json(ms);
        assert(j.drop_last() =~= members_to_json(ms.drop_last()));
    }
}

proof fn lemma_to_json_elems_wf(xs: Seq<WireV>)
    requires
        wire_elems_wf(xs),
    ensures
        json_elems_wf(elems_to_json(xs)),
    decreases xs,
{
    if xs.len() > 0 {
        lemma_to_json_elems_wf(xs.drop_last());
        lemma_to_json_preserves_wf(xs.last());
        let j = elems_to_json(xs);
        assert(j.drop_last() =~= elems_to_json(xs.drop_last()));
    }
}

/// Law: the reverse conversion preserves well-formedness too — object keys
/// are carried over unchanged into the struct.
pub proof fn lemma_from_json_preserves_wf(j: JsonV)
    requires
        json_wf(j),
    ensures
        wire_wf(json_to_wire(j)),
    decreases j,
{
    match j {
        JsonV::Object(ms) => {
            lemma_members_to_wire_index(ms);
            lemma_from_json_members_wf(ms);
        },
        JsonV::Array(xs) => {
            lemma_from_json_elems_wf(xs);
        },
        _ => {},
    }
}

proof fn lemma_from_json_members_wf(ms: Seq<(Seq<char>, JsonV)>)
    requires
        json_members_wf(ms),
    ensures
        wire_members_wf(members_to_wire(ms)),
    decreases ms,
{
    if ms.len() > 0 {
        lemma_from_json_members_wf(ms.drop_last());
        lemma_from_json_preserves_wf(ms.last().1);
        let w = members_to_wire(ms);
        assert(w.drop_last() =~= members_to_wire(ms.drop_last()));
    }
}

proof fn lemma_from_json_elems_wf(xs: Seq<JsonV>)
    requires
        json_elems_wf(xs),
    ensures
        wire_elems_wf(elems_to_wire(xs)),
    decreases xs,
{
    if xs.len() > 0 {
        lemma_from_json_elems_wf(xs.drop_last());
        lemma_from_json_preserves_wf(xs.last());
        let w = elems_to_wire(xs);
        assert(w.drop_last() =~= elems_to_wire(xs.drop_last()));
    }
}

proof fn lemma_member_lookup_at(ms: Seq<(Seq<char>, WireV)>, key: Seq<char>, i: int)
    requires
        0 <= i < ms.len(),
        ms[i].0 == key,
        forall|j: int| 0 <= j < i ==> ms[j].0 != key,
    ensures
        member_lookup(ms, key) == Some(ms[i].1),
    decreases ms,
{
    if i > 0 {
        lemma_member_lookup_at(ms.drop_first(), key, i - 1);
    }
}

proof fn lemma_member_lookup_none(ms: Seq<(Seq<char>, WireV)>, key: Seq<char>)
    requires
        forall|j: int| 0 <= j < ms.len() ==> ms[j].0 != key,
    ensures
        member_lookup(ms, key) is None,
    decreases ms,
{
    if ms.len() > 0 {
        lemma_member_lookup_none(ms.drop_first(), key);
    }
}

/// Index of the first member of `ms` whose key is `key`.
fn find_key(ms: &Vec<(String, WireValue)>, key: &str) -> (r: Option<usize>)
    ensures
        match r {
            Some(i) => 0 <= i < ms@.len() && ms@[i as int].0@ == key@ && forall|j: int|
                0 <= j < i ==> ms@[j].0@ != key@,
            None => forall|j: int| 0 <= j < ms@.len() ==> ms@[j].0@ != key@,
        },
{
    let key_owned = key.to_owned();
    let mut i: usize = 0;
    while i < ms.len()
        invariant
            i <= ms@.len(),
            key_owned@ == key@,
            forall|j: int| 0 <= j < i ==> ms@[j].0@ != key@,
        decreases ms@.len() - i,
    {
        if ms[i].0 == key_owned {
            return Some(i);
        }
        i += 1;
    }
    None
}

/// The translations between the wire value model and the JSON value model,
/// and the reading of response envelopes.
pub trait RpcHelpers: View<V = WireV> + Sized {
    /// Translate a JSON value into an equivalent wire value. This is not
    /// one-to-one: JSON carries no signal for base64, timestamp or 32-bit
    /// integer values, so none are ever produced.
    fn from_json(value: &JsonValue) -> (r: Self)
        ensures
            r@ == json_to_wire(value@),
    ;

    /// Convert the wire value to a JSON value, integers going through a
    /// double, timestamps and byte blobs becoming plain strings.
    fn as_json(&self) -> (r: JsonValue)
        ensures
            r@ == wire_to_json(self@),
    ;

    /// Extract the payload of a response envelope: the `Value` member on
    /// success, else the `ErrorDescription` member as a fault, else a
    /// malformed-response error carrying the whole envelope.
    fn rpc_value(self) -> (r: Result<WireValue, RpcError>)
        ensures
            unwrap_view(r) == spec_unwrap(self@),
    ;
}

impl RpcHelpers for WireValue {
    fn from_json(value: &JsonValue) -> (r: WireValue)
        decreases value,
    {
        match value {
            JsonValue::Number(JsonNumber::Int(i)) => WireValue::Int64(*i),
            JsonValue::Number(JsonNumber::Float(bits)) => WireValue::Double(*bits),
            JsonValue::Bool(b) => WireValue::Bool(*b),
            JsonValue::Str(s) => WireValue::Str(s.clone()),
            JsonValue::Object(ms) => {
                let mut out: Vec<(String, WireValue)> = Vec::new();
                let mut i: usize = 0;
                #[verifier::loop_isolation(false)]
                while i < ms.len()
                    invariant
                        i <= ms@.len(),
                        wire_members_view(out@) =~= members_to_wire(
                            json_members_view(ms@.take(i as int)),
                        ),
                    decreases ms@.len() - i,
                {
                    let ghost pre_out = out@;
                    let w = Self::from_json(&ms[i].1);
                    out.push((ms[i].0.clone(), w));
                    proof {
                        let t0 = ms@.take(i as int);
                        let t1 = ms@.take(i as int + 1);
                        assert(t1.drop_last() =~= t0);
                        assert(out@.drop_last() =~= pre_out);
                        assert(json_members_view(t1).drop_last() =~= json_members_view(t0));
                    }
                    i += 1;
                }
                proof {
                    assert(ms@.take(ms@.len() as int) =~= ms@);
                }
                WireValue::Struct(out)
            },
            JsonValue::Array(xs) => {
                let mut out: Vec<WireValue> = Vec::new();
                let mut i: usize = 0;
                #[verifier::loop_isolation(false)]
                while i < xs.len()
                    invariant
                        i <= xs@.len(),
                        wire_elems_view(out@) =~= elems_to_wire(json_elems_view(xs@.take(i as int))),
                    decreases xs@.len() - i,
                {
                    let ghost pre_out = out@;
                    let w = Self::from_json(&xs[i]);
                    out.push(w);
                    proof {
                        let t0 = xs@.take(i as int);
                        let t1 = xs@.take(i as int + 1);
                        assert(t1.drop_last() =~= t0);
                        assert(out@.drop_last() =~= pre_out);
                        assert(json_elems_view(t1).drop_last() =~= json_elems_view(t0));
                    }
                    i += 1;
                }
                proof {
                    assert(xs@.take(xs@.len() as int) =~= xs@);
                }
                WireValue::Array(out)
            },
            JsonValue::Null => WireValue::Nil,
        }
    }

    fn as_json(&self) -> (r: JsonValue)
        decreases self,
    {
        match self {
            WireValue::Int32(i) => JsonValue::Number(JsonNumber::Float(int_double_bits(*i as i64))),
            WireValue::Int64(i) => JsonValue::Number(JsonNumber::Float(int_double_bits(*i))),
            WireValue::Bool(b) => JsonValue::Bool(*b),
            WireValue::Str(s) => JsonValue::Str(s.clone()),
            WireValue::Double(bits) => JsonValue::Number(JsonNumber::Float(*bits)),
            WireValue::DateTime(dt) => JsonValue::Str(format_datetime(dt)),
            WireValue::Bytes(bs) => JsonValue::Str(base64_encode(bs)),
            WireValue::Struct(ms) => {
                let mut out: Vec<(String, JsonValue)> = Vec::new();
                let mut i: usize = 0;
                #[verifier::loop_isolation(false)]
                while i < ms.len()
                    invariant
                        i <= ms@.len(),
                        json_members_view(out@) =~= members_to_json(
                            wire_members_view(ms@.take(i as int)),
                        ),
                    decreases ms@.len() - i,
                {
                    let ghost pre_out = out@;
                    let j = ms[i].1.as_json();
                    out.push((ms[i].0.clone(), j));
                    proof {
                        let t0 = ms@.take(i as int);
                        let t1 = ms@.take(i as int + 1);
                        assert(t1.drop_last() =~= t0);
                        assert(out@.drop_last() =~= pre_out);
                        assert(wire_members_view(t1).drop_last() =~= wire_members_view(t0));
                    }
                    i += 1;
                }
                proof {
                    assert(ms@.take(ms@.len() as int) =~= ms@);
                }
                JsonValue::Object(out)
            },
            WireValue::Array(xs) => {
                let mut out: Vec<JsonValue> = Vec::new();
                let mut i: usize = 0;
                #[verifier::loop_isolation(false)]
                while i < xs.len()
                    invariant
                        i <= xs@.len(),
                        json_elems_view(out@) =~= elems_to_json(wire_elems_view(xs@.take(i as int))),
                    decreases xs@.len() - i,
                {
                    let ghost pre_out = out@;
                    let j = xs[i].as_json();
                    out.push(j);
                    proof {
                        let t0 = xs@.take(i as int);
                        let t1 = xs@.take(i as int + 1);
                        assert(t1.drop_last() =~= t0);
                        assert(out@.drop_last() =~= pre_out);
                        assert(wire_elems_view(t1).drop_last() =~= wire_elems_view(t0));
                    }
                    i += 1;
                }
                proof {
                    assert(xs@.take(xs@.len() as int) =~= xs@);
                }
                JsonValue::Array(out)
            },
            WireValue::Nil => JsonValue::Null,
        }
    }

    fn rpc_value(self) -> (r: Result<WireValue, RpcError>) {
        match self {
            WireValue::Struct(ms) => {
                proof {
                    lemma_wire_members_view(ms@);
                }
                match find_key(&ms, "Value") {
                    Some(i) => {
                        proof {
                            lemma_member_lookup_at(wire_members_view(ms@), "Value"@, i as int);
                        }
                        let mut ms = ms;
                        let member = ms.remove(i);
                        Ok(member.1)
                    },
                    None => {
                        proof {
                            lemma_member_lookup_none(wire_members_view(ms@), "Value"@);
                        }
                        match find_key(&ms, "ErrorDescription") {
                            Some(i) => {
                                proof {
                                    lemma_member_lookup_at(
                                        wire_members_view(ms@),
                                        "ErrorDescription"@,
                                        i as int,
                                    );
                                }
                                let mut ms = ms;
                                let member = ms.remove(i);
                                Err(RpcError::Fault(member.1.as_json()))
                            },
                            None => {
                                proof {
                                    lemma_member_lookup_none(
                                        wire_members_view(ms@),
                                        "ErrorDescription"@,
                                    );
                                }
                                Err(RpcError::MalformedResponse(WireValue::Struct(ms)))
                            },
                        }
                    },
                }
            },
            other => Err(RpcError::MalformedResponse(other)),
        }
    }
}

} // verus!
