use vstd::prelude::*;

verus! {

/// A timestamp as carried by the wire `DateTime` variant: bare calendar
/// fields, no time zone and no fractional seconds.
#[derive(Clone, Copy, Debug, PartialEq, Eq, Structural)]
pub struct DateTimeValue {
    pub year: u32,
    pub month: u32,
    pub day: u32,
    pub hour: u32,
    pub minute: u32,
    pub second: u32,
}

/// The RPC wire value model: a closed sum over the eleven wire shapes.
///
/// `Double` carries the IEEE-754 bit pattern of the double-precision number;
/// the library never computes with the number itself, it only moves it
/// between representations, so the bits are the faithful model.
/// `Struct` is a key-to-value mapping kept as a sequence of pairs in
/// insertion order; well-formed values have unique keys (see `wire_wf`).
#[derive(Debug, PartialEq)]
pub enum WireValue {
    Int32(i32),
    Int64(i64),
    Bool(bool),
    Str(String),
    Double(u64),
    DateTime(DateTimeValue),
    Bytes(Vec<u8>),
    Struct(Vec<(String, WireValue)>),
    Array(Vec<WireValue>),
    Nil,
}

/// A JSON number: either an exact signed 64-bit integer, or a
/// double-precision number carried as its IEEE-754 bit pattern.
#[derive(Clone, Copy, Debug, PartialEq)]
pub enum JsonNumber {
    Int(i64),
    Float(u64),
}

/// The JSON value model the wire values are rendered into.
#[derive(Debug, PartialEq)]
pub enum JsonValue {
    Number(JsonNumber),
    Bool(bool),
    Str(String),
    Object(Vec<(String, JsonValue)>),
    Array(Vec<JsonValue>),
    Null,
}

/// Mathematical model of a `WireValue`.
#[verifier::ext_equal]
pub enum WireV {
    Int32(int),
    Int64(int),
    Bool(bool),
    Str(Seq<char>),
    Double(u64),
    DateTime(DateTimeValue),
    Bytes(Seq<u8>),
    Struct(Seq<(Seq<char>, WireV)>),
    Array(Seq<WireV>),
    Nil,
}

/// Mathematical model of a `JsonNumber`.
#[verifier::ext_equal]
pub enum NumV {
    Int(int),
    Float(u64),
}

/// Mathematical model of a `JsonValue`.
#[verifier::ext_equal]
pub enum JsonV {
    Number(NumV),
    Bool(bool),
    Str(Seq<char>),
    Object(Seq<(Seq<char>, JsonV)>),
    Array(Seq<JsonV>),
    Null,
}

pub open spec fn wire_view(v: WireValue) -> WireV
    decreases v,
{
    match v {
        WireValue::Int32(i) => WireV::Int32(i as int),
        WireValue::Int64(i) => WireV::Int64(i as int),
        WireValue::Bool(b) => WireV::Bool(b),
        WireValue::Str(s) => WireV::Str(s@),
        WireValue::Double(bits) => WireV::Double(bits),
        WireValue::DateTime(dt) => WireV::DateTime(dt),
        WireValue::Bytes(bs) => WireV::Bytes(bs@),
        WireValue::Struct(ms) => WireV::Struct(wire_members_view(ms@)),
        WireValue::Array(xs) => WireV::Array(wire_elems_view(xs@)),
        WireValue::Nil => WireV::Nil,
    }
}

pub open spec fn wire_members_view(ms: Seq<(String, WireValue)>) -> Seq<(Seq<char>, WireV)>
    decreases ms,
{
    if ms.len() == 0 {
        Seq::empty()
    } else {
        wire_members_view(ms.drop_last()).push((ms.last().0@, wire_view(ms.last().1)))
    }
}

pub open spec fn wire_elems_view(xs: Seq<WireValue>) -> Seq<WireV>
    decreases xs,
{
    if xs.len() == 0 {
        Seq::empty()
    } else {
        wire_elems_view(xs.drop_last()).push(wire_view(xs.last()))
    }
}

impl View for WireValue {
    type V = WireV;

    open spec fn view(&self) -> WireV {
        wire_view(*self)
    }
}

pub open spec fn num_view(n: JsonNumber) -> NumV {
    match n {
        JsonNumber::Int(i) => NumV::Int(i as int),
        JsonNumber::Float(bits) => NumV::Float(bits),
    }
}

impl View for JsonNumber {
    type V = NumV;

    open spec fn view(&self) -> NumV {
        num_view(*self)
    }
}

pub open spec fn json_view(v: JsonValue) -> JsonV
    decreases v,
{
    match v {
        JsonValue::Number(n) => JsonV::Number(num_view(n)),
        JsonValue::Bool(b) => JsonV::Bool(b),
        JsonValue::Str(s) => JsonV::Str(s@),
        JsonValue::Object(ms) => JsonV::Object(json_members_view(ms@)),
        JsonValue::Array(xs) => JsonV::Array(json_elems_view(xs@)),
        JsonValue::Null => JsonV::Null,
    }
}

pub open spec fn json_members_view(ms: Seq<(String, JsonValue)>) -> Seq<(Seq<char>, JsonV)>
    decreases ms,
{
    if ms.len() == 0 {
        Seq::empty()
    } else {
        json_members_view(ms.drop_last()).push((ms.last().0@, json_view(ms.last().1)))
    }
}

pub open spec fn json_elems_view(xs: Seq<JsonValue>) -> Seq<JsonV>
    decreases xs,
{
    if xs.len() == 0 {
        Seq::empty()
    } else {
        json_elems_view(xs.drop_last()).push(json_view(xs.last()))
    }
}

impl View for JsonValue {
    type V = JsonV;

    open spec fn view(&self) -> JsonV {
        json_view(*self)
    }
}

/// Pairwise-distinct member keys.
pub open spec fn unique_keys_wire(ms: Seq<(Seq<char>, WireV)>) -> bool {
    forall|i: int, j: int| 0 <= i < j < ms.len() ==> ms[i].0 != ms[j].0
}

/// Well-formedness of a wire value: every struct anywhere inside it has
/// pairwise-distinct member keys.
pub open spec fn wire_wf(w: WireV) -> bool
    decreases w,
{
    match w {
        WireV::Struct(ms) => unique_keys_wire(ms) && wire_members_wf(ms),
        WireV::Array(xs) => wire_elems_wf(xs),
        _ => true,
    }
}

pub open spec fn wire_members_wf(ms: Seq<(Seq<char>, WireV)>) -> bool
    decreases ms,
{
    if ms.len() == 0 {
        true
    } else {
        wire_members_wf(ms.drop_last()) && wire_wf(ms.last().1)
    }
}

pub open spec fn wire_elems_wf(xs: Seq<WireV>) -> bool
    decreases xs,
{
    if xs.len() == 0 {
        true
    } else {
        wire_elems_wf(xs.drop_last()) && wire_wf(xs.last())
    }
}

/// Pairwise-distinct object keys.
pub open spec fn unique_keys_json(ms: Seq<(Seq<char>, JsonV)>) -> bool {
    forall|i: int, j: int| 0 <= i < j < ms.len() ==> ms[i].0 != ms[j].0
}

/// Well-formedness of a JSON value: every object anywhere inside it has
/// pairwise-distinct keys.
pub open spec fn json_wf(j: JsonV) -> bool
    decreases j,
{
    match j {
        JsonV::Object(ms) => unique_keys_json(ms) && json_members_wf(ms),
        JsonV::Array(xs) => json_elems_wf(xs),
        _ => true,
    }
}

pub open spec fn json_members_wf(ms: Seq<(Seq<char>, JsonV)>) -> bool
    decreases ms,
{
    if ms.len() == 0 {
        true
    } else {
        json_members_wf(ms.drop_last()) && json_wf(ms.last().1)
    }
}

pub open spec fn json_elems_wf(xs: Seq<JsonV>) -> bool
    decreases xs,
{
    if xs.len() == 0 {
        true
    } else {
        json_elems_wf(xs.drop_last()) && json_wf(xs.last())
    }
}

/// Pointwise reading of `wire_members_view`.
pub proof fn lemma_wire_members_view(ms: Seq<(String, WireValue)>)
    ensures
        wire_members_view(ms).len() == ms.len(),
        forall|i: int|
            0 <= i < ms.len() ==> #[trigger] wire_members_view(ms)[i] == (
            ms[i].0@,
            wire_view(ms[i].1),
            ),
    decreases ms,
{
    if ms.len() > 0 {
        lemma_wire_members_view(ms.drop_last());
    }
}

} // verus!
