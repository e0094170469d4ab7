//! The tagged value: an element type for stacks that hold mixed kinds, with a
//! fixed binary encoding.
//!
//! A float is held as its IEEE-754 bit pattern, so the encoding and decoding of
//! every kind stand here without floating-point arithmetic.
use vstd::prelude::*;
use vstd::string::StringExecFns;
use vstd::utf8::{decode_utf8, encode_utf8, valid_utf8};
use vstd::view::View as _;
use crate::bytes::{
    from_le_u32, from_le_u64, le_u32, le_u64, lemma_i64_bits, lemma_le_u32_round_trip,
    lemma_le_u64_round_trip, push_le_u32, push_le_u64, push_slice, read_le_u32, read_le_u64,
};

verus! {

broadcast use vstd::utf8::group_utf8_lib;

/// The kind of a value; its position in this list is its encoding tag.
#[derive(Debug, Clone, Copy, PartialEq, Eq, Structural)]
pub enum ValueType {
    Nil,
    Int,
    Float,
    String,
    Bool,
    Error,
    Codeblock,
    Array,
}

impl ValueType {
    /// The tag byte of this kind.
    pub open spec fn spec_tag(self) -> u8 {
        match self {
            ValueType::Nil => 0,
            ValueType::Int => 1,
            ValueType::Float => 2,
            ValueType::String => 3,
            ValueType::Bool => 4,
            ValueType::Error => 5,
            ValueType::Codeblock => 6,
            ValueType::Array => 7,
        }
    }

    /// The tag byte of this kind.
    pub fn tag(&self) -> (r: u8)
        ensures
            r == self.spec_tag(),
    {
        match self {
            ValueType::Nil => 0,
            ValueType::Int => 1,
            ValueType::Float => 2,
            ValueType::String => 3,
            ValueType::Bool => 4,
            ValueType::Error => 5,
            ValueType::Codeblock => 6,
            ValueType::Array => 7,
        }
    }
}

/// A deferred block of code: parameter names and an opaque body.
#[derive(Debug, Clone)]
pub struct Codeblock {
    pub params: Vec<String>,
    /// Interpreted by whoever runs the block.
    pub body: Vec<u8>,
}

/// A value of one of the tagged kinds.
#[derive(Debug)]
pub enum Value {
    Nil,
    Int(i64),
    /// A 64-bit float, as its IEEE-754 bit pattern.
    Float(u64),
    String(String),
    Bool(bool),
    /// An error message.
    Error(String),
    Codeblock(Box<Codeblock>),
    Array(Vec<Value>),
}

/// The mathematical content of a value.
pub enum ValueView {
    Nil,
    Int(i64),
    Float(u64),
    Str(Seq<char>),
    Bool(bool),
    Error(Seq<char>),
    Codeblock(Seq<Seq<char>>, Seq<u8>),
    Array(Seq<Value>),
}

impl View for Value {
    type V = ValueView;

    open spec fn view(&self) -> ValueView {
        match self {
            Value::Nil => ValueView::Nil,
            Value::Int(v) => ValueView::Int(*v),
            Value::Float(bits) => ValueView::Float(*bits),
            Value::String(s) => ValueView::Str(s@),
            Value::Bool(b) => ValueView::Bool(*b),
            Value::Error(e) => ValueView::Error(e@),
            Value::Codeblock(cb) => ValueView::Codeblock(cb.params@.map_values(|p: String| p@), cb.body@),
            Value::Array(vs) => ValueView::Array(vs@),
        }
    }
}

/// What `String::from_utf8_lossy` makes of bytes that are not valid UTF-8.
pub uninterp spec fn lossy_utf8(b: Seq<u8>) -> Seq<char>;

/// The text that `b` decodes to: exact for valid UTF-8, with replacement
/// characters otherwise.
pub open spec fn text_of(b: Seq<u8>) -> Seq<char> {
    if valid_utf8(b) {
        decode_utf8(b)
    } else {
        lossy_utf8(b)
    }
}

/// Relies on `String::from_utf8_lossy`: valid UTF-8 is decoded as is; any
/// invalid sequence becomes U+FFFD.
#[verifier::external_body]
fn text_from_bytes(b: &[u8]) -> (r: String)
    ensures
        valid_utf8(b@) ==> r@ == decode_utf8(b@),
        !valid_utf8(b@) ==> r@ == lossy_utf8(b@),
{
    String::from_utf8_lossy(b).into_owned()
}

/// A tag, a four-byte little-endian length, and the UTF-8 bytes of `s`.
pub open spec fn text_record(tag: u8, s: Seq<char>) -> Seq<u8> {
    seq![tag] + le_u32(encode_utf8(s).len() as u32) + encode_utf8(s)
}

/// The encoding of a value: a tag byte, then a payload that depends on the
/// kind. Code blocks and arrays are not encoded: they come out as nil.
pub open spec fn encoding(v: ValueView) -> Seq<u8> {
    match v {
        ValueView::Nil => seq![0u8],
        ValueView::Int(i) => seq![1u8] + le_u64(i as u64),
        ValueView::Float(bits) => seq![2u8] + le_u64(bits),
        ValueView::Str(s) => text_record(3u8, s),
        ValueView::Bool(b) => seq![4u8, if b { 1u8 } else { 0u8 }],
        ValueView::Error(s) => text_record(5u8, s),
        _ => seq![0u8],
    }
}

/// The text payload after a tag, when it is complete.
pub open spec fn text_payload(b: Seq<u8>) -> Option<Seq<char>> {
    if b.len() < 5 {
        None
    } else {
        let n = from_le_u32(b.subrange(1, 5)) as int;
        if b.len() < 5 + n {
            None
        } else {
            Some(text_of(b.subrange(5, 5 + n)))
        }
    }
}

/// The value that `b` decodes to; anything short or unknown is nil.
pub open spec fn decoding(b: Seq<u8>) -> ValueView {
    if b.len() == 0 {
        ValueView::Nil
    } else if b[0] == 1 {
        if b.len() < 9 {
            ValueView::Nil
        } else {
            ValueView::Int(from_le_u64(b.subrange(1, 9)) as i64)
        }
    } else if b[0] == 2 {
        if b.len() < 9 {
            ValueView::Nil
        } else {
            ValueView::Float(from_le_u64(b.subrange(1, 9)))
        }
    } else if b[0] == 3 {
        match text_payload(b) {
            Some(s) => ValueView::Str(s),
            None => ValueView::Nil,
        }
    } else if b[0] == 4 {
        if b.len() < 2 {
            ValueView::Nil
        } else {
            ValueView::Bool(b[1] != 0)
        }
    } else if b[0] == 5 {
        match text_payload(b) {
            Some(s) => ValueView::Error(s),
            None => ValueView::Nil,
        }
    } else {
        ValueView::Nil
    }
}

/// The kinds that have an encoding, with text short enough for its length prefix.
pub open spec fn encodable(v: ValueView) -> bool {
    match v {
        ValueView::Str(s) => encode_utf8(s).len() <= u32::MAX,
        ValueView::Error(s) => encode_utf8(s).len() <= u32::MAX,
        ValueView::Codeblock(_, _) => false,
        ValueView::Array(_) => false,
        _ => true,
    }
}

proof fn lemma_text_round_trip(tag: u8, s: Seq<char>)
    requires
        encode_utf8(s).len() <= u32::MAX,
    ensures
        text_payload(text_record(tag, s)) == Some(s),
        text_record(tag, s)[0] == tag,
{
    let enc = encode_utf8(s);
    let b = text_record(tag, s);
    let n = enc.len() as u32;
    assert(b.subrange(1, 5) =~= le_u32(n));
    lemma_le_u32_round_trip(n);
    assert(b.subrange(5, 5 + enc.len() as int) =~= enc);
}

/// Decoding the encoding of any encodable value gives the value back.
pub proof fn lemma_value_round_trip(v: ValueView)
    requires
        encodable(v),
    ensures
        decoding(encoding(v)) == v,
{
    match v {
        ValueView::Int(i) => {
            let b = encoding(v);
            assert(b.subrange(1, 9) =~= le_u64(i as u64));
            lemma_le_u64_round_trip(i as u64);
            lemma_i64_bits(i);
        },
        ValueView::Float(bits) => {
            let b = encoding(v);
            assert(b.subrange(1, 9) =~= le_u64(bits));
            lemma_le_u64_round_trip(bits);
        },
        ValueView::Str(s) => {
            lemma_text_round_trip(3u8, s);
        },
        ValueView::Error(s) => {
            lemma_text_round_trip(5u8, s);
        },
        _ => {},
    }
}

fn push_text(buf: &mut Vec<u8>, s: &String)
    ensures
        final(buf)@ == old(buf)@ + le_u32(encode_utf8(s@).len() as u32) + encode_utf8(s@),
{
    let bytes = s.as_str().as_bytes();
    push_le_u32(buf, bytes.len() as u32);
    push_slice(buf, bytes);
}

/// The text in `b[5..5 + n]`, where `n` is the length in `b[1..5]`, if complete.
fn read_text(b: &[u8]) -> (r: Option<String>)
    ensures
        match text_payload(b@) {
            Some(s) => r is Some && r->Some_0@ == s,
            None => r is None,
        },
{
    if b.len() < 5 {
        return None;
    }
    let n = read_le_u32(b, 1) as usize;
    if b.len() - 5 < n {
        return None;
    }
    let text = vstd::slice::slice_subrange(b, 5, 5 + n);
    Some(text_from_bytes(text))
}

impl Default for Value {
    fn default() -> (r: Value)
        ensures
            r@ == ValueView::Nil,
    {
        Value::Nil
    }
}

impl From<i64> for Value {
    fn from(v: i64) -> (r: Value) {
        Value::Int(v)
    }
}

impl vstd::std_specs::convert::FromSpecImpl<i64> for Value {
    open spec fn obeys_from_spec() -> bool {
        true
    }

    open spec fn from_spec(v: i64) -> Value {
        Value::Int(v)
    }
}

impl From<bool> for Value {
    fn from(v: bool) -> (r: Value) {
        Value::Bool(v)
    }
}

impl vstd::std_specs::convert::FromSpecImpl<bool> for Value {
    open spec fn obeys_from_spec() -> bool {
        true
    }

    open spec fn from_spec(v: bool) -> Value {
        Value::Bool(v)
    }
}

impl From<String> for Value {
    fn from(v: String) -> (r: Value) {
        Value::String(v)
    }
}

impl vstd::std_specs::convert::FromSpecImpl<String> for Value {
    open spec fn obeys_from_spec() -> bool {
        true
    }

    open spec fn from_spec(v: String) -> Value {
        Value::String(v)
    }
}

impl Clone for Value {
    /// A deep copy: scalars and text are equal, arrays are copied element by element.
    fn clone(&self) -> (r: Value)
        ensures
            self@ is Array ==> r@ is Array,
            !(self@ is Array || self@ is Codeblock) ==> r@ == self@,
    {
        self.deep_copy()
    }
}

impl Value {
    /// A deep copy: scalars and text are equal, arrays are copied element by element.
    pub fn deep_copy(&self) -> (r: Value)
        ensures
            self@ is Array ==> r@ is Array && r@->Array_0.len() == self@->Array_0.len(),
            self@ is Codeblock ==> r@ is Codeblock,
            !(self@ is Array || self@ is Codeblock) ==> r@ == self@,
        decreases self,
    {
        match self {
            Value::Nil => Value::Nil,
            Value::Int(v) => Value::Int(*v),
            Value::Float(bits) => Value::Float(*bits),
            Value::String(s) => Value::String(s.clone()),
            Value::Bool(b) => Value::Bool(*b),
            Value::Error(e) => Value::Error(e.clone()),
            Value::Codeblock(cb) => Value::Codeblock(
                Box::new(Codeblock { params: cb.params.clone(), body: cb.body.clone() }),
            ),
            Value::Array(vs) => {
                let mut out: Vec<Value> = Vec::new();
                let mut i: usize = 0;
                while i < vs.len()
                    invariant
                        0 <= i <= vs@.len(),
                        out@.len() == i,
                        *self == Value::Array(*vs),
                    decreases vs@.len() - i,
                {
                    proof {
                        assert(decreases_to!(*self => self->Array_0));
                        assert(decreases_to!(*vs => vs@));
                        assert(decreases_to!(vs@ => vs@[i as int]));
                    }
                    out.push(vs[i].deep_copy());
                    i = i + 1;
                }
                Value::Array(out)
            },
        }
    }

    pub fn integer(v: i64) -> (r: Value)
        ensures
            r@ == ValueView::Int(v),
    {
        Value::Int(v)
    }

    /// A float given by its IEEE-754 bit pattern.
    pub fn float_bits(bits: u64) -> (r: Value)
        ensures
            r@ == ValueView::Float(bits),
    {
        Value::Float(bits)
    }

    pub fn string(v: String) -> (r: Value)
        ensures
            r@ == ValueView::Str(v@),
    {
        Value::String(v)
    }

    pub fn bool(v: bool) -> (r: Value)
        ensures
            r@ == ValueView::Bool(v),
    {
        Value::Bool(v)
    }

    /// An error value reading `code: msg`.
    pub fn error(code: &str, msg: &str) -> (r: Value)
        ensures
            r@ == ValueView::Error(code@ + ": "@ + msg@),
    {
        let text = code.to_owned().concat(": ").concat(msg);
        Value::Error(text)
    }

    pub fn array(v: Vec<Value>) -> (r: Value)
        ensures
            r@ == ValueView::Array(v@),
    {
        Value::Array(v)
    }

    pub fn codeblock(params: Vec<String>, body: Vec<u8>) -> (r: Value)
        ensures
            r@ == ValueView::Codeblock(params@.map_values(|p: String| p@), body@),
    {
        Value::Codeblock(Box::new(Codeblock { params, body }))
    }

    /// The kind of this value.
    pub fn value_type(&self) -> (r: ValueType)
        ensures
            r == match self@ {
                ValueView::Nil => ValueType::Nil,
                ValueView::Int(_) => ValueType::Int,
                ValueView::Float(_) => ValueType::Float,
                ValueView::Str(_) => ValueType::String,
                ValueView::Bool(_) => ValueType::Bool,
                ValueView::Error(_) => ValueType::Error,
                ValueView::Codeblock(_, _) => ValueType::Codeblock,
                ValueView::Array(_) => ValueType::Array,
            },
    {
        match self {
            Value::Nil => ValueType::Nil,
            Value::Int(_) => ValueType::Int,
            Value::Float(_) => ValueType::Float,
            Value::String(_) => ValueType::String,
            Value::Bool(_) => ValueType::Bool,
            Value::Error(_) => ValueType::Error,
            Value::Codeblock(_) => ValueType::Codeblock,
            Value::Array(_) => ValueType::Array,
        }
    }

    /// The elements, if this is an array.
    pub fn as_array(&self) -> (r: Option<&Vec<Value>>)
        ensures
            match self@ {
                ValueView::Array(vs) => r is Some && r->Some_0@ == vs,
                _ => r is None,
            },
    {
        match self {
            Value::Array(arr) => Some(arr),
            _ => None,
        }
    }

    /// The code block, if this is one.
    pub fn as_codeblock(&self) -> (r: Option<&Codeblock>)
        ensures
            match self@ {
                ValueView::Codeblock(ps, body) => r is Some && r->Some_0.body@ == body
                    && r->Some_0.params@.map_values(|p: String| p@) == ps,
                _ => r is None,
            },
    {
        match self {
            Value::Codeblock(cb) => Some(&**cb),
            _ => None,
        }
    }

    pub fn is_nil(&self) -> (r: bool)
        ensures
            r == (self@ is Nil),
    {
        match self {
            Value::Nil => true,
            _ => false,
        }
    }

    pub fn is_numeric(&self) -> (r: bool)
        ensures
            r == (self@ is Int || self@ is Float),
    {
        match self {
            Value::Int(_) => true,
            Value::Float(_) => true,
            _ => false,
        }
    }

    pub fn is_error(&self) -> (r: bool)
        ensures
            r == (self@ is Error),
    {
        match self {
            Value::Error(_) => true,
            _ => false,
        }
    }

    pub fn is_array(&self) -> (r: bool)
        ensures
            r == (self@ is Array),
    {
        match self {
            Value::Array(_) => true,
            _ => false,
        }
    }

    pub fn is_codeblock(&self) -> (r: bool)
        ensures
            r == (self@ is Codeblock),
    {
        match self {
            Value::Codeblock(_) => true,
            _ => false,
        }
    }

    /// The encoding of this value (see [`encoding`]).
    pub fn to_bytes(&self) -> (r: Vec<u8>)
        ensures
            r@ == encoding(self@),
    {
        match self {
            Value::Nil => vec![0u8],
            Value::Int(v) => {
                let mut buf = vec![1u8];
                push_le_u64(&mut buf, *v as u64);
                buf
            },
            Value::Float(bits) => {
                let mut buf = vec![2u8];
                push_le_u64(&mut buf, *bits);
                buf
            },
            Value::String(s) => {
                let mut buf = vec![3u8];
                push_text(&mut buf, s);
                buf
            },
            Value::Bool(b) => vec![4u8, if *b { 1u8 } else { 0u8 }],
            Value::Error(e) => {
                let mut buf = vec![5u8];
                push_text(&mut buf, e);
                buf
            },
            _ => vec![0u8],
        }
    }

    /// The value that `b` encodes (see [`decoding`]); short or unknown input is nil.
    pub fn from_bytes(b: &[u8]) -> (r: Value)
        ensures
            r@ == decoding(b@),
    {
        if b.len() == 0 {
            return Value::Nil;
        }
        let tag = b[0];
        if tag == 1 {
            if b.len() < 9 {
                return Value::Nil;
            }
            Value::Int(read_le_u64(b, 1) as i64)
        } else if tag == 2 {
            if b.len() < 9 {
                return Value::Nil;
            }
            Value::Float(read_le_u64(b, 1))
        } else if tag == 3 {
            match read_text(b) {
                Some(s) => Value::String(s),
                None => Value::Nil,
            }
        } else if tag == 4 {
            if b.len() < 2 {
                return Value::Nil;
            }
            Value::Bool(b[1] != 0)
        } else if tag == 5 {
            match read_text(b) {
                Some(s) => Value::Error(s),
                None => Value::Nil,
            }
        } else {
            Value::Nil
        }
    }
}

} // verus!
