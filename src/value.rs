use vstd::prelude::*;

verus! {

/// The variant set of an interpreter value, in the interpreter's own order.
#[allow(non_camel_case_types)]
#[derive(Clone, Copy, Debug, PartialEq, Eq, Structural)]
pub enum MrType {
    MRB_TT_FALSE,
    MRB_TT_TRUE,
    MRB_TT_FLOAT,
    MRB_TT_FIXNUM,
    MRB_TT_SYMBOL,
    MRB_TT_UNDEF,
    MRB_TT_CPTR,
    MRB_TT_FREE,
    MRB_TT_OBJECT,
    MRB_TT_CLASS,
    MRB_TT_MODULE,
    MRB_TT_ICLASS,
    MRB_TT_SCLASS,
    MRB_TT_PROC,
    MRB_TT_ARRAY,
    MRB_TT_HASH,
    MRB_TT_STRING,
    MRB_TT_RANGE,
    MRB_TT_EXCEPTION,
    MRB_TT_ENV,
    MRB_TT_DATA,
    MRB_TT_FIBER,
    MRB_TT_ISTRUCT,
    MRB_TT_BREAK,
    MRB_TT_MAXDEFINE,
}

/// The one error of the conversion layer: the value did not hold the
/// variant that the converter expects. It names the expected variant.
#[derive(Debug)]
pub enum MrubyError {
    Cast(String),
}

/// True when `r` is a cast failure that names `expected`.
pub open spec fn is_cast_error<T>(r: Result<T, MrubyError>, expected: Seq<char>) -> bool {
    r matches Err(MrubyError::Cast(msg)) && msg@ == expected
}

/// A tagged interpreter value: a discriminant and the payload it governs.
/// Immediate values keep their payload inline (`ival` for a fixnum, `fbits`
/// for a float's bits, `word` for a symbol id or an address); heap values
/// keep in `word` the index of their object in the interpreter instance
/// that made them.
/// The fields are private: values are made and read only through the
/// constructors and converters, which always go by the discriminant.
#[derive(Clone, Copy, Debug, PartialEq, Eq, Structural)]
pub struct MrValue {
    tt: MrType,
    ival: i64,
    fbits: u64,
    word: usize,
}

pub(crate) fn cast_error(expected: &str) -> (e: MrubyError)
    ensures
        e matches MrubyError::Cast(msg) && msg@ == expected@,
{
    MrubyError::Cast(expected.to_owned())
}

/// The spec value of `nil`.
pub closed spec fn nil_value() -> MrValue {
    MrValue { tt: MrType::MRB_TT_FALSE, ival: 0, fbits: 0, word: 0 }
}

/// What `nil` holds.
pub proof fn lemma_nil_value()
    ensures
        nil_value().tag() == MrType::MRB_TT_FALSE,
        nil_value().int_payload() == 0,
        nil_value().word_payload() == 0,
{
}

/// What `to_bool` reads from `v`, when it holds a boolean. `nil` shares
/// the discriminant of `false` but not its payload, and is no boolean.
pub open spec fn bool_of(v: MrValue) -> Option<bool> {
    if v.tag() == MrType::MRB_TT_TRUE {
        Some(true)
    } else if v.tag() == MrType::MRB_TT_FALSE && v.word_payload() == 1 {
        Some(false)
    } else {
        None
    }
}

/// What `to_i32` reads from `v`, when it holds a fixnum: its payload
/// narrowed to 32 bits by truncation.
pub open spec fn i32_of(v: MrValue) -> Option<i32> {
    if v.tag() == MrType::MRB_TT_FIXNUM {
        Some(v.int_payload() as i32)
    } else {
        None
    }
}

/// What `to_float_bits` reads from `v`, when it holds a float.
pub open spec fn float_bits_of(v: MrValue) -> Option<u64> {
    if v.tag() == MrType::MRB_TT_FLOAT {
        Some(v.float_payload())
    } else {
        None
    }
}

/// What `to_ptr` reads from `v`, when it holds a raw pointer.
pub open spec fn ptr_of(v: MrValue) -> Option<usize> {
    if v.tag() == MrType::MRB_TT_CPTR {
        Some(v.word_payload())
    } else {
        None
    }
}

/// `r` is `Ok` of what `read` gives, or, where `read` gives nothing, a cast
/// failure that names `expected`.
pub open spec fn converted<T>(r: Result<T, MrubyError>, read: Option<T>, expected: Seq<char>) -> bool {
    match read {
        Some(x) => r == Ok::<T, MrubyError>(x),
        None => is_cast_error(r, expected),
    }
}

/// Two values with the same discriminant and payloads are the same value.
pub proof fn lemma_value_ext(a: MrValue, b: MrValue)
    requires
        a.tag() == b.tag(),
        a.int_payload() == b.int_payload(),
        a.float_payload() == b.float_payload(),
        a.word_payload() == b.word_payload(),
    ensures
        a == b,
{
}

impl MrValue {
    /// The discriminant.
    pub closed spec fn tag(self) -> MrType {
        self.tt
    }

    /// The integer payload of a fixnum.
    pub closed spec fn int_payload(self) -> i64 {
        self.ival
    }

    /// The bits of a float's binary64 encoding.
    pub closed spec fn float_payload(self) -> u64 {
        self.fbits
    }

    /// The word payload: symbol id, address or object index.
    pub closed spec fn word_payload(self) -> usize {
        self.word
    }

    pub(crate) fn from_parts(tt: MrType, ival: i64, word: usize) -> (r: MrValue)
        ensures
            r.tag() == tt,
            r.int_payload() == ival,
            r.float_payload() == 0,
            r.word_payload() == word,
    {
        MrValue { tt, ival, fbits: 0, word }
    }

    pub(crate) fn word(&self) -> (r: usize)
        ensures
            r == self.word_payload(),
    {
        self.word
    }

    /// The value `nil`.
    pub fn nil() -> (r: MrValue)
        ensures
            r == nil_value(),
            r.tag() == MrType::MRB_TT_FALSE,
            r.word_payload() == 0,
            r.int_payload() == 0,
            r.float_payload() == 0,
    {
        MrValue::from_parts(MrType::MRB_TT_FALSE, 0, 0)
    }

    /// `true` or `false`. `false` and `nil` share a discriminant; `false`
    /// is told apart by a payload of 1.
    pub fn bool(value: bool) -> (r: MrValue)
        ensures
            r.tag() == (if value { MrType::MRB_TT_TRUE } else { MrType::MRB_TT_FALSE }),
            r.word_payload() == 1,
            r.int_payload() == 0,
            r.float_payload() == 0,
    {
        if value {
            MrValue::from_parts(MrType::MRB_TT_TRUE, 0, 1)
        } else {
            MrValue::from_parts(MrType::MRB_TT_FALSE, 0, 1)
        }
    }

    /// A fixnum holding `value`, widened to the interpreter's integer width.
    pub fn fixnum(value: i32) -> (r: MrValue)
        ensures
            r.tag() == MrType::MRB_TT_FIXNUM,
            r.int_payload() == value as i64,
            r.word_payload() == 0,
            r.float_payload() == 0,
    {
        MrValue::from_parts(MrType::MRB_TT_FIXNUM, value as i64, 0)
    }

    /// A float, given by the bits of its IEEE 754 binary64 encoding.
    pub fn float_bits(bits: u64) -> (r: MrValue)
        ensures
            r.tag() == MrType::MRB_TT_FLOAT,
            r.float_payload() == bits,
            r.int_payload() == 0,
            r.word_payload() == 0,
    {
        MrValue { tt: MrType::MRB_TT_FLOAT, ival: 0, fbits: bits, word: 0 }
    }

    /// The discriminant of the value.
    pub fn typ(&self) -> (r: MrType)
        ensures
            r == self.tag(),
    {
        self.tt
    }

    /// Succeeds on `true` and `false` only. `nil` is a variant of its own
    /// and fails, though it shares the discriminant of `false`: the payload
    /// tells them apart.
    pub fn to_bool(&self) -> (r: Result<bool, MrubyError>)
        ensures
            converted(r, bool_of(*self), "TrueClass or FalseClass"@),
    {
        match self.typ() {
            MrType::MRB_TT_FALSE if self.word == 1 => Ok(false),
            MrType::MRB_TT_TRUE => Ok(true),
            _ => Err(cast_error("TrueClass or FalseClass")),
        }
    }

    /// Succeeds on a fixnum only. The interpreter's 64-bit integer is
    /// narrowed to 32 bits by truncation: a fixnum outside the `i32` range
    /// keeps its low 32 bits. This loss is deliberate and matches the
    /// interpreter's own narrowing.
    pub fn to_i32(&self) -> (r: Result<i32, MrubyError>)
        ensures
            converted(r, i32_of(*self), "Fixnum"@),
    {
        match self.typ() {
            MrType::MRB_TT_FIXNUM => Ok(#[verifier::truncate] (self.ival as i32)),
            _ => Err(cast_error("Fixnum")),
        }
    }

    /// Succeeds on a float only, giving the bits of its binary64 encoding.
    pub fn to_float_bits(&self) -> (r: Result<u64, MrubyError>)
        ensures
            converted(r, float_bits_of(*self), "Float"@),
    {
        match self.typ() {
            MrType::MRB_TT_FLOAT => Ok(self.fbits),
            _ => Err(cast_error("Float")),
        }
    }

    /// Succeeds on a raw pointer value only, giving its address.
    pub fn to_ptr(&self) -> (r: Result<usize, MrubyError>)
        ensures
            converted(r, ptr_of(*self), "Pointer"@),
    {
        match self.typ() {
            MrType::MRB_TT_CPTR => Ok(self.word),
            _ => Err(cast_error("Pointer")),
        }
    }
}

} // verus!
