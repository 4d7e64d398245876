//! Typed counter samples and their decoding.

use vstd::prelude::*;

use crate::element::PdhCounterPathElement;
use crate::path::dec_chars;

verus! {

/// Request format for a 32-bit signed sample (0x100).
pub const PDH_FMT_LONG: u32 = 256;

/// Request format for a double-precision sample (0x200).
pub const PDH_FMT_DOUBLE: u32 = 512;

/// Request format for a 64-bit signed sample (0x400).
pub const PDH_FMT_LARGE: u32 = 1024;

/// A raw formatted sample as the native reader hands it over: the status the
/// subsystem wrote beside the value, and the three numeric members of the
/// value union.  The double-precision member is carried as its raw IEEE-754
/// bits, an opaque payload to this crate.
#[derive(Debug, Clone, Copy, PartialEq)]
pub struct PdhRawCounterValue {
    pub c_status: u32,
    pub long_value: i32,
    pub large_value: i64,
    pub double_bits: u64,
}

/// A decoded counter sample.  Exactly one case is active.  `Double` carries
/// the sample's raw IEEE-754 bits: floating point stays outside this crate,
/// and the embedding application gives the bits numeric meaning.
#[derive(Debug, PartialEq)]
pub enum PdhValue {
    LongLong(i64),
    Long(i32),
    Double(u64),
    Str(String),
}

impl Clone for PdhValue {
    fn clone(&self) -> (r: Self)
        ensures
            r == *self,
    {
        match self {
            PdhValue::LongLong(v) => PdhValue::LongLong(*v),
            PdhValue::Long(v) => PdhValue::Long(*v),
            PdhValue::Double(b) => PdhValue::Double(*b),
            PdhValue::Str(s) => PdhValue::Str(s.clone()),
        }
    }
}

/// What decoding yields: the requested format picks the matching member of
/// the value union; an unrecognized format falls back to the 32-bit member.
pub open spec fn to_value_spec(s: PdhRawCounterValue, format: u32) -> PdhValue {
    if format == PDH_FMT_DOUBLE {
        PdhValue::Double(s.double_bits)
    } else if format == PDH_FMT_LONG {
        PdhValue::Long(s.long_value)
    } else if format == PDH_FMT_LARGE {
        PdhValue::LongLong(s.large_value)
    } else {
        PdhValue::Long(s.long_value)
    }
}

/// Decodes a raw formatted sample into its typed variant, according to the
/// format it was requested in.
pub fn to_value(s: &PdhRawCounterValue, format: u32) -> (v: PdhValue)
    ensures
        v == to_value_spec(*s, format),
{
    if format == PDH_FMT_DOUBLE {
        PdhValue::Double(s.double_bits)
    } else if format == PDH_FMT_LONG {
        PdhValue::Long(s.long_value)
    } else if format == PDH_FMT_LARGE {
        PdhValue::LongLong(s.large_value)
    } else {
        PdhValue::Long(s.long_value)
    }
}

/// The decimal digits of `v`, with a leading minus sign when negative.
pub open spec fn dec_int_chars(v: int) -> Seq<char> {
    if v < 0 {
        seq!['-'] + dec_chars((-v) as nat)
    } else {
        dec_chars(v as nat)
    }
}

/// Relies on i64's decimal `Display` formatting: the value's digits in base
/// ten, preceded by `-` when negative.
#[verifier::external_body]
fn format_i64_decimal(v: i64) -> (s: String)
    ensures
        s@ == dec_int_chars(v as int),
{
    format!("{}", v)
}

/// The display text of a value that has one: numeric values render in
/// 3-decimal fixed point, which for an integral value means its digits
/// followed by `.000`; text renders verbatim.  `Double` is left empty, its
/// rendering being floating-point work outside this crate.
pub open spec fn value_chars(v: PdhValue) -> Seq<char>
    recommends
        !(v is Double),
{
    match v {
        PdhValue::LongLong(n) => dec_int_chars(n as int) + ".000"@,
        PdhValue::Long(n) => dec_int_chars(n as int) + ".000"@,
        PdhValue::Double(_) => Seq::empty(),
        PdhValue::Str(s) => s@,
    }
}

impl PdhValue {
    /// The display text of the value: 3-decimal fixed point for the
    /// integral variants (their fractional digits all zero), the text
    /// itself for the textual one.  A `Double` sample has no text here —
    /// rendering its bits is floating-point work, left to the embedding
    /// application.
    pub fn to_string(&self) -> (r: Option<String>)
        ensures
            r is Some <==> !(*self is Double),
            r matches Some(s) ==> s@ == value_chars(*self),
    {
        match self {
            PdhValue::LongLong(v) => {
                let mut s = format_i64_decimal(*v);
                s.append(".000");
                Some(s)
            },
            PdhValue::Long(v) => {
                let mut s = format_i64_decimal(*v as i64);
                s.append(".000");
                Some(s)
            },
            PdhValue::Double(_) => None,
            PdhValue::Str(s) => Some(s.clone()),
        }
    }
}

/// A decoded value paired with a copy of the element that produced it, so
/// the sample stays self-describing after the query moves on.
#[derive(Debug)]
pub struct PdhCollectValue {
    pub element: PdhCounterPathElement,
    pub value: PdhValue,
}

impl Clone for PdhCollectValue {
    fn clone(&self) -> (r: Self)
        ensures
            r == *self,
    {
        PdhCollectValue { element: self.element.clone(), value: self.value.clone() }
    }
}

impl PdhCollectValue {
    pub fn new(e: &PdhCounterPathElement, v: PdhValue) -> (r: PdhCollectValue)
        ensures
            r.element == *e,
            r.value == v,
    {
        PdhCollectValue { element: e.clone(), value: v }
    }

    /// The display line `Object\Counter \t value`, for values that have a
    /// display text (see [`PdhValue::to_string`]).
    pub fn to_string(&self) -> (r: Option<String>)
        ensures
            r is Some <==> !(self.value is Double),
            r matches Some(s) ==> s@ == self.element.object_name@ + "\\"@
                + self.element.counter_name@ + " \t "@ + value_chars(self.value),
    {
        match self.value.to_string() {
            Some(vs) => {
                let mut s = self.element.to_string();
                s.append(" \t ");
                s.append(vs.as_str());
                Some(s)
            },
            None => None,
        }
    }
}

} // verus!
