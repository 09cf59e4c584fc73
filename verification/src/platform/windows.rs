//! Values read through WMI, and the errors of the Windows platform layer.

use vstd::prelude::*;

use crate::table::TextMap;
use crate::text::{decimal, push_decimal, push_signed_decimal, signed_decimal};

verus! {

/// Windows platform operation errors.
#[derive(Debug, Clone, PartialEq)]
pub enum WindowsError {
    ComError(String),
    WmiConnectionError(String),
    WmiQueryError(String),
    ApiError(String),
}

/// The text of an error, as it is reported.
pub open spec fn windows_error_text(e: WindowsError) -> Seq<char> {
    match e {
        WindowsError::ComError(m) => "COM initialization failed: "@ + m@,
        WindowsError::WmiConnectionError(m) => "WMI connection failed: "@ + m@,
        WindowsError::WmiQueryError(m) => "WMI query failed: "@ + m@,
        WindowsError::ApiError(m) => "Windows API error: "@ + m@,
    }
}

impl WindowsError {
    /// The error's message.
    pub fn message(&self) -> (r: String)
        ensures
            r@ == windows_error_text(*self),
    {
        let (prefix, m) = match self {
            WindowsError::ComError(m) => ("COM initialization failed: ", m),
            WindowsError::WmiConnectionError(m) => ("WMI connection failed: ", m),
            WindowsError::WmiQueryError(m) => ("WMI query failed: ", m),
            WindowsError::ApiError(m) => ("Windows API error: ", m),
        };
        let mut r = String::from_str(prefix);
        r.append(m.as_str());
        r
    }
}

/// A value of a WMI result field, for the variants the agent reads.
#[derive(Debug, Clone, PartialEq)]
pub enum WmiValue {
    Text(String),
    UI1(u8),
    UI2(u16),
    UI4(u32),
    UI8(u64),
    I1(i8),
    I2(i16),
    I4(i32),
    I8(i64),
    /// Any other variant (null, boolean, floating point, array, object...).
    Other,
}

/// An integer field read as `u32`, as an `as` cast does: truncated to the
/// low 32 bits, negative values in two's complement.
pub open spec fn wmi_u32(v: WmiValue) -> Option<u32> {
    match v {
        WmiValue::UI1(x) => Some(x as u32),
        WmiValue::UI2(x) => Some(x as u32),
        WmiValue::UI4(x) => Some(x),
        WmiValue::UI8(x) => Some(x as u32),
        WmiValue::I1(x) => Some(x as u32),
        WmiValue::I2(x) => Some(x as u32),
        WmiValue::I4(x) => Some(x as u32),
        WmiValue::I8(x) => Some(x as u32),
        _ => None,
    }
}

/// A text or integer field as text; integers in decimal.
pub open spec fn wmi_text(v: WmiValue) -> Option<Seq<char>> {
    match v {
        WmiValue::Text(s) => Some(s@),
        WmiValue::UI1(x) => Some(decimal(x as nat)),
        WmiValue::UI2(x) => Some(decimal(x as nat)),
        WmiValue::UI4(x) => Some(decimal(x as nat)),
        WmiValue::UI8(x) => Some(decimal(x as nat)),
        WmiValue::I1(x) => Some(signed_decimal(x as int)),
        WmiValue::I2(x) => Some(signed_decimal(x as int)),
        WmiValue::I4(x) => Some(signed_decimal(x as int)),
        WmiValue::I8(x) => Some(signed_decimal(x as int)),
        WmiValue::Other => None,
    }
}

/// Converts a WMI value to `u32` if possible (see [`wmi_u32`]).
pub fn variant_to_u32(v: &WmiValue) -> (r: Option<u32>)
    ensures
        r == wmi_u32(*v),
{
    match v {
        WmiValue::UI1(x) => Some(*x as u32),
        WmiValue::UI2(x) => Some(*x as u32),
        WmiValue::UI4(x) => Some(*x),
        WmiValue::UI8(x) => Some(*x as u32),
        WmiValue::I1(x) => Some(*x as u32),
        WmiValue::I2(x) => Some(*x as u32),
        WmiValue::I4(x) => Some(*x as u32),
        WmiValue::I8(x) => Some(*x as u32),
        _ => None,
    }
}

/// Converts a WMI value to text if possible (see [`wmi_text`]).
pub fn variant_to_string(v: &WmiValue) -> (r: Option<String>)
    ensures
        crate::json::opt_view(r) == wmi_text(*v),
{
    let mut s = String::new();
    match v {
        WmiValue::Text(t) => return Some(t.clone()),
        WmiValue::UI1(x) => push_decimal(&mut s, *x as u64),
        WmiValue::UI2(x) => push_decimal(&mut s, *x as u64),
        WmiValue::UI4(x) => push_decimal(&mut s, *x as u64),
        WmiValue::UI8(x) => push_decimal(&mut s, *x),
        WmiValue::I1(x) => push_signed_decimal(&mut s, *x as i64),
        WmiValue::I2(x) => push_signed_decimal(&mut s, *x as i64),
        WmiValue::I4(x) => push_signed_decimal(&mut s, *x as i64),
        WmiValue::I8(x) => push_signed_decimal(&mut s, *x),
        WmiValue::Other => return None,
    }
    assert(s@ =~= wmi_text(*v)->0);
    Some(s)
}

/// The field `field` of the first result row, if any.
pub open spec fn first_row_field(rows: Seq<TextMap<WmiValue>>, field: Seq<char>) -> Option<WmiValue> {
    if rows.len() > 0 && rows[0].map().dom().contains(field) {
        Some(rows[0].map()[field])
    } else {
        None
    }
}

fn first_field<'a>(rows: &'a [TextMap<WmiValue>], field: &str) -> (r: Option<&'a WmiValue>)
    requires
        rows@.len() > 0 ==> rows@[0].wf(),
    ensures
        match r {
            Some(v) => first_row_field(rows@, field@) == Some(*v),
            None => first_row_field(rows@, field@) is None,
        },
{
    if rows.len() == 0 {
        None
    } else {
        rows[0].get(field)
    }
}

/// A query's field read as `u32`: from the first row only; `None` without
/// rows, without the field, or when it is not an integer.
pub fn query_u32(rows: &[TextMap<WmiValue>], field: &str) -> (r: Option<u32>)
    requires
        rows@.len() > 0 ==> rows@[0].wf(),
    ensures
        r == match first_row_field(rows@, field@) {
            Some(v) => wmi_u32(v),
            None => None,
        },
{
    match first_field(rows, field) {
        Some(v) => variant_to_u32(v),
        None => None,
    }
}

/// A query's field read as text: from the first row only; `None` without
/// rows, without the field, or when it is neither text nor an integer.
pub fn query_string(rows: &[TextMap<WmiValue>], field: &str) -> (r: Option<String>)
    requires
        rows@.len() > 0 ==> rows@[0].wf(),
    ensures
        crate::json::opt_view(r) == match first_row_field(rows@, field@) {
            Some(v) => wmi_text(v),
            None => None,
        },
{
    match first_field(rows, field) {
        Some(v) => variant_to_string(v),
        None => None,
    }
}

/// The host name, or "Unknown" when it could not be read.
pub fn hostname_or_unknown(name: Option<String>) -> (r: String)
    ensures
        r@ == match name {
            Some(n) => n@,
            None => "Unknown"@,
        },
{
    match name {
        Some(n) => n,
        None => String::from_str("Unknown"),
    }
}

} // verus!
