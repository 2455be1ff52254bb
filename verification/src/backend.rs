//! The backend execution model: converting a backend's native columnar
//! result blocks into [`DataFrame`]s, and the advisory session
//! privilege check.
//!
//! The connection pool, the network and the streaming transport live
//! outside this crate; they hand over each received block as a
//! [`NativeBlock`] of plain values and receive typed frames back, one
//! frame per block and in arrival order. Floating-point columns travel
//! as IEEE 754 bit patterns.

use vstd::prelude::*;
use vstd::string::*;

use crate::dataframe::{Column, ColumnData, DataFrame};
use crate::error::Error;

verus! {

/// The typed values of one native column, as the backend delivered
/// them.
pub enum NativeValues {
    Int8(Vec<i8>),
    Int16(Vec<i16>),
    Int32(Vec<i32>),
    Int64(Vec<i64>),
    UInt8(Vec<u8>),
    UInt16(Vec<u16>),
    UInt32(Vec<u32>),
    UInt64(Vec<u64>),
    Float32Bits(Vec<u32>),
    Float64Bits(Vec<u64>),
    Text(Vec<String>),
    /// Days since the epoch: no typed-column counterpart.
    Date(Vec<u16>),
    /// Seconds since the epoch: no typed-column counterpart.
    DateTime(Vec<u32>),
    NullableInt8(Vec<Option<i8>>),
    NullableInt16(Vec<Option<i16>>),
    NullableInt32(Vec<Option<i32>>),
    NullableInt64(Vec<Option<i64>>),
    NullableUInt8(Vec<Option<u8>>),
    NullableUInt16(Vec<Option<u16>>),
    NullableUInt32(Vec<Option<u32>>),
    NullableUInt64(Vec<Option<u64>>),
    NullableFloat32Bits(Vec<Option<u32>>),
    NullableFloat64Bits(Vec<Option<u64>>),
    NullableText(Vec<Option<String>>),
    NullableDate(Vec<Option<u16>>),
    NullableDateTime(Vec<Option<u32>>),
}

impl NativeValues {
    /// The number of rows this native column holds.
    pub open spec fn spec_len(&self) -> nat {
        match self {
            NativeValues::Int8(v) => v@.len(),
            NativeValues::Int16(v) => v@.len(),
            NativeValues::Int32(v) => v@.len(),
            NativeValues::Int64(v) => v@.len(),
            NativeValues::UInt8(v) => v@.len(),
            NativeValues::UInt16(v) => v@.len(),
            NativeValues::UInt32(v) => v@.len(),
            NativeValues::UInt64(v) => v@.len(),
            NativeValues::Float32Bits(v) => v@.len(),
            NativeValues::Float64Bits(v) => v@.len(),
            NativeValues::Text(v) => v@.len(),
            NativeValues::Date(v) => v@.len(),
            NativeValues::DateTime(v) => v@.len(),
            NativeValues::NullableInt8(v) => v@.len(),
            NativeValues::NullableInt16(v) => v@.len(),
            NativeValues::NullableInt32(v) => v@.len(),
            NativeValues::NullableInt64(v) => v@.len(),
            NativeValues::NullableUInt8(v) => v@.len(),
            NativeValues::NullableUInt16(v) => v@.len(),
            NativeValues::NullableUInt32(v) => v@.len(),
            NativeValues::NullableUInt64(v) => v@.len(),
            NativeValues::NullableFloat32Bits(v) => v@.len(),
            NativeValues::NullableFloat64Bits(v) => v@.len(),
            NativeValues::NullableText(v) => v@.len(),
            NativeValues::NullableDate(v) => v@.len(),
            NativeValues::NullableDateTime(v) => v@.len(),
        }
    }

    /// Whether this native type has a typed-column counterpart.
    ///
    /// Signed and small unsigned integers widen losslessly; 64-bit
    /// unsigned integers, dates and datetimes have none.
    pub open spec fn mappable(&self) -> bool {
        match self {
            NativeValues::UInt64(_) => false,
            NativeValues::Date(_) => false,
            NativeValues::DateTime(_) => false,
            NativeValues::NullableUInt64(_) => false,
            NativeValues::NullableDate(_) => false,
            NativeValues::NullableDateTime(_) => false,
            _ => true,
        }
    }

    /// The name of this native type, used when an error must name it.
    pub open spec fn spec_type_label(&self) -> Seq<char> {
        match self {
            NativeValues::Int8(_) => "Int8"@,
            NativeValues::Int16(_) => "Int16"@,
            NativeValues::Int32(_) => "Int32"@,
            NativeValues::Int64(_) => "Int64"@,
            NativeValues::UInt8(_) => "UInt8"@,
            NativeValues::UInt16(_) => "UInt16"@,
            NativeValues::UInt32(_) => "UInt32"@,
            NativeValues::UInt64(_) => "UInt64"@,
            NativeValues::Float32Bits(_) => "Float32"@,
            NativeValues::Float64Bits(_) => "Float64"@,
            NativeValues::Text(_) => "String"@,
            NativeValues::Date(_) => "Date"@,
            NativeValues::DateTime(_) => "DateTime"@,
            NativeValues::NullableInt8(_) => "Nullable(Int8)"@,
            NativeValues::NullableInt16(_) => "Nullable(Int16)"@,
            NativeValues::NullableInt32(_) => "Nullable(Int32)"@,
            NativeValues::NullableInt64(_) => "Nullable(Int64)"@,
            NativeValues::NullableUInt8(_) => "Nullable(UInt8)"@,
            NativeValues::NullableUInt16(_) => "Nullable(UInt16)"@,
            NativeValues::NullableUInt32(_) => "Nullable(UInt32)"@,
            NativeValues::NullableUInt64(_) => "Nullable(UInt64)"@,
            NativeValues::NullableFloat32Bits(_) => "Nullable(Float32)"@,
            NativeValues::NullableFloat64Bits(_) => "Nullable(Float64)"@,
            NativeValues::NullableText(_) => "Nullable(String)"@,
            NativeValues::NullableDate(_) => "Nullable(Date)"@,
            NativeValues::NullableDateTime(_) => "Nullable(DateTime)"@,
        }
    }

    /// The name of this native type, used when an error must name it.
    pub fn type_label(&self) -> (r: &'static str)
        ensures
            r@ == self.spec_type_label(),
    {
        match self {
            NativeValues::Int8(_) => "Int8",
            NativeValues::Int16(_) => "Int16",
            NativeValues::Int32(_) => "Int32",
            NativeValues::Int64(_) => "Int64",
            NativeValues::UInt8(_) => "UInt8",
            NativeValues::UInt16(_) => "UInt16",
            NativeValues::UInt32(_) => "UInt32",
            NativeValues::UInt64(_) => "UInt64",
            NativeValues::Float32Bits(_) => "Float32",
            NativeValues::Float64Bits(_) => "Float64",
            NativeValues::Text(_) => "String",
            NativeValues::Date(_) => "Date",
            NativeValues::DateTime(_) => "DateTime",
            NativeValues::NullableInt8(_) => "Nullable(Int8)",
            NativeValues::NullableInt16(_) => "Nullable(Int16)",
            NativeValues::NullableInt32(_) => "Nullable(Int32)",
            NativeValues::NullableInt64(_) => "Nullable(Int64)",
            NativeValues::NullableUInt8(_) => "Nullable(UInt8)",
            NativeValues::NullableUInt16(_) => "Nullable(UInt16)",
            NativeValues::NullableUInt32(_) => "Nullable(UInt32)",
            NativeValues::NullableUInt64(_) => "Nullable(UInt64)",
            NativeValues::NullableFloat32Bits(_) => "Nullable(Float32)",
            NativeValues::NullableFloat64Bits(_) => "Nullable(Float64)",
            NativeValues::NullableText(_) => "Nullable(String)",
            NativeValues::NullableDate(_) => "Nullable(Date)",
            NativeValues::NullableDateTime(_) => "Nullable(DateTime)",
        }
    }
}

/// One named native column.
pub struct NativeColumn {
    pub name: String,
    pub values: NativeValues,
}

/// One native result block: what the backend delivers per statement, or
/// per streamed chunk.
pub struct NativeBlock {
    pub columns: Vec<NativeColumn>,
}

impl NativeBlock {
    /// Whether every column of the block has a typed counterpart.
    pub open spec fn spec_mappable(&self) -> bool {
        forall|i: int|
            0 <= i < self.columns@.len() ==> (#[trigger] self.columns@[i].values).mappable()
    }

    /// Every native column holds the same number of rows.
    pub open spec fn well_formed(&self) -> bool {
        forall|i: int|
            0 <= i < self.columns@.len() ==> (#[trigger] self.columns@[i]).values.spec_len()
                == self.columns@[0].values.spec_len()
    }
}

/// Whether `cd` holds exactly the values of `nv`, position for
/// position, under the documented widening: every value is preserved as
/// a mathematical integer, bit pattern, boolean or string.
pub open spec fn converts_to(nv: &NativeValues, cd: &ColumnData) -> bool {
    match (nv, cd) {
        (NativeValues::Int8(a), ColumnData::Int32(b)) => b@.len() == a@.len() && forall|i: int|
            0 <= i < a@.len() ==> #[trigger] b@[i] as int == a@[i] as int,
        (NativeValues::Int16(a), ColumnData::Int32(b)) => b@.len() == a@.len() && forall|i: int|
            0 <= i < a@.len() ==> #[trigger] b@[i] as int == a@[i] as int,
        (NativeValues::Int32(a), ColumnData::Int32(b)) => b@ == a@,
        (NativeValues::Int64(a), ColumnData::Int64(b)) => b@ == a@,
        (NativeValues::UInt8(a), ColumnData::Int32(b)) => b@.len() == a@.len() && forall|i: int|
            0 <= i < a@.len() ==> #[trigger] b@[i] as int == a@[i] as int,
        (NativeValues::UInt16(a), ColumnData::Int32(b)) => b@.len() == a@.len() && forall|i: int|
            0 <= i < a@.len() ==> #[trigger] b@[i] as int == a@[i] as int,
        (NativeValues::UInt32(a), ColumnData::Int64(b)) => b@.len() == a@.len() && forall|i: int|
            0 <= i < a@.len() ==> #[trigger] b@[i] as int == a@[i] as int,
        (NativeValues::Float32Bits(a), ColumnData::Float32Bits(b)) => b@ == a@,
        (NativeValues::Float64Bits(a), ColumnData::Float64Bits(b)) => b@ == a@,
        (NativeValues::Text(a), ColumnData::Text(b)) => b.deep_view() == a.deep_view(),
        (NativeValues::NullableInt8(a), ColumnData::NullableInt32(b)) => b@.len() == a@.len()
            && forall|i: int|
            0 <= i < a@.len() ==> (((#[trigger] b@[i]) is Some <==> a@[i] is Some) && (a@[i]
                is Some ==> b@[i]->0 as int == a@[i]->0 as int)),
        (NativeValues::NullableInt16(a), ColumnData::NullableInt32(b)) => b@.len() == a@.len()
            && forall|i: int|
            0 <= i < a@.len() ==> (((#[trigger] b@[i]) is Some <==> a@[i] is Some) && (a@[i]
                is Some ==> b@[i]->0 as int == a@[i]->0 as int)),
        (NativeValues::NullableInt32(a), ColumnData::NullableInt32(b)) => b@ == a@,
        (NativeValues::NullableInt64(a), ColumnData::NullableInt64(b)) => b@ == a@,
        (NativeValues::NullableUInt8(a), ColumnData::NullableInt32(b)) => b@.len() == a@.len()
            && forall|i: int|
            0 <= i < a@.len() ==> (((#[trigger] b@[i]) is Some <==> a@[i] is Some) && (a@[i]
                is Some ==> b@[i]->0 as int == a@[i]->0 as int)),
        (NativeValues::NullableUInt16(a), ColumnData::NullableInt32(b)) => b@.len() == a@.len()
            && forall|i: int|
            0 <= i < a@.len() ==> (((#[trigger] b@[i]) is Some <==> a@[i] is Some) && (a@[i]
                is Some ==> b@[i]->0 as int == a@[i]->0 as int)),
        (NativeValues::NullableUInt32(a), ColumnData::NullableInt64(b)) => b@.len() == a@.len()
            && forall|i: int|
            0 <= i < a@.len() ==> (((#[trigger] b@[i]) is Some <==> a@[i] is Some) && (a@[i]
                is Some ==> b@[i]->0 as int == a@[i]->0 as int)),
        (NativeValues::NullableFloat32Bits(a), ColumnData::NullableFloat32Bits(b)) => b@ == a@,
        (NativeValues::NullableFloat64Bits(a), ColumnData::NullableFloat64Bits(b)) => b@ == a@,
        (NativeValues::NullableText(a), ColumnData::NullableText(b)) => b.deep_view()
            == a.deep_view(),
        _ => false,
    }
}

/// Converts one native column's values, or nothing for an unmapped
/// native type.
#[verifier::loop_isolation(false)]
fn convert_values(nv: &NativeValues) -> (r: Option<ColumnData>)
    ensures
        r is Some <==> nv.mappable(),
        r matches Some(cd) ==> converts_to(nv, &cd) && cd.spec_len() == nv.spec_len(),
{
    match nv {
        NativeValues::Int8(a) => {
            let mut out: Vec<i32> = Vec::new();
            let mut i: usize = 0;
            while i < a.len()
                invariant
                    i <= a.len(),
                    out@.len() == i,
                    forall|k: int| 0 <= k < i ==> #[trigger] out@[k] as int == a@[k] as int,
                decreases a.len() - i,
            {
                out.push(a[i] as i32);
                i += 1;
            }
            Some(ColumnData::Int32(out))
        },
        NativeValues::Int16(a) => {
            let mut out: Vec<i32> = Vec::new();
            let mut i: usize = 0;
            while i < a.len()
                invariant
                    i <= a.len(),
                    out@.len() == i,
                    forall|k: int| 0 <= k < i ==> #[trigger] out@[k] as int == a@[k] as int,
                decreases a.len() - i,
            {
                out.push(a[i] as i32);
                i += 1;
            }
            Some(ColumnData::Int32(out))
        },
        NativeValues::Int32(a) => {
            let mut out: Vec<i32> = Vec::new();
            let mut i: usize = 0;
            while i < a.len()
                invariant
                    i <= a.len(),
                    out@ == a@.take(i as int),
                decreases a.len() - i,
            {
                out.push(a[i]);
                proof {
                    assert(out@ =~= a@.take(i + 1));
                }
                i += 1;
            }
            proof {
                assert(a@.take(a@.len() as int) =~= a@);
            }
            Some(ColumnData::Int32(out))
        },
        NativeValues::Int64(a) => {
            let mut out: Vec<i64> = Vec::new();
            let mut i: usize = 0;
            while i < a.len()
                invariant
                    i <= a.len(),
                    out@ == a@.take(i as int),
                decreases a.len() - i,
            {
                out.push(a[i]);
                proof {
                    assert(out@ =~= a@.take(i + 1));
                }
                i += 1;
            }
            proof {
                assert(a@.take(a@.len() as int) =~= a@);
            }
            Some(ColumnData::Int64(out))
        },
        NativeValues::UInt8(a) => {
            let mut out: Vec<i32> = Vec::new();
            let mut i: usize = 0;
            while i < a.len()
                invariant
                    i <= a.len(),
                    out@.len() == i,
                    forall|k: int| 0 <= k < i ==> #[trigger] out@[k] as int == a@[k] as int,
                decreases a.len() - i,
            {
                out.push(a[i] as i32);
                i += 1;
            }
            Some(ColumnData::Int32(out))
        },
        NativeValues::UInt16(a) => {
            let mut out: Vec<i32> = Vec::new();
            let mut i: usize = 0;
            while i < a.len()
                invariant
                    i <= a.len(),
                    out@.len() == i,
                    forall|k: int| 0 <= k < i ==> #[trigger] out@[k] as int == a@[k] as int,
                decreases a.len() - i,
            {
                out.push(a[i] as i32);
                i += 1;
            }
            Some(ColumnData::Int32(out))
        },
        NativeValues::UInt32(a) => {
            let mut out: Vec<i64> = Vec::new();
            let mut i: usize = 0;
            while i < a.len()
                invariant
                    i <= a.len(),
                    out@.len() == i,
                    forall|k: int| 0 <= k < i ==> #[trigger] out@[k] as int == a@[k] as int,
                decreases a.len() - i,
            {
                out.push(a[i] as i64);
                i += 1;
            }
            Some(ColumnData::Int64(out))
        },
        NativeValues::Float32Bits(a) => {
            let mut out: Vec<u32> = Vec::new();
            let mut i: usize = 0;
            while i < a.len()
                invariant
                    i <= a.len(),
                    out@ == a@.take(i as int),
                decreases a.len() - i,
            {
                out.push(a[i]);
                proof {
                    assert(out@ =~= a@.take(i + 1));
                }
                i += 1;
            }
            proof {
                assert(a@.take(a@.len() as int) =~= a@);
            }
            Some(ColumnData::Float32Bits(out))
        },
        NativeValues::Float64Bits(a) => {
            let mut out: Vec<u64> = Vec::new();
            let mut i: usize = 0;
            while i < a.len()
                invariant
                    i <= a.len(),
                    out@ == a@.take(i as int),
                decreases a.len() - i,
            {
                out.push(a[i]);
                proof {
                    assert(out@ =~= a@.take(i + 1));
                }
                i += 1;
            }
            proof {
                assert(a@.take(a@.len() as int) =~= a@);
            }
            Some(ColumnData::Float64Bits(out))
        },
        NativeValues::Text(a) => {
            let mut out: Vec<String> = Vec::new();
            let mut i: usize = 0;
            while i < a.len()
                invariant
                    i <= a.len(),
                    out.deep_view() == a.deep_view().take(i as int),
                decreases a.len() - i,
            {
                let ghost prev = out.deep_view();
                out.push(a[i].clone());
                proof {
                    assert(out.deep_view() =~~= prev.push(a@[i as int]@));
                    assert(a.deep_view().take(i + 1) =~~= a.deep_view().take(i as int).push(
                        a@[i as int]@,
                    ));
                }
                i += 1;
            }
            proof {
                assert(a.deep_view().take(a@.len() as int) =~~= a.deep_view());
            }
            Some(ColumnData::Text(out))
        },
        NativeValues::NullableInt8(a) => {
            let mut out: Vec<Option<i32>> = Vec::new();
            let mut i: usize = 0;
            while i < a.len()
                invariant
                    i <= a.len(),
                    out@.len() == i,
                    forall|k: int|
                        0 <= k < i ==> (((#[trigger] out@[k]) is Some <==> a@[k] is Some) && (
                        a@[k] is Some ==> out@[k]->0 as int == a@[k]->0 as int)),
                decreases a.len() - i,
            {
                match a[i] {
                    Some(v) => out.push(Some(v as i32)),
                    None => out.push(None),
                }
                i += 1;
            }
            Some(ColumnData::NullableInt32(out))
        },
        NativeValues::NullableInt16(a) => {
            let mut out: Vec<Option<i32>> = Vec::new();
            let mut i: usize = 0;
            while i < a.len()
                invariant
                    i <= a.len(),
                    out@.len() == i,
                    forall|k: int|
                        0 <= k < i ==> (((#[trigger] out@[k]) is Some <==> a@[k] is Some) && (
                        a@[k] is Some ==> out@[k]->0 as int == a@[k]->0 as int)),
                decreases a.len() - i,
            {
                match a[i] {
                    Some(v) => out.push(Some(v as i32)),
                    None => out.push(None),
                }
                i += 1;
            }
            Some(ColumnData::NullableInt32(out))
        },
        NativeValues::NullableUInt8(a) => {
            let mut out: Vec<Option<i32>> = Vec::new();
            let mut i: usize = 0;
            while i < a.len()
                invariant
                    i <= a.len(),
                    out@.len() == i,
                    forall|k: int|
                        0 <= k < i ==> (((#[trigger] out@[k]) is Some <==> a@[k] is Some) && (
                        a@[k] is Some ==> out@[k]->0 as int == a@[k]->0 as int)),
                decreases a.len() - i,
            {
                match a[i] {
                    Some(v) => out.push(Some(v as i32)),
                    None => out.push(None),
                }
                i += 1;
            }
            Some(ColumnData::NullableInt32(out))
        },
        NativeValues::NullableUInt16(a) => {
            let mut out: Vec<Option<i32>> = Vec::new();
            let mut i: usize = 0;
            while i < a.len()
                invariant
                    i <= a.len(),
                    out@.len() == i,
                    forall|k: int|
                        0 <= k < i ==> (((#[trigger] out@[k]) is Some <==> a@[k] is Some) && (
                        a@[k] is Some ==> out@[k]->0 as int == a@[k]->0 as int)),
                decreases a.len() - i,
            {
                match a[i] {
                    Some(v) => out.push(Some(v as i32)),
                    None => out.push(None),
                }
                i += 1;
            }
            Some(ColumnData::NullableInt32(out))
        },
        NativeValues::NullableUInt32(a) => {
            let mut out: Vec<Option<i64>> = Vec::new();
            let mut i: usize = 0;
            while i < a.len()
                invariant
                    i <= a.len(),
                    out@.len() == i,
                    forall|k: int|
                        0 <= k < i ==> (((#[trigger] out@[k]) is Some <==> a@[k] is Some) && (
                        a@[k] is Some ==> out@[k]->0 as int == a@[k]->0 as int)),
                decreases a.len() - i,
            {
                match a[i] {
                    Some(v) => out.push(Some(v as i64)),
                    None => out.push(None),
                }
                i += 1;
            }
            Some(ColumnData::NullableInt64(out))
        },
        NativeValues::NullableInt32(a) => {
            let mut out: Vec<Option<i32>> = Vec::new();
            let mut i: usize = 0;
            while i < a.len()
                invariant
                    i <= a.len(),
                    out@ == a@.take(i as int),
                decreases a.len() - i,
            {
                out.push(a[i]);
                proof {
                    assert(out@ =~= a@.take(i + 1));
                }
                i += 1;
            }
            proof {
                assert(a@.take(a@.len() as int) =~= a@);
            }
            Some(ColumnData::NullableInt32(out))
        },
        NativeValues::NullableInt64(a) => {
            let mut out: Vec<Option<i64>> = Vec::new();
            let mut i: usize = 0;
            while i < a.len()
                invariant
                    i <= a.len(),
                    out@ == a@.take(i as int),
                decreases a.len() - i,
            {
                out.push(a[i]);
                proof {
                    assert(out@ =~= a@.take(i + 1));
                }
                i += 1;
            }
            proof {
                assert(a@.take(a@.len() as int) =~= a@);
            }
            Some(ColumnData::NullableInt64(out))
        },
        NativeValues::NullableFloat32Bits(a) => {
            let mut out: Vec<Option<u32>> = Vec::new();
            let mut i: usize = 0;
            while i < a.len()
                invariant
                    i <= a.len(),
                    out@ == a@.take(i as int),
                decreases a.len() - i,
            {
                out.push(a[i]);
                proof {
                    assert(out@ =~= a@.take(i + 1));
                }
                i += 1;
            }
            proof {
                assert(a@.take(a@.len() as int) =~= a@);
            }
            Some(ColumnData::NullableFloat32Bits(out))
        },
        NativeValues::NullableFloat64Bits(a) => {
            let mut out: Vec<Option<u64>> = Vec::new();
            let mut i: usize = 0;
            while i < a.len()
                invariant
                    i <= a.len(),
                    out@ == a@.take(i as int),
                decreases a.len() - i,
            {
                out.push(a[i]);
                proof {
                    assert(out@ =~= a@.take(i + 1));
                }
                i += 1;
            }
            proof {
                assert(a@.take(a@.len() as int) =~= a@);
            }
            Some(ColumnData::NullableFloat64Bits(out))
        },
        NativeValues::NullableText(a) => {
            let mut out: Vec<Option<String>> = Vec::new();
            let mut i: usize = 0;
            while i < a.len()
                invariant
                    i <= a.len(),
                    out.deep_view() == a.deep_view().take(i as int),
                decreases a.len() - i,
            {
                let ghost prev = out.deep_view();
                let elem: Option<String> = match &a[i] {
                    Some(s) => Some(s.clone()),
                    None => None,
                };
                out.push(elem);
                proof {
                    assert(out.deep_view() =~~= prev.push(a@[i as int].deep_view()));
                    assert(a.deep_view().take(i + 1) =~~= a.deep_view().take(i as int).push(
                        a@[i as int].deep_view(),
                    ));
                }
                i += 1;
            }
            proof {
                assert(a.deep_view().take(a@.len() as int) =~~= a.deep_view());
            }
            Some(ColumnData::NullableText(out))
        },
        NativeValues::UInt64(_) => None,
        NativeValues::Date(_) => None,
        NativeValues::DateTime(_) => None,
        NativeValues::NullableUInt64(_) => None,
        NativeValues::NullableDate(_) => None,
        NativeValues::NullableDateTime(_) => None,
    }
}

/// Whether `df` is the converted form of `block`: the same column
/// count, names and row count, with every value preserved.
pub open spec fn df_matches_block(df: &DataFrame, block: &NativeBlock) -> bool {
    &&& df.columns@.len() == block.columns@.len()
    &&& forall|i: int|
        0 <= i < block.columns@.len() ==> (#[trigger] df.columns@[i].name)@
            == block.columns@[i].name@
    &&& forall|i: int|
        0 <= i < block.columns@.len() ==> converts_to(
            &block.columns@[i].values,
            &(#[trigger] df.columns@[i]).data,
        )
    &&& forall|i: int|
        0 <= i < block.columns@.len() ==> (#[trigger] df.columns@[i]).data.spec_len()
            == block.columns@[i].values.spec_len()
}

/// Whether `msg` is the conversion failure of some unmappable column of
/// the block, naming both the column and its native type.
pub open spec fn conversion_err_msg(b: &NativeBlock, msg: Seq<char>) -> bool {
    exists|i: int|
        0 <= i < b.columns@.len() && !(#[trigger] b.columns@[i].values).mappable() && msg
            == "no typed column for native type "@ + b.columns@[i].values.spec_type_label()
            + " of column: "@ + b.columns@[i].name@
}

/// Converts one native block into a typed frame, column by column.
///
/// Fails with a type-conversion error naming the first column whose
/// native type has no typed counterpart, and that native type.
#[verifier::loop_isolation(false)]
pub fn block_to_df(block: &NativeBlock) -> (r: Result<DataFrame, Error>)
    ensures
        r is Ok <==> block.spec_mappable(),
        r matches Ok(df) ==> df_matches_block(&df, block),
        r matches Ok(df) ==> (block.well_formed() ==> df.well_formed()),
        r matches Err(e) ==> e is TypeConversion && conversion_err_msg(block, e.spec_message()),
{
    let mut columns: Vec<Column> = Vec::new();
    let mut i: usize = 0;
    while i < block.columns.len()
        invariant
            i <= block.columns.len(),
            columns@.len() == i,
            forall|k: int| 0 <= k < i ==> (#[trigger] block.columns@[k].values).mappable(),
            forall|k: int|
                0 <= k < i ==> (#[trigger] columns@[k].name)@ == block.columns@[k].name@,
            forall|k: int|
                0 <= k < i ==> converts_to(
                    &block.columns@[k].values,
                    &(#[trigger] columns@[k]).data,
                ),
            forall|k: int|
                0 <= k < i ==> (#[trigger] columns@[k]).data.spec_len()
                    == block.columns@[k].values.spec_len(),
        decreases block.columns.len() - i,
    {
        match convert_values(&block.columns[i].values) {
            Some(data) => {
                columns.push(Column { name: block.columns[i].name.clone(), data });
            },
            None => {
                let msg = String::from_str("no typed column for native type ").concat(
                    block.columns[i].values.type_label(),
                ).concat(" of column: ").concat(block.columns[i].name.as_str());
                proof {
                    assert(msg@ =~= "no typed column for native type "@ + block.columns@[
                        i as int
                    ].values.spec_type_label() + " of column: "@ + block.columns@[i as int].name@);
                    assert(conversion_err_msg(block, msg@));
                }
                return Err(Error::TypeConversion(msg));
            },
        }
        i += 1;
    }
    let df = DataFrame { columns };
    proof {
        if block.well_formed() {
            assert forall|k: int| 0 <= k < df.columns@.len() implies (#[trigger] df.columns@[
                k
            ]).data.spec_len() == df.columns@[0].data.spec_len() by {
                assert(block.columns@[k].values.spec_len() == block.columns@[0].values.spec_len());
            }
        }
    }
    Ok(df)
}

/// Converts a sequence of streamed blocks, one frame per block, in
/// arrival order: block counts and ordering are preserved exactly.
#[verifier::loop_isolation(false)]
pub fn blocks_to_dataframes(blocks: &Vec<NativeBlock>) -> (r: Vec<Result<DataFrame, Error>>)
    ensures
        r@.len() == blocks@.len(),
        forall|i: int|
            0 <= i < blocks@.len() ==> ((#[trigger] r@[i]) is Ok <==> blocks@[i].spec_mappable()),
        forall|i: int|
            0 <= i < blocks@.len() ==> ((#[trigger] r@[i]) matches Ok(df) ==> df_matches_block(
                &df,
                &blocks@[i],
            )),
        forall|i: int|
            0 <= i < blocks@.len() ==> ((#[trigger] r@[i]) matches Err(e) ==> e
                is TypeConversion && conversion_err_msg(&blocks@[i], e.spec_message())),
{
    let mut out: Vec<Result<DataFrame, Error>> = Vec::new();
    let mut i: usize = 0;
    while i < blocks.len()
        invariant
            i <= blocks.len(),
            out@.len() == i,
            forall|k: int|
                0 <= k < i ==> ((#[trigger] out@[k]) is Ok <==> blocks@[k].spec_mappable()),
            forall|k: int|
                0 <= k < i ==> ((#[trigger] out@[k]) matches Ok(df) ==> df_matches_block(
                    &df,
                    &blocks@[k],
                )),
            forall|k: int|
                0 <= k < i ==> ((#[trigger] out@[k]) matches Err(e) ==> e is TypeConversion
                    && conversion_err_msg(&blocks@[k], e.spec_message())),
        decreases blocks.len() - i,
    {
        out.push(block_to_df(&blocks[i]));
        i += 1;
    }
    out
}

/// The position of the first string of `ss` equal to `w`, or `-1`.
pub open spec fn first_index(ss: Seq<Seq<char>>, w: Seq<char>) -> int
    decreases ss.len(),
{
    if ss.len() == 0 {
        -1
    } else if ss[0] == w {
        0
    } else {
        let r = first_index(ss.skip(1), w);
        if r == -1 {
            -1
        } else {
            r + 1
        }
    }
}

proof fn lemma_first_index_range(ss: Seq<Seq<char>>, w: Seq<char>)
    ensures
        -1 <= first_index(ss, w) < ss.len(),
    decreases ss.len(),
{
    if ss.len() > 0 && ss[0] != w {
        lemma_first_index_range(ss.skip(1), w);
    }
}

/// Whether the advisory privilege check must warn.
///
/// The session settings arrive as parallel name and value lists. The
/// connection looks read-only exactly when both the `readonly` and
/// `allow_ddl` settings are present and not configured writable; in
/// every other case — a missing setting, a short value list, or
/// writable values — the caller should log a warning. The check itself
/// never fails.
pub open spec fn spec_needs_warning(names: Seq<Seq<char>>, values: Seq<Seq<char>>) -> bool {
    let ri = first_index(names, "readonly"@);
    let ai = first_index(names, "allow_ddl"@);
    if ri >= 0 && ai >= 0 {
        if ri < values.len() && ai < values.len() {
            values[ri] != "1"@ && values[ai] != "0"@
        } else {
            true
        }
    } else {
        true
    }
}

/// Scans for the first occurrence of `w` among `names`.
#[verifier::loop_isolation(false)]
fn index_of(names: &Vec<String>, w: &str) -> (r: Option<usize>)
    ensures
        r matches Some(i) ==> first_index(names.deep_view(), w@) == i,
        r is None ==> first_index(names.deep_view(), w@) == -1,
{
    let wanted = w.to_owned();
    let ghost ns = names.deep_view();
    let mut i: usize = 0;
    proof {
        assert(ns.skip(0) =~= ns);
    }
    while i < names.len()
        invariant
            i <= names.len(),
            first_index(ns, w@) == (if first_index(ns.skip(i as int), w@) == -1 {
                -1int
            } else {
                first_index(ns.skip(i as int), w@) + i
            }),
        decreases names.len() - i,
    {
        proof {
            assert(ns.skip(i as int)[0] == ns[i as int]);
        }
        proof {
            assert(ns[i as int] == names@[i as int]@);
        }
        if names[i].eq(&wanted) {
            return Some(i);
        }
        proof {
            assert(ns.skip(i as int).skip(1) =~= ns.skip(i + 1));
            assert(ns.skip(i as int)[0] != w@);
            lemma_first_index_range(ns.skip(i + 1), w@);
        }
        i += 1;
    }
    proof {
        assert(ns.skip(names@.len() as int) =~= Seq::<Seq<char>>::empty());
    }
    None
}

/// Decides the advisory privilege check from the session settings the
/// backend reported. `true` means the caller should log the
/// write-access warning; the enclosing call succeeds either way.
pub fn check_user_settings(names: &Vec<String>, values: &Vec<String>) -> (warn: bool)
    ensures
        warn == spec_needs_warning(names.deep_view(), values.deep_view()),
{
    let ri = match index_of(names, "readonly") {
        Some(i) => i,
        None => {
            return true;
        },
    };
    let ai = match index_of(names, "allow_ddl") {
        Some(i) => i,
        None => {
            return true;
        },
    };
    if ri >= values.len() || ai >= values.len() {
        return true;
    }
    let one = String::from_str("1");
    let zero = String::from_str("0");
    let rd_readonly = values[ri].eq(&one);
    let ad_disabled = values[ai].eq(&zero);
    proof {
        assert(values.deep_view()[ri as int] == values@[ri as int]@);
        assert(values.deep_view()[ai as int] == values@[ai as int]@);
    }
    !rd_readonly && !ad_disabled
}

} // verus!
