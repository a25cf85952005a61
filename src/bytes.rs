use vstd::prelude::*;
use crate::tree::{Field, FieldModel, FieldValue, ValueModel};

verus! {

/// The big-endian unsigned integer of `width` bytes (1, 2 or 4) at `at`.
pub open spec fn be_value(s: Seq<u8>, at: int, width: int) -> int {
    if width == 1 {
        s[at] as int
    } else if width == 2 {
        s[at] as int * 256 + s[at + 1] as int
    } else {
        ((s[at] as int * 256 + s[at + 1] as int) * 256 + s[at + 2] as int) * 256 + s[at + 3] as int
    }
}

/// Reads the big-endian integer of `width` bytes at `at`.
pub fn read_be(data: &[u8], at: usize, width: usize) -> (r: u64)
    requires
        width == 1 || width == 2 || width == 4,
        at + width <= data@.len(),
    ensures
        r as int == be_value(data@, at as int, width as int),
{
    if width == 1 {
        data[at] as u64
    } else if width == 2 {
        data[at] as u64 * 256 + data[at + 1] as u64
    } else {
        ((data[at] as u64 * 256 + data[at + 1] as u64) * 256 + data[at + 2] as u64) * 256
            + data[at + 3] as u64
    }
}

/// Copies `data[start..end]`.
pub fn copy_range(data: &[u8], start: usize, end: usize) -> (r: Vec<u8>)
    requires
        start <= end <= data@.len(),
    ensures
        r@ == data@.subrange(start as int, end as int),
{
    let mut r: Vec<u8> = Vec::new();
    let mut i: usize = start;
    while i < end
        invariant
            start <= i <= end <= data@.len(),
            r@ == data@.subrange(start as int, i as int),
        decreases end - i,
    {
        r.push(data[i]);
        i = i + 1;
        assert(r@ =~= data@.subrange(start as int, i as int));
    }
    r
}

/// The model of an integer field read from the frame.
pub open spec fn uint_model(name: Seq<char>, s: Seq<u8>, at: int, width: int) -> FieldModel {
    FieldModel { name, value: ValueModel::Uint(be_value(s, at, width)), start: at, end: at + width }
}

/// The model of a field that holds the frame's bytes `[start, end)`.
pub open spec fn bytes_model(name: Seq<char>, s: Seq<u8>, start: int, end: int) -> FieldModel {
    FieldModel { name, value: ValueModel::Bytes(s.subrange(start, end)), start, end }
}

/// A field holding the big-endian integer of `width` bytes at `at`.
pub fn uint_field(name: &str, data: &[u8], at: usize, width: usize) -> (f: Field)
    requires
        width == 1 || width == 2 || width == 4,
        at + width <= data@.len(),
    ensures
        f@ == uint_model(name@, data@, at as int, width as int),
{
    let _len = data.len();
    Field { name: String::from_str(name), value: FieldValue::Uint(read_be(data, at, width)), start: at, end: at + width }
}

/// A field holding the frame's bytes `[start, end)`.
pub fn bytes_field(name: &str, data: &[u8], start: usize, end: usize) -> (f: Field)
    requires
        start <= end <= data@.len(),
    ensures
        f@ == bytes_model(name@, data@, start as int, end as int),
{
    Field { name: String::from_str(name), value: FieldValue::Bytes(copy_range(data, start, end)), start, end }
}

} // verus!
