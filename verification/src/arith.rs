use vstd::prelude::*;

verus! {

/// Byte addition under the wrapping policy: an overflowing sum comes back
/// reduced by one full byte range.
pub fn wrapping_add_u8(x: u8, y: u8) -> (r: u8)
    ensures
        x + y <= u8::MAX ==> r == x + y,
        x + y > u8::MAX ==> r == x + y - 256,
{
    x.wrapping_add(y)
}

/// Byte addition under the checked policy: an overflowing sum comes back as
/// nothing at all.
pub fn checked_add_u8(x: u8, y: u8) -> (r: Option<u8>)
    ensures
        r == if x + y > u8::MAX {
            None
        } else {
            Some((x + y) as u8)
        },
{
    x.checked_add(y)
}

/// Byte addition under the saturating policy: an overflowing sum comes back
/// pinned to the largest byte.
pub fn saturating_add_u8(x: u8, y: u8) -> (r: u8)
    ensures
        r == if x + y > u8::MAX {
            u8::MAX
        } else {
            (x + y) as u8
        },
{
    x.saturating_add(y)
}

/// Byte addition under the overflowing policy: the wrapped sum together
/// with a flag telling whether it wrapped.
pub fn overflowing_add_u8(x: u8, y: u8) -> (r: (u8, bool))
    ensures
        r.1 == (x + y > u8::MAX),
        x + y <= u8::MAX ==> r.0 == x + y,
        x + y > u8::MAX ==> r.0 == x + y - 256,
{
    match x.checked_add(y) {
        Some(s) => (s, false),
        None => (x.wrapping_add(y), true),
    }
}

} // verus!
