use vstd::prelude::*;

verus! {

/// The graphics API's enumerant for texture unit 0; the units that follow
/// have the numbers that follow.
pub const TEXTURE0: u32 = 0x84C0;

/// The number of texture units that the viewer supports.
pub const TEXTURE_UNITS: i32 = 16;

/// The graphics API's enumerant for a texture unit.
pub fn unit_to_gl_const(unit: i32) -> (r: u32)
    requires
        0 <= unit < TEXTURE_UNITS,
    ensures
        r == TEXTURE0 + unit,
{
    TEXTURE0 + unit as u32
}

} // verus!
