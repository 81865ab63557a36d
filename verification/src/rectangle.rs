//! A rectangle record whose layout grew a field, and the step that brings a
//! record of the old layout up to date.

use vstd::prelude::*;
use vstd::slice::slice_subrange;
use crate::error::EngineError;

verus! {

/// A rectangle in the current layout.
#[derive(Clone, Copy, Debug, PartialEq, Eq, Structural)]
pub struct RectangleCurrent {
    pub width: u32,
    pub height: u32,
    pub area: u32,
    pub perimeter: u32,
}

/// A rectangle in the layout that had no perimeter.
#[derive(Clone, Copy, Debug, PartialEq, Eq, Structural)]
pub struct RectangleOld {
    pub width: u32,
    pub height: u32,
    pub area: u32,
}

impl RectangleCurrent {
    /// Width times height.
    pub fn area(&self) -> (area: u32)
        requires
            self.width * self.height <= u32::MAX,
        ensures
            area == self.width * self.height,
    {
        self.width * self.height
    }

    /// Twice the sum of width and height.
    pub fn perimeter(&self) -> (perimeter: u32)
        requires
            (self.width + self.height) * 2 <= u32::MAX,
        ensures
            perimeter == (self.width + self.height) * 2,
    {
        (self.width + self.height) * 2
    }
}

/// The number that four bytes spell, lowest byte first.
pub open spec fn le_u32(bytes: Seq<u8>) -> int
    recommends
        bytes.len() >= 4,
{
    bytes[0] + bytes[1] * 0x100 + bytes[2] * 0x1_0000 + bytes[3] * 0x100_0000
}

/// The number at the head of `input` and the bytes behind it;
/// `MalformedInstruction` where fewer than four bytes are left.
pub open spec fn split_u32(input: Seq<u8>) -> Result<(int, Seq<u8>), EngineError> {
    if input.len() < 4 {
        Err(EngineError::MalformedInstruction)
    } else {
        Ok((le_u32(input), input.skip(4)))
    }
}

/// Splits a number of four bytes, lowest byte first, off the head of `input`.
pub fn unpack_u32(input: &[u8]) -> (unpacked: Result<(u32, &[u8]), EngineError>)
    ensures
        match unpacked {
            Ok((value, rest)) => split_u32(input@) == Ok::<(int, Seq<u8>), EngineError>(
                (value as int, rest@),
            ),
            Err(e) => split_u32(input@) == Err::<(int, Seq<u8>), EngineError>(e),
        },
{
    if input.len() < 4 {
        return Err(EngineError::MalformedInstruction);
    }
    let b0: u32 = input[0] as u32;
    let b1: u32 = input[1] as u32;
    let b2: u32 = input[2] as u32;
    let b3: u32 = input[3] as u32;
    let value: u32 = b0 + b1 * 0x100 + b2 * 0x1_0000 + b3 * 0x100_0000;
    let rest = slice_subrange(input, 4, input.len());
    assert(rest@ =~= input@.skip(4));
    Ok((value, rest))
}

/// Brings a record of the old layout into the current one. The fields that
/// both layouts have are kept; the perimeter starts at zero.
pub fn conversion_logic(old_rectangle: &RectangleOld) -> (current: RectangleCurrent)
    ensures
        current == (RectangleCurrent {
            width: old_rectangle.width,
            height: old_rectangle.height,
            area: old_rectangle.area,
            perimeter: 0,
        }),
{
    RectangleCurrent {
        width: old_rectangle.width,
        height: old_rectangle.height,
        area: old_rectangle.area,
        perimeter: 0,
    }
}

/// Brings a record of the old layout up to date: converted, and with its
/// perimeter worked out.
pub fn upgrade(old_rectangle: &RectangleOld) -> (current: RectangleCurrent)
    requires
        (old_rectangle.width + old_rectangle.height) * 2 <= u32::MAX,
    ensures
        current == (RectangleCurrent {
            width: old_rectangle.width,
            height: old_rectangle.height,
            area: old_rectangle.area,
            perimeter: ((old_rectangle.width + old_rectangle.height) * 2) as u32,
        }),
{
    let mut current = conversion_logic(old_rectangle);
    current.perimeter = current.perimeter();
    current
}

/// Gives a record its sides, and the area and perimeter that follow from
/// them.
pub fn initialize(rectangle: &mut RectangleCurrent, a: u32, b: u32)
    requires
        a * b <= u32::MAX,
        (a + b) * 2 <= u32::MAX,
    ensures
        *final(rectangle) == (RectangleCurrent {
            width: a,
            height: b,
            area: (a * b) as u32,
            perimeter: ((a + b) * 2) as u32,
        }),
{
    rectangle.width = a;
    rectangle.height = b;
    rectangle.area = rectangle.area();
    rectangle.perimeter = rectangle.perimeter();
}

} // verus!
