//! The general-purpose pins: three bits for every pin say what it does, ten
//! pins to a register.

use vstd::prelude::*;

verus! {

/// The number of pins.
pub const PINS: usize = 54;

#[derive(Copy, Clone, PartialEq, Eq, Structural, Debug)]
pub enum FunctionSelect {
    Input,
    Output,
    Function0,
    Function1,
    Function2,
    Function3,
    Function4,
    Function5,
}

impl FunctionSelect {
    /// The three bits that select the function.
    pub open spec fn spec_bits(self) -> u32 {
        match self {
            FunctionSelect::Input => 0b000,
            FunctionSelect::Output => 0b001,
            FunctionSelect::Function0 => 0b100,
            FunctionSelect::Function1 => 0b101,
            FunctionSelect::Function2 => 0b110,
            FunctionSelect::Function3 => 0b111,
            FunctionSelect::Function4 => 0b011,
            FunctionSelect::Function5 => 0b010,
        }
    }

    pub fn bits(self) -> (b: u32)
        ensures
            b == self.spec_bits(),
            b < 8,
    {
        match self {
            FunctionSelect::Input => 0b000,
            FunctionSelect::Output => 0b001,
            FunctionSelect::Function0 => 0b100,
            FunctionSelect::Function1 => 0b101,
            FunctionSelect::Function2 => 0b110,
            FunctionSelect::Function3 => 0b111,
            FunctionSelect::Function4 => 0b011,
            FunctionSelect::Function5 => 0b010,
        }
    }
}

/// The function that the three bits `fs` select.
pub fn to_func_select(fs: u32) -> (f: FunctionSelect)
    requires
        fs < 8,
    ensures
        f.spec_bits() == fs,
{
    match fs {
        0b000 => FunctionSelect::Input,
        0b001 => FunctionSelect::Output,
        0b100 => FunctionSelect::Function0,
        0b101 => FunctionSelect::Function1,
        0b110 => FunctionSelect::Function2,
        0b111 => FunctionSelect::Function3,
        0b011 => FunctionSelect::Function4,
        _ => FunctionSelect::Function5,
    }
}

/// The register of `pin`, and the place of its three bits there.
pub fn pin_place(pin: usize) -> (r: (usize, u32))
    requires
        pin < PINS,
    ensures
        r.0 == pin / 10,
        r.1 == 3 * (pin % 10),
        r.0 < 6,
        r.1 <= 27,
{
    (pin / 10, (3 * (pin % 10)) as u32)
}

/// The register word `fs` with the bits of `pin` set to select `func`, and
/// the bits of the other pins as they were.
pub fn update_fs(pin: usize, fs: u32, func: FunctionSelect) -> (r: u32)
    requires
        pin < PINS,
    ensures
        r == (fs & !(7u32 << (3 * (pin % 10)) as u32)) | (func.spec_bits() << (3 * (pin % 10)) as u32),
{
    let shift = pin_place(pin).1;
    let mut word = fs;
    word = word & !(0b111u32 << shift);
    word = word | (func.bits() << shift);
    word
}

/// The function that the register word `fs` selects for `pin`.
pub fn read_fs(pin: usize, fs: u32) -> (f: FunctionSelect)
    requires
        pin < PINS,
    ensures
        f.spec_bits() == (fs >> (3 * (pin % 10)) as u32) & 7,
{
    let shift = pin_place(pin).1;
    let bits = (fs >> shift) & 0b111;
    assert(bits < 8) by (bit_vector)
        requires
            bits == (fs >> shift) & 7,
    ;
    to_func_select(bits)
}

/// A function that was selected for a pin is the one that is read back.
pub proof fn law_update_then_read_fs(pin: usize, fs: u32, func: FunctionSelect)
    requires
        pin < PINS,
    ensures
        (((fs & !(7u32 << (3 * (pin % 10)) as u32)) | (func.spec_bits() << (3 * (pin % 10)) as u32))
            >> (3 * (pin % 10)) as u32) & 7 == func.spec_bits(),
{
    let shift = (3 * (pin % 10)) as u32;
    let bits = func.spec_bits();
    assert((((fs & !(7u32 << shift)) | (bits << shift)) >> shift) & 7 == bits) by (bit_vector)
        requires
            shift <= 27,
            bits < 8,
    ;
}

} // verus!
