use vstd::prelude::*;

verus! {

/// The sixteen register names of the 16-bit instruction set.
///
/// Eight word-sized slots exist; the byte names alias their low or high half.
#[derive(Debug, Clone, Copy, PartialEq, Eq, Structural)]
pub enum Register {
    Al,
    Cl,
    Dl,
    Bl,
    Ah,
    Ch,
    Dh,
    Bh,
    Ax,
    Cx,
    Dx,
    Bx,
    Sp,
    Bp,
    Si,
    Di,
}

/// The register named by a 3-bit code, read as a byte register when `w == 0`
/// and as a word register when `w == 1`.
pub open spec fn reg_of_code(reg: u8, w: u8) -> Register {
    if w == 0 {
        if reg == 0 {
            Register::Al
        } else if reg == 1 {
            Register::Cl
        } else if reg == 2 {
            Register::Dl
        } else if reg == 3 {
            Register::Bl
        } else if reg == 4 {
            Register::Ah
        } else if reg == 5 {
            Register::Ch
        } else if reg == 6 {
            Register::Dh
        } else {
            Register::Bh
        }
    } else {
        if reg == 0 {
            Register::Ax
        } else if reg == 1 {
            Register::Cx
        } else if reg == 2 {
            Register::Dx
        } else if reg == 3 {
            Register::Bx
        } else if reg == 4 {
            Register::Sp
        } else if reg == 5 {
            Register::Bp
        } else if reg == 6 {
            Register::Si
        } else {
            Register::Di
        }
    }
}

/// The base registers of an effective address, from the low three bits of the
/// addressing byte; code `110` means a direct address (no base) in mode `00`
/// and `BP` in every other mode.
pub open spec fn base_registers(rm: u8) -> [Option<Register>; 2] {
    let code = rm % 8;
    if code == 0 {
        [Some(Register::Bx), Some(Register::Si)]
    } else if code == 1 {
        [Some(Register::Bx), Some(Register::Di)]
    } else if code == 2 {
        [Some(Register::Bp), Some(Register::Si)]
    } else if code == 3 {
        [Some(Register::Bp), Some(Register::Di)]
    } else if code == 4 {
        [Some(Register::Si), None]
    } else if code == 5 {
        [Some(Register::Di), None]
    } else if code == 6 {
        if rm / 64 == 0 {
            [None, None]
        } else {
            [Some(Register::Bp), None]
        }
    } else {
        [Some(Register::Bx), None]
    }
}

/// The assembler name of a register.
pub open spec fn register_name(r: Register) -> Seq<char> {
    match r {
        Register::Al => "al"@,
        Register::Cl => "cl"@,
        Register::Dl => "dl"@,
        Register::Bl => "bl"@,
        Register::Ah => "ah"@,
        Register::Ch => "ch"@,
        Register::Dh => "dh"@,
        Register::Bh => "bh"@,
        Register::Ax => "ax"@,
        Register::Cx => "cx"@,
        Register::Dx => "dx"@,
        Register::Bx => "bx"@,
        Register::Sp => "sp"@,
        Register::Bp => "bp"@,
        Register::Si => "si"@,
        Register::Di => "di"@,
    }
}

impl Register {
    /// Decodes a 3-bit register code under the width bit `w`.
    pub fn decode_reg(reg: u8, w: u8) -> (r: Register)
        requires
            reg < 8,
            w < 2,
        ensures
            r == reg_of_code(reg, w),
    {
        if w == 0 {
            match reg {
                0 => Register::Al,
                1 => Register::Cl,
                2 => Register::Dl,
                3 => Register::Bl,
                4 => Register::Ah,
                5 => Register::Ch,
                6 => Register::Dh,
                _ => Register::Bh,
            }
        } else {
            match reg {
                0 => Register::Ax,
                1 => Register::Cx,
                2 => Register::Dx,
                3 => Register::Bx,
                4 => Register::Sp,
                5 => Register::Bp,
                6 => Register::Si,
                _ => Register::Di,
            }
        }
    }

    /// The base registers that an addressing byte selects for a memory operand.
    pub fn effective_address_calculation(rm: u8) -> (r: [Option<Register>; 2])
        ensures
            r == base_registers(rm),
    {
        let code = rm & 0b111;
        assert(code == rm % 8) by (bit_vector)
            requires
                code == rm & 0b111,
        ;
        let mode = rm & 0b1100_0000;
        assert((mode == 0) == (rm / 64 == 0)) by (bit_vector)
            requires
                mode == rm & 0b1100_0000,
        ;
        match code {
            0 => [Some(Register::Bx), Some(Register::Si)],
            1 => [Some(Register::Bx), Some(Register::Di)],
            2 => [Some(Register::Bp), Some(Register::Si)],
            3 => [Some(Register::Bp), Some(Register::Di)],
            4 => [Some(Register::Si), None],
            5 => [Some(Register::Di), None],
            6 => if mode == 0 {
                [None, None]
            } else {
                [Some(Register::Bp), None]
            },
            _ => [Some(Register::Bx), None],
        }
    }

    /// The assembler name of this register.
    pub fn name(&self) -> (s: &'static str)
        ensures
            s@ == register_name(*self),
    {
        match self {
            Register::Al => "al",
            Register::Cl => "cl",
            Register::Dl => "dl",
            Register::Bl => "bl",
            Register::Ah => "ah",
            Register::Ch => "ch",
            Register::Dh => "dh",
            Register::Bh => "bh",
            Register::Ax => "ax",
            Register::Cx => "cx",
            Register::Dx => "dx",
            Register::Bx => "bx",
            Register::Sp => "sp",
            Register::Bp => "bp",
            Register::Si => "si",
            Register::Di => "di",
        }
    }
}

} // verus!
