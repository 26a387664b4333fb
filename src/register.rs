use vstd::prelude::*;

use crate::cpu::CpuError;

verus! {

/// The number of registers in the register file.
pub const REGISTER_COUNT: usize = 12;

/// The registers of the CPU, each holding a 16-bit value.
#[derive(Debug, Copy, Clone, PartialEq, Eq, Structural)]
pub enum Register {
    /// Instruction pointer: the address of the next byte to fetch.
    IP,
    /// Accumulator: where most arithmetic results land.
    ACC,
    R1,
    R2,
    R3,
    R4,
    R5,
    R6,
    R7,
    R8,
    /// Stack pointer: the slot the next pop reads from.
    SP,
    /// Base pointer: the frame base set up by a callee.
    BP,
}

/// Whether `c` is the letter `upper` written in either case (or `upper` itself
/// when it is no letter).
pub open spec fn same_letter(c: char, upper: char) -> bool {
    c == upper || (65 <= upper as u32 <= 90 && c as u32 == upper as u32 + 32)
}

/// Whether `s` spells `name` with ASCII case ignored.
#[verifier::opaque]
pub open spec fn names_match(s: Seq<char>, name: Seq<char>) -> bool {
    s.len() == name.len() && forall|i: int| 0 <= i < s.len() ==> same_letter(s[i], name[i])
}

/// The register that `s` names, ignoring ASCII case.
pub open spec fn register_named(s: Seq<char>) -> Option<Register> {
    if names_match(s, Register::IP.name_spec()) {
        Some(Register::IP)
    } else if names_match(s, Register::ACC.name_spec()) {
        Some(Register::ACC)
    } else if names_match(s, Register::R1.name_spec()) {
        Some(Register::R1)
    } else if names_match(s, Register::R2.name_spec()) {
        Some(Register::R2)
    } else if names_match(s, Register::R3.name_spec()) {
        Some(Register::R3)
    } else if names_match(s, Register::R4.name_spec()) {
        Some(Register::R4)
    } else if names_match(s, Register::R5.name_spec()) {
        Some(Register::R5)
    } else if names_match(s, Register::R6.name_spec()) {
        Some(Register::R6)
    } else if names_match(s, Register::R7.name_spec()) {
        Some(Register::R7)
    } else if names_match(s, Register::R8.name_spec()) {
        Some(Register::R8)
    } else if names_match(s, Register::SP.name_spec()) {
        Some(Register::SP)
    } else if names_match(s, Register::BP.name_spec()) {
        Some(Register::BP)
    } else {
        None
    }
}

/// Whether `s` spells `name` with ASCII case ignored.
pub(crate) fn matches_name(s: &str, name: &str) -> (r: bool)
    ensures
        r == names_match(s@, name@),
{
    reveal(names_match);
    let n = s.unicode_len();
    if n != name.unicode_len() {
        return false;
    }
    let mut i: usize = 0;
    while i < n
        invariant
            n == s@.len(),
            n == name@.len(),
            i <= n,
            forall|j: int| 0 <= j < i ==> same_letter(s@[j], name@[j]),
        decreases n - i,
    {
        reveal(names_match);
        let c = s.get_char(i);
        let u = name.get_char(i);
        if !(c == u || (65 <= u as u32 && u as u32 <= 90 && c as u32 == u as u32 + 32)) {
            return false;
        }
        i = i + 1;
    }
    true
}

impl Register {
    /// The position of the register in the register file.
    pub open spec fn index(self) -> int {
        match self {
            Register::IP => 0,
            Register::ACC => 1,
            Register::R1 => 2,
            Register::R2 => 3,
            Register::R3 => 4,
            Register::R4 => 5,
            Register::R5 => 6,
            Register::R6 => 7,
            Register::R7 => 8,
            Register::R8 => 9,
            Register::SP => 10,
            Register::BP => 11,
        }
    }

    /// The register's name, in upper case.
    pub open spec fn name_spec(self) -> Seq<char> {
        match self {
            Register::IP => seq!['I', 'P'],
            Register::ACC => seq!['A', 'C', 'C'],
            Register::R1 => seq!['R', '1'],
            Register::R2 => seq!['R', '2'],
            Register::R3 => seq!['R', '3'],
            Register::R4 => seq!['R', '4'],
            Register::R5 => seq!['R', '5'],
            Register::R6 => seq!['R', '6'],
            Register::R7 => seq!['R', '7'],
            Register::R8 => seq!['R', '8'],
            Register::SP => seq!['S', 'P'],
            Register::BP => seq!['B', 'P'],
        }
    }

    /// The position of the register in the register file.
    pub fn to_index(&self) -> (r: usize)
        ensures
            r == self.index(),
            r < REGISTER_COUNT,
    {
        match self {
            Register::IP => 0,
            Register::ACC => 1,
            Register::R1 => 2,
            Register::R2 => 3,
            Register::R3 => 4,
            Register::R4 => 5,
            Register::R5 => 6,
            Register::R6 => 7,
            Register::R7 => 8,
            Register::R8 => 9,
            Register::SP => 10,
            Register::BP => 11,
        }
    }

    /// The register's name, in upper case.
    pub fn name(&self) -> (r: &'static str)
        ensures
            r@ == self.name_spec(),
    {
        match self {
            Register::IP => {
                proof {
                    reveal_strlit("IP");
                }
                "IP"
            },
            Register::ACC => {
                proof {
                    reveal_strlit("ACC");
                }
                "ACC"
            },
            Register::R1 => {
                proof {
                    reveal_strlit("R1");
                }
                "R1"
            },
            Register::R2 => {
                proof {
                    reveal_strlit("R2");
                }
                "R2"
            },
            Register::R3 => {
                proof {
                    reveal_strlit("R3");
                }
                "R3"
            },
            Register::R4 => {
                proof {
                    reveal_strlit("R4");
                }
                "R4"
            },
            Register::R5 => {
                proof {
                    reveal_strlit("R5");
                }
                "R5"
            },
            Register::R6 => {
                proof {
                    reveal_strlit("R6");
                }
                "R6"
            },
            Register::R7 => {
                proof {
                    reveal_strlit("R7");
                }
                "R7"
            },
            Register::R8 => {
                proof {
                    reveal_strlit("R8");
                }
                "R8"
            },
            Register::SP => {
                proof {
                    reveal_strlit("SP");
                }
                "SP"
            },
            Register::BP => {
                proof {
                    reveal_strlit("BP");
                }
                "BP"
            },
        }
    }

    /// The register that `s` names, with ASCII case ignored; an error that holds
    /// `s` when it names none.
    pub fn from_name(s: &str) -> (r: Result<Register, CpuError>)
        ensures
            r matches Ok(reg) ==> register_named(s@) == Some(reg),
            r matches Err(e) ==> (e matches CpuError::InvalidRegister(t) && t@ == s@),
            r.is_ok() == register_named(s@).is_some(),
    {
        if matches_name(s, Register::IP.name()) {
            return Ok(Register::IP);
        }
        if matches_name(s, Register::ACC.name()) {
            return Ok(Register::ACC);
        }
        if matches_name(s, Register::R1.name()) {
            return Ok(Register::R1);
        }
        if matches_name(s, Register::R2.name()) {
            return Ok(Register::R2);
        }
        if matches_name(s, Register::R3.name()) {
            return Ok(Register::R3);
        }
        if matches_name(s, Register::R4.name()) {
            return Ok(Register::R4);
        }
        if matches_name(s, Register::R5.name()) {
            return Ok(Register::R5);
        }
        if matches_name(s, Register::R6.name()) {
            return Ok(Register::R6);
        }
        if matches_name(s, Register::R7.name()) {
            return Ok(Register::R7);
        }
        if matches_name(s, Register::R8.name()) {
            return Ok(Register::R8);
        }
        if matches_name(s, Register::SP.name()) {
            return Ok(Register::SP);
        }
        if matches_name(s, Register::BP.name()) {
            return Ok(Register::BP);
        }
        Err(CpuError::InvalidRegister(s.to_owned()))
    }
}

impl std::str::FromStr for Register {
    type Err = CpuError;

    fn from_str(s: &str) -> Result<Self, Self::Err> {
        Register::from_name(s)
    }
}

} // verus!
