use vstd::prelude::*;
use vstd::string::*;

use crate::register::Register;

verus! {

/// The upper-case hexadecimal digits.
pub open spec fn hex_chars() -> Seq<char> {
    seq!['0', '1', '2', '3', '4', '5', '6', '7', '8', '9', 'A', 'B', 'C', 'D', 'E', 'F']
}

/// The hexadecimal digit of `d`.
pub open spec fn hex_char(d: nat) -> char {
    hex_chars()[d as int]
}

/// `v` in upper-case hexadecimal, without leading zeros (`0` for zero).
pub open spec fn hex(v: nat) -> Seq<char>
    decreases v,
{
    if v < 16 {
        seq![hex_char(v)]
    } else {
        hex(v / 16) + seq![hex_char(v % 16)]
    }
}

/// The last `n` hexadecimal digits of `v`, upper case, padded with zeros.
pub open spec fn hex_padded(v: nat, n: nat) -> Seq<char>
    decreases n,
{
    if n == 0 {
        Seq::empty()
    } else {
        hex_padded(v / 16, (n - 1) as nat) + seq![hex_char(v % 16)]
    }
}

/// The digit of `d` as a string.
fn hex_digit(d: u16) -> (r: &'static str)
    requires
        d < 16,
    ensures
        r@ == seq![hex_char(d as nat)],
{
    match d {
        0 => {
            proof {
                reveal_strlit("0");
            }
            "0"
        },
        1 => {
            proof {
                reveal_strlit("1");
            }
            "1"
        },
        2 => {
            proof {
                reveal_strlit("2");
            }
            "2"
        },
        3 => {
            proof {
                reveal_strlit("3");
            }
            "3"
        },
        4 => {
            proof {
                reveal_strlit("4");
            }
            "4"
        },
        5 => {
            proof {
                reveal_strlit("5");
            }
            "5"
        },
        6 => {
            proof {
                reveal_strlit("6");
            }
            "6"
        },
        7 => {
            proof {
                reveal_strlit("7");
            }
            "7"
        },
        8 => {
            proof {
                reveal_strlit("8");
            }
            "8"
        },
        9 => {
            proof {
                reveal_strlit("9");
            }
            "9"
        },
        10 => {
            proof {
                reveal_strlit("A");
            }
            "A"
        },
        11 => {
            proof {
                reveal_strlit("B");
            }
            "B"
        },
        12 => {
            proof {
                reveal_strlit("C");
            }
            "C"
        },
        13 => {
            proof {
                reveal_strlit("D");
            }
            "D"
        },
        14 => {
            proof {
                reveal_strlit("E");
            }
            "E"
        },
        _ => {
            proof {
                reveal_strlit("F");
            }
            "F"
        },
    }
}

/// Appends `v` in upper-case hexadecimal, without leading zeros.
pub fn push_hex(out: &mut String, v: u16)
    ensures
        final(out)@ == old(out)@ + hex(v as nat),
    decreases v,
{
    if v >= 16 {
        push_hex(out, v / 16);
    }
    out.append(hex_digit(v % 16));
    assert(final(out)@ =~= old(out)@ + hex(v as nat));
}

/// Appends the last `n` hexadecimal digits of `v`, padded with zeros.
pub fn push_hex_padded(out: &mut String, v: u16, n: u16)
    ensures
        final(out)@ == old(out)@ + hex_padded(v as nat, n as nat),
    decreases n,
{
    if n > 0 {
        push_hex_padded(out, v / 16, n - 1);
        out.append(hex_digit(v % 16));
    }
    assert(final(out)@ =~= old(out)@ + hex_padded(v as nat, n as nat));
}

/// The registers in the order the register file holds them.
pub open spec fn register_order() -> Seq<Register> {
    seq![
        Register::IP,
        Register::ACC,
        Register::R1,
        Register::R2,
        Register::R3,
        Register::R4,
        Register::R5,
        Register::R6,
        Register::R7,
        Register::R8,
        Register::SP,
        Register::BP,
    ]
}

/// The register at position `i` of the register file.
pub fn register_at(i: usize) -> (r: Register)
    requires
        i < 12,
    ensures
        r == register_order()[i as int],
        r.index() == i,
{
    match i {
        0 => Register::IP,
        1 => Register::ACC,
        2 => Register::R1,
        3 => Register::R2,
        4 => Register::R3,
        5 => Register::R4,
        6 => Register::R5,
        7 => Register::R6,
        8 => Register::R7,
        9 => Register::R8,
        10 => Register::SP,
        _ => Register::BP,
    }
}

/// One register's part of the register line: `NAME: 0xV`.
pub open spec fn register_entry(r: Register, v: u16) -> Seq<char> {
    r.name_spec() + seq![':', ' ', '0', 'x'] + hex(v as nat)
}

/// The first `n` registers' entries, separated by `, `.
pub open spec fn register_line(regs: Seq<u16>, n: nat) -> Seq<char>
    decreases n,
{
    if n == 0 {
        Seq::empty()
    } else if n == 1 {
        register_entry(register_order()[0], regs[0])
    } else {
        register_line(regs, (n - 1) as nat) + seq![',', ' '] + register_entry(
            register_order()[n - 1],
            regs[n - 1],
        )
    }
}

/// The bytes, each written ` 0xBB`.
pub open spec fn byte_list(bs: Seq<u8>) -> Seq<char>
    decreases bs.len(),
{
    if bs.len() == 0 {
        Seq::empty()
    } else {
        byte_list(bs.drop_last()) + seq![' ', '0', 'x'] + hex_padded(bs.last() as nat, 2)
    }
}

/// The dump of memory at `addr`: `0xAAAA:` and then up to eight bytes from
/// `addr` on, fewer where memory ends.
pub open spec fn dump_line(mem: Seq<u8>, addr: int) -> Seq<char> {
    let end = if addr + 8 > mem.len() {
        mem.len() as int
    } else {
        addr + 8
    };
    seq!['0', 'x'] + hex_padded(addr as nat, 4) + seq![':'] + byte_list(mem.subrange(addr, end))
}

/// Appends ` 0xBB` for each byte.
pub fn push_bytes(out: &mut String, bs: &Vec<u8>)
    ensures
        final(out)@ == old(out)@ + byte_list(bs@),
{
    let mut i: usize = 0;
    assert(bs@.take(0) =~= Seq::<u8>::empty());
    while i < bs.len()
        invariant
            i <= bs@.len(),
            out@ == old(out)@ + byte_list(bs@.take(i as int)),
        decreases bs@.len() - i,
    {
        assert(bs@.take(i + 1).drop_last() =~= bs@.take(i as int));
        proof {
            reveal_strlit(" 0x");
        }
        out.append(" 0x");
        push_hex_padded(out, bs[i] as u16, 2);
        i = i + 1;
        assert(out@ =~= old(out)@ + byte_list(bs@.take(i as int)));
    }
    assert(bs@.take(i as int) =~= bs@);
}

} // verus!
