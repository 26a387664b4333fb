use vstd::prelude::*;
use vstd::string::*;

use crate::assembler::AssemblerError;
use crate::ast::{ASTArg, ASTNode};
use crate::register::{matches_name, names_match};

verus! {

/// Turns the pieces that the grammar picks out of assembly source into
/// program nodes: numbers, label definitions and instructions by mnemonic.
/// Mnemonics are matched with ASCII case ignored.
pub struct ASTParser;

/// The value of a digit character in bases up to 16; 16 for any other character.
pub open spec fn digit_value(c: char) -> nat {
    let u = c as u32;
    if 48 <= u <= 57 {
        (u - 48) as nat
    } else if 97 <= u <= 102 {
        (u - 87) as nat
    } else if 65 <= u <= 70 {
        (u - 55) as nat
    } else {
        16
    }
}

/// Whether every character of `s` is a digit of base `radix`.
pub open spec fn all_digits(s: Seq<char>, radix: nat) -> bool {
    forall|i: int| 0 <= i < s.len() ==> #[trigger] digit_value(s[i]) < radix
}

/// The number that the digits `s` write in base `radix`.
pub open spec fn digits_value(s: Seq<char>, radix: nat) -> nat
    decreases s.len(),
{
    if s.len() == 0 {
        0
    } else {
        digits_value(s.drop_last(), radix) * radix + digit_value(s.last())
    }
}

proof fn lemma_digits_prefix(s: Seq<char>, radix: nat, i: int)
    requires
        0 <= i <= s.len(),
        radix >= 1,
        all_digits(s, radix),
    ensures
        digits_value(s.take(i), radix) <= digits_value(s, radix),
    decreases s.len(),
{
    if i < s.len() {
        assert(all_digits(s.drop_last(), radix)) by {
            assert forall|k: int| 0 <= k < s.drop_last().len() implies #[trigger] digit_value(
                s.drop_last()[k],
            ) < radix by {
                assert(s.drop_last()[k] == s[k]);
            }
        }
        lemma_digits_prefix(s.drop_last(), radix, i);
        assert(s.drop_last().take(i) =~= s.take(i));
        let d = digits_value(s.drop_last(), radix);
        assert(d * radix >= d) by (nonlinear_arith)
            requires
                radix >= 1,
        ;
    } else {
        assert(s.take(i) =~= s);
    }
}

/// `s` without the colons at its end.
pub open spec fn strip_colons(s: Seq<char>) -> Seq<char>
    decreases s.len(),
{
    if s.len() > 0 && s.last() == ':' {
        strip_colons(s.drop_last())
    } else {
        s
    }
}

/// The node of a two-operand instruction named `op`.
pub open spec fn binary_spec(op: Seq<char>, left: ASTArg, right: ASTArg) -> Option<ASTNode> {
    if names_match(op, seq!['M', 'O', 'V']) {
        Some(ASTNode::Mov(left, right))
    } else if names_match(op, seq!['A', 'D', 'D']) {
        Some(ASTNode::Add(left, right))
    } else if names_match(op, seq!['S', 'U', 'B']) {
        Some(ASTNode::Sub(left, right))
    } else if names_match(op, seq!['M', 'U', 'L']) {
        Some(ASTNode::Mul(left, right))
    } else if names_match(op, seq!['S', 'H', 'L']) {
        Some(ASTNode::Shl(left, right))
    } else if names_match(op, seq!['S', 'H', 'R']) {
        Some(ASTNode::Shr(left, right))
    } else if names_match(op, seq!['A', 'N', 'D']) {
        Some(ASTNode::And(left, right))
    } else if names_match(op, seq!['O', 'R']) {
        Some(ASTNode::Or(left, right))
    } else if names_match(op, seq!['X', 'O', 'R']) {
        Some(ASTNode::Xor(left, right))
    } else if names_match(op, seq!['J', 'N', 'E']) {
        Some(ASTNode::Jne(left, right))
    } else if names_match(op, seq!['J', 'E', 'Q']) {
        Some(ASTNode::Jeq(left, right))
    } else if names_match(op, seq!['J', 'L', 'T']) {
        Some(ASTNode::Jlt(left, right))
    } else if names_match(op, seq!['J', 'G', 'T']) {
        Some(ASTNode::Jgt(left, right))
    } else if names_match(op, seq!['J', 'L', 'E']) {
        Some(ASTNode::Jle(left, right))
    } else if names_match(op, seq!['J', 'G', 'E']) {
        Some(ASTNode::Jge(left, right))
    } else {
        None
    }
}

/// The node of a one-operand instruction named `op`.
pub open spec fn unary_spec(op: Seq<char>, val: ASTArg) -> Option<ASTNode> {
    if names_match(op, seq!['N', 'O', 'T']) {
        Some(ASTNode::Not(val))
    } else if names_match(op, seq!['J', 'M', 'P']) {
        Some(ASTNode::Jmp(val))
    } else if names_match(op, seq!['P', 'S', 'H']) {
        Some(ASTNode::Psh(val))
    } else if names_match(op, seq!['P', 'O', 'P']) {
        Some(ASTNode::Pop(val))
    } else if names_match(op, seq!['C', 'A', 'L']) {
        Some(ASTNode::Cal(val))
    } else if names_match(op, seq!['I', 'N', 'C']) {
        Some(ASTNode::Inc(val))
    } else if names_match(op, seq!['D', 'E', 'C']) {
        Some(ASTNode::Dec(val))
    } else if names_match(op, seq!['S', 'Y', 'S']) {
        Some(ASTNode::Sys(val))
    } else {
        None
    }
}

/// The node of an instruction without operands named `op`.
pub open spec fn nullary_spec(op: Seq<char>) -> Option<ASTNode> {
    if names_match(op, seq!['R', 'E', 'T']) {
        Some(ASTNode::Ret)
    } else if names_match(op, seq!['H', 'L', 'T']) {
        Some(ASTNode::Hlt)
    } else if names_match(op, seq!['N', 'O', 'P']) {
        Some(ASTNode::Nop)
    } else {
        None
    }
}

/// A parser error holding `msg`.
fn parser_error(msg: &str) -> (e: AssemblerError)
    ensures
        e is Parser,
{
    AssemblerError::Parser(msg.to_owned())
}

/// A parser error for an unknown mnemonic: `what` followed by the mnemonic.
fn unknown(what: &str, op: &str) -> (e: AssemblerError)
    ensures
        e is Parser,
{
    let mut msg = what.to_owned();
    msg.append(op);
    AssemblerError::Parser(msg)
}

impl ASTParser {
    /// The number that `text` writes in base `radix`, when it is made of digits
    /// of that base alone and the number fits in 16 bits.
    pub fn parse_number(text: &str, radix: u32) -> (r: Result<u16, AssemblerError>)
        requires
            radix == 2 || radix == 8 || radix == 10 || radix == 16,
        ensures
            r.is_ok() == (text@.len() > 0 && all_digits(text@, radix as nat) && digits_value(
                text@,
                radix as nat,
            ) < 65536),
            r matches Ok(v) ==> v == digits_value(text@, radix as nat),
            r matches Err(e) ==> e is Parser,
    {
        let n = text.unicode_len();
        if n == 0 {
            return Err(parser_error("empty number"));
        }
        let mut acc: u32 = 0;
        let mut i: usize = 0;
        assert(text@.take(0) =~= Seq::<char>::empty());
        while i < n
            invariant
                n == text@.len(),
                i <= n,
                2 <= radix <= 16,
                all_digits(text@.take(i as int), radix as nat),
                acc == digits_value(text@.take(i as int), radix as nat),
                acc < 65536,
            decreases n - i,
        {
            let c = text.get_char(i);
            let u = c as u32;
            let d: u32 = if 48 <= u && u <= 57 {
                u - 48
            } else if 97 <= u && u <= 102 {
                u - 87
            } else if 65 <= u && u <= 70 {
                u - 55
            } else {
                16
            };
            assert(d == digit_value(c));
            if d >= radix {
                assert(!all_digits(text@, radix as nat)) by {
                    assert(digit_value(text@[i as int]) >= radix);
                }
                return Err(parser_error("invalid digit"));
            }
            assert(text@.take(i + 1).drop_last() =~= text@.take(i as int));
            assert(acc * radix <= 65535 * 16) by (nonlinear_arith)
                requires
                    acc < 65536,
                    radix <= 16,
            ;
            let next = acc * radix + d;
            assert(all_digits(text@.take(i + 1), radix as nat)) by {
                assert forall|k: int| 0 <= k < i + 1 implies #[trigger] digit_value(
                    text@.take(i + 1)[k],
                ) < radix by {
                    if k < i {
                        assert(text@.take(i + 1)[k] == text@.take(i as int)[k]);
                    }
                }
            }
            if next > 65535 {
                proof {
                    if all_digits(text@, radix as nat) {
                        lemma_digits_prefix(text@, radix as nat, i + 1);
                    }
                }
                return Err(parser_error("number too large"));
            }
            acc = next;
            i = i + 1;
        }
        assert(text@.take(n as int) =~= text@);
        Ok(acc as u16)
    }

    /// A label definition `name:`: the node of the label `name`, with the
    /// colons at the end of the text dropped.
    pub fn label(text: &str) -> (r: ASTNode)
        ensures
            r matches ASTNode::Label(name) && name@ == strip_colons(text@),
    {
        let mut end = text.unicode_len();
        assert(text@.take(end as int) =~= text@);
        while end > 0 && text.get_char(end - 1) == ':'
            invariant
                end <= text@.len(),
                strip_colons(text@) == strip_colons(text@.take(end as int)),
            decreases end,
        {
            assert(text@.take(end as int).drop_last() =~= text@.take(end - 1));
            end = end - 1;
        }
        let name = text.substring_char(0, end);
        ASTNode::Label(name.to_owned())
    }

    /// The node of the two-operand instruction named `op`.
    pub fn binary(op: &str, left: ASTArg, right: ASTArg) -> (r: Result<ASTNode, AssemblerError>)
        ensures
            r is Ok == binary_spec(op@, left, right) is Some,
            r matches Ok(node) ==> binary_spec(op@, left, right) == Some(node),
            r matches Err(e) ==> e is Parser,
    {
        let name = "MOV";
        proof {
            reveal_strlit("MOV");
            assert(name@ =~= seq!['M', 'O', 'V']);
        }
        if matches_name(op, name) {
            return Ok(ASTNode::Mov(left, right));
        }
        let name = "ADD";
        proof {
            reveal_strlit("ADD");
            assert(name@ =~= seq!['A', 'D', 'D']);
        }
        if matches_name(op, name) {
            return Ok(ASTNode::Add(left, right));
        }
        let name = "SUB";
        proof {
            reveal_strlit("SUB");
            assert(name@ =~= seq!['S', 'U', 'B']);
        }
        if matches_name(op, name) {
            return Ok(ASTNode::Sub(left, right));
        }
        let name = "MUL";
        proof {
            reveal_strlit("MUL");
            assert(name@ =~= seq!['M', 'U', 'L']);
        }
        if matches_name(op, name) {
            return Ok(ASTNode::Mul(left, right));
        }
        let name = "SHL";
        proof {
            reveal_strlit("SHL");
            assert(name@ =~= seq!['S', 'H', 'L']);
        }
        if matches_name(op, name) {
            return Ok(ASTNode::Shl(left, right));
        }
        let name = "SHR";
        proof {
            reveal_strlit("SHR");
            assert(name@ =~= seq!['S', 'H', 'R']);
        }
        if matches_name(op, name) {
            return Ok(ASTNode::Shr(left, right));
        }
        let name = "AND";
        proof {
            reveal_strlit("AND");
            assert(name@ =~= seq!['A', 'N', 'D']);
        }
        if matches_name(op, name) {
            return Ok(ASTNode::And(left, right));
        }
        let name = "OR";
        proof {
            reveal_strlit("OR");
            assert(name@ =~= seq!['O', 'R']);
        }
        if matches_name(op, name) {
            return Ok(ASTNode::Or(left, right));
        }
        let name = "XOR";
        proof {
            reveal_strlit("XOR");
            assert(name@ =~= seq!['X', 'O', 'R']);
        }
        if matches_name(op, name) {
            return Ok(ASTNode::Xor(left, right));
        }
        let name = "JNE";
        proof {
            reveal_strlit("JNE");
            assert(name@ =~= seq!['J', 'N', 'E']);
        }
        if matches_name(op, name) {
            return Ok(ASTNode::Jne(left, right));
        }
        let name = "JEQ";
        proof {
            reveal_strlit("JEQ");
            assert(name@ =~= seq!['J', 'E', 'Q']);
        }
        if matches_name(op, name) {
            return Ok(ASTNode::Jeq(left, right));
        }
        let name = "JLT";
        proof {
            reveal_strlit("JLT");
            assert(name@ =~= seq!['J', 'L', 'T']);
        }
        if matches_name(op, name) {
            return Ok(ASTNode::Jlt(left, right));
        }
        let name = "JGT";
        proof {
            reveal_strlit("JGT");
            assert(name@ =~= seq!['J', 'G', 'T']);
        }
        if matches_name(op, name) {
            return Ok(ASTNode::Jgt(left, right));
        }
        let name = "JLE";
        proof {
            reveal_strlit("JLE");
            assert(name@ =~= seq!['J', 'L', 'E']);
        }
        if matches_name(op, name) {
            return Ok(ASTNode::Jle(left, right));
        }
        let name = "JGE";
        proof {
            reveal_strlit("JGE");
            assert(name@ =~= seq!['J', 'G', 'E']);
        }
        if matches_name(op, name) {
            return Ok(ASTNode::Jge(left, right));
        }
        Err(unknown("Unknown binary instruction: ", op))
    }

    /// The node of the one-operand instruction named `op`.
    pub fn unary(op: &str, val: ASTArg) -> (r: Result<ASTNode, AssemblerError>)
        ensures
            r is Ok == unary_spec(op@, val) is Some,
            r matches Ok(node) ==> unary_spec(op@, val) == Some(node),
            r matches Err(e) ==> e is Parser,
    {
        let name = "NOT";
        proof {
            reveal_strlit("NOT");
            assert(name@ =~= seq!['N', 'O', 'T']);
        }
        if matches_name(op, name) {
            return Ok(ASTNode::Not(val));
        }
        let name = "JMP";
        proof {
            reveal_strlit("JMP");
            assert(name@ =~= seq!['J', 'M', 'P']);
        }
        if matches_name(op, name) {
            return Ok(ASTNode::Jmp(val));
        }
        let name = "PSH";
        proof {
            reveal_strlit("PSH");
            assert(name@ =~= seq!['P', 'S', 'H']);
        }
        if matches_name(op, name) {
            return Ok(ASTNode::Psh(val));
        }
        let name = "POP";
        proof {
            reveal_strlit("POP");
            assert(name@ =~= seq!['P', 'O', 'P']);
        }
        if matches_name(op, name) {
            return Ok(ASTNode::Pop(val));
        }
        let name = "CAL";
        proof {
            reveal_strlit("CAL");
            assert(name@ =~= seq!['C', 'A', 'L']);
        }
        if matches_name(op, name) {
            return Ok(ASTNode::Cal(val));
        }
        let name = "INC";
        proof {
            reveal_strlit("INC");
            assert(name@ =~= seq!['I', 'N', 'C']);
        }
        if matches_name(op, name) {
            return Ok(ASTNode::Inc(val));
        }
        let name = "DEC";
        proof {
            reveal_strlit("DEC");
            assert(name@ =~= seq!['D', 'E', 'C']);
        }
        if matches_name(op, name) {
            return Ok(ASTNode::Dec(val));
        }
        let name = "SYS";
        proof {
            reveal_strlit("SYS");
            assert(name@ =~= seq!['S', 'Y', 'S']);
        }
        if matches_name(op, name) {
            return Ok(ASTNode::Sys(val));
        }
        Err(unknown("Unknown unary instruction: ", op))
    }

    /// The node of the instruction without operands named `op`.
    pub fn nullary(op: &str) -> (r: Result<ASTNode, AssemblerError>)
        ensures
            r is Ok == nullary_spec(op@) is Some,
            r matches Ok(node) ==> nullary_spec(op@) == Some(node),
            r matches Err(e) ==> e is Parser,
    {
        let name = "RET";
        proof {
            reveal_strlit("RET");
            assert(name@ =~= seq!['R', 'E', 'T']);
        }
        if matches_name(op, name) {
            return Ok(ASTNode::Ret);
        }
        let name = "HLT";
        proof {
            reveal_strlit("HLT");
            assert(name@ =~= seq!['H', 'L', 'T']);
        }
        if matches_name(op, name) {
            return Ok(ASTNode::Hlt);
        }
        let name = "NOP";
        proof {
            reveal_strlit("NOP");
            assert(name@ =~= seq!['N', 'O', 'P']);
        }
        if matches_name(op, name) {
            return Ok(ASTNode::Nop);
        }
        Err(unknown("Unknown nullary instruction: ", op))
    }
}

} // verus!
