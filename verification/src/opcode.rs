//! The opcode decoder: maps one opcode byte to a mnemonic template with a
//! typed operand slot and the control-flow class of the instruction.
//!
//! A fixed table of exact single-byte opcodes is consulted first; failing
//! that, an ordered cascade of nibble-range predicates selects a register
//! family; a byte nothing matches renders as a literal hex fallback. The
//! cascade's order is load-bearing: some ranges overlap, and the earlier
//! entry wins.

use vstd::prelude::*;
use vstd::string::StrSliceExecFns;
use vstd::string::StringExecFns;

use crate::render::hex2;
use crate::render::push_hex2;

verus! {

/// How many operand bytes an instruction consumes, and how the operand is
/// rendered: none, one byte, or a two-byte little-endian word.
#[derive(Clone, Copy, Debug, PartialEq, Eq, Structural)]
pub enum Slot {
    NoArg,
    Byte,
    Word,
}

/// A decoded mnemonic template: the text before and after the operand
/// slot, the slot itself, and the instruction's control-flow class.
pub struct Instr {
    /// Text standing before the rendered operand.
    pub prefix: String,
    /// Text standing after the rendered operand.
    pub suffix: String,
    /// The operand slot between the two.
    pub slot: Slot,
    /// A call instruction: its word target may be recorded as pending.
    pub is_call: bool,
    /// An absolute jump: unconditional ones open a data window.
    pub is_jump: bool,
    /// A relative jump: its byte operand is a signed displacement.
    pub is_rel_jump: bool,
    /// The mnemonic names a flag condition.
    pub is_cond: bool,
    /// An unconditional return: prunes the pending calls.
    pub is_ret: bool,
}

/// The mathematical shadow of [`Instr`]: the same template over character
/// sequences.
pub struct InstrModel {
    pub prefix: Seq<char>,
    pub suffix: Seq<char>,
    pub slot: Slot,
    pub is_call: bool,
    pub is_jump: bool,
    pub is_rel_jump: bool,
    pub is_cond: bool,
    pub is_ret: bool,
}

impl View for Instr {
    type V = InstrModel;

    open spec fn view(&self) -> InstrModel {
        InstrModel {
            prefix: self.prefix@,
            suffix: self.suffix@,
            slot: self.slot,
            is_call: self.is_call,
            is_jump: self.is_jump,
            is_rel_jump: self.is_rel_jump,
            is_cond: self.is_cond,
            is_ret: self.is_ret,
        }
    }
}

/// A template that is plain text: no operand, no control-flow class.
pub open spec fn m_plain(text: Seq<char>) -> InstrModel {
    InstrModel {
        prefix: text,
        suffix: Seq::empty(),
        slot: Slot::NoArg,
        is_call: false,
        is_jump: false,
        is_rel_jump: false,
        is_cond: false,
        is_ret: false,
    }
}

/// A template with an operand slot and no control-flow class.
pub open spec fn m_slot(prefix: Seq<char>, slot: Slot, suffix: Seq<char>) -> InstrModel {
    InstrModel {
        prefix: prefix,
        suffix: suffix,
        slot: slot,
        is_call: false,
        is_jump: false,
        is_rel_jump: false,
        is_cond: false,
        is_ret: false,
    }
}

/// The register pair selected by an upper nibble in the `0xC..=0xF` rows:
/// the stack-group pairs.
pub open spec fn pair_hi_name(u: int) -> Seq<char> {
    if u == 0xC {
        "BC"@
    } else if u == 0xD {
        "DE"@
    } else if u == 0xE {
        "HL"@
    } else {
        "AF"@
    }
}

/// The restart vector literal selected by an upper nibble in the
/// `0xC..=0xF` rows.
pub open spec fn rst_name(u: int) -> Seq<char> {
    if u == 0xC {
        "$00"@
    } else if u == 0xD {
        "$10"@
    } else if u == 0xE {
        "$20"@
    } else {
        "$30"@
    }
}

/// The register pair selected by an upper nibble in the `0x0..=0x3` rows:
/// the pointer-group pairs.
pub open spec fn pair_lo_name(u: int) -> Seq<char> {
    if u == 0 {
        "BC"@
    } else if u == 1 {
        "DE"@
    } else if u == 2 {
        "HL"@
    } else {
        "SP"@
    }
}

/// The 8-bit register selected by a lower nibble position `0..=7`.
pub open spec fn reg8_name(l: int) -> Seq<char> {
    if l == 0 {
        "B"@
    } else if l == 1 {
        "C"@
    } else if l == 2 {
        "D"@
    } else if l == 3 {
        "E"@
    } else if l == 4 {
        "H"@
    } else if l == 5 {
        "L"@
    } else if l == 6 {
        "(HL)"@
    } else {
        "A"@
    }
}

/// The odd-column 8-bit register selected by a row index `0..=3`.
pub open spec fn reg8_odd_name(i: int) -> Seq<char> {
    if i == 0 {
        "C"@
    } else if i == 1 {
        "E"@
    } else if i == 2 {
        "L"@
    } else {
        "A"@
    }
}

/// The even-column 8-bit register selected by a row index `0..=3`.
pub open spec fn reg8_even_name(i: int) -> Seq<char> {
    if i == 0 {
        "B"@
    } else if i == 1 {
        "D"@
    } else if i == 2 {
        "H"@
    } else {
        "(HL)"@
    }
}

/// The first arithmetic group's mnemonic by row index `0..=3`.
pub open spec fn alu_a_name(i: int) -> Seq<char> {
    if i == 0 {
        "ADD A,"@
    } else if i == 1 {
        "SUB "@
    } else if i == 2 {
        "AND "@
    } else {
        "OR "@
    }
}

/// The first arithmetic group's immediate-form mnemonic by row index
/// `0..=3` (the table writes a lower-case `a` in its ADD row).
pub open spec fn alu_a_imm_name(i: int) -> Seq<char> {
    if i == 0 {
        "ADD a,"@
    } else if i == 1 {
        "SUB "@
    } else if i == 2 {
        "AND "@
    } else {
        "OR "@
    }
}

/// The second arithmetic group's mnemonic by row index `0..=3`.
pub open spec fn alu_b_name(i: int) -> Seq<char> {
    if i == 0 {
        "ADC A,"@
    } else if i == 1 {
        "SBC A,"@
    } else if i == 2 {
        "XOR "@
    } else {
        "CP "@
    }
}

/// The relative-jump condition text by upper nibble `0x1..=0x3`.
pub open spec fn jr_cond_name(u: int) -> Seq<char> {
    if u == 1 {
        ""@
    } else if u == 2 {
        "Z,"@
    } else {
        "C,"@
    }
}

/// One nibble-range predicate of the cascade: the lower nibble lies in
/// `left..=right` and the upper nibble in `top..=bottom`.
pub open spec fn spec_in_range(n: u8, left: u8, right: u8, top: u8, bottom: u8) -> bool {
    left <= n % 16 && n % 16 <= right && top <= n / 16 && n / 16 <= bottom
}

/// The exact single-byte opcode table, consulted before the cascade.
pub open spec fn exact_model(b: u8) -> Option<InstrModel> {
    if b == 0x00 {
        Some(m_plain("NOP"@))
    } else if b == 0x07 {
        Some(m_plain("RLCA"@))
    } else if b == 0x08 {
        Some(m_slot("LD ("@, Slot::Word, "),SP"@))
    } else if b == 0x0E {
        Some(m_slot("LDH A,("@, Slot::Byte, ")"@))
    } else if b == 0x0F {
        Some(m_slot("LDH ("@, Slot::Byte, "),A"@))
    } else if b == 0x10 {
        Some(m_plain("STOP"@))
    } else if b == 0x17 {
        Some(m_plain("RLA"@))
    } else if b == 0x20 {
        Some(
            InstrModel {
                prefix: "JR NZ,"@,
                suffix: ""@,
                slot: Slot::Byte,
                is_call: false,
                is_jump: false,
                is_rel_jump: true,
                is_cond: true,
                is_ret: false,
            },
        )
    } else if b == 0x22 {
        Some(m_plain("LD (HL+),A"@))
    } else if b == 0x27 {
        Some(m_plain("DAA"@))
    } else if b == 0x2A {
        Some(m_plain("LD A,(HL+)"@))
    } else if b == 0x30 {
        Some(
            InstrModel {
                prefix: "JR NC,"@,
                suffix: ""@,
                slot: Slot::Byte,
                is_call: false,
                is_jump: false,
                is_rel_jump: true,
                is_cond: true,
                is_ret: false,
            },
        )
    } else if b == 0x32 {
        Some(m_plain("LD (HL-),A"@))
    } else if b == 0x37 {
        Some(m_plain("SCF"@))
    } else if b == 0x3A {
        Some(m_plain("LD A,(HL-)"@))
    } else if b == 0x76 {
        Some(m_plain("HALT"@))
    } else if b == 0xC3 {
        Some(
            InstrModel {
                prefix: "JP "@,
                suffix: ""@,
                slot: Slot::Word,
                is_call: false,
                is_jump: true,
                is_rel_jump: false,
                is_cond: false,
                is_ret: false,
            },
        )
    } else if b == 0xC9 {
        Some(
            InstrModel {
                prefix: "RET"@,
                suffix: ""@,
                slot: Slot::NoArg,
                is_call: false,
                is_jump: false,
                is_rel_jump: false,
                is_cond: false,
                is_ret: true,
            },
        )
    } else if b == 0xCA {
        Some(
            InstrModel {
                prefix: "JP Z,"@,
                suffix: ""@,
                slot: Slot::Word,
                is_call: false,
                is_jump: true,
                is_rel_jump: false,
                is_cond: true,
                is_ret: false,
            },
        )
    } else if b == 0xCC {
        Some(
            InstrModel {
                prefix: "CALL Z,"@,
                suffix: ""@,
                slot: Slot::Word,
                is_call: true,
                is_jump: false,
                is_rel_jump: false,
                is_cond: true,
                is_ret: false,
            },
        )
    } else if b == 0xCB {
        Some(m_slot("CB "@, Slot::Byte, ""@))
    } else if b == 0xCD {
        Some(
            InstrModel {
                prefix: "CALL "@,
                suffix: ""@,
                slot: Slot::Word,
                is_call: true,
                is_jump: false,
                is_rel_jump: false,
                is_cond: false,
                is_ret: false,
            },
        )
    } else if b == 0xDA {
        Some(
            InstrModel {
                prefix: "JP C,"@,
                suffix: ""@,
                slot: Slot::Word,
                is_call: false,
                is_jump: true,
                is_rel_jump: false,
                is_cond: true,
                is_ret: false,
            },
        )
    } else if b == 0xDC {
        Some(
            InstrModel {
                prefix: "CALL C,"@,
                suffix: ""@,
                slot: Slot::Word,
                is_call: true,
                is_jump: false,
                is_rel_jump: false,
                is_cond: true,
                is_ret: false,
            },
        )
    } else if b == 0xE0 {
        Some(m_slot("LDH ("@, Slot::Byte, "),A"@))
    } else if b == 0xE2 {
        Some(m_plain("LD (C),A"@))
    } else if b == 0xEA {
        Some(m_slot("LD ("@, Slot::Word, "),A"@))
    } else if b == 0xF0 {
        Some(m_slot("LDH A,("@, Slot::Byte, ")"@))
    } else if b == 0xF2 {
        Some(m_plain("LD A,(C)"@))
    } else if b == 0xF3 {
        Some(m_plain("DI"@))
    } else if b == 0xFB {
        Some(m_plain("EI"@))
    } else {
        None
    }
}

/// The register-family cascade, tried predicate by predicate in the fixed
/// priority order, with the literal hex fallback at its end.
pub open spec fn family_model(n: u8) -> InstrModel {
    let u = n as int / 16;
    let l = n as int % 16;
    if spec_in_range(n, 0x1, 0x1, 0xC, 0xF) {
        m_plain("POP "@ + pair_hi_name(u))
    } else if spec_in_range(n, 0xF, 0xF, 0xC, 0xF) {
        m_plain("RST "@ + rst_name(u))
    } else if spec_in_range(n, 0x5, 0x5, 0xC, 0xF) {
        m_plain("PUSH "@ + pair_hi_name(u))
    } else if spec_in_range(n, 0xE, 0xE, 0xC, 0xF) {
        m_plain(alu_b_name(u - 0xC) + "$0"@)
    } else if spec_in_range(n, 0xA, 0xB, 0x0, 0x3) {
        if l == 0xA {
            m_plain("LD A,("@ + pair_lo_name(u) + ")"@)
        } else {
            m_plain("DEC "@ + pair_lo_name(u))
        }
    } else if spec_in_range(n, 0xC, 0xE, 0x0, 0x3) {
        if l == 0xC {
            m_plain("INC "@ + reg8_odd_name(u))
        } else if l == 0xD {
            m_plain("DEC "@ + reg8_odd_name(u))
        } else {
            m_slot("LD "@ + reg8_odd_name(u) + ","@, Slot::Byte, ""@)
        }
    } else if spec_in_range(n, 0x0, 0x7, 0x8, 0xB) {
        m_plain(alu_a_name(u - 0x8) + reg8_name(l))
    } else if spec_in_range(n, 0x8, 0xF, 0x8, 0xB) {
        m_plain(alu_b_name(u - 0x8) + reg8_name(l - 0x8))
    } else if spec_in_range(n, 0x8, 0x8, 0x1, 0x3) {
        InstrModel {
            prefix: "JR "@ + jr_cond_name(u),
            suffix: ""@,
            slot: Slot::Byte,
            is_call: false,
            is_jump: false,
            is_rel_jump: true,
            is_cond: u != 1,
            is_ret: false,
        }
    } else if spec_in_range(n, 0x2, 0x3, 0x0, 0x3) {
        if l == 0x2 {
            m_plain("LD ("@ + pair_lo_name(u) + "),A"@)
        } else {
            m_plain("INC "@ + pair_lo_name(u))
        }
    } else if spec_in_range(n, 0x1, 0x1, 0x0, 0x3) {
        m_slot("LD "@ + pair_lo_name(u) + ","@, Slot::Word, ""@)
    } else if spec_in_range(n, 0x8, 0xF, 0x4, 0x7) {
        m_plain("LD "@ + reg8_odd_name(u - 0x4) + ","@ + reg8_name(l - 0x8))
    } else if spec_in_range(n, 0x6, 0x6, 0xC, 0xF) {
        m_slot(alu_a_imm_name(u - 0xC), Slot::Byte, ""@)
    } else if spec_in_range(n, 0x0, 0x7, 0x4, 0x7) {
        m_plain("LD "@ + reg8_even_name(u - 0x4) + ","@ + reg8_name(l))
    } else if spec_in_range(n, 0x4, 0x6, 0x0, 0x3) {
        if l == 0x4 {
            m_plain("INC "@ + reg8_even_name(u))
        } else if l == 0x5 {
            m_plain("DEC "@ + reg8_even_name(u))
        } else {
            m_slot("LD "@ + reg8_even_name(u) + ","@, Slot::Byte, ""@)
        }
    } else {
        m_plain("0x"@ + hex2(n))
    }
}

/// What one opcode byte decodes to: the exact table first, then the
/// cascade. Total: every byte yields exactly one template.
pub open spec fn instr_model(b: u8) -> InstrModel {
    match exact_model(b) {
        Some(m) => m,
        None => family_model(b),
    }
}

/// The text holds one of the letters every condition code is written
/// with: `N`, `Z` or `C`.
pub open spec fn names_condition(s: Seq<char>) -> bool {
    exists|i: int| 0 <= i < s.len() && (s[i] == 'N' || s[i] == 'Z' || s[i] == 'C')
}

/// Tests whether a rendered mnemonic encodes a flag condition, by the
/// letters the condition codes are written with.
pub fn conditional(instruction: &str) -> (r: bool)
    ensures
        r == names_condition(instruction@),
{
    let len = instruction.unicode_len();
    let mut i: usize = 0;
    while i < len
        invariant
            i <= len,
            len == instruction@.len(),
            forall|j: int|
                0 <= j < i ==> !(instruction@[j] == 'N' || instruction@[j] == 'Z'
                    || instruction@[j] == 'C'),
        decreases len - i,
    {
        let c = instruction.get_char(i);
        if c == 'N' || c == 'Z' || c == 'C' {
            proof {
                assert(names_condition(instruction@));
            }
            return true;
        }
        i = i + 1;
    }
    false
}

/// Splits a byte into its upper and lower nibble, in that order.
pub fn get_nibbles(n: u8) -> (r: (u8, u8))
    ensures
        r.0 == n / 16,
        r.1 == n % 16,
{
    proof {
        assert(n >> 4 == n / 16) by (bit_vector);
        assert((n << 4) >> 4 == n % 16) by (bit_vector);
    }
    let upper = n >> 4;
    let lower = (n << 4) >> 4;
    (upper, lower)
}

/// Tests one nibble-range predicate of the cascade.
pub fn in_range(n: u8, left: u8, right: u8, top: u8, bottom: u8) -> (r: bool)
    ensures
        r == spec_in_range(n, left, right, top, bottom),
{
    let (upper, lower) = get_nibbles(n);
    lower >= left && lower <= right && upper >= top && upper <= bottom
}

fn pair_hi_str(u: u8) -> (r: &'static str)
    ensures
        r@ == pair_hi_name(u as int),
{
    match u {
        0xC => "BC",
        0xD => "DE",
        0xE => "HL",
        _ => "AF",
    }
}

fn rst_str(u: u8) -> (r: &'static str)
    ensures
        r@ == rst_name(u as int),
{
    match u {
        0xC => "$00",
        0xD => "$10",
        0xE => "$20",
        _ => "$30",
    }
}

fn pair_lo_str(u: u8) -> (r: &'static str)
    ensures
        r@ == pair_lo_name(u as int),
{
    match u {
        0 => "BC",
        1 => "DE",
        2 => "HL",
        _ => "SP",
    }
}

fn reg8_str(l: u8) -> (r: &'static str)
    ensures
        r@ == reg8_name(l as int),
{
    match l {
        0 => "B",
        1 => "C",
        2 => "D",
        3 => "E",
        4 => "H",
        5 => "L",
        6 => "(HL)",
        _ => "A",
    }
}

fn reg8_odd_str(i: u8) -> (r: &'static str)
    ensures
        r@ == reg8_odd_name(i as int),
{
    match i {
        0 => "C",
        1 => "E",
        2 => "L",
        _ => "A",
    }
}

fn reg8_even_str(i: u8) -> (r: &'static str)
    ensures
        r@ == reg8_even_name(i as int),
{
    match i {
        0 => "B",
        1 => "D",
        2 => "H",
        _ => "(HL)",
    }
}

fn alu_a_str(i: u8) -> (r: &'static str)
    ensures
        r@ == alu_a_name(i as int),
{
    match i {
        0 => "ADD A,",
        1 => "SUB ",
        2 => "AND ",
        _ => "OR ",
    }
}

fn alu_a_imm_str(i: u8) -> (r: &'static str)
    ensures
        r@ == alu_a_imm_name(i as int),
{
    match i {
        0 => "ADD a,",
        1 => "SUB ",
        2 => "AND ",
        _ => "OR ",
    }
}

fn alu_b_str(i: u8) -> (r: &'static str)
    ensures
        r@ == alu_b_name(i as int),
{
    match i {
        0 => "ADC A,",
        1 => "SBC A,",
        2 => "XOR ",
        _ => "CP ",
    }
}

fn jr_cond_str(u: u8) -> (r: &'static str)
    ensures
        r@ == jr_cond_name(u as int),
{
    match u {
        1 => "",
        2 => "Z,",
        _ => "C,",
    }
}

/// A template that is plain text: no operand, no control-flow class.
fn plain(text: String) -> (r: Instr)
    ensures
        r@ == m_plain(text@),
{
    proof {
        reveal_strlit("");
        assert(""@ =~= Seq::<char>::empty());
    }
    Instr {
        prefix: text,
        suffix: String::from_str(""),
        slot: Slot::NoArg,
        is_call: false,
        is_jump: false,
        is_rel_jump: false,
        is_cond: false,
        is_ret: false,
    }
}

/// A template with an operand slot and no control-flow class.
fn slotted(prefix: String, slot: Slot, suffix: &str) -> (r: Instr)
    ensures
        r@ == m_slot(prefix@, slot, suffix@),
{
    Instr {
        prefix: prefix,
        suffix: String::from_str(suffix),
        slot: slot,
        is_call: false,
        is_jump: false,
        is_rel_jump: false,
        is_cond: false,
        is_ret: false,
    }
}

/// `base` followed by `tail`, as a fresh string.
fn joined(base: &str, tail: &str) -> (r: String)
    ensures
        r@ == base@ + tail@,
{
    let mut s = String::from_str(base);
    s.append(tail);
    s
}

/// Decodes one opcode byte into its mnemonic template: the exact table
/// first, then the register-family cascade in its fixed order, and the
/// literal hex fallback when nothing matches. Total — every byte decodes
/// to exactly one template, and an unassigned byte is not an error.
pub fn decode_opcode(b: u8) -> (t: Instr)
    ensures
        t@ == instr_model(b),
{
    match b {
        0x00 => plain(String::from_str("NOP")),
        0x07 => plain(String::from_str("RLCA")),
        0x08 => slotted(String::from_str("LD ("), Slot::Word, "),SP"),
        0x0E => slotted(String::from_str("LDH A,("), Slot::Byte, ")"),
        0x0F => slotted(String::from_str("LDH ("), Slot::Byte, "),A"),
        0x10 => plain(String::from_str("STOP")),
        0x17 => plain(String::from_str("RLA")),
        0x20 => Instr {
            prefix: String::from_str("JR NZ,"),
            suffix: String::from_str(""),
            slot: Slot::Byte,
            is_call: false,
            is_jump: false,
            is_rel_jump: true,
            is_cond: true,
            is_ret: false,
        },
        0x22 => plain(String::from_str("LD (HL+),A")),
        0x27 => plain(String::from_str("DAA")),
        0x2A => plain(String::from_str("LD A,(HL+)")),
        0x30 => Instr {
            prefix: String::from_str("JR NC,"),
            suffix: String::from_str(""),
            slot: Slot::Byte,
            is_call: false,
            is_jump: false,
            is_rel_jump: true,
            is_cond: true,
            is_ret: false,
        },
        0x32 => plain(String::from_str("LD (HL-),A")),
        0x37 => plain(String::from_str("SCF")),
        0x3A => plain(String::from_str("LD A,(HL-)")),
        0x76 => plain(String::from_str("HALT")),
        0xC3 => Instr {
            prefix: String::from_str("JP "),
            suffix: String::from_str(""),
            slot: Slot::Word,
            is_call: false,
            is_jump: true,
            is_rel_jump: false,
            is_cond: false,
            is_ret: false,
        },
        0xC9 => Instr {
            prefix: String::from_str("RET"),
            suffix: String::from_str(""),
            slot: Slot::NoArg,
            is_call: false,
            is_jump: false,
            is_rel_jump: false,
            is_cond: false,
            is_ret: true,
        },
        0xCA => Instr {
            prefix: String::from_str("JP Z,"),
            suffix: String::from_str(""),
            slot: Slot::Word,
            is_call: false,
            is_jump: true,
            is_rel_jump: false,
            is_cond: true,
            is_ret: false,
        },
        0xCC => Instr {
            prefix: String::from_str("CALL Z,"),
            suffix: String::from_str(""),
            slot: Slot::Word,
            is_call: true,
            is_jump: false,
            is_rel_jump: false,
            is_cond: true,
            is_ret: false,
        },
        0xCB => slotted(String::from_str("CB "), Slot::Byte, ""),
        0xCD => Instr {
            prefix: String::from_str("CALL "),
            suffix: String::from_str(""),
            slot: Slot::Word,
            is_call: true,
            is_jump: false,
            is_rel_jump: false,
            is_cond: false,
            is_ret: false,
        },
        0xDA => Instr {
            prefix: String::from_str("JP C,"),
            suffix: String::from_str(""),
            slot: Slot::Word,
            is_call: false,
            is_jump: true,
            is_rel_jump: false,
            is_cond: true,
            is_ret: false,
        },
        0xDC => Instr {
            prefix: String::from_str("CALL C,"),
            suffix: String::from_str(""),
            slot: Slot::Word,
            is_call: true,
            is_jump: false,
            is_rel_jump: false,
            is_cond: true,
            is_ret: false,
        },
        0xE0 => slotted(String::from_str("LDH ("), Slot::Byte, "),A"),
        0xE2 => plain(String::from_str("LD (C),A")),
        0xEA => slotted(String::from_str("LD ("), Slot::Word, "),A"),
        0xF0 => slotted(String::from_str("LDH A,("), Slot::Byte, ")"),
        0xF2 => plain(String::from_str("LD A,(C)")),
        0xF3 => plain(String::from_str("DI")),
        0xFB => plain(String::from_str("EI")),
        n => decode_family(n),
    }
}

/// Decodes a byte the exact table does not cover, through the cascade of
/// nibble-range predicates in their fixed priority order.
fn decode_family(n: u8) -> (t: Instr)
    requires
        exact_model(n) is None,
    ensures
        t@ == family_model(n),
{
    let (upper, lower) = get_nibbles(n);
    if in_range(n, 0x1, 0x1, 0xC, 0xF) {
        plain(joined("POP ", pair_hi_str(upper)))
    } else if in_range(n, 0xF, 0xF, 0xC, 0xF) {
        plain(joined("RST ", rst_str(upper)))
    } else if in_range(n, 0x5, 0x5, 0xC, 0xF) {
        plain(joined("PUSH ", pair_hi_str(upper)))
    } else if in_range(n, 0xE, 0xE, 0xC, 0xF) {
        plain(joined(alu_b_str(upper - 0xC), "$0"))
    } else if in_range(n, 0xA, 0xB, 0x0, 0x3) {
        if lower == 0xA {
            let mut s = joined("LD A,(", pair_lo_str(upper));
            s.append(")");
            plain(s)
        } else {
            plain(joined("DEC ", pair_lo_str(upper)))
        }
    } else if in_range(n, 0xC, 0xE, 0x0, 0x3) {
        if lower == 0xC {
            plain(joined("INC ", reg8_odd_str(upper)))
        } else if lower == 0xD {
            plain(joined("DEC ", reg8_odd_str(upper)))
        } else {
            let mut s = joined("LD ", reg8_odd_str(upper));
            s.append(",");
            slotted(s, Slot::Byte, "")
        }
    } else if in_range(n, 0x0, 0x7, 0x8, 0xB) {
        plain(joined(alu_a_str(upper - 0x8), reg8_str(lower)))
    } else if in_range(n, 0x8, 0xF, 0x8, 0xB) {
        plain(joined(alu_b_str(upper - 0x8), reg8_str(lower - 0x8)))
    } else if in_range(n, 0x8, 0x8, 0x1, 0x3) {
        Instr {
            prefix: joined("JR ", jr_cond_str(upper)),
            suffix: String::from_str(""),
            slot: Slot::Byte,
            is_call: false,
            is_jump: false,
            is_rel_jump: true,
            is_cond: upper != 1,
            is_ret: false,
        }
    } else if in_range(n, 0x2, 0x3, 0x0, 0x3) {
        if lower == 0x2 {
            let mut s = joined("LD (", pair_lo_str(upper));
            s.append("),A");
            plain(s)
        } else {
            plain(joined("INC ", pair_lo_str(upper)))
        }
    } else if in_range(n, 0x1, 0x1, 0x0, 0x3) {
        let mut s = joined("LD ", pair_lo_str(upper));
        s.append(",");
        slotted(s, Slot::Word, "")
    } else if in_range(n, 0x8, 0xF, 0x4, 0x7) {
        let mut s = joined("LD ", reg8_odd_str(upper - 0x4));
        s.append(",");
        s.append(reg8_str(lower - 0x8));
        plain(s)
    } else if in_range(n, 0x6, 0x6, 0xC, 0xF) {
        slotted(String::from_str(alu_a_imm_str(upper - 0xC)), Slot::Byte, "")
    } else if in_range(n, 0x0, 0x7, 0x4, 0x7) {
        let mut s = joined("LD ", reg8_even_str(upper - 0x4));
        s.append(",");
        s.append(reg8_str(lower));
        plain(s)
    } else if in_range(n, 0x4, 0x6, 0x0, 0x3) {
        if lower == 0x4 {
            plain(joined("INC ", reg8_even_str(upper)))
        } else if lower == 0x5 {
            plain(joined("DEC ", reg8_even_str(upper)))
        } else {
            let mut s = joined("LD ", reg8_even_str(upper));
            s.append(",");
            slotted(s, Slot::Byte, "")
        }
    } else {
        let mut s = String::from_str("0x");
        push_hex2(&mut s, n);
        plain(s)
    }
}

} // verus!
