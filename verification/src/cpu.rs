//! A register-level model of the target processor: an 8-bit register file,
//! two 16-bit pointer registers, an instruction clock and arithmetic flags,
//! with the handful of instructions the model implements.

use vstd::prelude::*;

verus! {

/// Names an 8-bit register of the processor, or an 8-bit constant standing
/// in for one as an instruction operand.
#[derive(Clone, Copy, Debug, PartialEq, Eq, Structural)]
pub enum R8 {
    A,
    B,
    C,
    D,
    E,
    H,
    L,
    CONST(u8),
}

/// Names a 16-bit register of the processor — a pointer register or a pair
/// of 8-bit registers read as one — or a 16-bit constant operand.
#[derive(Clone, Copy, Debug, PartialEq, Eq, Structural)]
pub enum R16 {
    PC,
    SP,
    BC,
    DE,
    HL,
    CONST(u16),
}

/// The running total of instruction time, in machine cycles (`m`) and
/// clock ticks (`t`).
#[derive(Clone, Copy, Debug, PartialEq, Eq, Structural)]
pub struct Clock {
    pub m: u8,
    pub t: u8,
}

/// The arithmetic flags the model tracks.
#[derive(Clone, Copy, Debug, PartialEq, Eq, Structural)]
pub struct Flags {
    pub add: bool,
    pub carry: bool,
    pub half_carry: bool,
}

/// The processor state: seven 8-bit registers (A, B, C, D, E, H, L in that
/// order), the time taken by the last instruction (`m`, `t`), the program
/// counter and stack pointer, the accumulated clock and the flags.
pub struct CPU {
    pub clock: Clock,
    pub reg8: [u8; 7],
    pub m: u8,
    pub t: u8,
    pub pc: u16,
    pub sp: u16,
    pub flags: Flags,
}

/// The position of a plain 8-bit register in the register file.
pub open spec fn r8_slot(register: R8) -> int {
    match register {
        R8::A => 0,
        R8::B => 1,
        R8::C => 2,
        R8::D => 3,
        R8::E => 4,
        R8::H => 5,
        R8::L => 6,
        R8::CONST(_) => arbitrary(),
    }
}

impl CPU {
    /// The value an 8-bit operand denotes in this state: the register's
    /// current content, or the constant itself.
    pub open spec fn r8_value(self, register: R8) -> u8 {
        match register {
            R8::CONST(n) => n,
            _ => self.reg8@[r8_slot(register)],
        }
    }

    /// The value a 16-bit operand denotes in this state. A register pair
    /// reads as high byte times 256 plus low byte.
    pub open spec fn r16_value(self, register: R16) -> int {
        match register {
            R16::PC => self.pc as int,
            R16::SP => self.sp as int,
            R16::BC => self.reg8@[1] * 256 + self.reg8@[2],
            R16::DE => self.reg8@[3] * 256 + self.reg8@[4],
            R16::HL => self.reg8@[5] * 256 + self.reg8@[6],
            R16::CONST(n) => n as int,
        }
    }

    /// Everything but the register file, `m` and `t` reads as it did in
    /// `prev`: clock, pointer registers and flags are untouched.
    pub open spec fn same_but_regs_and_time(self, prev: Self) -> bool {
        &&& self.clock == prev.clock
        &&& self.pc == prev.pc
        &&& self.sp == prev.sp
        &&& self.flags == prev.flags
    }

    /// A fresh processor: every register, flag and clock at zero.
    pub fn new() -> (cpu: Self)
        ensures
            cpu.clock == (Clock { m: 0, t: 0 }),
            cpu.reg8@ =~= seq![0u8, 0u8, 0u8, 0u8, 0u8, 0u8, 0u8],
            cpu.m == 0,
            cpu.t == 0,
            cpu.pc == 0,
            cpu.sp == 0,
            cpu.flags == (Flags { add: false, half_carry: false, carry: false }),
    {
        CPU {
            clock: Clock { m: 0, t: 0 },
            reg8: [0, 0, 0, 0, 0, 0, 0],
            m: 0,
            t: 0,
            pc: 0,
            sp: 0,
            flags: Flags { add: false, half_carry: false, carry: false },
        }
    }

    /// Records the time the previous instruction took: `time` machine
    /// cycles, at four clock ticks per cycle.
    pub fn tick(&mut self, time: u8)
        requires
            time * 4 <= u8::MAX,
        ensures
            final(self).m == time,
            final(self).t == time * 4,
            final(self).reg8 == old(self).reg8,
            final(self).same_but_regs_and_time(*old(self)),
    {
        self.m = time;
        self.t = time * 4;
    }

    /// Folds the pending `m`/`t` time into the running clock and zeroes
    /// the pending counters.
    pub fn update_clock(&mut self)
        requires
            old(self).clock.m + old(self).m <= u8::MAX,
            old(self).clock.t + old(self).t <= u8::MAX,
        ensures
            final(self).clock.m == old(self).clock.m + old(self).m,
            final(self).clock.t == old(self).clock.t + old(self).t,
            final(self).m == 0,
            final(self).t == 0,
            final(self).reg8 == old(self).reg8,
            final(self).pc == old(self).pc,
            final(self).sp == old(self).sp,
            final(self).flags == old(self).flags,
    {
        self.clock.m = self.clock.m + self.m;
        self.clock.t = self.clock.t + self.t;
        self.m = 0;
        self.t = 0;
    }

    /// The AND instruction as this model defines it: combines register A
    /// with the operand by a bitwise or and stores the result in A.
    pub fn and(&mut self, register: R8)
        ensures
            final(self).reg8@ == old(self).reg8@.update(
                0,
                old(self).r8_value(register) | old(self).r8_value(R8::A),
            ),
            final(self).m == 2,
            final(self).t == 8,
            final(self).same_but_regs_and_time(*old(self)),
    {
        let res = self.fetch8(register) | self.fetch8(R8::A);
        self.set8(R8::A, res);
    }

    /// The OR instruction: combines register A with the operand by a
    /// bitwise or and stores the result in A.
    pub fn or(&mut self, register: R8)
        ensures
            final(self).reg8@ == old(self).reg8@.update(
                0,
                old(self).r8_value(register) | old(self).r8_value(R8::A),
            ),
            final(self).m == 2,
            final(self).t == 8,
            final(self).same_but_regs_and_time(*old(self)),
    {
        let res = self.fetch8(register) | self.fetch8(R8::A);
        self.set8(R8::A, res);
    }

    /// Reads an 8-bit operand: the named register's content, or the
    /// constant itself.
    pub fn fetch8(&self, register: R8) -> (r: u8)
        ensures
            r == self.r8_value(register),
    {
        match register {
            R8::A => self.reg8[0],
            R8::B => self.reg8[1],
            R8::C => self.reg8[2],
            R8::D => self.reg8[3],
            R8::E => self.reg8[4],
            R8::H => self.reg8[5],
            R8::L => self.reg8[6],
            R8::CONST(n) => n,
        }
    }

    /// Reads a 16-bit operand: a pointer register, a register pair read as
    /// high byte times 256 plus low byte, or the constant itself.
    pub fn fetch16(&self, register: R16) -> (r: u16)
        ensures
            r == self.r16_value(register),
    {
        match register {
            R16::PC => self.pc,
            R16::SP => self.sp,
            R16::BC => u8s_to_u16(self.fetch8(R8::B), self.fetch8(R8::C)),
            R16::DE => u8s_to_u16(self.fetch8(R8::D), self.fetch8(R8::E)),
            R16::HL => u8s_to_u16(self.fetch8(R8::H), self.fetch8(R8::L)),
            R16::CONST(n) => n,
        }
    }

    /// Writes an 8-bit register and charges the two machine cycles a
    /// register load takes. A constant is not a writable place.
    pub fn set8(&mut self, register: R8, value: u8)
        requires
            !(register is CONST),
        ensures
            final(self).reg8@ == old(self).reg8@.update(r8_slot(register), value),
            final(self).m == 2,
            final(self).t == 8,
            final(self).same_but_regs_and_time(*old(self)),
    {
        let slot: usize = match register {
            R8::A => 0,
            R8::B => 1,
            R8::C => 2,
            R8::D => 3,
            R8::E => 4,
            R8::H => 5,
            R8::L => 6,
            R8::CONST(_) => 0,
        };
        self.reg8[slot] = value;
        self.tick(2);
    }

    /// Writes a 16-bit register — a pointer register directly, a register
    /// pair byte by byte — and charges the three machine cycles a 16-bit
    /// load takes. A constant is not a writable place.
    pub fn set16(&mut self, register: R16, value: u16)
        requires
            !(register is CONST),
        ensures
            final(self).m == 3,
            final(self).t == 12,
            final(self).clock == old(self).clock,
            final(self).flags == old(self).flags,
            match register {
                R16::PC => final(self).pc == value && final(self).sp == old(self).sp
                    && final(self).reg8@ == old(self).reg8@,
                R16::SP => final(self).sp == value && final(self).pc == old(self).pc
                    && final(self).reg8@ == old(self).reg8@,
                R16::BC => final(self).reg8@ == old(self).reg8@.update(1, (value / 256) as u8)
                    .update(2, (value % 256) as u8) && final(self).pc == old(self).pc
                    && final(self).sp == old(self).sp,
                R16::DE => final(self).reg8@ == old(self).reg8@.update(3, (value / 256) as u8)
                    .update(4, (value % 256) as u8) && final(self).pc == old(self).pc
                    && final(self).sp == old(self).sp,
                R16::HL => final(self).reg8@ == old(self).reg8@.update(5, (value / 256) as u8)
                    .update(6, (value % 256) as u8) && final(self).pc == old(self).pc
                    && final(self).sp == old(self).sp,
                R16::CONST(_) => false,
            },
    {
        let split = u16_to_u8s(value);
        match register {
            R16::PC => self.pc = value,
            R16::SP => self.sp = value,
            R16::BC => {
                self.set8(R8::B, split.0);
                self.set8(R8::C, split.1);
            },
            R16::DE => {
                self.set8(R8::D, split.0);
                self.set8(R8::E, split.1);
            },
            R16::HL => {
                self.set8(R8::H, split.0);
                self.set8(R8::L, split.1);
            },
            R16::CONST(_) => {},
        }
        self.tick(3);
    }

    /// The LD instruction between 8-bit operands: copies the source into
    /// the destination when the two differ, and charges one machine cycle.
    /// A constant destination is only allowed when it equals the source,
    /// in which case nothing is copied.
    pub fn load(&mut self, to: R8, from: R8)
        requires
            to is CONST ==> to == from,
        ensures
            final(self).reg8@ == if to == from {
                old(self).reg8@
            } else {
                old(self).reg8@.update(r8_slot(to), old(self).r8_value(from))
            },
            final(self).m == 1,
            final(self).t == 4,
            final(self).same_but_regs_and_time(*old(self)),
    {
        if to != from {
            let val = self.fetch8(from);
            self.set8(to, val);
        }
        self.tick(1);
    }

    /// The 8-bit ADD instruction: adds the second operand into the first
    /// register, wrapping modulo 256. Sets the add flag, raises the carry
    /// flag on overflow (leaving it as it was otherwise), and sets the
    /// half-carry flag as `detect_half_carry` reports it.
    pub fn add8(&mut self, fst: R8, snd: R8)
        requires
            !(fst is CONST),
        ensures
            final(self).reg8@ == old(self).reg8@.update(
                r8_slot(fst),
                ((old(self).r8_value(fst) + old(self).r8_value(snd)) % 256) as u8,
            ),
            final(self).m == 2,
            final(self).t == 8,
            final(self).flags.add == true,
            final(self).flags.carry == if old(self).r8_value(fst) + old(self).r8_value(snd)
                > u8::MAX {
                true
            } else {
                old(self).flags.carry
            },
            final(self).flags.half_carry == ((old(self).r8_value(fst) / 16) & (old(
                self,
            ).r8_value(snd) / 16) != 0),
            final(self).clock == old(self).clock,
            final(self).pc == old(self).pc,
            final(self).sp == old(self).sp,
    {
        self.flags.add = true;
        let (i, j) = (self.fetch8(fst), self.fetch8(snd));
        let res = (i as u16) + (j as u16);
        if res > (u8::MAX as u16) {
            self.flags.carry = true;
            self.set8(fst, (res - 256) as u8);
        } else {
            self.set8(fst, i + j);
        }
        self.flags.half_carry = detect_half_carry(i, j);
    }
}

impl R8 {
    /// The seven plain registers, in file order.
    pub fn registers() -> (r: Vec<R8>)
        ensures
            r@ =~= seq![R8::A, R8::B, R8::C, R8::D, R8::E, R8::H, R8::L],
    {
        let mut v: Vec<R8> = Vec::new();
        v.push(R8::A);
        v.push(R8::B);
        v.push(R8::C);
        v.push(R8::D);
        v.push(R8::E);
        v.push(R8::H);
        v.push(R8::L);
        v
    }
}

impl R16 {
    /// The five addressable 16-bit registers.
    pub fn registers() -> (r: Vec<R16>)
        ensures
            r@ =~= seq![R16::PC, R16::SP, R16::BC, R16::DE, R16::HL],
    {
        let mut v: Vec<R16> = Vec::new();
        v.push(R16::PC);
        v.push(R16::SP);
        v.push(R16::BC);
        v.push(R16::DE);
        v.push(R16::HL);
        v
    }
}

/// Splits a 16-bit value into its high and low bytes, high byte first.
pub fn u16_to_u8s(wbyte: u16) -> (r: (u8, u8))
    ensures
        r.0 == wbyte / 256,
        r.1 == wbyte % 256,
{
    proof {
        assert(wbyte >> 8 == wbyte / 256) by (bit_vector);
        assert(wbyte as u8 == wbyte % 256) by (bit_vector);
    }
    ((wbyte >> 8) as u8, wbyte as u8)
}

/// Combines a high and a low byte into a 16-bit value, high byte first.
pub fn u8s_to_u16(high: u8, low: u8) -> (r: u16)
    ensures
        r == high * 256 + low,
{
    proof {
        assert((high as u16) << 8 == high * 256) by (bit_vector);
    }
    let h: u16 = (high as u16) << 8;
    h + (low as u16)
}

/// Reports a carry out of the low nibbles as this model defines it: the
/// high nibbles of the two addends share a set bit.
pub fn detect_half_carry(fst: u8, snd: u8) -> (r: bool)
    ensures
        r == ((fst / 16) & (snd / 16) != 0),
{
    proof {
        assert((fst >> 4) == fst / 16) by (bit_vector);
        assert((snd >> 4) == snd / 16) by (bit_vector);
    }
    let (fst, snd) = ((fst >> 4), (snd >> 4));
    (fst & snd) != 0
}

} // verus!

