//! The decode driver: walks a byte image in one forward pass, telling
//! inline data apart from instructions with a heuristic over pending call
//! targets and pending forward conditional-jump targets, and renders one
//! output line per decoded unit.
//!
//! The whole pass is pinned by a functional model: `run_from` says, byte
//! for byte, which lines come out and how the tracker state evolves, and
//! every executable function is proved against it.

use vstd::prelude::*;
use vstd::string::StringExecFns;

use crate::opcode::Instr;
use crate::opcode::InstrModel;
use crate::opcode::Slot;
use crate::opcode::decode_opcode;
use crate::opcode::instr_model;
use crate::render::hex2;
use crate::render::hex4;
use crate::render::pad_to;
use crate::render::pad15;
use crate::render::push_hex2;
use crate::render::push_hex4;

verus! {

/// The terminal failures of a pass. An unassigned opcode is not among
/// them: it renders as a literal fallback and decoding goes on.
#[derive(Clone, Copy, Debug, PartialEq, Eq, Structural)]
pub enum DasmError {
    /// The image ended while the unit that starts at the carried address
    /// still required more bytes. The whole pass aborts with no output.
    TruncatedOperand(usize),
}

/// The tracker state of a pass, as the model sees it: the cursor, the
/// data-window bound (0 when no window is armed), and the two sets of
/// pending addresses.
#[verifier::ext_equal]
pub struct State {
    pub bytes: int,
    pub data_ends: int,
    pub calls: Seq<int>,
    pub jumps_forward: Seq<int>,
}

/// The state a pass starts in: cursor at zero, no window, nothing pending.
pub open spec fn initial_state() -> State {
    State { bytes: 0, data_ends: 0, calls: Seq::empty(), jumps_forward: Seq::empty() }
}

/// Combines two "minimum, or 0 for none" values: 0 loses to anything,
/// otherwise the smaller wins.
pub open spec fn bmin(a: int, b: int) -> int {
    if a == 0 {
        b
    } else if b == 0 {
        a
    } else if a <= b {
        a
    } else {
        b
    }
}

/// The least element of `s` strictly above `c`, or 0 when there is none.
pub open spec fn min_above(s: Seq<int>, c: int) -> int
    decreases s.len(),
{
    if s.len() == 0 {
        0
    } else {
        let rest = min_above(s.drop_last(), c);
        if s.last() > c {
            bmin(rest, s.last())
        } else {
            rest
        }
    }
}

/// The elements of `s` strictly above `c`, in their original order.
pub open spec fn kept_above(s: Seq<int>, c: int) -> Seq<int>
    decreases s.len(),
{
    if s.len() == 0 {
        Seq::empty()
    } else {
        let rest = kept_above(s.drop_last(), c);
        if s.last() > c {
            rest.push(s.last())
        } else {
            rest
        }
    }
}

/// The data-window bound derived from a state: the nearest pending
/// address still ahead of the cursor, or 0 when neither set has one.
pub open spec fn derived_bound(s: State) -> int {
    bmin(min_above(s.jumps_forward, s.bytes), min_above(s.calls, s.bytes))
}

/// A byte read as a signed 8-bit value.
pub open spec fn signed8(b: u8) -> int {
    if b < 128 {
        b as int
    } else {
        b as int - 256
    }
}

/// A value within one step of the 16-bit range, folded back into it; what
/// a relative-jump target looks like in a 4-digit address column.
pub open spec fn norm16(x: int) -> int {
    if x < 0 {
        x + 0x10000
    } else if x >= 0x10000 {
        x - 0x10000
    } else {
        x
    }
}

/// The bytes of a data run rendered as `$XX` literals separated by
/// commas.
pub open spec fn db_items(bs: Seq<u8>) -> Seq<char>
    decreases bs.len(),
{
    if bs.len() == 0 {
        Seq::empty()
    } else if bs.len() == 1 {
        "$"@ + hex2(bs[0])
    } else {
        db_items(bs.drop_last()) + ", "@ + "$"@ + hex2(bs.last())
    }
}

/// One instruction line: the address, the mnemonic text padded to its
/// column, and the raw opcode byte.
pub open spec fn instr_line(addr: int, text: Seq<char>, opcode: u8) -> Seq<char> {
    hex4(addr) + ": "@ + pad_to(text, 15) + "x"@ + hex2(opcode)
}

/// One data line: the address and a `.db` directive over the run.
pub open spec fn data_line(addr: int, run: Seq<u8>) -> Seq<char> {
    hex4(addr) + ": "@ + ".db "@ + db_items(run)
}

/// What one decode step yields: an output line and the state after it,
/// or the truncation failure.
pub enum StepModel {
    Emit { line: Seq<char>, post: State },
    Truncated,
}

/// One decode step of the pass, for a unit whose opcode decoded to the
/// template `m`.
///
/// When the cursor sits inside an armed data window, a data run of at
/// most 16 bytes is emitted, never reaching past the window's bound; the
/// template is ignored. Otherwise the window is disarmed and the template
/// drives the step: a return prunes the pending calls and re-derives the
/// bound; a relative jump with positive corrected displacement records a
/// pending target when conditional, and one with negative displacement
/// re-derives the bound when unconditional; a call whose word target lies
/// ahead records it; an unconditional absolute jump arms the window at
/// its target.
pub open spec fn step_of_instr(input: Seq<u8>, s: State, m: InstrModel) -> StepModel {
    let c = s.bytes;
    if c < s.data_ends {
        let k = if s.data_ends - c < 16 {
            s.data_ends - c
        } else {
            16
        };
        if c + k <= input.len() {
            StepModel::Emit {
                line: data_line(c, input.subrange(c, c + k)),
                post: State { bytes: c + k, ..s },
            }
        } else {
            StepModel::Truncated
        }
    } else {
        match m.slot {
            Slot::NoArg => {
                if m.is_ret {
                    let pruned = kept_above(s.calls, c);
                    let after = State { calls: pruned, ..s };
                    StepModel::Emit {
                        line: instr_line(c, m.prefix + m.suffix, input[c]),
                        post: State { bytes: c + 1, data_ends: derived_bound(after), ..after },
                    }
                } else {
                    StepModel::Emit {
                        line: instr_line(c, m.prefix + m.suffix, input[c]),
                        post: State { bytes: c + 1, data_ends: 0, ..s },
                    }
                }
            },
            Slot::Byte => {
                if c + 1 >= input.len() {
                    StepModel::Truncated
                } else {
                    let arg = input[c + 1];
                    if m.is_rel_jump {
                        let off = signed8(arg) + 2;
                        let target = c + off;
                        StepModel::Emit {
                            line: instr_line(
                                c,
                                m.prefix + "$"@ + hex4(norm16(target)) + m.suffix,
                                input[c],
                            ),
                            post: State {
                                bytes: c + 2,
                                data_ends: if off < 0 && !m.is_cond {
                                    derived_bound(s)
                                } else {
                                    0
                                },
                                calls: s.calls,
                                jumps_forward: if off > 0 && m.is_cond {
                                    s.jumps_forward.push(target)
                                } else {
                                    s.jumps_forward
                                },
                            },
                        }
                    } else {
                        StepModel::Emit {
                            line: instr_line(c, m.prefix + "$"@ + hex2(arg) + m.suffix, input[c]),
                            post: State { bytes: c + 2, data_ends: 0, ..s },
                        }
                    }
                }
            },
            Slot::Word => {
                if c + 2 >= input.len() {
                    StepModel::Truncated
                } else {
                    let a1 = input[c + 1];
                    let a2 = input[c + 2];
                    let comb = a2 * 256 + a1;
                    StepModel::Emit {
                        line: instr_line(
                            c,
                            m.prefix + "$"@ + hex2(a2) + hex2(a1) + m.suffix,
                            input[c],
                        ),
                        post: State {
                            bytes: c + 3,
                            data_ends: if m.is_jump && !m.is_cond {
                                comb
                            } else {
                                0
                            },
                            calls: if m.is_call && comb > c {
                                s.calls.push(comb)
                            } else {
                                s.calls
                            },
                            jumps_forward: s.jumps_forward,
                        },
                    }
                }
            },
        }
    }
}

/// One decode step at the cursor: the opcode byte under the cursor is
/// decoded and drives the step.
pub open spec fn step(input: Seq<u8>, s: State) -> StepModel {
    step_of_instr(input, s, instr_model(input[s.bytes]))
}

/// The whole pass from a given state: the lines of every remaining unit,
/// or the first truncation failure. Each unit consumes at least one byte,
/// so the pass ends.
pub open spec fn run_from(input: Seq<u8>, s: State) -> Result<Seq<Seq<char>>, DasmError>
    decreases input.len() - s.bytes,
{
    if s.bytes >= input.len() {
        Ok(Seq::empty())
    } else {
        match step(input, s) {
            StepModel::Truncated => Err(DasmError::TruncatedOperand(s.bytes as usize)),
            StepModel::Emit { line, post } => match run_from(input, post) {
                Ok(rest) => Ok(seq![line] + rest),
                Err(e) => Err(e),
            },
        }
    }
}

/// The whole pass over an image, from the start state.
pub open spec fn disassembly_of(input: Seq<u8>) -> Result<Seq<Seq<char>>, DasmError> {
    run_from(input, initial_state())
}

/// A sequence of machine addresses as the model's integers.
pub open spec fn addrs_of(s: Seq<usize>) -> Seq<int> {
    s.map_values(|x: usize| x as int)
}

/// The walking state of one pass: the image, the cursor (`bytes`, the
/// address of the next byte to decode), the data-window bound
/// (`data_ends`, 0 when no window is armed), and the pending call and
/// forward-jump targets.
pub struct Disassembly {
    pub input: Vec<u8>,
    pub bytes: usize,
    pub data_ends: usize,
    pub calls: Vec<usize>,
    pub jumps_forward: Vec<usize>,
}

impl Disassembly {
    /// The tracker state as the model sees it.
    pub open spec fn st(&self) -> State {
        State {
            bytes: self.bytes as int,
            data_ends: self.data_ends as int,
            calls: addrs_of(self.calls@),
            jumps_forward: addrs_of(self.jumps_forward@),
        }
    }

    /// A pass over `input`, ready at its first byte.
    pub fn new(input: Vec<u8>) -> (d: Self)
        ensures
            d.input@ == input@,
            d.st() == initial_state(),
    {
        let d = Disassembly {
            input: input,
            bytes: 0,
            data_ends: 0,
            calls: Vec::new(),
            jumps_forward: Vec::new(),
        };
        proof {
            assert(d.st() =~= initial_state());
        }
        d
    }

    /// The byte under the cursor, or nothing once the image is exhausted.
    pub fn next(&self) -> (r: Option<u8>)
        ensures
            self.bytes < self.input@.len() ==> r == Some(self.input@[self.bytes as int]),
            self.bytes >= self.input@.len() ==> r is None,
    {
        if self.bytes < self.input.len() {
            Some(self.input[self.bytes])
        } else {
            None
        }
    }

    /// Re-derives the data-window bound: the nearest pending address still
    /// ahead of the cursor, from either set, or 0 when there is none.
    pub fn check_if_data_segment(&mut self)
        ensures
            final(self).input == old(self).input,
            final(self).bytes == old(self).bytes,
            final(self).calls == old(self).calls,
            final(self).jumps_forward == old(self).jumps_forward,
            final(self).data_ends == derived_bound(old(self).st()),
    {
        let n = least_above(&self.jumps_forward, self.bytes);
        let m = least_above(&self.calls, self.bytes);
        self.data_ends = if n == 0 {
            m
        } else if m == 0 {
            n
        } else if n <= m {
            n
        } else {
            m
        };
    }

    /// Decodes one unit at the cursor — the data run the armed window
    /// calls for, or the instruction `byte` decoded to — updates the
    /// tracker as `step_of_instr` says, and returns the rendered line.
    /// When the image ends inside the unit, fails with the unit's address
    /// and changes nothing.
    pub fn parse_line(&mut self, instruction: Instr, byte: u8) -> (r: Result<String, DasmError>)
        requires
            old(self).input@.len() <= 0xFFFF,
            old(self).bytes < old(self).input@.len(),
            byte == old(self).input@[old(self).bytes as int],
        ensures
            final(self).input == old(self).input,
            step_of_instr(old(self).input@, old(self).st(), instruction@) matches StepModel::Emit {
                line,
                post,
            } ==> r matches Ok(out) && out@ == line && final(self).st() == post,
            step_of_instr(old(self).input@, old(self).st(), instruction@) is Truncated ==> r
                == Err::<String, DasmError>(DasmError::TruncatedOperand(old(self).bytes))
                && final(self).st() == old(self).st(),
    {
        let c = self.bytes;
        let ghost s0 = self.st();
        if c < self.data_ends {
            let window = self.data_ends - c;
            let k = if window < 16 {
                window
            } else {
                16
            };
            if k > self.input.len() - c {
                return Err(DasmError::TruncatedOperand(c));
            }
            let mut line = String::new();
            push_hex4(&mut line, c as u16);
            line.append(": ");
            line.append(".db ");
            proof {
                assert(self.input@.subrange(c as int, c as int) =~= Seq::<u8>::empty());
                assert(line@ =~= hex4(c as int) + ": "@ + ".db "@ + db_items(
                    self.input@.subrange(c as int, c as int),
                ));
            }
            let mut i: usize = 0;
            while i < k
                invariant
                    i <= k,
                    1 <= k <= 16,
                    c + k <= self.input@.len(),
                    self.input@.len() <= 0xFFFF,
                    c == self.bytes,
                    self == old(self),
                    line@ == hex4(c as int) + ": "@ + ".db "@ + db_items(
                        self.input@.subrange(c as int, c + i),
                    ),
                decreases k - i,
            {
                if i > 0 {
                    line.append(", ");
                }
                line.append("$");
                push_hex2(&mut line, self.input[c + i]);
                proof {
                    let sub1 = self.input@.subrange(c as int, c + i + 1);
                    assert(sub1.drop_last() =~= self.input@.subrange(c as int, c + i));
                    assert(sub1.last() == self.input@[c + i]);
                    assert(line@ =~= hex4(c as int) + ": "@ + ".db "@ + db_items(sub1));
                }
                i = i + 1;
            }
            self.bytes = c + k;
            proof {
                assert(self.st() =~= (State { bytes: c + k as int, ..s0 }));
            }
            Ok(line)
        } else {
            let Instr { prefix, suffix, slot, is_call, is_jump, is_rel_jump, is_cond, is_ret } =
                instruction;
            match slot {
                Slot::NoArg => {
                    if is_ret {
                        let mut new_calls: Vec<usize> = Vec::new();
                        let mut i: usize = 0;
                        while i < self.calls.len()
                            invariant
                                i <= self.calls@.len(),
                                c == self.bytes,
                                self == old(self),
                                addrs_of(new_calls@) == kept_above(
                                    addrs_of(self.calls@.take(i as int)),
                                    c as int,
                                ),
                            decreases self.calls@.len() - i,
                        {
                            let x = self.calls[i];
                            proof {
                                assert(addrs_of(self.calls@.take(i + 1)).drop_last() =~= addrs_of(
                                    self.calls@.take(i as int),
                                ));
                                assert(addrs_of(self.calls@.take(i + 1)).last() == x as int);
                            }
                            if x > c {
                                new_calls.push(x);
                                proof {
                                    assert(addrs_of(new_calls@) =~= kept_above(
                                        addrs_of(self.calls@.take(i + 1)),
                                        c as int,
                                    ));
                                }
                            } else {
                                proof {
                                    assert(addrs_of(new_calls@) =~= kept_above(
                                        addrs_of(self.calls@.take(i + 1)),
                                        c as int,
                                    ));
                                }
                            }
                            i = i + 1;
                        }
                        proof {
                            assert(self.calls@.take(self.calls@.len() as int) =~= self.calls@);
                        }
                        self.calls = new_calls;
                        self.check_if_data_segment();
                    } else {
                        self.data_ends = 0;
                    }
                    self.bytes = c + 1;
                    let mut text = prefix;
                    text.append(suffix.as_str());
                    let line = compose_line(c, text, byte);
                    proof {
                        if is_ret {
                            let after = State { calls: kept_above(s0.calls, c as int), ..s0 };
                            assert(self.st() =~= (State {
                                bytes: c + 1 as int,
                                data_ends: derived_bound(after),
                                ..after
                            }));
                        } else {
                            assert(self.st() =~= (State { bytes: c + 1 as int, data_ends: 0, ..s0 }));
                        }
                    }
                    Ok(line)
                },
                Slot::Byte => {
                    if c + 1 >= self.input.len() {
                        return Err(DasmError::TruncatedOperand(c));
                    }
                    let arg = self.input[c + 1];
                    if is_rel_jump {
                        let sv: i32 = if arg >= 128 {
                            arg as i32 - 256
                        } else {
                            arg as i32
                        };
                        let off: i32 = sv + 2;
                        let target: i32 = c as i32 + off;
                        let disp: u16 = if target < 0 {
                            (target + 0x10000) as u16
                        } else if target >= 0x10000 {
                            (target - 0x10000) as u16
                        } else {
                            target as u16
                        };
                        proof {
                            assert(sv as int == signed8(arg));
                            assert(disp as int == norm16(c as int + signed8(arg) + 2));
                        }
                        self.data_ends = 0;
                        if off > 0 && is_cond {
                            self.jumps_forward.push(target as usize);
                            proof {
                                assert(addrs_of(self.jumps_forward@) =~= s0.jumps_forward.push(
                                    c as int + signed8(arg) + 2,
                                ));
                            }
                        } else if off < 0 && !is_cond {
                            self.check_if_data_segment();
                        }
                        self.bytes = c + 2;
                        let mut text = prefix;
                        text.append("$");
                        push_hex4(&mut text, disp);
                        text.append(suffix.as_str());
                        let line = compose_line(c, text, byte);
                        proof {
                            let off_m = signed8(arg) + 2;
                            assert(self.st() =~= (State {
                                bytes: c + 2 as int,
                                data_ends: if off_m < 0 && !is_cond {
                                    derived_bound(s0)
                                } else {
                                    0
                                },
                                calls: s0.calls,
                                jumps_forward: if off_m > 0 && is_cond {
                                    s0.jumps_forward.push(c as int + off_m)
                                } else {
                                    s0.jumps_forward
                                },
                            }));
                        }
                        Ok(line)
                    } else {
                        self.data_ends = 0;
                        self.bytes = c + 2;
                        let mut text = prefix;
                        text.append("$");
                        push_hex2(&mut text, arg);
                        text.append(suffix.as_str());
                        let line = compose_line(c, text, byte);
                        proof {
                            assert(self.st() =~= (State { bytes: c + 2 as int, data_ends: 0, ..s0 }));
                        }
                        Ok(line)
                    }
                },
                Slot::Word => {
                    if c + 2 >= self.input.len() {
                        return Err(DasmError::TruncatedOperand(c));
                    }
                    let arg1 = self.input[c + 1];
                    let arg2 = self.input[c + 2];
                    let comb: usize = combine(arg2, arg1) as usize;
                    self.data_ends = 0;
                    if is_call && comb > c {
                        self.calls.push(comb);
                        proof {
                            assert(addrs_of(self.calls@) =~= s0.calls.push(comb as int));
                        }
                    }
                    if is_jump && !is_cond {
                        self.data_ends = comb;
                    }
                    self.bytes = c + 3;
                    let mut text = prefix;
                    text.append("$");
                    push_hex2(&mut text, arg2);
                    push_hex2(&mut text, arg1);
                    text.append(suffix.as_str());
                    let line = compose_line(c, text, byte);
                    proof {
                        assert(self.st() =~= (State {
                            bytes: c + 3 as int,
                            data_ends: if is_jump && !is_cond {
                                comb as int
                            } else {
                                0
                            },
                            calls: if is_call && comb as int > c as int {
                                s0.calls.push(comb as int)
                            } else {
                                s0.calls
                            },
                            jumps_forward: s0.jumps_forward,
                        }));
                    }
                    Ok(line)
                },
            }
        }
    }
}

/// Renders one instruction line: the 4-digit address, the mnemonic text
/// padded to its column, and the raw opcode byte.
fn compose_line(addr: usize, text: String, opcode: u8) -> (r: String)
    requires
        addr <= 0xFFFF,
    ensures
        r@ == instr_line(addr as int, text@, opcode),
{
    let mut padded = text;
    pad15(&mut padded);
    let mut line = String::new();
    push_hex4(&mut line, addr as u16);
    line.append(": ");
    line.append(padded.as_str());
    line.append("x");
    push_hex2(&mut line, opcode);
    proof {
        assert(line@ =~= instr_line(addr as int, text@, opcode));
    }
    line
}

/// How `run_from` unfolds one step while bytes remain: an emitted line is
/// put in front of the rest of the pass, and a truncation ends it with the
/// unit's address.
proof fn lemma_run_from_step(input: Seq<u8>, s: State)
    requires
        0 <= s.bytes < input.len(),
    ensures
        step(input, s) matches StepModel::Emit { line, post } ==> run_from(input, s) == (
        match run_from(input, post) {
            Ok(rest) => Ok::<Seq<Seq<char>>, DasmError>(seq![line] + rest),
            Err(e) => Err::<Seq<Seq<char>>, DasmError>(e),
        }),
        step(input, s) is Truncated ==> run_from(input, s) == Err::<Seq<Seq<char>>, DasmError>(
            DasmError::TruncatedOperand(s.bytes as usize),
        ),
{
}

/// `run_from` past the last byte: nothing is left to emit.
proof fn lemma_run_from_end(input: Seq<u8>, s: State)
    requires
        s.bytes >= input.len(),
    ensures
        run_from(input, s) == Ok::<Seq<Seq<char>>, DasmError>(Seq::empty()),
{
}

/// Disassembles a whole image: one line per decoded unit, exactly as the
/// model `disassembly_of` lays the pass down — or the first truncation
/// failure, with no partial output. The image must fit the 16-bit address
/// space.
pub fn disassemble(input: Vec<u8>) -> (r: Result<Vec<String>, DasmError>)
    requires
        input@.len() <= 0xFFFF,
    ensures
        disassembly_of(input@) matches Ok(lines) ==> r matches Ok(v) && v.deep_view() == lines,
        disassembly_of(input@) matches Err(e) ==> r == Err::<Vec<String>, DasmError>(e),
{
    let ghost iv = input@;
    let mut d = Disassembly::new(input);
    let mut out: Vec<String> = Vec::new();
    proof {
        assert(out.deep_view() =~= Seq::<Seq<char>>::empty());
    }
    #[verifier::loop_isolation(false)]
    loop
        invariant
            d.input@ == iv,
            iv.len() <= 0xFFFF,
            d.bytes <= iv.len(),
            match run_from(iv, d.st()) {
                Ok(rest) => disassembly_of(iv) == Ok::<Seq<Seq<char>>, DasmError>(
                    out.deep_view() + rest,
                ),
                Err(e) => disassembly_of(iv) == Err::<Seq<Seq<char>>, DasmError>(e),
            },
        decreases iv.len() - d.bytes,
    {
        let nb = d.next();
        match nb {
            None => {
                proof {
                    lemma_run_from_end(iv, d.st());
                    assert(out.deep_view() + Seq::<Seq<char>>::empty() =~= out.deep_view());
                }
                return Ok(out);
            },
            Some(byte) => {
                let ghost pre = d.st();
                let instr = decode_opcode(byte);
                proof {
                    assert(step(iv, pre) == step_of_instr(iv, pre, instr@));
                    lemma_run_from_step(iv, pre);
                }
                let res = d.parse_line(instr, byte);
                match res {
                    Ok(line) => {
                        let ghost old_out = out.deep_view();
                        out.push(line);
                        proof {
                            assert(out.deep_view() =~= old_out.push(line@));
                            match run_from(iv, d.st()) {
                                Ok(rest) => {
                                    assert(old_out.push(line@) + rest =~= old_out + (seq![line@]
                                        + rest));
                                },
                                Err(_) => {},
                            }
                        }
                    },
                    Err(e) => {
                        return Err(e);
                    },
                }
            },
        }
    }
}

/// The byte counts of the units a pass decodes from `s` on, one entry per
/// emitted line, up to the end of the image or the first truncation.
pub open spec fn unit_lengths(input: Seq<u8>, s: State) -> Seq<int>
    decreases input.len() - s.bytes,
{
    if s.bytes >= input.len() {
        Seq::empty()
    } else {
        match step(input, s) {
            StepModel::Truncated => Seq::empty(),
            StepModel::Emit { line, post } => seq![post.bytes - s.bytes] + unit_lengths(
                input,
                post,
            ),
        }
    }
}

/// The sum of a sequence of byte counts.
pub open spec fn sum_of(ks: Seq<int>) -> int
    decreases ks.len(),
{
    if ks.len() == 0 {
        0
    } else {
        ks[0] + sum_of(ks.drop_first())
    }
}

/// A step that emits advances the cursor by at least one byte and never
/// past the end of the image.
proof fn lemma_step_bounds(input: Seq<u8>, s: State)
    requires
        0 <= s.bytes < input.len(),
    ensures
        step(input, s) matches StepModel::Emit { post, .. } ==> s.bytes < post.bytes
            <= input.len(),
{
}

/// Cursor accounting: over a pass that decodes the rest of the image
/// without failing, the cursor moves from its start to the end of the
/// image by exactly the sum of the decoded units' byte counts.
pub proof fn lemma_cursor_is_sum_of_unit_lengths(input: Seq<u8>, s: State)
    requires
        0 <= s.bytes <= input.len(),
        run_from(input, s) is Ok,
    ensures
        s.bytes + sum_of(unit_lengths(input, s)) == input.len(),
    decreases input.len() - s.bytes,
{
    if s.bytes >= input.len() {
        assert(unit_lengths(input, s) =~= Seq::<int>::empty());
    } else {
        lemma_step_bounds(input, s);
        match step(input, s) {
            StepModel::Truncated => {
                assert(false);
            },
            StepModel::Emit { line, post } => {
                let k = post.bytes - s.bytes;
                let ks = unit_lengths(input, post);
                assert((seq![k] + ks).drop_first() =~= ks);
                lemma_cursor_is_sum_of_unit_lengths(input, post);
            },
        }
    }
}

/// Data-window containment: a step that begins inside an armed data
/// window (so the bound lies strictly ahead of the cursor) emits a run of
/// at most 16 bytes and never consumes past the bound.
pub proof fn lemma_data_window_containment(input: Seq<u8>, s: State)
    requires
        0 <= s.bytes,
        s.bytes < s.data_ends,
    ensures
        step(input, s) matches StepModel::Emit { post, .. } ==> s.bytes < post.bytes
            <= s.data_ends && post.bytes - s.bytes <= 16,
{
}

/// Every address kept by a pruning is strictly above the cursor it pruned
/// against.
proof fn lemma_kept_above_is_above(s: Seq<int>, c: int)
    ensures
        forall|i: int| 0 <= i < kept_above(s, c).len() ==> kept_above(s, c)[i] > c,
    decreases s.len(),
{
    if s.len() > 0 {
        lemma_kept_above_is_above(s.drop_last(), c);
        let rest = kept_above(s.drop_last(), c);
        if s.last() > c {
            assert forall|i: int| 0 <= i < kept_above(s, c).len() implies kept_above(s, c)[i]
                > c by {
                if i < rest.len() {
                    assert(kept_above(s, c)[i] == rest[i]);
                } else {
                    assert(kept_above(s, c)[i] == s.last());
                }
            }
        }
    }
}

/// Call pruning: after a return decodes at the cursor, every address
/// still pending as a call target lies strictly above that address.
pub proof fn lemma_ret_prunes_pending_calls(input: Seq<u8>, s: State)
    requires
        s.bytes >= s.data_ends,
        instr_model(input[s.bytes]).is_ret,
        instr_model(input[s.bytes]).slot == Slot::NoArg,
    ensures
        step(input, s) matches StepModel::Emit { post, .. } ==> forall|i: int|
            0 <= i < post.calls.len() ==> post.calls[i] > s.bytes,
{
    lemma_kept_above_is_above(s.calls, s.bytes);
}

/// Determinism of the pass: the lines are a function of the byte sequence
/// alone, so two runs over the same bytes yield identical output.
pub proof fn lemma_disassembly_deterministic(a: Seq<u8>, b: Seq<u8>)
    requires
        a == b,
    ensures
        disassembly_of(a) == disassembly_of(b),
{
}

/// Combines two operand bytes into a 16-bit address, first byte high.
pub fn combine(a: u8, b: u8) -> (r: u16)
    ensures
        r == a * 256 + b,
{
    proof {
        assert((a as u16) << 8 == a * 256) by (bit_vector);
    }
    ((a as u16) << 8) + (b as u16)
}

/// The least element of `v` strictly above `c`, or 0 when there is none.
fn least_above(v: &Vec<usize>, c: usize) -> (r: usize)
    ensures
        r == min_above(addrs_of(v@), c as int),
{
    let mut best: usize = 0;
    let mut i: usize = 0;
    while i < v.len()
        invariant
            i <= v@.len(),
            best == min_above(addrs_of(v@.take(i as int)), c as int),
        decreases v@.len() - i,
    {
        let x = v[i];
        proof {
            assert(addrs_of(v@.take(i + 1)).drop_last() =~= addrs_of(v@.take(i as int)));
            assert(addrs_of(v@.take(i + 1)).last() == x as int);
        }
        if x > c {
            if best == 0 || x < best {
                best = x;
            }
        }
        i = i + 1;
    }
    proof {
        assert(v@.take(v@.len() as int) =~= v@);
    }
    best
}

} // verus!
