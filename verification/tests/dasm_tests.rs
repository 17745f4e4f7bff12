use gb_dasm::dasm::combine;
use gb_dasm::dasm::disassemble;
use gb_dasm::dasm::DasmError;
use gb_dasm::dasm::Disassembly;
use gb_dasm::opcode::conditional;
use gb_dasm::opcode::decode_opcode;
use gb_dasm::opcode::get_nibbles;
use gb_dasm::opcode::in_range;
use gb_dasm::opcode::Slot;

// Every byte value decodes to exactly one template without panicking, and
// a single-byte image either yields exactly one line (operand-free
// opcodes) or fails as truncated (opcodes that require operands).
#[test]
fn every_byte_decodes_to_one_template() {
    for b in 0..=u8::MAX {
        let t = decode_opcode(b);
        match disassemble(vec![b]) {
            Ok(lines) => {
                assert!(matches!(t.slot, Slot::NoArg));
                assert_eq!(lines.len(), 1);
            }
            Err(e) => {
                assert!(!matches!(t.slot, Slot::NoArg));
                assert_eq!(e, DasmError::TruncatedOperand(0));
            }
        }
    }
}

#[test]
fn decoder_spot_checks() {
    assert_eq!(decode_opcode(0x00).prefix, "NOP");
    assert_eq!(decode_opcode(0xC9).prefix, "RET");
    assert!(decode_opcode(0xC9).is_ret);
    assert_eq!(decode_opcode(0xC1).prefix, "POP BC");
    assert_eq!(decode_opcode(0xFF).prefix, "RST $30");
    assert_eq!(decode_opcode(0xE5).prefix, "PUSH HL");
    assert_eq!(decode_opcode(0xCE).prefix, "ADC A,$0");
    assert_eq!(decode_opcode(0x0B).prefix, "DEC BC");
    assert_eq!(decode_opcode(0x1E).prefix, "LD E,");
    assert!(matches!(decode_opcode(0x1E).slot, Slot::Byte));
    assert_eq!(decode_opcode(0x87).prefix, "ADD A,A");
    assert_eq!(decode_opcode(0x9E).prefix, "SBC A,(HL)");
    assert_eq!(decode_opcode(0x18).prefix, "JR ");
    assert!(decode_opcode(0x18).is_rel_jump);
    assert!(!decode_opcode(0x18).is_cond);
    assert!(decode_opcode(0x28).is_cond);
    assert_eq!(decode_opcode(0x28).prefix, "JR Z,");
    assert_eq!(decode_opcode(0x13).prefix, "INC DE");
    assert_eq!(decode_opcode(0x31).prefix, "LD SP,");
    assert!(matches!(decode_opcode(0x31).slot, Slot::Word));
    assert_eq!(decode_opcode(0x7E).prefix, "LD A,(HL)");
    assert_eq!(decode_opcode(0xD6).prefix, "SUB ");
    assert_eq!(decode_opcode(0xC6).prefix, "ADD a,");
    assert_eq!(decode_opcode(0x66).prefix, "LD H,(HL)");
    assert_eq!(decode_opcode(0x36).prefix, "LD (HL),");
    assert_eq!(decode_opcode(0x08).prefix, "LD (");
    assert_eq!(decode_opcode(0x08).suffix, "),SP");
    // Bytes the table does not assign fall back to a hex literal.
    assert_eq!(decode_opcode(0x09).prefix, "0x09");
    assert_eq!(decode_opcode(0xC2).prefix, "0xC2");
    assert_eq!(decode_opcode(0xE8).prefix, "0xE8");
    assert!(matches!(decode_opcode(0x09).slot, Slot::NoArg));
}

// An absolute unconditional jump arms the data window: the operand bytes
// behind it render as a data run until the jump target, where decoding
// resumes.
#[test]
fn scenario_absolute_jump_opens_data_window() {
    let lines = disassemble(vec![0xC3, 0x05, 0x00, 0x00, 0x00, 0xC9]).unwrap();
    assert_eq!(lines.len(), 3);
    assert_eq!(lines[0], "0000: JP $0005       xC3");
    assert_eq!(lines[1], "0003: .db $00, $00");
    assert_eq!(lines[2], "0005: RET            xC9");
}

// A conditional relative jump with a corrected displacement of exactly
// zero records nothing and arms nothing.
#[test]
fn scenario_zero_offset_jump_is_inert() {
    let mut d = Disassembly::new(vec![0x20, 0xFE]);
    let instr = decode_opcode(0x20);
    let line = d.parse_line(instr, 0x20).unwrap();
    assert_eq!(line, "0000: JR NZ,$0000    x20");
    assert_eq!(d.bytes, 2);
    assert_eq!(d.data_ends, 0);
    assert!(d.jumps_forward.is_empty());
    assert!(d.calls.is_empty());
}

// A call records its forward target; the return decoded at exactly that
// address prunes it — an address equal to the cursor does not survive.
#[test]
fn scenario_return_at_recorded_address_prunes_it() {
    let mut image = vec![0xCD, 0x10, 0x00];
    image.extend(std::iter::repeat(0x00).take(13));
    image.push(0xC9);
    let mut d = Disassembly::new(image.clone());
    let mut lines = Vec::new();
    while let Some(byte) = d.next() {
        let instr = decode_opcode(byte);
        lines.push(d.parse_line(instr, byte).unwrap());
        if d.bytes == 3 {
            // The call target 0x0010 lies ahead of the cursor: recorded.
            assert_eq!(d.calls, vec![0x10usize]);
        }
    }
    assert_eq!(lines.len(), 15);
    assert_eq!(lines[0], "0000: CALL $0010     xCD");
    assert_eq!(lines[1], "0003: NOP            x00");
    assert_eq!(lines[14], "0010: RET            xC9");
    // Pruning keeps only addresses strictly above the cursor: none is left.
    assert_eq!(d.calls, Vec::<usize>::new());
    assert_eq!(d.data_ends, 0);
}

// An unconditional relative jump backwards re-derives the data window
// from the pending call targets, and the run stops at the nearest one.
#[test]
fn backward_jump_opens_window_until_pending_call() {
    let lines =
        disassemble(vec![0xCD, 0x08, 0x00, 0x18, 0xF0, 0x00, 0x00, 0x00, 0xC9]).unwrap();
    assert_eq!(lines.len(), 4);
    assert_eq!(lines[0], "0000: CALL $0008     xCD");
    assert_eq!(lines[1], "0003: JR $FFF5       x18");
    assert_eq!(lines[2], "0005: .db $00, $00, $00");
    assert_eq!(lines[3], "0008: RET            xC9");
}

// A data run is chunked: at most 16 bytes per line, stopping early at the
// window's bound.
#[test]
fn data_runs_chunk_at_sixteen_bytes() {
    let mut image = vec![0xC3, 0x17, 0x00];
    image.extend(std::iter::repeat(0xAB).take(20));
    image.push(0xC9);
    let lines = disassemble(image).unwrap();
    assert_eq!(lines.len(), 4);
    assert_eq!(lines[0], "0000: JP $0017       xC3");
    assert_eq!(
        lines[1],
        "0003: .db $AB, $AB, $AB, $AB, $AB, $AB, $AB, $AB, $AB, $AB, $AB, $AB, $AB, $AB, $AB, $AB"
    );
    assert_eq!(lines[2], "0013: .db $AB, $AB, $AB, $AB");
    assert_eq!(lines[3], "0017: RET            xC9");
}

// The image ending while a unit still requires bytes is the terminal
// failure, carrying the unit's address; no partial output is salvaged.
#[test]
fn truncated_operands_fail_the_pass() {
    assert_eq!(disassemble(vec![0xC3]), Err(DasmError::TruncatedOperand(0)));
    assert_eq!(disassemble(vec![0xC3, 0x05]), Err(DasmError::TruncatedOperand(0)));
    assert_eq!(disassemble(vec![0x06]), Err(DasmError::TruncatedOperand(0)));
    assert_eq!(disassemble(vec![0x00, 0xCB]), Err(DasmError::TruncatedOperand(1)));
    // A data window reaching past the end of the image truncates the run.
    assert_eq!(
        disassemble(vec![0xC3, 0x10, 0x00, 0x00, 0x00]),
        Err(DasmError::TruncatedOperand(3))
    );
}

// Running the full disassembly twice over the same bytes yields identical
// output: the pass is a function of the byte sequence alone.
#[test]
fn disassembly_is_deterministic() {
    let image = vec![0xC3, 0x05, 0x00, 0x12, 0x34, 0xC9, 0x20, 0x05, 0xCD, 0x0D, 0x00, 0x00,
        0xC9];
    let first = disassemble(image.clone());
    let second = disassemble(image);
    assert_eq!(first, second);
}

// The relative-jump target is rendered as cursor plus corrected offset,
// and a forward conditional jump records its target.
#[test]
fn forward_conditional_jump_records_target() {
    let mut d = Disassembly::new(vec![0x20, 0x10, 0x00]);
    let instr = decode_opcode(0x20);
    let line = d.parse_line(instr, 0x20).unwrap();
    // Signed 0x10 is 16, corrected to 18: target 0x0012.
    assert_eq!(line, "0000: JR NZ,$0012    x20");
    assert_eq!(d.jumps_forward, vec![0x12usize]);
    assert_eq!(d.data_ends, 0);
}

// A recorded forward conditional-jump target becomes the data window's
// bound when a return re-derives it.
#[test]
fn forward_jump_window_arms_on_return() {
    let lines = disassemble(vec![0x20, 0x04, 0xC9, 0xAB, 0xAB, 0xAB, 0xC9]).unwrap();
    assert_eq!(lines.len(), 4);
    assert_eq!(lines[0], "0000: JR NZ,$0006    x20");
    assert_eq!(lines[1], "0002: RET            xC9");
    assert_eq!(lines[2], "0003: .db $AB, $AB, $AB");
    assert_eq!(lines[3], "0006: RET            xC9");
}

#[test]
fn conditional_looks_for_condition_letters() {
    assert!(conditional("JR NZ,#0"));
    assert!(conditional("JP Z,#1#0"));
    assert!(conditional("JR C,#0"));
    assert!(!conditional("JR #0"));
    assert!(!conditional("JP #1#0"));
    assert!(!conditional("RET"));
    // The letters are looked for anywhere in the text.
    assert!(conditional("CALL #1#0"));
    assert!(conditional("SCF"));
    assert!(!conditional(""));
}

#[test]
fn nibble_helpers() {
    assert_eq!(get_nibbles(0xAB), (0xA, 0xB));
    assert_eq!(get_nibbles(0x00), (0, 0));
    assert_eq!(get_nibbles(0xF0), (0xF, 0));
    assert!(in_range(0xC1, 0x1, 0x1, 0xC, 0xF));
    assert!(!in_range(0xB1, 0x1, 0x1, 0xC, 0xF));
    assert!(in_range(0x48, 0x8, 0xF, 0x4, 0x7));
    assert_eq!(combine(0xAB, 0xCD), 0xABCD);
    assert_eq!(combine(0x00, 0x05), 0x0005);
}
