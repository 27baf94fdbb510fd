use chip8::Instruction;
use chip8::Op;

#[test]
fn op_debug() {
    assert_eq!(Op(0x0123).disasm(), "call_mcs 0x123");
    assert_eq!(Op(0x00E0).disasm(), "display_clear");
    assert_eq!(Op(0x00EE).disasm(), "return");

    assert_eq!(Op(0x1234).disasm(), "pc <- 0x234");
    assert_eq!(Op(0x2345).disasm(), "call 0x345");
    assert_eq!(Op(0x3456).disasm(), "skip_if V4 == 0x56");
    assert_eq!(Op(0x4567).disasm(), "skip_if V5 != 0x67");

    assert_eq!(Op(0x5670).disasm(), "skip_if V6 == V7");
    assert_eq!(Op(0x5678).disasm(), "invalid ; 0x5678");

    assert_eq!(Op(0x6123).disasm(), "V1 <- 0x23");

    assert_eq!(Op(0x7234).disasm(), "V2 <- V2 + 0x34");

    assert_eq!(Op(0x8210).disasm(), "V2 <- V1");
    assert_eq!(Op(0x8321).disasm(), "V3 <- V3 | V2");
    assert_eq!(Op(0x8432).disasm(), "V4 <- V4 & V3");
    assert_eq!(Op(0x8543).disasm(), "V5 <- V5 ^ V4");
    assert_eq!(Op(0x8654).disasm(), "V6 <- V6 + V5");
    assert_eq!(Op(0x8765).disasm(), "V7 <- V7 - V6");
    assert_eq!(Op(0x8876).disasm(), "V8 <- V8 >> 1 ; V7");
    assert_eq!(Op(0x8987).disasm(), "V9 <- V8 - V9");
    assert_eq!(Op(0x8678).disasm(), "invalid ; 0x8678");
    assert_eq!(Op(0x8789).disasm(), "invalid ; 0x8789");
    assert_eq!(Op(0x889A).disasm(), "invalid ; 0x889A");
    assert_eq!(Op(0x89AB).disasm(), "invalid ; 0x89AB");
    assert_eq!(Op(0x8ABC).disasm(), "invalid ; 0x8ABC");
    assert_eq!(Op(0x8BCD).disasm(), "invalid ; 0x8BCD");
    assert_eq!(Op(0x8CDE).disasm(), "VC <- VC << 1 ; VD");
    assert_eq!(Op(0x8DEF).disasm(), "invalid ; 0x8DEF");

    assert_eq!(Op(0x9210).disasm(), "skip_if V2 != V1");
    assert_eq!(Op(0x9001).disasm(), "invalid ; 0x9001");

    assert_eq!(Op(0xA123).disasm(), "i <- 0x123");
    assert_eq!(Op(0xB234).disasm(), "pc <- V0 + 0x234");
    assert_eq!(Op(0xC345).disasm(), "V3 <- rand() & 0x45");
    assert_eq!(Op(0xD45A).disasm(), "draw_sprite(x=V4, y=V5, h=10, sprite=i)");

    assert_eq!(Op(0xE123).disasm(), "invalid ; 0xE123");
    assert_eq!(Op(0xEF9E).disasm(), "skip_if key_pressed(VF)");
    assert_eq!(Op(0xEEA1).disasm(), "skip_if !key_pressed(VE)");

    assert_eq!(Op(0xFA07).disasm(), "VA <- delay_timer");
    assert_eq!(Op(0xFB0A).disasm(), "VB <- get_key()");
    assert_eq!(Op(0xF012).disasm(), "invalid ; 0xF012");
    assert_eq!(Op(0xFC15).disasm(), "delay_timer <- VC");
    assert_eq!(Op(0xFD18).disasm(), "sound_timer <- VD");
    assert_eq!(Op(0xFA1E).disasm(), "i <- i + VA");
    assert_eq!(Op(0xFB29).disasm(), "i <- sprites[VB]");
    assert_eq!(Op(0xFC33).disasm(), "i[0..3] <- bcd(VC)");
    assert_eq!(Op(0xFD55).disasm(), "i[0..=13] <- [V0..=VD]");
    assert_eq!(Op(0xFE65).disasm(), "[V0..=VE] <- i[0..=14]");
}

#[test]
fn decode_every_word_is_classified() {
    // Decoding is total: every one of the 65536 words decodes, and the
    // reserved sub-patterns come out `Invalid` rather than as a nearby op.
    let mut invalid = 0u32;
    let mut w = 0u32;
    while w <= 0xFFFF {
        let inst = Op(w as u16).decode();
        if let Instruction::Invalid { word } = inst {
            assert_eq!(word, w as u16);
            invalid += 1;
        }
        w += 1;
    }
    // The valid words: 2 display/return, the 0NNN native calls (4094),
    // full 1/2/3/4/6/7/A/B/C/D pages (10 * 4096), the 5XY0 and 9XY0
    // patterns (256 each), nine 8XYk sub-ops (9 * 256), two EXkk forms
    // (16 each) and nine FXkk forms (16 each).
    let valid = 2 + 4094 + 10 * 4096 + 2 * 256 + 9 * 256 + 2 * 16 + 9 * 16;
    assert_eq!(invalid, 65536 - valid);
}

#[test]
fn decode_spot_checks() {
    assert_eq!(Op(0x00E0).decode(), Instruction::DisplayClear);
    assert_eq!(Op(0x00EE).decode(), Instruction::FlowReturn);
    assert_eq!(Op(0x0222).decode(), Instruction::CallMcs { addr: 0x222 });
    assert_eq!(Op(0x1234).decode(), Instruction::FlowGoto { addr: 0x234 });
    assert_eq!(Op(0x8436).decode(), Instruction::Shr1V { x: 4, y: 3 });
    assert_eq!(Op(0x843E).decode(), Instruction::Shl1V { x: 4, y: 3 });
    assert_eq!(Op(0x8438).decode(), Instruction::Invalid { word: 0x8438 });
    assert_eq!(Op(0xD45A).decode(), Instruction::DrawXYH { x: 4, y: 5, h: 10 });
    assert_eq!(Op(0xFE65).decode(), Instruction::RegLoad { x: 14 });
    assert_eq!(Op(0xE09E).decode(), Instruction::SkipIfPressed { x: 0 });
    assert_eq!(Op(0xE0A1).decode(), Instruction::SkipUnlessPressed { x: 0 });
}

#[test]
fn disasm_hex_case_conventions() {
    // Addresses print in lowercase hex, constants in uppercase.
    assert_eq!(Op(0x1ABC).disasm(), "pc <- 0xabc");
    assert_eq!(Op(0x6ABC).disasm(), "VA <- 0xBC");
    assert_eq!(Op(0xFFFF).disasm(), "invalid ; 0xFFFF");
    assert_eq!(Op(0xD00F).disasm(), "draw_sprite(x=V0, y=V0, h=15, sprite=i)");
}
