//! Canonical one-line disassembly text for every instruction word.
//! The exact strings are a compatibility surface: tooling built on the
//! decoder compares them verbatim.

use vstd::prelude::*;

use crate::decode::Instruction;
use crate::decode::spec_decode;
use crate::op::Op;

verus! {

/// The uppercase hex digit for a value below 16.
pub open spec fn hex_upper(n: u8) -> char {
    if n == 0 {
        '0'
    } else if n == 1 {
        '1'
    } else if n == 2 {
        '2'
    } else if n == 3 {
        '3'
    } else if n == 4 {
        '4'
    } else if n == 5 {
        '5'
    } else if n == 6 {
        '6'
    } else if n == 7 {
        '7'
    } else if n == 8 {
        '8'
    } else if n == 9 {
        '9'
    } else if n == 10 {
        'A'
    } else if n == 11 {
        'B'
    } else if n == 12 {
        'C'
    } else if n == 13 {
        'D'
    } else if n == 14 {
        'E'
    } else {
        'F'
    }
}

/// The lowercase hex digit for a value below 16.
pub open spec fn hex_lower(n: u8) -> char {
    if n == 10 {
        'a'
    } else if n == 11 {
        'b'
    } else if n == 12 {
        'c'
    } else if n == 13 {
        'd'
    } else if n == 14 {
        'e'
    } else if n == 15 {
        'f'
    } else {
        hex_upper(n)
    }
}

/// A register name: `V` followed by one uppercase hex digit.
pub open spec fn s_reg(x: u8) -> Seq<char> {
    seq!['V', hex_upper(x)]
}

/// A 12-bit address: `0x` followed by three lowercase hex digits.
pub open spec fn s_addr(a: u16) -> Seq<char> {
    seq![
        '0',
        'x',
        hex_lower(((a >> 8) & 0xF) as u8),
        hex_lower(((a >> 4) & 0xF) as u8),
        hex_lower((a & 0xF) as u8),
    ]
}

/// A byte constant: `0x` followed by two uppercase hex digits.
pub open spec fn s_byte(c: u8) -> Seq<char> {
    seq!['0', 'x', hex_upper(c >> 4), hex_upper(c & 0xF)]
}

/// A full instruction word: `0x` followed by four uppercase hex digits.
pub open spec fn s_word(w: u16) -> Seq<char> {
    seq![
        '0',
        'x',
        hex_upper(((w >> 12) & 0xF) as u8),
        hex_upper(((w >> 8) & 0xF) as u8),
        hex_upper(((w >> 4) & 0xF) as u8),
        hex_upper((w & 0xF) as u8),
    ]
}

/// A value below 16 in decimal, one or two digits.
pub open spec fn s_dec(n: u8) -> Seq<char> {
    if n < 10 {
        seq![hex_upper(n)]
    } else {
        seq!['1', hex_upper((n - 10) as u8)]
    }
}

/// The canonical disassembly of a word, one line, no trailing newline.
pub open spec fn spec_disasm(w: u16) -> Seq<char> {
    match spec_decode(w) {
        Instruction::CallMcs { addr } => "call_mcs "@ + s_addr(addr),
        Instruction::DisplayClear => "display_clear"@,
        Instruction::FlowReturn => "return"@,
        Instruction::FlowGoto { addr } => "pc <- "@ + s_addr(addr),
        Instruction::FlowCall { addr } => "call "@ + s_addr(addr),
        Instruction::SkipIfVEqC { x, c } => "skip_if "@ + s_reg(x) + " == "@ + s_byte(c),
        Instruction::SkipIfVNeC { x, c } => "skip_if "@ + s_reg(x) + " != "@ + s_byte(c),
        Instruction::SkipIfVEqV { x, y } => "skip_if "@ + s_reg(x) + " == "@ + s_reg(y),
        Instruction::SetVC { x, c } => s_reg(x) + " <- "@ + s_byte(c),
        Instruction::AddVC { x, c } => s_reg(x) + " <- "@ + s_reg(x) + " + "@ + s_byte(c),
        Instruction::SetVV { x, y } => s_reg(x) + " <- "@ + s_reg(y),
        Instruction::BitOrVV { x, y } => s_reg(x) + " <- "@ + s_reg(x) + " | "@ + s_reg(y),
        Instruction::BitAndVV { x, y } => s_reg(x) + " <- "@ + s_reg(x) + " & "@ + s_reg(y),
        Instruction::BitXorVV { x, y } => s_reg(x) + " <- "@ + s_reg(x) + " ^ "@ + s_reg(y),
        Instruction::AddVV { x, y } => s_reg(x) + " <- "@ + s_reg(x) + " + "@ + s_reg(y),
        Instruction::SubVV { x, y } => s_reg(x) + " <- "@ + s_reg(x) + " - "@ + s_reg(y),
        Instruction::Shr1V { x, y } => s_reg(x) + " <- "@ + s_reg(x) + " >> 1 ; "@ + s_reg(y),
        Instruction::SubVVAlt { x, y } => s_reg(x) + " <- "@ + s_reg(y) + " - "@ + s_reg(x),
        Instruction::Shl1V { x, y } => s_reg(x) + " <- "@ + s_reg(x) + " << 1 ; "@ + s_reg(y),
        Instruction::SkipIfVNeV { x, y } => "skip_if "@ + s_reg(x) + " != "@ + s_reg(y),
        Instruction::SetIC { addr } => "i <- "@ + s_addr(addr),
        Instruction::SetPcV0PlusC { addr } => "pc <- V0 + "@ + s_addr(addr),
        Instruction::SetVRandMask { x, mask } => s_reg(x) + " <- rand() & "@ + s_byte(mask),
        Instruction::DrawXYH { x, y, h } => "draw_sprite(x="@ + s_reg(x) + ", y="@ + s_reg(y)
            + ", h="@ + s_dec(h) + ", sprite=i)"@,
        Instruction::SkipIfPressed { x } => "skip_if key_pressed("@ + s_reg(x) + ")"@,
        Instruction::SkipUnlessPressed { x } => "skip_if !key_pressed("@ + s_reg(x) + ")"@,
        Instruction::GetDelayTimer { x } => s_reg(x) + " <- delay_timer"@,
        Instruction::AwaitKey { x } => s_reg(x) + " <- get_key()"@,
        Instruction::SetDelayTimer { x } => "delay_timer <- "@ + s_reg(x),
        Instruction::SetSoundTimer { x } => "sound_timer <- "@ + s_reg(x),
        Instruction::AddIV { x } => "i <- i + "@ + s_reg(x),
        Instruction::SetISprite { x } => "i <- sprites["@ + s_reg(x) + "]"@,
        Instruction::SetIBcd { x } => "i[0..3] <- bcd("@ + s_reg(x) + ")"@,
        Instruction::RegDump { x } => "i[0..="@ + s_dec(x) + "] <- [V0..="@ + s_reg(x) + "]"@,
        Instruction::RegLoad { x } => "[V0..="@ + s_reg(x) + "] <- i[0..="@ + s_dec(x) + "]"@,
        Instruction::Invalid { word } => "invalid ; "@ + s_word(word),
    }
}

/// Relies on `String::push_str`: appends the string slice to the end of
/// the string.
#[verifier::external_body]
fn push_str_t(s: &mut String, t: &str)
    ensures
        final(s)@ == old(s)@ + t@,
{
    s.push_str(t)
}

/// Relies on `String::push`: appends the character to the end of the
/// string.
#[verifier::external_body]
fn push_char_t(s: &mut String, c: char)
    ensures
        final(s)@ == old(s)@.push(c),
{
    s.push(c)
}

/// The uppercase hex digit for `n`.
fn hex_upper_ch(n: u8) -> (r: char)
    requires
        n < 16,
    ensures
        r == hex_upper(n),
{
    if n == 0 {
        '0'
    } else if n == 1 {
        '1'
    } else if n == 2 {
        '2'
    } else if n == 3 {
        '3'
    } else if n == 4 {
        '4'
    } else if n == 5 {
        '5'
    } else if n == 6 {
        '6'
    } else if n == 7 {
        '7'
    } else if n == 8 {
        '8'
    } else if n == 9 {
        '9'
    } else if n == 10 {
        'A'
    } else if n == 11 {
        'B'
    } else if n == 12 {
        'C'
    } else if n == 13 {
        'D'
    } else if n == 14 {
        'E'
    } else {
        'F'
    }
}

/// The lowercase hex digit for `n`.
fn hex_lower_ch(n: u8) -> (r: char)
    requires
        n < 16,
    ensures
        r == hex_lower(n),
{
    if n == 10 {
        'a'
    } else if n == 11 {
        'b'
    } else if n == 12 {
        'c'
    } else if n == 13 {
        'd'
    } else if n == 14 {
        'e'
    } else if n == 15 {
        'f'
    } else {
        hex_upper_ch(n)
    }
}

/// A register name as a fresh string.
fn reg_str(x: u8) -> (r: String)
    requires
        x < 16,
    ensures
        r@ == s_reg(x),
{
    let mut s = String::new();
    push_char_t(&mut s, 'V');
    push_char_t(&mut s, hex_upper_ch(x));
    proof {
        assert(s@ =~= s_reg(x));
    }
    s
}

/// Append a register name.
fn push_reg(s: &mut String, x: u8)
    requires
        x < 16,
    ensures
        final(s)@ == old(s)@ + s_reg(x),
{
    push_char_t(s, 'V');
    push_char_t(s, hex_upper_ch(x));
    proof {
        assert(s@ =~= old(s)@ + s_reg(x));
    }
}

/// Append a three-digit lowercase hex address with its `0x` prefix.
fn push_addr(s: &mut String, a: u16)
    ensures
        final(s)@ == old(s)@ + s_addr(a),
{
    proof {
        assert(((a >> 8) & 0xF) < 16 && ((a >> 4) & 0xF) < 16 && (a & 0xF) < 16) by (bit_vector);
    }
    push_char_t(s, '0');
    push_char_t(s, 'x');
    push_char_t(s, hex_lower_ch(((a >> 8) & 0xF) as u8));
    push_char_t(s, hex_lower_ch(((a >> 4) & 0xF) as u8));
    push_char_t(s, hex_lower_ch((a & 0xF) as u8));
    proof {
        assert(s@ =~= old(s)@ + s_addr(a));
    }
}

/// Append a two-digit uppercase hex byte with its `0x` prefix.
fn push_byte(s: &mut String, c: u8)
    ensures
        final(s)@ == old(s)@ + s_byte(c),
{
    proof {
        assert((c >> 4) < 16 && (c & 0xF) < 16) by (bit_vector);
    }
    push_char_t(s, '0');
    push_char_t(s, 'x');
    push_char_t(s, hex_upper_ch(c >> 4));
    push_char_t(s, hex_upper_ch(c & 0xF));
    proof {
        assert(s@ =~= old(s)@ + s_byte(c));
    }
}

/// Append a four-digit uppercase hex word with its `0x` prefix.
fn push_word(s: &mut String, w: u16)
    ensures
        final(s)@ == old(s)@ + s_word(w),
{
    proof {
        assert(((w >> 12) & 0xF) < 16 && ((w >> 8) & 0xF) < 16 && ((w >> 4) & 0xF) < 16 && (w & 0xF)
            < 16) by (bit_vector);
    }
    push_char_t(s, '0');
    push_char_t(s, 'x');
    push_char_t(s, hex_upper_ch(((w >> 12) & 0xF) as u8));
    push_char_t(s, hex_upper_ch(((w >> 8) & 0xF) as u8));
    push_char_t(s, hex_upper_ch(((w >> 4) & 0xF) as u8));
    push_char_t(s, hex_upper_ch((w & 0xF) as u8));
    proof {
        assert(s@ =~= old(s)@ + s_word(w));
    }
}

/// Append a value below 16 in decimal.
fn push_dec(s: &mut String, n: u8)
    requires
        n < 16,
    ensures
        final(s)@ == old(s)@ + s_dec(n),
{
    if n < 10 {
        push_char_t(s, hex_upper_ch(n));
    } else {
        push_char_t(s, '1');
        push_char_t(s, hex_upper_ch(n - 10));
    }
    proof {
        assert(s@ =~= old(s)@ + s_dec(n));
    }
}

impl Op {
    /// The canonical disassembly of this word.
    pub fn disasm(&self) -> (r: String)
        ensures
            r@ == spec_disasm(self.0),
    {
        match self.decode() {
            Instruction::CallMcs { addr } => {
                let mut s = "call_mcs ".to_owned();
                push_addr(&mut s, addr);
                s
            },
            Instruction::DisplayClear => "display_clear".to_owned(),
            Instruction::FlowReturn => "return".to_owned(),
            Instruction::FlowGoto { addr } => {
                let mut s = "pc <- ".to_owned();
                push_addr(&mut s, addr);
                s
            },
            Instruction::FlowCall { addr } => {
                let mut s = "call ".to_owned();
                push_addr(&mut s, addr);
                s
            },
            Instruction::SkipIfVEqC { x, c } => {
                let mut s = "skip_if ".to_owned();
                push_reg(&mut s, x);
                push_str_t(&mut s, " == ");
                push_byte(&mut s, c);
                s
            },
            Instruction::SkipIfVNeC { x, c } => {
                let mut s = "skip_if ".to_owned();
                push_reg(&mut s, x);
                push_str_t(&mut s, " != ");
                push_byte(&mut s, c);
                s
            },
            Instruction::SkipIfVEqV { x, y } => {
                let mut s = "skip_if ".to_owned();
                push_reg(&mut s, x);
                push_str_t(&mut s, " == ");
                push_reg(&mut s, y);
                s
            },
            Instruction::SetVC { x, c } => {
                let mut s = reg_str(x);
                push_str_t(&mut s, " <- ");
                push_byte(&mut s, c);
                s
            },
            Instruction::AddVC { x, c } => {
                let mut s = reg_str(x);
                push_str_t(&mut s, " <- ");
                push_reg(&mut s, x);
                push_str_t(&mut s, " + ");
                push_byte(&mut s, c);
                s
            },
            Instruction::SetVV { x, y } => {
                let mut s = reg_str(x);
                push_str_t(&mut s, " <- ");
                push_reg(&mut s, y);
                s
            },
            Instruction::BitOrVV { x, y } => {
                let mut s = reg_str(x);
                push_str_t(&mut s, " <- ");
                push_reg(&mut s, x);
                push_str_t(&mut s, " | ");
                push_reg(&mut s, y);
                s
            },
            Instruction::BitAndVV { x, y } => {
                let mut s = reg_str(x);
                push_str_t(&mut s, " <- ");
                push_reg(&mut s, x);
                push_str_t(&mut s, " & ");
                push_reg(&mut s, y);
                s
            },
            Instruction::BitXorVV { x, y } => {
                let mut s = reg_str(x);
                push_str_t(&mut s, " <- ");
                push_reg(&mut s, x);
                push_str_t(&mut s, " ^ ");
                push_reg(&mut s, y);
                s
            },
            Instruction::AddVV { x, y } => {
                let mut s = reg_str(x);
                push_str_t(&mut s, " <- ");
                push_reg(&mut s, x);
                push_str_t(&mut s, " + ");
                push_reg(&mut s, y);
                s
            },
            Instruction::SubVV { x, y } => {
                let mut s = reg_str(x);
                push_str_t(&mut s, " <- ");
                push_reg(&mut s, x);
                push_str_t(&mut s, " - ");
                push_reg(&mut s, y);
                s
            },
            Instruction::Shr1V { x, y } => {
                let mut s = reg_str(x);
                push_str_t(&mut s, " <- ");
                push_reg(&mut s, x);
                push_str_t(&mut s, " >> 1 ; ");
                push_reg(&mut s, y);
                s
            },
            Instruction::SubVVAlt { x, y } => {
                let mut s = reg_str(x);
                push_str_t(&mut s, " <- ");
                push_reg(&mut s, y);
                push_str_t(&mut s, " - ");
                push_reg(&mut s, x);
                s
            },
            Instruction::Shl1V { x, y } => {
                let mut s = reg_str(x);
                push_str_t(&mut s, " <- ");
                push_reg(&mut s, x);
                push_str_t(&mut s, " << 1 ; ");
                push_reg(&mut s, y);
                s
            },
            Instruction::SkipIfVNeV { x, y } => {
                let mut s = "skip_if ".to_owned();
                push_reg(&mut s, x);
                push_str_t(&mut s, " != ");
                push_reg(&mut s, y);
                s
            },
            Instruction::SetIC { addr } => {
                let mut s = "i <- ".to_owned();
                push_addr(&mut s, addr);
                s
            },
            Instruction::SetPcV0PlusC { addr } => {
                let mut s = "pc <- V0 + ".to_owned();
                push_addr(&mut s, addr);
                s
            },
            Instruction::SetVRandMask { x, mask } => {
                let mut s = reg_str(x);
                push_str_t(&mut s, " <- rand() & ");
                push_byte(&mut s, mask);
                s
            },
            Instruction::DrawXYH { x, y, h } => {
                let mut s = "draw_sprite(x=".to_owned();
                push_reg(&mut s, x);
                push_str_t(&mut s, ", y=");
                push_reg(&mut s, y);
                push_str_t(&mut s, ", h=");
                push_dec(&mut s, h);
                push_str_t(&mut s, ", sprite=i)");
                s
            },
            Instruction::SkipIfPressed { x } => {
                let mut s = "skip_if key_pressed(".to_owned();
                push_reg(&mut s, x);
                push_str_t(&mut s, ")");
                s
            },
            Instruction::SkipUnlessPressed { x } => {
                let mut s = "skip_if !key_pressed(".to_owned();
                push_reg(&mut s, x);
                push_str_t(&mut s, ")");
                s
            },
            Instruction::GetDelayTimer { x } => {
                let mut s = reg_str(x);
                push_str_t(&mut s, " <- delay_timer");
                s
            },
            Instruction::AwaitKey { x } => {
                let mut s = reg_str(x);
                push_str_t(&mut s, " <- get_key()");
                s
            },
            Instruction::SetDelayTimer { x } => {
                let mut s = "delay_timer <- ".to_owned();
                push_reg(&mut s, x);
                s
            },
            Instruction::SetSoundTimer { x } => {
                let mut s = "sound_timer <- ".to_owned();
                push_reg(&mut s, x);
                s
            },
            Instruction::AddIV { x } => {
                let mut s = "i <- i + ".to_owned();
                push_reg(&mut s, x);
                s
            },
            Instruction::SetISprite { x } => {
                let mut s = "i <- sprites[".to_owned();
                push_reg(&mut s, x);
                push_str_t(&mut s, "]");
                s
            },
            Instruction::SetIBcd { x } => {
                let mut s = "i[0..3] <- bcd(".to_owned();
                push_reg(&mut s, x);
                push_str_t(&mut s, ")");
                s
            },
            Instruction::RegDump { x } => {
                let mut s = "i[0..=".to_owned();
                push_dec(&mut s, x);
                push_str_t(&mut s, "] <- [V0..=");
                push_reg(&mut s, x);
                push_str_t(&mut s, "]");
                s
            },
            Instruction::RegLoad { x } => {
                let mut s = "[V0..=".to_owned();
                push_reg(&mut s, x);
                push_str_t(&mut s, "] <- i[0..=");
                push_dec(&mut s, x);
                push_str_t(&mut s, "]");
                s
            },
            Instruction::Invalid { word } => {
                let mut s = "invalid ; ".to_owned();
                push_word(&mut s, word);
                s
            },
        }
    }
}

} // verus!
