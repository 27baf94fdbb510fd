use std::cell::RefCell;

use chip8::Addr;
use chip8::Context;
use chip8::Memory4K;
use chip8::StepError;
use chip8::Syscalls;
use chip8::HostAnswers;
use chip8::bcd;

struct KeySys {
    key: Option<u8>,
    pressed: bool,
}

impl Syscalls for KeySys {
    fn rand(&self) -> u8 {
        0
    }
    fn get_key(&self) -> Option<u8> {
        self.key
    }
    fn is_pressed(&self, _key: u8) -> bool {
        self.pressed
    }
    fn sound_play(&self) {}
    fn sound_stop(&self) {}
    fn render(&self, _screen: &[u8]) {}
}

struct RandSys(u8);

impl Syscalls for RandSys {
    fn rand(&self) -> u8 {
        self.0
    }
    fn get_key(&self) -> Option<u8> {
        None
    }
    fn is_pressed(&self, _key: u8) -> bool {
        false
    }
    fn sound_play(&self) {}
    fn sound_stop(&self) {}
    fn render(&self, _screen: &[u8]) {}
}

struct RecSys {
    events: RefCell<Vec<&'static str>>,
}

impl Syscalls for RecSys {
    fn rand(&self) -> u8 {
        0
    }
    fn get_key(&self) -> Option<u8> {
        None
    }
    fn is_pressed(&self, _key: u8) -> bool {
        false
    }
    fn sound_play(&self) {
        self.events.borrow_mut().push("play");
    }
    fn sound_stop(&self) {
        self.events.borrow_mut().push("stop");
    }
    fn render(&self, _screen: &[u8]) {}
}

fn boot(program: &[u8]) -> Context<()> {
    let mut ctx = Context::new(());
    ctx.memory
        .copy_from_slice(Addr(0x200), program)
        .expect("program fits");
    ctx
}

#[test]
fn test_bcd() {
    assert_eq!([1, 2, 3], bcd(123))
}

#[test]
fn bcd_zero() {
    assert_eq!([0, 0, 0], bcd(0))
}

#[test]
fn boot_state() {
    let ctx = Context::new(());
    assert_eq!(ctx.registers.pc.to_u16(), 0x200);
    assert_eq!(ctx.registers.i.to_u16(), 0);
    assert_eq!(ctx.registers.v, [0u8; 16]);
    // The font's glyph 0 sits at the base of memory.
    assert_eq!(ctx.memory.read(Addr(0)), 0x60);
    assert_eq!(ctx.memory.read(Addr(1)), 0x90);
    // Past the font, memory is zero.
    assert_eq!(ctx.memory.read(Addr(80)), 0);
    assert_eq!(ctx.memory.read(Addr(0x5FF)), 0);
}

#[test]
fn add_v_v_sets_carry() {
    // 8014: V0 <- V0 + V1.
    let mut ctx = boot(&[0x80, 0x14]);
    ctx.registers.v[0] = 0xFF;
    ctx.registers.v[1] = 0x01;
    assert_eq!(ctx.try_step_single(), Ok(()));
    assert_eq!(ctx.registers.v[0], 0x00);
    assert_eq!(ctx.registers.v[0xF], 1);
    assert_eq!(ctx.registers.pc.to_u16(), 0x202);
}

#[test]
fn sub_v_v_clears_flag_on_borrow() {
    // 8015: V0 <- V0 - V1, VF = no-borrow.
    let mut ctx = boot(&[0x80, 0x15]);
    ctx.registers.v[0] = 0x01;
    ctx.registers.v[1] = 0x02;
    assert_eq!(ctx.try_step_single(), Ok(()));
    assert_eq!(ctx.registers.v[0], 0xFF);
    assert_eq!(ctx.registers.v[0xF], 0);
}

#[test]
fn shr_reads_y_writes_x() {
    // 8016: V0 <- V1 >> 1, VF = shifted-out bit.
    let mut ctx = boot(&[0x80, 0x16]);
    ctx.registers.v[1] = 0x05;
    assert_eq!(ctx.try_step_single(), Ok(()));
    assert_eq!(ctx.registers.v[0], 0x02);
    assert_eq!(ctx.registers.v[0xF], 1);
    assert_eq!(ctx.registers.v[1], 0x05);
}

#[test]
fn shl_reads_y_writes_x() {
    // 801E: V0 <- V1 << 1, VF = shifted-out bit (as the 0x80 mask).
    let mut ctx = boot(&[0x80, 0x1E]);
    ctx.registers.v[1] = 0x81;
    assert_eq!(ctx.try_step_single(), Ok(()));
    assert_eq!(ctx.registers.v[0], 0x02);
    assert_eq!(ctx.registers.v[0xF], 0x80);
    assert_eq!(ctx.registers.v[1], 0x81);
}

#[test]
fn vf_is_written_last_when_it_is_an_operand() {
    // 8FE4: VF <- VF + VE; the carry overwrites the sum.
    let mut ctx = boot(&[0x8F, 0xE4]);
    ctx.registers.v[0xF] = 0xFF;
    ctx.registers.v[0xE] = 0x01;
    assert_eq!(ctx.try_step_single(), Ok(()));
    assert_eq!(ctx.registers.v[0xF], 1);
}

#[test]
fn sprite_collision_on_second_draw() {
    // D011 twice: a one-byte sprite drawn at (V0, V1) = (4, 3).
    let mut ctx = boot(&[0xD0, 0x11, 0xD0, 0x11]);
    ctx.registers.v[0] = 4;
    ctx.registers.v[1] = 3;
    ctx.registers.i = Addr(0x700);
    ctx.memory.write(Addr(0x700), 0x80);
    assert_eq!(ctx.try_step_single(), Ok(()));
    assert_eq!(ctx.registers.v[0xF], 0, "first draw collides with nothing");
    assert!(ctx.memory.get_pixel(4, 3));
    assert_eq!(ctx.try_step_single(), Ok(()));
    assert_eq!(ctx.registers.v[0xF], 1, "second draw turns the pixel off");
    assert!(!ctx.memory.get_pixel(4, 3));
}

#[test]
fn sprite_pixels_off_grid_are_dropped() {
    // A full-byte sprite at x=60: columns 60..=63 land, the rest fall off.
    let mut ctx = boot(&[0xD0, 0x11]);
    ctx.registers.v[0] = 60;
    ctx.registers.v[1] = 0;
    ctx.registers.i = Addr(0x700);
    ctx.memory.write(Addr(0x700), 0xFF);
    assert_eq!(ctx.try_step_single(), Ok(()));
    assert_eq!(ctx.registers.v[0xF], 0);
    for x in 60..64 {
        assert!(ctx.memory.get_pixel(x, 0));
    }
    // Nothing wrapped around to the left edge.
    for x in 0..4 {
        assert!(!ctx.memory.get_pixel(x, 0));
    }
}

#[test]
fn display_clear_zeroes_only_the_display() {
    let mut ctx = boot(&[0x00, 0xE0]);
    ctx.memory.write(Addr(0xF08), 0xFF);
    ctx.memory.write(Addr(0x700), 0xAA);
    assert_eq!(ctx.try_step_single(), Ok(()));
    assert_eq!(ctx.memory.read(Addr(0xF08)), 0);
    assert_eq!(ctx.memory.read(Addr(0x700)), 0xAA);
}

#[test]
fn timer_of_one_never_sounds() {
    let mut ctx = Context::new(RecSys { events: RefCell::new(Vec::new()) });
    ctx.registers.sound_timer = 1;
    ctx.step_clocks();
    assert_eq!(ctx.registers.sound_timer, 0);
    assert!(!ctx.registers.sound_playing);
    assert!(ctx.syscalls.events.borrow().is_empty());
}

#[test]
fn timer_edges_fire_once() {
    let mut ctx = Context::new(RecSys { events: RefCell::new(Vec::new()) });
    ctx.registers.sound_timer = 3;
    ctx.step_clocks();
    assert_eq!(*ctx.syscalls.events.borrow(), vec!["play"]);
    ctx.step_clocks();
    assert_eq!(*ctx.syscalls.events.borrow(), vec!["play"], "no repeat while playing");
    ctx.step_clocks();
    assert_eq!(*ctx.syscalls.events.borrow(), vec!["play", "stop"]);
    ctx.step_clocks();
    assert_eq!(*ctx.syscalls.events.borrow(), vec!["play", "stop"], "stop fires only once");
}

#[test]
fn delay_timer_saturates_at_zero() {
    let mut ctx = Context::new(());
    ctx.registers.delay_timer = 1;
    ctx.step_clocks();
    ctx.step_clocks();
    assert_eq!(ctx.registers.delay_timer, 0);
}

#[test]
fn bcd_op_writes_three_digits() {
    let mut ctx = boot(&[0xF2, 0x33]);
    ctx.registers.v[2] = 123;
    ctx.registers.i = Addr(0x300);
    assert_eq!(ctx.try_step_single(), Ok(()));
    assert_eq!(ctx.memory.read(Addr(0x300)), 1);
    assert_eq!(ctx.memory.read(Addr(0x301)), 2);
    assert_eq!(ctx.memory.read(Addr(0x302)), 3);
}

#[test]
fn memory_wraps_at_twelve_bits() {
    let mut mem = Memory4K::new();
    mem.write(Addr(0x1000), 7);
    assert_eq!(mem.read(Addr(0x000)), 7);
    mem.write(Addr(0xFFF), 9);
    assert_eq!(mem.read(Addr(0x1FFF)), 9);
    // A fetch at the top of memory wraps its low byte around.
    mem.write(Addr(0x000), 7);
    assert_eq!(mem.read16(Addr(0xFFF)), 0x0907);
}

#[test]
fn goto_self_spins_forever_without_harm() {
    // 1200 at 0x200: jump to itself.
    let mut ctx = boot(&[0x12, 0x00]);
    assert_eq!(ctx.try_step_many(10_000), 10_000);
    assert_eq!(ctx.registers.pc.to_u16(), 0x200);
    assert_eq!(ctx.registers.v, [0u8; 16]);
    assert_eq!(ctx.registers.stack.len(), 0);
}

#[test]
fn await_key_blocks_without_mutation() {
    let mut ctx = Context::new(KeySys { key: None, pressed: false });
    ctx.memory.copy_from_slice(Addr(0x200), &[0xF5, 0x0A]).unwrap();
    assert_eq!(ctx.try_step_single(), Err(StepError::AwaitingKey));
    assert!(!StepError::AwaitingKey.is_fatal());
    assert_eq!(ctx.registers.pc.to_u16(), 0x200, "a blocked step moves nothing");
    assert_eq!(ctx.try_step_many(5), 0);
    ctx.syscalls = KeySys { key: Some(0xB), pressed: false };
    assert_eq!(ctx.try_step_single(), Ok(()));
    assert_eq!(ctx.registers.v[5], 0xB);
    assert_eq!(ctx.registers.pc.to_u16(), 0x202);
}

#[test]
fn key_skip_ops_query_synchronously() {
    // E09E then E0A1, with key 0 reported down.
    let mut ctx = Context::new(KeySys { key: None, pressed: true });
    ctx.memory.copy_from_slice(Addr(0x200), &[0xE0, 0x9E]).unwrap();
    assert_eq!(ctx.try_step_single(), Ok(()));
    assert_eq!(ctx.registers.pc.to_u16(), 0x204, "pressed key skips");
    let mut ctx = Context::new(KeySys { key: None, pressed: true });
    ctx.memory.copy_from_slice(Addr(0x200), &[0xE0, 0xA1]).unwrap();
    assert_eq!(ctx.try_step_single(), Ok(()));
    assert_eq!(ctx.registers.pc.to_u16(), 0x202, "pressed key does not skip the unless-form");
}

#[test]
fn invalid_instruction_is_fatal() {
    let mut ctx = boot(&[0x80, 0x18]);
    let err = ctx.try_step_single().unwrap_err();
    assert_eq!(err, StepError::InvalidInstruction(0x8018));
    assert!(err.is_fatal());
    assert_eq!(ctx.registers.pc.to_u16(), 0x200);
}

#[test]
fn native_call_is_fatal() {
    let mut ctx = boot(&[0x03, 0x45]);
    let err = ctx.try_step_single().unwrap_err();
    assert_eq!(err, StepError::NativeCall(0x0345));
    assert!(err.is_fatal());
}

#[test]
fn return_with_empty_stack_is_fatal() {
    let mut ctx = boot(&[0x00, 0xEE]);
    assert_eq!(ctx.try_step_single(), Err(StepError::StackUnderflow));
    assert_eq!(ctx.registers.pc.to_u16(), 0x200);
}

#[test]
fn call_and_return_round_trip() {
    // 2204: call 0x204; at 0x204: 00EE returns to 0x202.
    let mut ctx = boot(&[0x22, 0x04, 0x00, 0x00, 0x00, 0xEE]);
    assert_eq!(ctx.try_step_single(), Ok(()));
    assert_eq!(ctx.registers.pc.to_u16(), 0x204);
    assert_eq!(ctx.registers.stack.len(), 1);
    assert_eq!(ctx.try_step_single(), Ok(()));
    assert_eq!(ctx.registers.pc.to_u16(), 0x202);
    assert_eq!(ctx.registers.stack.len(), 0);
}

#[test]
fn skip_ops_advance_two_or_four() {
    // 3407: skip if V4 == 7.
    let mut ctx = boot(&[0x34, 0x07]);
    ctx.registers.v[4] = 7;
    assert_eq!(ctx.try_step_single(), Ok(()));
    assert_eq!(ctx.registers.pc.to_u16(), 0x204);
    let mut ctx = boot(&[0x34, 0x07]);
    ctx.registers.v[4] = 8;
    assert_eq!(ctx.try_step_single(), Ok(()));
    assert_eq!(ctx.registers.pc.to_u16(), 0x202);
}

#[test]
fn jump_with_offset_masks_to_twelve_bits() {
    // BFFF: PC <- (V0 + 0xFFF) & 0xFFF.
    let mut ctx = boot(&[0xBF, 0xFF]);
    ctx.registers.v[0] = 0x10;
    assert_eq!(ctx.try_step_single(), Ok(()));
    assert_eq!(ctx.registers.pc.to_u16(), 0x00F);
}

#[test]
fn rand_is_masked() {
    // C3F0: V3 <- rand() & 0xF0.
    let mut ctx = Context::new(RandSys(0xAB));
    ctx.memory.copy_from_slice(Addr(0x200), &[0xC3, 0xF0]).unwrap();
    assert_eq!(ctx.try_step_single(), Ok(()));
    assert_eq!(ctx.registers.v[3], 0xA0);
}

#[test]
fn reg_dump_and_load_round_trip() {
    // F255: store V0..=V2 at I.
    let mut ctx = boot(&[0xF2, 0x55]);
    ctx.registers.v[0] = 0xAA;
    ctx.registers.v[1] = 0xBB;
    ctx.registers.v[2] = 0xCC;
    ctx.registers.v[3] = 0xDD;
    ctx.registers.i = Addr(0x400);
    assert_eq!(ctx.try_step_single(), Ok(()));
    assert_eq!(ctx.memory.read(Addr(0x400)), 0xAA);
    assert_eq!(ctx.memory.read(Addr(0x401)), 0xBB);
    assert_eq!(ctx.memory.read(Addr(0x402)), 0xCC);
    assert_eq!(ctx.memory.read(Addr(0x403)), 0, "V3 is past the dumped range");

    // F165: load V0..=V1 back from I.
    let mut ctx2 = boot(&[0xF1, 0x65]);
    ctx2.registers.i = Addr(0x400);
    ctx2.memory.write(Addr(0x400), 0x11);
    ctx2.memory.write(Addr(0x401), 0x22);
    ctx2.registers.v[2] = 0x99;
    assert_eq!(ctx2.try_step_single(), Ok(()));
    assert_eq!(ctx2.registers.v[0], 0x11);
    assert_eq!(ctx2.registers.v[1], 0x22);
    assert_eq!(ctx2.registers.v[2], 0x99, "registers past X are untouched");
}

#[test]
fn set_i_sprite_points_at_the_glyph() {
    // F329: I <- glyph address for digit V3.
    let mut ctx = boot(&[0xF3, 0x29]);
    ctx.registers.v[3] = 3;
    assert_eq!(ctx.try_step_single(), Ok(()));
    assert_eq!(ctx.registers.i.to_u16(), 15);
    assert_eq!(ctx.memory.read(Addr(15)), 0xE0);
    assert_eq!(ctx.memory.read(Addr(16)), 0x10);
    assert_eq!(ctx.memory.read(Addr(17)), 0x60);
    assert_eq!(ctx.memory.read(Addr(18)), 0x10);
    assert_eq!(ctx.memory.read(Addr(19)), 0xE0);
}

#[test]
fn oversize_load_is_rejected_whole() {
    let mut mem = Memory4K::new();
    let image = vec![0x5Au8; 4096];
    assert_eq!(mem.copy_from_slice(Addr(0x200), &image), Err(()));
    assert_eq!(mem.read(Addr(0x200)), 0, "a rejected load writes nothing");
    let exact = vec![0x5Au8; 4096 - 0x200];
    assert_eq!(mem.copy_from_slice(Addr(0x200), &exact), Ok(()));
    assert_eq!(mem.read(Addr(0xFFF)), 0x5A);
}

#[test]
fn arithmetic_without_flags() {
    // 7005: V0 <- V0 + 5, VF untouched even on wraparound.
    let mut ctx = boot(&[0x70, 0x05]);
    ctx.registers.v[0] = 0xFE;
    ctx.registers.v[0xF] = 0x77;
    assert_eq!(ctx.try_step_single(), Ok(()));
    assert_eq!(ctx.registers.v[0], 0x03);
    assert_eq!(ctx.registers.v[0xF], 0x77);
}

#[test]
fn screen_bytes_snapshot() {
    let mut ctx = boot(&[]);
    ctx.memory.write(Addr(0xF00), 0x80);
    let shot = ctx.memory.screen_bytes();
    assert_eq!(shot.len(), 256);
    assert_eq!(shot[0], 0x80);
    assert!(ctx.memory.get_pixel(0, 0));
}

#[test]
fn whole_memory_clear() {
    let mut mem = Memory4K::new();
    mem.write(Addr(0x123), 0xEE);
    mem.write(Addr(0xFFF), 0xEE);
    mem.clear();
    assert_eq!(mem.read(Addr(0x123)), 0);
    assert_eq!(mem.read(Addr(0xFFF)), 0);
}

#[test]
fn font_table_shape() {
    let font = chip8::default_font();
    assert_eq!(font.len(), 80);
    // Every glyph draws only in the high nibble of each row byte.
    for b in font.iter() {
        assert_eq!(b & 0x0F, 0);
    }
    // Glyph 0 is a ring: hollow in the middle rows.
    assert_eq!(&font[0..5], &[0x60, 0x90, 0x90, 0x90, 0x60]);
}

#[test]
fn zero_height_sprite_draws_nothing() {
    // D010: a zero-row sprite touches no pixel and reports no collision.
    let mut ctx = boot(&[0xD0, 0x10]);
    ctx.registers.v[0] = 4;
    ctx.registers.v[1] = 3;
    ctx.registers.v[0xF] = 0x55;
    assert_eq!(ctx.try_step_single(), Ok(()));
    assert_eq!(ctx.registers.v[0xF], 0);
    assert_eq!(ctx.memory.screen_bytes(), vec![0u8; 256]);
}

#[test]
fn sprite_at_bottom_edge_clips_rows() {
    // A two-row sprite at y=31: the second row falls off the grid.
    let mut ctx = boot(&[0xD0, 0x12]);
    ctx.registers.v[0] = 0;
    ctx.registers.v[1] = 31;
    ctx.registers.i = Addr(0x700);
    ctx.memory.write(Addr(0x700), 0x80);
    ctx.memory.write(Addr(0x701), 0x80);
    assert_eq!(ctx.try_step_single(), Ok(()));
    assert!(ctx.memory.get_pixel(0, 31));
    // The clipped row did not wrap to the top.
    assert!(!ctx.memory.get_pixel(0, 0));
}

#[test]
fn step_with_answers_blocks_exactly_without_a_key() {
    // F50A: wait for a key into V5.
    let mut ctx = boot(&[0xF5, 0x0A]);
    let no_key = HostAnswers { rand: 0, key: None, pressed: false };
    assert_eq!(ctx.step_with_answers(no_key), Err(StepError::AwaitingKey));
    assert_eq!(ctx.registers.pc.to_u16(), 0x200);
    assert_eq!(ctx.registers.v[5], 0);
    let key_b = HostAnswers { rand: 0, key: Some(0xB), pressed: false };
    assert_eq!(ctx.step_with_answers(key_b), Ok(()));
    assert_eq!(ctx.registers.v[5], 0xB, "the register receives the reported key");
    assert_eq!(ctx.registers.pc.to_u16(), 0x202);
}

#[test]
fn step_with_answers_key_skip_polarity() {
    let down = HostAnswers { rand: 0, key: None, pressed: true };
    let up = HostAnswers { rand: 0, key: None, pressed: false };
    // E09E skips exactly when the key is down.
    let mut ctx = boot(&[0xE0, 0x9E]);
    assert_eq!(ctx.step_with_answers(down), Ok(()));
    assert_eq!(ctx.registers.pc.to_u16(), 0x204);
    let mut ctx = boot(&[0xE0, 0x9E]);
    assert_eq!(ctx.step_with_answers(up), Ok(()));
    assert_eq!(ctx.registers.pc.to_u16(), 0x202);
    // E0A1 skips exactly when the key is not down: the opposite.
    let mut ctx = boot(&[0xE0, 0xA1]);
    assert_eq!(ctx.step_with_answers(down), Ok(()));
    assert_eq!(ctx.registers.pc.to_u16(), 0x202);
    let mut ctx = boot(&[0xE0, 0xA1]);
    assert_eq!(ctx.step_with_answers(up), Ok(()));
    assert_eq!(ctx.registers.pc.to_u16(), 0x204);
}

#[test]
fn step_with_answers_rand_is_masked() {
    // C3F0: V3 <- rand() & 0xF0, with the random byte supplied.
    let mut ctx = boot(&[0xC3, 0xF0]);
    let answers = HostAnswers { rand: 0xAB, key: None, pressed: false };
    assert_eq!(ctx.step_with_answers(answers), Ok(()));
    assert_eq!(ctx.registers.v[3], 0xA0);
}

#[test]
fn try_step_many_stops_at_the_blocking_step() {
    // Two harmless sets, then a key-wait with no key on offer.
    let mut ctx = Context::new(KeySys { key: None, pressed: false });
    ctx.memory
        .copy_from_slice(Addr(0x200), &[0x60, 0x01, 0x61, 0x02, 0xF2, 0x0A])
        .unwrap();
    assert_eq!(ctx.try_step_many(100), 2, "the blocked step is not counted");
    assert_eq!(ctx.registers.pc.to_u16(), 0x204, "the blocked step moved nothing");
    assert_eq!(ctx.registers.v[0], 1);
    assert_eq!(ctx.registers.v[1], 2);
}
