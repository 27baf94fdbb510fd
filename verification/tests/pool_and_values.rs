use std::cell::Cell;
use std::rc::Rc;

use chip8::Addr;
use chip8::ContextPool;
use chip8::Nibble;
use chip8::V;
use chip8::Syscalls;
use chip8::schedule_ticks;

struct CountingSys {
    calls: Rc<Cell<u32>>,
}

impl Syscalls for CountingSys {
    fn rand(&self) -> u8 {
        self.calls.set(self.calls.get() + 1);
        0x42
    }
    fn get_key(&self) -> Option<u8> {
        None
    }
    fn is_pressed(&self, _key: u8) -> bool {
        false
    }
    fn sound_play(&self) {}
    fn sound_stop(&self) {}
    fn render(&self, _screen: &[u8]) {}
}

#[test]
fn nibble_conversions() {
    let n = Nibble::truncate8(0xAB);
    assert_eq!(n.to_u8(), 0xB);
    assert_eq!(n.to_u16(), 0xB);
    assert_eq!(n.to_usize(), 0xB);
    assert_eq!(Nibble::truncate16(0x1234).to_u8(), 4);
    assert_eq!(Nibble::literal(15).to_u8(), 15);
    let all = Nibble::iter();
    assert_eq!(all.len(), 16);
    for (k, n) in all.iter().enumerate() {
        assert_eq!(n.to_usize(), k);
    }
}

#[test]
fn v_indexes_registers() {
    let mut regs = chip8::Registers::new();
    regs.set(V(Nibble::literal(7)), 0x42);
    assert_eq!(regs.get(V(Nibble::literal(7))), 0x42);
    assert_eq!(V(Nibble::literal(7)).index(), 7);
}

#[test]
fn addr_accessors() {
    assert_eq!(Addr(0xABC).to_u16(), 0xABC);
    assert_eq!(Addr(0xABC).to_usize(), 0xABC);
}

#[test]
fn pool_creates_and_destroys() {
    let mut pool: ContextPool<()> = ContextPool::new();
    let a = pool.create_context((), &[0x12, 0x00]).unwrap();
    let b = pool.create_context((), &[0x12, 0x02]).unwrap();
    assert_ne!(a, b);
    assert!(pool.is_alive(a));
    assert!(pool.is_alive(b));
    assert_eq!(pool.live_count(), 2);
    assert_eq!(pool.destroy_context(a), Ok(()));
    assert!(!pool.is_alive(a));
    assert!(pool.is_alive(b));
    assert_eq!(pool.live_count(), 1);
}

#[test]
fn destroying_twice_is_an_error() {
    let mut pool: ContextPool<()> = ContextPool::new();
    let a = pool.create_context((), &[0x12, 0x00]).unwrap();
    assert_eq!(pool.destroy_context(a), Ok(()));
    assert_eq!(pool.destroy_context(a), Err(()), "a destroyed handle stays dead");
}

#[test]
fn stale_handle_survives_slot_reuse() {
    let mut pool: ContextPool<()> = ContextPool::new();
    let a = pool.create_context((), &[0x12, 0x00]).unwrap();
    pool.destroy_context(a).unwrap();
    let b = pool.create_context((), &[0x12, 0x00]).unwrap();
    // The slot may be reused, but the old generation no longer matches.
    assert!(pool.is_alive(b));
    assert!(!pool.is_alive(a));
    assert_eq!(pool.destroy_context(a), Err(()));
    assert!(pool.is_alive(b));
}

#[test]
fn pool_rejects_oversize_program() {
    let mut pool: ContextPool<()> = ContextPool::new();
    let image = vec![0u8; 4096];
    assert_eq!(pool.create_context((), &image), Err(()));
    assert_eq!(pool.live_count(), 0);
}

#[test]
fn tick_all_keeps_handles_valid() {
    let mut pool: ContextPool<()> = ContextPool::new();
    let a = pool.create_context((), &[0x12, 0x00]).unwrap();
    let b = pool.create_context((), &[0x60, 0x07, 0x12, 0x02]).unwrap();
    pool.destroy_context(a).unwrap();
    pool.tick_all(8);
    pool.tick_all(8);
    assert!(!pool.is_alive(a));
    assert!(pool.is_alive(b));
}

#[test]
fn schedule_ticks_counts_periods() {
    // Caught up: nothing due until the deadline passes.
    assert_eq!(schedule_ticks(99, 100, 10, 1000), (0, 100));
    // Exactly at the deadline: one tick.
    assert_eq!(schedule_ticks(100, 100, 10, 1000), (1, 110));
    // 35 ms late: four deadlines have passed.
    assert_eq!(schedule_ticks(135, 100, 10, 1000), (4, 140));
    // A long stall is clamped to the catch-up window instead of
    // replaying every missed tick.
    assert_eq!(schedule_ticks(10_000, 100, 10, 50), (6, 10_010));
}

#[test]
fn new_handles_never_collide_with_live_ones() {
    let mut pool: ContextPool<()> = ContextPool::new();
    let a = pool.create_context((), &[0x12, 0x00]).unwrap();
    let b = pool.create_context((), &[0x12, 0x00]).unwrap();
    assert_ne!(a, b);
    pool.destroy_context(a).unwrap();
    let c = pool.create_context((), &[0x12, 0x00]).unwrap();
    assert_ne!(c, b);
    assert_ne!(c, a, "a recycled slot carries a new generation");
}

#[test]
fn pool_machines_boot_with_font_and_clean_memory() {
    // The created machine is a real power-on machine: its program runs
    // against the seeded font.  F329 with V3=3 points I at glyph 3.
    let mut pool: ContextPool<()> = ContextPool::new();
    let id = pool.create_context((), &[0x63, 0x03, 0xF3, 0x29]).unwrap();
    pool.tick_all(2);
    assert!(pool.is_alive(id));
}

#[test]
fn tick_all_executes_the_full_batch() {
    // C0FF then a jump back: every other instruction queries rand, so
    // the host call count shows how many instructions each tick ran.
    let calls = Rc::new(Cell::new(0u32));
    let host = CountingSys { calls: Rc::clone(&calls) };
    let mut pool: ContextPool<CountingSys> = ContextPool::new();
    pool.create_context(host, &[0xC0, 0xFF, 0x12, 0x00]).unwrap();
    pool.tick_all(8);
    assert_eq!(calls.get(), 4, "eight instructions ran, half of them rand");
    pool.tick_all(8);
    assert_eq!(calls.get(), 8);
}
