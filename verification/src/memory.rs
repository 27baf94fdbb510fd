//! 4 KiB of byte-addressable storage.  The last 256 bytes double as the
//! 64x32 monochrome framebuffer: pixel accessors and the sprite blit
//! operate on the same bytes that ordinary reads and writes see.
//!
//! Single-byte reads and writes mask their address down to 12 bits, so
//! they wrap at the 4096-byte boundary and never fault.  Bulk program
//! loads do not wrap: a source that would run past the end is rejected
//! before anything is written.

use vstd::prelude::*;

use crate::addr::Addr;

verus! {

/// An address masked down to its significant 12 bits.
pub open spec fn masked(a: u16) -> int {
    (a & 0xFFF) as int
}

/// 16-bit addition that wraps, as the address register does.
pub open spec fn wadd16(a: u16, b: u16) -> u16 {
    if a + b > 0xFFFF {
        (a + b - 0x10000) as u16
    } else {
        (a + b) as u16
    }
}

/// The memory index reached by stepping `off` bytes from `base`, with
/// both the 16-bit addition and the 12-bit masking folded in.
pub open spec fn wrap_index(base: u16, off: int) -> int {
    (base + off) % 4096
}

/// Stepping and masking agree with the arithmetic form.
pub proof fn lemma_wrap_index(base: u16, off: int)
    requires
        0 <= off < 4096,
    ensures
        0 <= wrap_index(base, off) < 4096,
        wrap_index(base, off) == masked(wadd16(base, off as u16)),
{
    lemma_masked_is_mod(wadd16(base, off as u16));
    if base + off > 0xFFFF {
        vstd::arithmetic::div_mod::lemma_mod_equivalence(base + off, base + off - 0x10000, 4096);
    }
    vstd::arithmetic::div_mod::lemma_mod_division_less_than_divisor(base + off, 4096);
    vstd::arithmetic::div_mod::lemma_mod_bound(base + off, 4096);
}

/// Distinct small offsets from one base reach distinct memory indices.
pub proof fn lemma_wrap_index_distinct(base: u16, o1: int, o2: int)
    requires
        0 <= o1 < 4096,
        0 <= o2 < 4096,
        o1 != o2,
    ensures
        wrap_index(base, o1) != wrap_index(base, o2),
{
    if o1 < o2 {
        vstd::arithmetic::div_mod::lemma_mod_equivalence(base + o2, base + o1, 4096);
        vstd::arithmetic::div_mod::lemma_small_mod((o2 - o1) as nat, 4096);
    } else {
        vstd::arithmetic::div_mod::lemma_mod_equivalence(base + o1, base + o2, 4096);
        vstd::arithmetic::div_mod::lemma_small_mod((o1 - o2) as nat, 4096);
    }
}

/// The big-endian 16-bit word at `a` (both bytes read with wraparound).
pub open spec fn word_at(mem: Seq<u8>, a: u16) -> u16 {
    (mem[masked(a)] * 256 + mem[masked(wadd16(a, 1))]) as u16
}

/// Masking an address is the same as reducing it modulo the memory size.
pub proof fn lemma_masked_is_mod(a: u16)
    ensures
        masked(a) == a as int % 4096,
{
    assert((a & 0xFFF) == a % 4096) by (bit_vector);
}

/// The byte that holds pixel `(x, y)`: row `y` occupies eight bytes of
/// the display region, leftmost pixels in the first of them.
pub open spec fn pixel_index(x: int, y: int) -> int {
    0xF00 + y * 8 + x / 8
}

/// The bit for pixel `(x, y)` within its byte: the most significant bit
/// is the leftmost column of the byte.
pub open spec fn pixel_mask(x: int) -> u8 {
    0x80u8 >> ((x % 8) as u8)
}

/// Whether pixel `(x, y)` is lit in `mem`'s display region.
pub open spec fn pixel_at(mem: Seq<u8>, x: int, y: int) -> bool {
    mem[pixel_index(x, y)] & pixel_mask(x) != 0
}

/// Whether a sprite blitted at `(x, y)` has a set bit over pixel
/// `(px, py)`.  Each sprite row is one byte wide, most significant bit
/// leftmost.
pub open spec fn sprite_covers(x: int, y: int, sprite: Seq<u8>, px: int, py: int) -> bool {
    &&& x <= px < x + 8
    &&& y <= py < y + sprite.len()
    &&& sprite[py - y] & pixel_mask(px - x) != 0
}

/// `mem` with the display region zeroed and everything else kept.
pub open spec fn display_cleared(mem: Seq<u8>) -> Seq<u8> {
    Seq::new(4096, |a: int| if 0xF00 <= a < 4096 { 0u8 } else { mem[a] })
}

/// `sprite_covers`, restricted to the sprite bits that a row-major blit
/// has already visited: all of the first `r` rows, then the first `c`
/// columns of row `r`.
pub open spec fn covered_upto(
    x: int,
    y: int,
    sprite: Seq<u8>,
    px: int,
    py: int,
    r: int,
    c: int,
) -> bool {
    &&& sprite_covers(x, y, sprite, px, py)
    &&& (py - y < r || (py - y == r && px - x < c))
}

/// 4 KiB of memory, the framebuffer included.
pub struct Memory4K {
    /// The backing bytes; the display region is `0xF00..=0xFFF`.
    pub bytes: [u8; 4096],
}

impl View for Memory4K {
    type V = Seq<u8>;

    open spec fn view(&self) -> Seq<u8> {
        self.bytes@
    }
}

/// The in-bounds index that a 16-bit address maps to.
fn mask_index(a: u16) -> (r: usize)
    ensures
        r == masked(a),
        r < 4096,
{
    proof {
        assert((a & 0xFFF) < 4096) by (bit_vector);
    }
    (a & 0xFFF) as usize
}

impl Memory4K {
    /// Zero-filled memory.
    pub fn new() -> (r: Memory4K)
        ensures
            r@.len() == 4096,
            forall|k: int| 0 <= k < 4096 ==> r@[k] == 0,
    {
        Memory4K { bytes: [0u8; 4096] }
    }

    /// Read the byte at `addr`, wrapping at the 12-bit boundary.
    pub fn read(&self, addr: Addr) -> (r: u8)
        ensures
            r == self@[masked(addr.0)],
    {
        self.bytes[mask_index(addr.0)]
    }

    /// Fetch the big-endian 16-bit word at `addr`; both bytes wrap.
    pub fn read16(&self, addr: Addr) -> (r: u16)
        ensures
            r == word_at(self@, addr.0),
    {
        let hi = self.read(addr) as u16;
        let lo = self.read(Addr(addr.0.wrapping_add(1))) as u16;
        hi * 256 + lo
    }

    /// Write the byte at `addr`, wrapping at the 12-bit boundary.
    pub fn write(&mut self, addr: Addr, value: u8)
        ensures
            final(self)@ == old(self)@.update(masked(addr.0), value),
    {
        let i = mask_index(addr.0);
        self.bytes[i] = value;
    }

    /// Zero all 4096 bytes.
    pub fn clear(&mut self)
        ensures
            final(self)@.len() == 4096,
            forall|k: int| 0 <= k < 4096 ==> final(self)@[k] == 0,
    {
        self.bytes = [0u8; 4096];
    }

    /// Copy `src` into memory starting at `addr`.  The copy does not
    /// wrap: if it would run past the last byte, nothing is written and
    /// the load is rejected.
    pub fn copy_from_slice(&mut self, addr: Addr, src: &[u8]) -> (r: Result<(), ()>)
        ensures
            r is Ok <==> addr.0 + src@.len() <= 4096,
            r is Ok ==> forall|k: int|
                0 <= k < 4096 ==> final(self)@[k] == (if addr.0 <= k < addr.0 + src@.len() {
                    src@[k - addr.0]
                } else {
                    old(self)@[k]
                }),
            r is Err ==> final(self)@ == old(self)@,
    {
        let a = addr.to_usize();
        if a > 4096 || src.len() > 4096 - a {
            return Err(());
        }
        let mut k: usize = 0;
        while k < src.len()
            invariant
                a + src@.len() <= 4096,
                k <= src@.len(),
                self@.len() == 4096,
                forall|j: int|
                    0 <= j < 4096 ==> self@[j] == (if a <= j < a + k {
                        src@[j - a]
                    } else {
                        old(self)@[j]
                    }),
            decreases src@.len() - k,
        {
            self.bytes[a + k] = src[k];
            k = k + 1;
        }
        Ok(())
    }

    /// Zero exactly the display-region bytes.
    pub fn clear_display(&mut self)
        ensures
            final(self)@ == display_cleared(old(self)@),
    {
        let mut k: usize = 0xF00;
        while k < 4096
            invariant
                0xF00 <= k <= 4096,
                self@.len() == 4096,
                forall|a: int| 0 <= a < 4096 && !(0xF00 <= a < k) ==> self@[a] == old(self)@[a],
                forall|a: int| 0xF00 <= a < k ==> self@[a] == 0,
            decreases 4096 - k,
        {
            self.bytes[k] = 0;
            k = k + 1;
        }
        proof {
            assert(self@ =~= display_cleared(old(self)@));
        }
    }

    /// A copy of the 256 display bytes, row-major, one bit per pixel,
    /// most significant bit leftmost within each byte.
    pub fn screen_bytes(&self) -> (r: Vec<u8>)
        ensures
            r@ == self@.subrange(0xF00, 0x1000),
    {
        let mut r: Vec<u8> = Vec::new();
        let mut k: usize = 0;
        while k < 256
            invariant
                k <= 256,
                r@.len() == k,
                forall|j: int| 0 <= j < k ==> r@[j] == self@[0xF00 + j],
            decreases 256 - k,
        {
            r.push(self.bytes[0xF00 + k]);
            k = k + 1;
        }
        proof {
            assert(r@ =~= self@.subrange(0xF00, 0x1000));
        }
        r
    }

    /// The pixel at `(x, y)`, or `None` outside the 64x32 grid.
    pub fn try_get_pixel(&self, x: usize, y: usize) -> (r: Option<bool>)
        ensures
            r == (if x < 64 && y < 32 {
                Some(pixel_at(self@, x as int, y as int))
            } else {
                None::<bool>
            }),
    {
        if x < 64 && y < 32 {
            let idx: usize = 0xF00 + y * 8 + x / 8;
            let sh: u8 = (x % 8) as u8;
            Some(self.bytes[idx] & (0x80u8 >> sh) != 0)
        } else {
            None
        }
    }

    /// The pixel at `(x, y)`; unlit outside the grid.
    pub fn get_pixel(&self, x: usize, y: usize) -> (r: bool)
        ensures
            r == (x < 64 && y < 32 && pixel_at(self@, x as int, y as int)),
    {
        match self.try_get_pixel(x, y) {
            Some(p) => p,
            None => false,
        }
    }

    /// Set or clear the pixel at `(x, y)`; outside the grid nothing is
    /// written and the attempt is rejected.
    pub fn try_set_pixel(&mut self, x: usize, y: usize, value: bool) -> (r: Result<(), ()>)
        ensures
            x < 64 && y < 32 ==> r is Ok && final(self)@ == old(self)@.update(
                pixel_index(x as int, y as int),
                (if value {
                    old(self)@[pixel_index(x as int, y as int)] | pixel_mask(x as int)
                } else {
                    old(self)@[pixel_index(x as int, y as int)] & !pixel_mask(x as int)
                }),
            ),
            !(x < 64 && y < 32) ==> r is Err && final(self)@ == old(self)@,
    {
        if x < 64 && y < 32 {
            let idx: usize = 0xF00 + y * 8 + x / 8;
            let sh: u8 = (x % 8) as u8;
            let mask: u8 = 0x80u8 >> sh;
            if value {
                self.bytes[idx] = self.bytes[idx] | mask;
            } else {
                self.bytes[idx] = self.bytes[idx] & !mask;
            }
            Ok(())
        } else {
            Err(())
        }
    }

    /// Blit a sprite at `(x, y)` with XOR semantics: every set sprite
    /// bit flips its pixel.  Pixels that would fall off the grid are
    /// dropped, without wrapping.  Returns whether any pixel went from
    /// lit to unlit (the collision flag).
    pub fn draw_sprite(&mut self, x: usize, y: usize, sprite: &[u8]) -> (collision: bool)
        requires
            x < 256,
            y < 256,
            sprite@.len() <= 15,
        ensures
            final(self)@.len() == 4096,
            forall|a: int|
                0 <= a < 4096 && !(0xF00 <= a < 4096) ==> final(self)@[a] == old(self)@[a],
            forall|px: int, py: int|
                0 <= px < 64 && 0 <= py < 32 ==> pixel_at(final(self)@, px, py) == (pixel_at(
                    old(self)@,
                    px,
                    py,
                ) != sprite_covers(x as int, y as int, sprite@, px, py)),
            collision == (exists|px: int, py: int|
                0 <= px < 64 && 0 <= py < 32 && sprite_covers(x as int, y as int, sprite@, px, py)
                    && pixel_at(old(self)@, px, py)),
    {
        let ghost mem0 = self@;
        let mut collision = false;
        let mut oy: usize = 0;
        while oy < sprite.len()
            invariant
                x < 256,
                y < 256,
                sprite@.len() <= 15,
                oy <= sprite@.len(),
                self@.len() == 4096,
                forall|a: int| 0 <= a < 4096 && !(0xF00 <= a < 4096) ==> self@[a] == mem0[a],
                forall|px: int, py: int|
                    0 <= px < 64 && 0 <= py < 32 ==> pixel_at(self@, px, py) == (pixel_at(
                        mem0,
                        px,
                        py,
                    ) != covered_upto(x as int, y as int, sprite@, px, py, oy as int, 0)),
                collision == (exists|px: int, py: int|
                    0 <= px < 64 && 0 <= py < 32 && covered_upto(
                        x as int,
                        y as int,
                        sprite@,
                        px,
                        py,
                        oy as int,
                        0,
                    ) && pixel_at(mem0, px, py)),
            decreases sprite@.len() - oy,
        {
            let row = sprite[oy];
            let mut ox: usize = 0;
            while ox < 8
                invariant
                    x < 256,
                    y < 256,
                    sprite@.len() <= 15,
                    oy < sprite@.len(),
                    row == sprite@[oy as int],
                    ox <= 8,
                    self@.len() == 4096,
                    forall|a: int| 0 <= a < 4096 && !(0xF00 <= a < 4096) ==> self@[a] == mem0[a],
                    forall|px: int, py: int|
                        0 <= px < 64 && 0 <= py < 32 ==> pixel_at(self@, px, py) == (pixel_at(
                            mem0,
                            px,
                            py,
                        ) != covered_upto(
                            x as int,
                            y as int,
                            sprite@,
                            px,
                            py,
                            oy as int,
                            ox as int,
                        )),
                    collision == (exists|px: int, py: int|
                        0 <= px < 64 && 0 <= py < 32 && covered_upto(
                            x as int,
                            y as int,
                            sprite@,
                            px,
                            py,
                            oy as int,
                            ox as int,
                        ) && pixel_at(mem0, px, py)),
                decreases 8 - ox,
            {
                let px = x + ox;
                let py = y + oy;
                let ghost pre = self@;
                let ghost coll_pre = collision;
                let ghost gx = x as int;
                let ghost gy = y as int;
                let ghost gox = ox as int;
                let ghost goy = oy as int;
                let on_screen = px < 64 && py < 32;
                let sh: u8 = ox as u8;
                let bit_set = row & (0x80u8 >> sh) != 0;
                proof {
                    assert(pixel_mask(gox) == 0x80u8 >> sh);
                    assert(sprite_covers(gx, gy, sprite@, gx + gox, gy + goy) == bit_set);
                    assert(!covered_upto(gx, gy, sprite@, gx + gox, gy + goy, goy, gox));
                }
                if on_screen && bit_set {
                    let orig = self.get_pixel(px, py);
                    proof {
                        assert(orig == pixel_at(mem0, px as int, py as int));
                        lemma_pixel_update(pre, px as int, py as int, !orig);
                    }
                    self.set_pixel(px, py, !orig);
                    if orig {
                        collision = true;
                    }
                }
                proof {
                    assert(collision == (coll_pre || (on_screen && bit_set && pixel_at(
                        mem0,
                        gx + gox,
                        gy + goy,
                    ))));
                    assert forall|px2: int, py2: int|
                        0 <= px2 < 64 && 0 <= py2 < 32 implies pixel_at(self@, px2, py2) == (
                    pixel_at(mem0, px2, py2) != covered_upto(
                        gx,
                        gy,
                        sprite@,
                        px2,
                        py2,
                        goy,
                        gox + 1,
                    )) by {
                        if px2 == gx + gox && py2 == gy + goy {
                            assert(covered_upto(gx, gy, sprite@, px2, py2, goy, gox + 1)
                                == bit_set);
                        } else {
                            assert(covered_upto(gx, gy, sprite@, px2, py2, goy, gox + 1)
                                == covered_upto(gx, gy, sprite@, px2, py2, goy, gox));
                        }
                    }
                    assert forall|px2: int, py2: int|
                        0 <= px2 < 64 && 0 <= py2 < 32 && covered_upto(
                            gx,
                            gy,
                            sprite@,
                            px2,
                            py2,
                            goy,
                            gox + 1,
                        ) && pixel_at(mem0, px2, py2) implies collision by {
                        if !(px2 == gx + gox && py2 == gy + goy) {
                            assert(covered_upto(gx, gy, sprite@, px2, py2, goy, gox));
                            assert(coll_pre);
                        }
                    }
                    if collision {
                        if coll_pre {
                            let (wx, wy) = choose|wx: int, wy: int|
                                0 <= wx < 64 && 0 <= wy < 32 && covered_upto(
                                    gx,
                                    gy,
                                    sprite@,
                                    wx,
                                    wy,
                                    goy,
                                    gox,
                                ) && pixel_at(mem0, wx, wy);
                            assert(covered_upto(gx, gy, sprite@, wx, wy, goy, gox + 1));
                        } else {
                            assert(covered_upto(gx, gy, sprite@, gx + gox, gy + goy, goy, gox + 1)
                                && pixel_at(mem0, gx + gox, gy + goy));
                        }
                    }
                }
                ox = ox + 1;
            }
            proof {
                assert forall|px2: int, py2: int|
                    covered_upto(x as int, y as int, sprite@, px2, py2, oy as int, 8)
                        == covered_upto(
                    x as int,
                    y as int,
                    sprite@,
                    px2,
                    py2,
                    oy as int + 1,
                    0,
                ) by {}
            }
            oy = oy + 1;
        }
        proof {
            assert forall|px2: int, py2: int|
                covered_upto(x as int, y as int, sprite@, px2, py2, sprite@.len() as int, 0)
                    == sprite_covers(x as int, y as int, sprite@, px2, py2) by {}
        }
        collision
    }

    /// Set or clear the pixel at `(x, y)`; attempts outside the grid are
    /// dropped.
    pub fn set_pixel(&mut self, x: usize, y: usize, value: bool)
        ensures
            x < 64 && y < 32 ==> final(self)@ == old(self)@.update(
                pixel_index(x as int, y as int),
                (if value {
                    old(self)@[pixel_index(x as int, y as int)] | pixel_mask(x as int)
                } else {
                    old(self)@[pixel_index(x as int, y as int)] & !pixel_mask(x as int)
                }),
            ),
            !(x < 64 && y < 32) ==> final(self)@ == old(self)@,
    {
        let _ = self.try_set_pixel(x, y, value);
    }
}

/// Writing one pixel's bit changes that pixel, no other pixel, and no
/// byte outside the pixel's own.
proof fn lemma_pixel_update(mem: Seq<u8>, x: int, y: int, value: bool)
    requires
        mem.len() == 4096,
        0 <= x < 64,
        0 <= y < 32,
    ensures
        ({
            let b = mem[pixel_index(x, y)];
            let mem2 = mem.update(
                pixel_index(x, y),
                (if value {
                    b | pixel_mask(x)
                } else {
                    b & !pixel_mask(x)
                }),
            );
            &&& pixel_at(mem2, x, y) == value
            &&& forall|px: int, py: int|
                0 <= px < 64 && 0 <= py < 32 && (px != x || py != y) ==> pixel_at(mem2, px, py)
                    == pixel_at(mem, px, py)
            &&& forall|a: int|
                0 <= a < 4096 && a != pixel_index(x, y) ==> mem2[a] == mem[a]
        }),
{
    assert(forall|b: u8, s: u8|
        s < 8 ==> ((b | (0x80u8 >> s)) & (0x80u8 >> s)) != 0 && ((b & !(0x80u8 >> s)) & (0x80u8
            >> s)) == 0) by (bit_vector);
    assert(forall|b: u8, s: u8, t: u8|
        s < 8 && t < 8 && s != t ==> ((b | (0x80u8 >> s)) & (0x80u8 >> t)) == (b & (0x80u8 >> t))
            && ((b & !(0x80u8 >> s)) & (0x80u8 >> t)) == (b & (0x80u8 >> t))) by (bit_vector);
    let b = mem[pixel_index(x, y)];
    let nb = if value {
        b | pixel_mask(x)
    } else {
        b & !pixel_mask(x)
    };
    let mem2 = mem.update(pixel_index(x, y), nb);
    let sx: u8 = (x % 8) as u8;
    assert(sx < 8);
    assert(pixel_mask(x) == 0x80u8 >> sx);
    assert((b | (0x80u8 >> sx)) & (0x80u8 >> sx) != 0);
    assert((b & !(0x80u8 >> sx)) & (0x80u8 >> sx) == 0);
    assert(pixel_at(mem2, x, y) == value);
    assert forall|px: int, py: int|
        0 <= px < 64 && 0 <= py < 32 && (px != x || py != y) implies pixel_at(mem2, px, py)
        == pixel_at(mem, px, py) by {
        if pixel_index(px, py) == pixel_index(x, y) {
            assert(py == y);
            assert(px / 8 == x / 8);
            assert(px != x);
            assert(px % 8 != x % 8);
            let st: u8 = (px % 8) as u8;
            assert(st < 8 && st != sx);
            assert((b | (0x80u8 >> sx)) & (0x80u8 >> st) == b & (0x80u8 >> st));
            assert((b & !(0x80u8 >> sx)) & (0x80u8 >> st) == b & (0x80u8 >> st));
        }
    }
}

} // verus!
