use vstd::prelude::*;

verus! {

/// Height of the screen in pixels.
pub const SCREEN_HEIGHT: usize = 32;

/// Width of the screen in pixels.
pub const SCREEN_WIDTH: usize = 64;

/// Bytes per pixel in the frame buffer (RGBA).
pub const PIXEL_SIZE: usize = 4;

/// Bytes per row of the frame buffer.
pub const ROW_BYTES: usize = 256;

/// Row `y` lies entirely inside the frame buffer.
pub open spec fn row_present(frame: Seq<u8>, y: int) -> bool {
    0 <= y && (y + 1) * ROW_BYTES <= frame.len()
}

/// The pixel at column `col` of row `y` is not fully zero.
pub open spec fn pixel_lit(frame: Seq<u8>, col: int, y: int) -> bool {
    let b = y * ROW_BYTES + col * PIXEL_SIZE;
    frame[b] != 0 || frame[b + 1] != 0 || frame[b + 2] != 0 || frame[b + 3] != 0
}

/// Bit `i` of a sprite row, counted from the most significant bit.
pub open spec fn sprite_bit(row: u8, i: u8) -> bool {
    (row >> ((7 - i) as u8)) & 1u8 == 1u8
}

/// Cell `(i, n)` of a sprite drawn at `(x, y)` lands on a lit pixel.
pub open spec fn cell_hit(frame: Seq<u8>, sprite: Seq<u8>, x: int, y: int, n: int, i: int) -> bool {
    &&& 0 <= n < 16
    &&& 0 <= i < 8
    &&& x + i < SCREEN_WIDTH
    &&& row_present(frame, y + n)
    &&& sprite_bit(sprite[n], i as u8)
    &&& pixel_lit(frame, x + i, y + n)
}

/// Drawing the sprite at `(x, y)` would erase at least one lit pixel.
pub open spec fn collides(frame: Seq<u8>, sprite: Seq<u8>, x: int, y: int) -> bool {
    exists|n: int, i: int| #[trigger] cell_hit(frame, sprite, x, y, n, i)
}

/// Byte `k` of the frame after XOR-drawing one sprite row at `(x, y)`.
pub open spec fn row_drawn_byte(frame: Seq<u8>, x: int, y: int, row: u8, color: Seq<u8>, k: int) -> u8 {
    let col = (k - y * ROW_BYTES) / PIXEL_SIZE as int;
    if row_present(frame, y) && y * ROW_BYTES <= k < (y + 1) * ROW_BYTES && 0 <= col - x < 8
        && sprite_bit(row, (col - x) as u8) {
        if pixel_lit(frame, col, y) {
            0
        } else {
            color[k % PIXEL_SIZE as int]
        }
    } else {
        frame[k]
    }
}

/// The frame after XOR-drawing one sprite row at `(x, y)`; rows outside the
/// frame are clipped.
pub open spec fn row_drawn(frame: Seq<u8>, x: int, y: int, row: u8, color: Seq<u8>) -> Seq<u8> {
    Seq::new(frame.len(), |k: int| row_drawn_byte(frame, x, y, row, color, k))
}

/// The frame after XOR-drawing the first `n` rows of a sprite at `(x, y)`.
pub open spec fn sprite_drawn(frame: Seq<u8>, sprite: Seq<u8>, x: int, y: int, color: Seq<u8>, n: nat) -> Seq<u8>
    decreases n,
{
    if n == 0 {
        frame
    } else {
        let prev = sprite_drawn(frame, sprite, x, y, color, (n - 1) as nat);
        row_drawn(prev, x, y + n - 1, sprite[n - 1], color)
    }
}

/// The pixel that holds byte `k` exists whole and is not fully zero.
pub open spec fn chunk_lit(frame: Seq<u8>, k: int) -> bool {
    let b = k - k % PIXEL_SIZE as int;
    &&& b + PIXEL_SIZE <= frame.len()
    &&& (frame[b] != 0 || frame[b + 1] != 0 || frame[b + 2] != 0 || frame[b + 3] != 0)
}

/// The frame with every lit pixel repainted in `color`.
pub open spec fn recolored(frame: Seq<u8>, color: Seq<u8>) -> Seq<u8> {
    Seq::new(
        frame.len(),
        |k: int|
            if chunk_lit(frame, k) {
                color[k % PIXEL_SIZE as int]
            } else {
                frame[k]
            },
    )
}

/// The bytes of row `y`, or nothing when the row lies outside the frame.
pub fn pixel_row(frame: &[u8], y: usize) -> (r: &[u8])
    ensures
        row_present(frame@, y as int) ==> r@ == frame@.subrange(
            y * ROW_BYTES,
            (y + 1) * ROW_BYTES,
        ),
        !row_present(frame@, y as int) ==> r@.len() == 0,
{
    if y < frame.len() / ROW_BYTES {
        &frame[y * ROW_BYTES..(y + 1) * ROW_BYTES]
    } else {
        &frame[0..0]
    }
}


/// Whether the pixel at column `col` of row `y` is lit.
fn is_lit(frame: &[u8], col: usize, y: usize) -> (r: bool)
    requires
        col < SCREEN_WIDTH,
        row_present(frame@, y as int),
    ensures
        r == pixel_lit(frame@, col as int, y as int),
{
    let _len = frame.len();
    let b = y * ROW_BYTES + col * PIXEL_SIZE;
    frame[b] != 0 || frame[b + 1] != 0 || frame[b + 2] != 0 || frame[b + 3] != 0
}

/// Collision test of a draw: true when some set bit of the sprite, placed
/// at `(x, y)` and clipped to the screen, covers a lit pixel.
pub fn sprite_collides(frame: &[u8], sprite: &[u8; 16], x: u8, y: u8) -> (r: bool)
    ensures
        r == collides(frame@, sprite@, x as int, y as int),
{
    let mut n: usize = 0;
    while n < 16
        invariant
            0 <= n <= 16,
            forall|n2: int, i2: int|
                0 <= n2 < n ==> !#[trigger] cell_hit(frame@, sprite@, x as int, y as int, n2, i2),
        decreases 16 - n,
    {
        let row_i = y as usize + n;
        if row_i < frame.len() / ROW_BYTES {
            let mut i: u8 = 0;
            while i < 8
                invariant
                    0 <= n < 16,
                    0 <= i <= 8,
                    row_i == y + n,
                    row_present(frame@, row_i as int),
                    forall|n2: int, i2: int|
                        0 <= n2 < n ==> !#[trigger] cell_hit(frame@, sprite@, x as int, y as int, n2, i2),
                    forall|i2: int|
                        0 <= i2 < i ==> !#[trigger] cell_hit(frame@, sprite@, x as int, y as int, n as int, i2),
                decreases 8 - i,
            {
                let col = x as usize + i as usize;
                if col < SCREEN_WIDTH && (sprite[n] >> (7 - i)) & 1 == 1 && is_lit(frame, col, row_i) {
                    assert(cell_hit(frame@, sprite@, x as int, y as int, n as int, i as int));
                    return true;
                }
                i += 1;
            }
        }
        n += 1;
    }
    false
}


proof fn lemma_byte_pixel(k: int, y: int)
    requires
        y * ROW_BYTES <= k < (y + 1) * ROW_BYTES,
    ensures
        0 <= (k - y * ROW_BYTES) / PIXEL_SIZE as int <= 63,
        y * ROW_BYTES + ((k - y * ROW_BYTES) / PIXEL_SIZE as int) * PIXEL_SIZE <= k,
        k < y * ROW_BYTES + ((k - y * ROW_BYTES) / PIXEL_SIZE as int) * PIXEL_SIZE + PIXEL_SIZE,
        k % PIXEL_SIZE as int == k - y * ROW_BYTES - ((k - y * ROW_BYTES) / PIXEL_SIZE as int) * PIXEL_SIZE,
{
    let d = k - y * 256;
    assert(0 <= d < 256);
    assert(0 <= d / 4 <= 63) by (nonlinear_arith)
        requires 0 <= d < 256;
    assert(d / 4 * 4 <= d < d / 4 * 4 + 4) by (nonlinear_arith)
        requires 0 <= d;
    assert(k % 4 == d - d / 4 * 4) by (nonlinear_arith)
        requires k == y * 256 + d, 0 <= d, d - d / 4 * 4 < 4, 0 <= d - d / 4 * 4;
}

/// XOR-draws one sprite row at `(x, y)`: each set bit turns an unlit pixel
/// into `color` and a lit one to zero. A row outside the frame is clipped.
pub fn set_row(frame: &mut [u8], x: usize, y: usize, row: u8, color: [u8; 4])
    ensures
        final(frame)@ == row_drawn(old(frame)@, x as int, y as int, row, color@),
{
    let ghost start = frame@;
    if row == 0 || y >= frame.len() / ROW_BYTES || x >= SCREEN_WIDTH {
        proof {
            assert forall|k: int| 0 <= k < start.len() implies row_drawn_byte(start, x as int, y as int, row, color@, k) == start[k] by {
                if row == 0 && row_present(start, y as int) && y * ROW_BYTES <= k < (y + 1) * ROW_BYTES {
                    lemma_byte_pixel(k, y as int);
                    let j = (k - y * ROW_BYTES) / PIXEL_SIZE as int - x;
                    if 0 <= j < 8 {
                        let jj = j as u8;
                        assert((0u8 >> ((7 - jj) as u8)) & 1u8 == 0u8) by (bit_vector)
                            requires jj < 8;
                    }
                }
            }
            assert(frame@ =~= row_drawn(start, x as int, y as int, row, color@));
        }
        return;
    }
    let mut i: u8 = 0;
    while i < 8
        invariant
            0 <= i <= 8,
            x < SCREEN_WIDTH,
            row_present(start, y as int),
            start.len() <= usize::MAX,
            frame@.len() == start.len(),
            forall|k: int|
                0 <= k < start.len() ==> #[trigger] frame@[k] == if y * ROW_BYTES <= k < (y + 1) * ROW_BYTES
                    && (k - y * ROW_BYTES) / PIXEL_SIZE as int - x < i {
                    row_drawn_byte(start, x as int, y as int, row, color@, k)
                } else {
                    start[k]
                },
        decreases 8 - i,
    {
        let col = x + i as usize;
        let ghost before = frame@;
        if col < SCREEN_WIDTH && (row >> (7 - i)) & 1 == 1 {
            let b = y * ROW_BYTES + col * PIXEL_SIZE;
            let lit = is_lit(frame, col, y);
            proof {
                assert(pixel_lit(frame@, col as int, y as int) == pixel_lit(start, col as int, y as int)) by {
                    let bb = y * ROW_BYTES + col * PIXEL_SIZE;
                    lemma_byte_pixel(bb, y as int);
                    lemma_byte_pixel(bb + 1, y as int);
                    lemma_byte_pixel(bb + 2, y as int);
                    lemma_byte_pixel(bb + 3, y as int);
                    assert(frame@[bb] == start[bb]);
                    assert(frame@[bb + 1] == start[bb + 1]);
                    assert(frame@[bb + 2] == start[bb + 2]);
                    assert(frame@[bb + 3] == start[bb + 3]);
                }
            }
            let mut c: usize = 0;
            while c < PIXEL_SIZE
                invariant
                    0 <= c <= PIXEL_SIZE,
                    col == x + i,
                    i < 8,
                    col < SCREEN_WIDTH,
                    x < SCREEN_WIDTH,
                    sprite_bit(row, i),
                    lit == pixel_lit(start, col as int, y as int),
                    b == y * ROW_BYTES + col * PIXEL_SIZE,
                    row_present(start, y as int),
                    frame@.len() == start.len(),
                    forall|k: int|
                        0 <= k < start.len() ==> #[trigger] frame@[k] == if y * ROW_BYTES <= k < (y + 1) * ROW_BYTES
                            && ((k - y * ROW_BYTES) / PIXEL_SIZE as int - x < i || (b <= k < b + c)) {
                            row_drawn_byte(start, x as int, y as int, row, color@, k)
                        } else {
                            start[k]
                        },
                decreases PIXEL_SIZE - c,
            {
                proof {
                    lemma_byte_pixel(b + c, y as int);
                }
                if lit {
                    frame[b + c] = 0;
                } else {
                    frame[b + c] = color[c];
                }
                c += 1;
            }
        }
        proof {
            assert forall|k: int| 0 <= k < start.len() implies #[trigger] frame@[k] == if y * ROW_BYTES <= k < (y
                + 1) * ROW_BYTES && (k - y * ROW_BYTES) / PIXEL_SIZE as int - x < i + 1 {
                row_drawn_byte(start, x as int, y as int, row, color@, k)
            } else {
                start[k]
            } by {
                if y * ROW_BYTES <= k < (y + 1) * ROW_BYTES {
                    lemma_byte_pixel(k, y as int);
                }
            }
        }
        i += 1;
    }
    proof {
        assert(frame@ =~= row_drawn(start, x as int, y as int, row, color@));
    }
}

/// Mutable access to the bytes of row `y`.
pub fn pixel_row_mut(frame: &mut [u8], y: usize) -> (r: &mut [u8])
    requires
        row_present(old(frame)@, y as int),
    ensures
        r@ == old(frame)@.subrange(y * ROW_BYTES, (y + 1) * ROW_BYTES),
        final(frame)@ == old(frame)@.subrange(0, y * ROW_BYTES) + final(r)@ + old(frame)@.subrange(
            (y + 1) * ROW_BYTES,
            old(frame)@.len() as int,
        ),
{
    let _len = frame.len();
    let (_, tail) = frame.split_at_mut(y * ROW_BYTES);
    let (row, _) = tail.split_at_mut(ROW_BYTES);
    row
}

/// XOR-draws a 16-row sprite at `(x, y)`, clipped to the frame.
pub fn draw_sprite(frame: &mut [u8], sprite: &[u8; 16], x: u8, y: u8, color: [u8; 4])
    ensures
        final(frame)@ == sprite_drawn(old(frame)@, sprite@, x as int, y as int, color@, 16),
{
    let mut n: usize = 0;
    while n < 16
        invariant
            0 <= n <= 16,
            frame@ == sprite_drawn(old(frame)@, sprite@, x as int, y as int, color@, n as nat),
        decreases 16 - n,
    {
        set_row(frame, x as usize, y as usize + n, sprite[n], color);
        n += 1;
    }
}

/// Blanks the whole frame.
pub fn clear_screen(frame: &mut [u8])
    ensures
        final(frame)@.len() == old(frame)@.len(),
        forall|k: int| 0 <= k < old(frame)@.len() ==> #[trigger] final(frame)@[k] == 0,
{
    let mut k: usize = 0;
    while k < frame.len()
        invariant
            0 <= k <= frame@.len(),
            frame@.len() == old(frame)@.len(),
            forall|j: int| 0 <= j < k ==> #[trigger] frame@[j] == 0,
        decreases frame@.len() - k,
    {
        frame[k] = 0;
        k += 1;
    }
}

/// Repaints every lit pixel in `color`; unlit pixels stay as they are.
pub fn recolor(frame: &mut [u8], color: [u8; 4])
    ensures
        final(frame)@ == recolored(old(frame)@, color@),
{
    let ghost start = frame@;
    let len = frame.len();
    let mut p: usize = 0;
    while PIXEL_SIZE <= len - p
        invariant
            p % PIXEL_SIZE == 0,
            p <= len,
            len == start.len(),
            frame@.len() == len,
            forall|k: int|
                0 <= k < len ==> #[trigger] frame@[k] == if k < p {
                    recolored(start, color@)[k]
                } else {
                    start[k]
                },
        decreases len - p,
    {
        if frame[p] != 0 || frame[p + 1] != 0 || frame[p + 2] != 0 || frame[p + 3] != 0 {
            frame[p] = color[0];
            frame[p + 1] = color[1];
            frame[p + 2] = color[2];
            frame[p + 3] = color[3];
        }
        proof {
            assert forall|k: int| 0 <= k < len implies #[trigger] frame@[k] == if k < p + PIXEL_SIZE {
                recolored(start, color@)[k]
            } else {
                start[k]
            } by {
                if p <= k < p + 4 {
                    assert(k % 4 == k - p) by (nonlinear_arith)
                        requires p % 4 == 0, p <= k < p + 4;
                }
            }
        }
        p += PIXEL_SIZE;
    }
    proof {
        assert forall|k: int| p <= k < len implies !chunk_lit(start, k) by {
            assert(k - k % 4 + 4 > len) by (nonlinear_arith)
                requires p % 4 == 0, p <= k < len, p + 4 > len;
        }
        assert(frame@ =~= recolored(start, color@));
    }
}

} // verus!
