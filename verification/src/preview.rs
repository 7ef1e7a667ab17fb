//! Rasterising linework into an RGB pixel buffer for the headless preview.
//!
//! Mapping drawing coordinates to pixels and writing the file stay with the
//! caller; this module paints pixels and lines given in pixel coordinates.

use vstd::prelude::*;

verus! {

/// The largest width or height a buffer may have.
pub const MAX_SIDE: u32 = 0x7fff_fff0;

/// The largest extent along either axis of a line drawn by `draw_line`:
/// the walk's doubled error term reaches three times the extent, which
/// must stay within 32 bits.
pub const MAX_SPAN: i32 = 0x2aaa_aaaa;

/// Whether a buffer of `len` bytes holds `width` × `height` RGB pixels,
/// with every index fitting in 32 bits.
pub open spec fn buffer_fits(len: nat, width: u32, height: u32) -> bool {
    &&& width <= MAX_SIDE
    &&& height <= MAX_SIDE
    &&& width * height * 3 <= u32::MAX
    &&& len >= width * height * 3
}

/// Whether pixel `(x, y)` lies on the buffer.
pub open spec fn on_buffer(width: u32, height: u32, x: int, y: int) -> bool {
    0 <= x < width && 0 <= y < height
}

/// The buffer with pixel `(x, y)` set to `(r, g, b)` when it lies on it.
pub open spec fn painted(
    pixels: Seq<u8>,
    width: u32,
    height: u32,
    x: int,
    y: int,
    r: u8,
    g: u8,
    b: u8,
) -> Seq<u8> {
    if on_buffer(width, height, x, y) {
        let i = (y * width + x) * 3;
        pixels.update(i, r).update(i + 1, g).update(i + 2, b)
    } else {
        pixels
    }
}

proof fn lemma_pixel_index(width: u32, height: u32, x: int, y: int)
    requires
        0 <= x < width,
        0 <= y < height,
    ensures
        0 <= (y * width + x) * 3,
        (y * width + x) * 3 + 2 < width * height * 3,
{
    assert((y * width + x) * 3 + 2 < width * height * 3) by (nonlinear_arith)
        requires
            0 <= x < width,
            0 <= y < height,
    ;
    assert(0 <= (y * width + x) * 3) by (nonlinear_arith)
        requires
            0 <= x,
            0 <= y,
            0 <= width,
    ;
}

/// Sets one pixel; one off the buffer is ignored.
pub fn put_pixel(pixels: &mut [u8], width: u32, height: u32, x: i32, y: i32, r: u8, g: u8, b: u8)
    requires
        buffer_fits(old(pixels)@.len(), width, height),
    ensures
        final(pixels)@ == painted(old(pixels)@, width, height, x as int, y as int, r, g, b),
        final(pixels)@.len() == old(pixels)@.len(),
{
    if x < 0 || y < 0 || x >= width as i32 || y >= height as i32 {
        return;
    }
    proof {
        lemma_pixel_index(width, height, x as int, y as int);
    }
    let idx = ((y as u32 * width + x as u32) * 3) as usize;
    pixels[idx] = r;
    pixels[idx + 1] = g;
    pixels[idx + 2] = b;
}

/// The distance still to cover from `(x, y)` to `(x1, y1)`, in steps.
pub open spec fn remaining(x: int, y: int, x1: int, y1: int) -> nat {
    (if x1 >= x {
        x1 - x
    } else {
        x - x1
    }) as nat + (if y1 >= y {
        y1 - y
    } else {
        y - y1
    }) as nat
}

/// Whether a walk at `(x, y)` gives up: it is well off the buffer, beyond
/// an edge that the end point `(x1, y1)` lies beyond too.
pub open spec fn gives_up(width: u32, height: u32, x: int, y: int, x1: int, y1: int) -> bool {
    (x < -8 || y < -8 || x > width + 8 || y > height + 8) && ((x < 0 && x1 < 0) || (y < 0 && y1
        < 0) || (x >= width && x1 >= width) || (y >= height && y1 >= height))
}

/// The buffer after the rest of a Bresenham walk from `(x, y)` with error
/// term `err` toward `(x1, y1)`; `dx` and `dy` are the extents of the whole
/// line (`dy` negated) and `sx`, `sy` the step directions. Each pixel on the
/// way is painted; the walk ends at `(x1, y1)`, or where it gives up.
pub open spec fn walk(
    pixels: Seq<u8>,
    width: u32,
    height: u32,
    x: int,
    y: int,
    err: int,
    x1: int,
    y1: int,
    dx: int,
    dy: int,
    sx: int,
    sy: int,
    r: u8,
    g: u8,
    b: u8,
) -> Seq<u8>
    decreases remaining(x, y, x1, y1),
{
    let here = painted(pixels, width, height, x, y, r, g, b);
    if x == x1 && y == y1 {
        here
    } else {
        let e2 = 2 * err;
        let (err1, nx) = if e2 >= dy {
            (err + dy, x + sx)
        } else {
            (err, x)
        };
        let (err2, ny) = if e2 <= dx {
            (err1 + dx, y + sy)
        } else {
            (err1, y)
        };
        if gives_up(width, height, nx, ny, x1, y1) {
            here
        } else if remaining(nx, ny, x1, y1) < remaining(x, y, x1, y1) {
            walk(here, width, height, nx, ny, err2, x1, y1, dx, dy, sx, sy, r, g, b)
        } else {
            here
        }
    }
}

/// The buffer after drawing the line from `(x0, y0)` to `(x1, y1)`.
pub open spec fn line_drawn(
    pixels: Seq<u8>,
    width: u32,
    height: u32,
    x0: int,
    y0: int,
    x1: int,
    y1: int,
    r: u8,
    g: u8,
    b: u8,
) -> Seq<u8> {
    let dx = if x1 >= x0 {
        x1 - x0
    } else {
        x0 - x1
    };
    let dy = -(if y1 >= y0 {
        y1 - y0
    } else {
        y0 - y1
    });
    let sx = if x0 < x1 {
        1int
    } else {
        -1int
    };
    let sy = if y0 < y1 {
        1int
    } else {
        -1int
    };
    walk(pixels, width, height, x0, y0, dx + dy, x1, y1, dx, dy, sx, sy, r, g, b)
}

/// Draws the line from `(x0, y0)` to `(x1, y1)` with Bresenham's
/// algorithm. Pixels off the buffer are skipped, and the walk gives up once
/// it is well off the buffer on the side where the line ends.
pub fn draw_line(
    pixels: &mut [u8],
    width: u32,
    height: u32,
    x0: i32,
    y0: i32,
    x1: i32,
    y1: i32,
    r: u8,
    g: u8,
    b: u8,
)
    requires
        buffer_fits(old(pixels)@.len(), width, height),
        -MAX_SPAN <= x1 - x0 <= MAX_SPAN,
        -MAX_SPAN <= y1 - y0 <= MAX_SPAN,
    ensures
        final(pixels)@ == line_drawn(
            old(pixels)@,
            width,
            height,
            x0 as int,
            y0 as int,
            x1 as int,
            y1 as int,
            r,
            g,
            b,
        ),
{
    let big_dx: i32 = if x1 >= x0 {
        x1 - x0
    } else {
        x0 - x1
    };
    let big_dy: i32 = if y1 >= y0 {
        y1 - y0
    } else {
        y0 - y1
    };
    let dx = big_dx;
    let dy = -big_dy;
    let sx: i32 = if x0 < x1 {
        1
    } else {
        -1
    };
    let sy: i32 = if y0 < y1 {
        1
    } else {
        -1
    };
    let mut x = x0;
    let mut y = y0;
    let mut err = dx + dy;
    let ghost mut kx: int = 0;
    let ghost mut ky: int = 0;
    let ghost target = line_drawn(
        old(pixels)@,
        width,
        height,
        x0 as int,
        y0 as int,
        x1 as int,
        y1 as int,
        r,
        g,
        b,
    );
    loop
        invariant_except_break
            buffer_fits(pixels@.len(), width, height),
            0 <= big_dx <= MAX_SPAN,
            0 <= big_dy <= MAX_SPAN,
            dx == big_dx,
            dy == -big_dy,
            sx == (if x0 < x1 {
                1int
            } else {
                -1int
            }),
            sy == (if y0 < y1 {
                1int
            } else {
                -1int
            }),
            big_dx == (if x1 >= x0 {
                x1 - x0
            } else {
                x0 - x1
            }),
            big_dy == (if y1 >= y0 {
                y1 - y0
            } else {
                y0 - y1
            }),
            0 <= kx <= big_dx,
            0 <= ky <= big_dy,
            x == x0 + sx * kx,
            y == y0 + sy * ky,
            err == big_dx - big_dy + ky * big_dx - kx * big_dy,
            -3 * big_dy <= 2 * err <= 3 * big_dx,
            remaining(x as int, y as int, x1 as int, y1 as int) == (big_dx - kx) + (big_dy - ky),
            walk(pixels@, width, height, x as int, y as int, err as int, x1 as int, y1 as int, dx as int, dy as int, sx as int, sy as int, r, g, b) == target,
        ensures
            pixels@ == target,
        decreases (big_dx - kx) + (big_dy - ky),
    {
        put_pixel(pixels, width, height, x, y, r, g, b);
        if x == x1 && y == y1 {
            break;
        }
        proof {
            lemma_bresenham_step(big_dx as int, big_dy as int, kx, ky, err as int);
        }
        let e2 = 2 * err;
        if e2 >= dy {
            proof {
                if sx == 1 {
                    assert(sx * kx == kx) by (nonlinear_arith)
                        requires
                            sx == 1,
                    ;
                    assert(x + sx == x0 + (kx + 1));
                } else {
                    assert(sx * kx == -kx) by (nonlinear_arith)
                        requires
                            sx == -1,
                    ;
                    assert(x + sx == x0 - (kx + 1));
                }
            }
            err = err + dy;
            x = x + sx;
            proof {
                assert((ky * big_dx - (kx + 1) * big_dy) == (ky * big_dx - kx * big_dy) - big_dy)
                    by (nonlinear_arith);
                assert(x == x0 + sx * (kx + 1)) by (nonlinear_arith)
                    requires
                        x == x0 + sx * kx + sx,
                ;
                kx = kx + 1;
            }
        }
        if e2 <= dx {
            proof {
                if sy == 1 {
                    assert(sy * ky == ky) by (nonlinear_arith)
                        requires
                            sy == 1,
                    ;
                    assert(y + sy == y0 + (ky + 1));
                } else {
                    assert(sy * ky == -ky) by (nonlinear_arith)
                        requires
                            sy == -1,
                    ;
                    assert(y + sy == y0 - (ky + 1));
                }
            }
            err = err + dx;
            y = y + sy;
            proof {
                assert(((ky + 1) * big_dx - kx * big_dy) == (ky * big_dx - kx * big_dy) + big_dx)
                    by (nonlinear_arith);
                assert(y == y0 + sy * (ky + 1)) by (nonlinear_arith)
                    requires
                        y == y0 + sy * ky + sy,
                ;
                ky = ky + 1;
            }
        }
        if x < -8 || y < -8 || x > width as i32 + 8 || y > height as i32 + 8 {
            if (x < 0 && x1 < 0) || (y < 0 && y1 < 0) || (x >= width as i32 && x1 >= width as i32)
                || (y >= height as i32 && y1 >= height as i32) {
                break;
            }
        }
    }
}

/// One Bresenham step from a point that is not the end point: it moves
/// along at least one axis and overshoots neither, and the error term stays
/// within its bounds.
proof fn lemma_bresenham_step(big_dx: int, big_dy: int, kx: int, ky: int, err: int)
    requires
        0 <= kx <= big_dx,
        0 <= ky <= big_dy,
        !(kx == big_dx && ky == big_dy),
        err == big_dx - big_dy + ky * big_dx - kx * big_dy,
        -3 * big_dy <= 2 * err <= 3 * big_dx,
    ensures
        ({
            let e2 = 2 * err;
            let step_x = e2 >= -big_dy;
            let step_y = e2 <= big_dx;
            &&& step_x || step_y
            &&& step_x ==> kx < big_dx
            &&& step_y ==> ky < big_dy
            &&& {
                let err1 = if step_x {
                    err - big_dy
                } else {
                    err
                };
                let err2 = if step_y {
                    err1 + big_dx
                } else {
                    err1
                };
                -3 * big_dy <= 2 * err2 <= 3 * big_dx
            }
        }),
{
    if kx == big_dx && ky < big_dy {
        assert(ky * big_dx - kx * big_dy <= -big_dx) by (nonlinear_arith)
            requires
                kx == big_dx,
                ky < big_dy,
                0 <= ky,
                0 <= big_dx,
        {
            assert(ky * big_dx - big_dx * big_dy == big_dx * (ky - big_dy));
        }
    }
    if ky == big_dy && kx < big_dx {
        assert(ky * big_dx - kx * big_dy >= big_dy) by (nonlinear_arith)
            requires
                ky == big_dy,
                kx < big_dx,
                0 <= kx,
                0 <= big_dy,
        {
            assert(big_dy * big_dx - kx * big_dy == big_dy * (big_dx - kx));
        }
    }
}

/// The state of a Bresenham walk after `kx` steps along x and `ky` along
/// y from `(x0, y0)` toward `(x1, y1)`.
pub open spec fn walk_state(
    x0: int,
    y0: int,
    x1: int,
    y1: int,
    kx: int,
    ky: int,
    x: int,
    y: int,
    err: int,
) -> bool {
    let big_dx = if x1 >= x0 {
        x1 - x0
    } else {
        x0 - x1
    };
    let big_dy = if y1 >= y0 {
        y1 - y0
    } else {
        y0 - y1
    };
    let sx = if x0 < x1 {
        1int
    } else {
        -1int
    };
    let sy = if y0 < y1 {
        1int
    } else {
        -1int
    };
    &&& 0 <= kx <= big_dx
    &&& 0 <= ky <= big_dy
    &&& x == x0 + sx * kx
    &&& y == y0 + sy * ky
    &&& err == big_dx - big_dy + ky * big_dx - kx * big_dy
    &&& -3 * big_dy <= 2 * err <= 3 * big_dx
}

proof fn lemma_walk_step(
    x0: int,
    y0: int,
    x1: int,
    y1: int,
    kx: int,
    ky: int,
    x: int,
    y: int,
    err: int,
)
    requires
        walk_state(x0, y0, x1, y1, kx, ky, x, y, err),
        !(x == x1 && y == y1),
    ensures
        ({
            let big_dx = if x1 >= x0 {
                x1 - x0
            } else {
                x0 - x1
            };
            let big_dy = if y1 >= y0 {
                y1 - y0
            } else {
                y0 - y1
            };
            let sx = if x0 < x1 {
                1int
            } else {
                -1int
            };
            let sy = if y0 < y1 {
                1int
            } else {
                -1int
            };
            let e2 = 2 * err;
            let step_x = e2 >= -big_dy;
            let step_y = e2 <= big_dx;
            let err1 = if step_x {
                err - big_dy
            } else {
                err
            };
            let err2 = if step_y {
                err1 + big_dx
            } else {
                err1
            };
            let nx = if step_x {
                x + sx
            } else {
                x
            };
            let ny = if step_y {
                y + sy
            } else {
                y
            };
            let kx2 = if step_x {
                kx + 1
            } else {
                kx
            };
            let ky2 = if step_y {
                ky + 1
            } else {
                ky
            };
            &&& walk_state(x0, y0, x1, y1, kx2, ky2, nx, ny, err2)
            &&& remaining(nx, ny, x1, y1) < remaining(x, y, x1, y1)
        }),
{
    let big_dx = if x1 >= x0 {
        x1 - x0
    } else {
        x0 - x1
    };
    let big_dy = if y1 >= y0 {
        y1 - y0
    } else {
        y0 - y1
    };
    let sx = if x0 < x1 {
        1int
    } else {
        -1int
    };
    let sy = if y0 < y1 {
        1int
    } else {
        -1int
    };
    assert(sx * kx == if sx == 1 {
        kx
    } else {
        -kx
    }) by (nonlinear_arith)
        requires
            sx == 1 || sx == -1,
    ;
    assert(sy * ky == if sy == 1 {
        ky
    } else {
        -ky
    }) by (nonlinear_arith)
        requires
            sy == 1 || sy == -1,
    ;
    assert(!(kx == big_dx && ky == big_dy));
    lemma_bresenham_step(big_dx, big_dy, kx, ky, err);
    assert(sx * (kx + 1) == sx * kx + sx) by (nonlinear_arith);
    assert(sy * (ky + 1) == sy * ky + sy) by (nonlinear_arith);
    assert((ky * big_dx - (kx + 1) * big_dy) == (ky * big_dx - kx * big_dy) - big_dy)
        by (nonlinear_arith);
    assert(((ky + 1) * big_dx - kx * big_dy) == (ky * big_dx - kx * big_dy) + big_dx)
        by (nonlinear_arith);
    assert(((ky + 1) * big_dx - (kx + 1) * big_dy) == (ky * big_dx - kx * big_dy) + big_dx
        - big_dy) by (nonlinear_arith);
}

/// A walk that never leaves the box spanned by its end points never gives
/// up when both ends lie on the buffer, and it ends by painting its end
/// point in the line's color.
proof fn lemma_walk_paints_end(
    pixels: Seq<u8>,
    width: u32,
    height: u32,
    x0: int,
    y0: int,
    x1: int,
    y1: int,
    kx: int,
    ky: int,
    x: int,
    y: int,
    err: int,
    r: u8,
    g: u8,
    b: u8,
)
    requires
        walk_state(x0, y0, x1, y1, kx, ky, x, y, err),
        on_buffer(width, height, x0, y0),
        on_buffer(width, height, x1, y1),
        pixels.len() >= width * height * 3,
    ensures
        ({
            let big_dx = if x1 >= x0 {
                x1 - x0
            } else {
                x0 - x1
            };
            let big_dy = if y1 >= y0 {
                y1 - y0
            } else {
                y0 - y1
            };
            let sx = if x0 < x1 {
                1int
            } else {
                -1int
            };
            let sy = if y0 < y1 {
                1int
            } else {
                -1int
            };
            let out = walk(pixels, width, height, x, y, err, x1, y1, big_dx, -big_dy, sx, sy, r, g, b);
            let i = (y1 * width + x1) * 3;
            &&& out.len() == pixels.len()
            &&& out[i] == r
            &&& out[i + 1] == g
            &&& out[i + 2] == b
        }),
    decreases remaining(x, y, x1, y1),
{
    let big_dx = if x1 >= x0 {
        x1 - x0
    } else {
        x0 - x1
    };
    let big_dy = if y1 >= y0 {
        y1 - y0
    } else {
        y0 - y1
    };
    let sx = if x0 < x1 {
        1int
    } else {
        -1int
    };
    let sy = if y0 < y1 {
        1int
    } else {
        -1int
    };
    assert(sx * kx == if sx == 1 {
        kx
    } else {
        -kx
    }) by (nonlinear_arith)
        requires
            sx == 1 || sx == -1,
    ;
    assert(sy * ky == if sy == 1 {
        ky
    } else {
        -ky
    }) by (nonlinear_arith)
        requires
            sy == 1 || sy == -1,
    ;
    lemma_pixel_index(width, height, x1, y1);
    if on_buffer(width, height, x, y) {
        lemma_pixel_index(width, height, x, y);
    }
    let here = painted(pixels, width, height, x, y, r, g, b);
    if x == x1 && y == y1 {
    } else {
        lemma_walk_step(x0, y0, x1, y1, kx, ky, x, y, err);
        let e2 = 2 * err;
        let step_x = e2 >= -big_dy;
        let step_y = e2 <= big_dx;
        let err1 = if step_x {
            err - big_dy
        } else {
            err
        };
        let err2 = if step_y {
            err1 + big_dx
        } else {
            err1
        };
        let nx = if step_x {
            x + sx
        } else {
            x
        };
        let ny = if step_y {
            y + sy
        } else {
            y
        };
        let kx2 = if step_x {
            kx + 1
        } else {
            kx
        };
        let ky2 = if step_y {
            ky + 1
        } else {
            ky
        };
        assert(sx * kx2 == if sx == 1 {
            kx2
        } else {
            -kx2
        }) by (nonlinear_arith)
            requires
                sx == 1 || sx == -1,
        ;
        assert(sy * ky2 == if sy == 1 {
            ky2
        } else {
            -ky2
        }) by (nonlinear_arith)
            requires
                sy == 1 || sy == -1,
        ;
        assert(on_buffer(width, height, nx, ny));
        assert(!gives_up(width, height, nx, ny, x1, y1));
        lemma_walk_paints_end(here, width, height, x0, y0, x1, y1, kx2, ky2, nx, ny, err2, r, g, b);
    }
}

/// When both ends of a line lie on the buffer, drawing it paints its end
/// point in the line's color.
pub proof fn lemma_line_paints_end(
    pixels: Seq<u8>,
    width: u32,
    height: u32,
    x0: int,
    y0: int,
    x1: int,
    y1: int,
    r: u8,
    g: u8,
    b: u8,
)
    requires
        buffer_fits(pixels.len(), width, height),
        on_buffer(width, height, x0, y0),
        on_buffer(width, height, x1, y1),
    ensures
        ({
            let out = line_drawn(pixels, width, height, x0, y0, x1, y1, r, g, b);
            let i = (y1 * width + x1) * 3;
            &&& out.len() == pixels.len()
            &&& out[i] == r
            &&& out[i + 1] == g
            &&& out[i + 2] == b
        }),
{
    let big_dx = if x1 >= x0 {
        x1 - x0
    } else {
        x0 - x1
    };
    let big_dy = if y1 >= y0 {
        y1 - y0
    } else {
        y0 - y1
    };
    let sx = if x0 < x1 {
        1int
    } else {
        -1int
    };
    assert(sx * 0 == 0);
    let sy = if y0 < y1 {
        1int
    } else {
        -1int
    };
    assert(sy * 0 == 0);
    assert(0 * big_dx == 0);
    assert(0 * big_dy == 0);
    lemma_walk_paints_end(pixels, width, height, x0, y0, x1, y1, 0, 0, x0, y0, big_dx - big_dy, r, g, b);
}

} // verus!
