//! The framebuffer: a color buffer, a depth store beside it, and the depth
//! test that every write goes through.

use vstd::prelude::*;
use crate::fixed::Fixed;

verus! {

/// What a framebuffer holds, as plain mathematical values. Pixels and depths
/// are in row-major order; a depth is the raw value of a `Fixed`.
pub struct FramebufferView {
    pub width: int,
    pub height: int,
    pub pixels: Seq<u32>,
    pub depths: Seq<i32>,
    pub background: u32,
    pub current: u32,
}

impl FramebufferView {
    /// Both stores hold one entry per pixel, and the size is one that a
    /// machine can allocate.
    pub open spec fn wf(self) -> bool {
        &&& 0 <= self.width
        &&& 0 <= self.height
        &&& 4 * (self.width * self.height) <= isize::MAX
        &&& self.pixels.len() == self.width * self.height
        &&& self.depths.len() == self.width * self.height
    }

    /// Whether the image has a pixel `(x, y)`.
    pub open spec fn in_bounds(self, x: int, y: int) -> bool {
        0 <= x < self.width && 0 <= y < self.height
    }

    /// The place of pixel `(x, y)` in the two stores.
    pub open spec fn index(self, x: int, y: int) -> int {
        y * self.width + x
    }

    /// Whether a write of `depth` at `(x, y)` lands: the pixel exists, and
    /// nothing nearer has been written there.
    pub open spec fn accepts(self, x: int, y: int, depth: int) -> bool {
        self.in_bounds(x, y) && depth <= self.depths[self.index(x, y)]
    }

    /// Every pixel the background color, every depth the farthest.
    pub open spec fn cleared(self) -> FramebufferView {
        FramebufferView {
            pixels: Seq::new(self.pixels.len(), |i: int| self.background),
            depths: Seq::new(self.depths.len(), |i: int| i32::MAX),
            ..self
        }
    }

    /// The same image with another background color.
    pub open spec fn with_background(self, color: u32) -> FramebufferView {
        FramebufferView { background: color, ..self }
    }

    /// The same image with another current color.
    pub open spec fn with_current(self, color: u32) -> FramebufferView {
        FramebufferView { current: color, ..self }
    }

    /// The depth-tested write of the current color at `(x, y)`.
    pub open spec fn point(self, x: int, y: int, depth: int) -> FramebufferView {
        if self.accepts(x, y, depth) {
            FramebufferView {
                pixels: self.pixels.update(self.index(x, y), self.current),
                depths: self.depths.update(self.index(x, y), depth as i32),
                ..self
            }
        } else {
            self
        }
    }

    /// Choosing `color` and writing it at `(x, y)`.
    pub open spec fn plot(self, x: int, y: int, depth: int, color: u32) -> FramebufferView {
        self.with_current(color).point(x, y, depth)
    }
}

/// A width×height image with a depth per pixel.
pub struct Framebuffer {
    width: usize,
    height: usize,
    buffer: Vec<u32>,
    zbuffer: Vec<i32>,
    background_color: u32,
    current_color: u32,
}

impl View for Framebuffer {
    type V = FramebufferView;

    closed spec fn view(&self) -> FramebufferView {
        FramebufferView {
            width: self.width as int,
            height: self.height as int,
            pixels: self.buffer@,
            depths: self.zbuffer@,
            background: self.background_color,
            current: self.current_color,
        }
    }
}

/// A pixel inside the image has its place inside the stores.
pub proof fn lemma_index_in_range(v: FramebufferView, x: int, y: int)
    requires
        v.wf(),
        v.in_bounds(x, y),
    ensures
        0 <= v.index(x, y) < v.width * v.height,
        v.width <= v.width * v.height,
        v.height <= v.width * v.height,
{
    assert(0 <= y * v.width && y * v.width + v.width <= v.height * v.width && v.width * v.height
        == v.height * v.width && v.height <= v.width * v.height) by (nonlinear_arith)
        requires
            0 <= y < v.height,
            0 <= x < v.width,
    ;
}

/// Two pixels of the image with the same place are the same pixel.
pub proof fn lemma_index_injective(v: FramebufferView, x1: int, y1: int, x2: int, y2: int)
    requires
        v.in_bounds(x1, y1),
        v.in_bounds(x2, y2),
        v.index(x1, y1) == v.index(x2, y2),
    ensures
        x1 == x2,
        y1 == y2,
{
    assert(y1 == y2) by (nonlinear_arith)
        requires
            0 <= x1 < v.width,
            0 <= x2 < v.width,
            y1 * v.width + x1 == y2 * v.width + x2,
    ;
}

impl Framebuffer {
    /// The two stores hold one entry per pixel.
    pub open spec fn wf(&self) -> bool {
        self@.wf()
    }

    /// A black image of the given size, every depth the farthest, with white
    /// as the current color.
    pub fn new(width: usize, height: usize) -> (fb: Framebuffer)
        requires
            4 * (width * height) <= isize::MAX,
        ensures
            fb.wf(),
            fb@.width == width,
            fb@.height == height,
            fb@.background == 0,
            fb@.current == 0xff_ffff,
            fb@.pixels == Seq::new((width * height) as nat, |i: int| 0u32),
            fb@.depths == Seq::new((width * height) as nat, |i: int| i32::MAX),
    {
        assert(0 <= width * height) by (nonlinear_arith);
        let n: usize = width * height;
        let buffer: Vec<u32> = vec![0u32; n];
        let zbuffer: Vec<i32> = vec![i32::MAX; n];
        assert(buffer@ =~= Seq::new(n as nat, |i: int| 0u32));
        assert(zbuffer@ =~= Seq::new(n as nat, |i: int| i32::MAX));
        Framebuffer {
            width,
            height,
            buffer,
            zbuffer,
            background_color: 0,
            current_color: 0xff_ffff,
        }
    }

    /// The number of columns.
    pub fn width(&self) -> (w: usize)
        ensures
            w == self@.width,
    {
        self.width
    }

    /// The number of rows.
    pub fn height(&self) -> (h: usize)
        ensures
            h == self@.height,
    {
        self.height
    }

    /// The pixels in row-major order, one packed `0xRRGGBB` value each.
    pub fn buffer(&self) -> (b: &Vec<u32>)
        ensures
            b@ == self@.pixels,
    {
        &self.buffer
    }

    /// The color that `clear` fills the image with.
    pub fn background_color(&self) -> (c: u32)
        ensures
            c == self@.background,
    {
        self.background_color
    }

    /// The color that the next `point` writes.
    pub fn current_color(&self) -> (c: u32)
        ensures
            c == self@.current,
    {
        self.current_color
    }

    /// The color at `(x, y)`, if the image has such a pixel.
    pub fn pixel(&self, x: usize, y: usize) -> (c: Option<u32>)
        requires
            self.wf(),
        ensures
            c == if self@.in_bounds(x as int, y as int) {
                Some(self@.pixels[self@.index(x as int, y as int)])
            } else {
                None
            },
    {
        if x < self.width && y < self.height {
            proof {
                lemma_index_in_range(self@, x as int, y as int);
            }
            Some(self.buffer[y * self.width + x])
        } else {
            None
        }
    }

    /// The depth stored at `(x, y)`, if the image has such a pixel.
    pub fn depth(&self, x: usize, y: usize) -> (d: Option<Fixed>)
        requires
            self.wf(),
        ensures
            d == if self@.in_bounds(x as int, y as int) {
                Some(Fixed { raw: self@.depths[self@.index(x as int, y as int)] })
            } else {
                None
            },
    {
        if x < self.width && y < self.height {
            proof {
                lemma_index_in_range(self@, x as int, y as int);
            }
            Some(Fixed { raw: self.zbuffer[y * self.width + x] })
        } else {
            None
        }
    }

    /// Sets the color that `clear` fills the image with.
    pub fn set_background_color(&mut self, color: u32)
        ensures
            final(self)@ == old(self)@.with_background(color),
    {
        self.background_color = color;
    }

    /// Sets the color that the next `point` writes.
    pub fn set_current_color(&mut self, color: u32)
        ensures
            final(self)@ == old(self)@.with_current(color),
    {
        self.current_color = color;
    }

    /// Resets every pixel to the background color and every depth to the
    /// farthest.
    pub fn clear(&mut self)
        requires
            old(self).wf(),
        ensures
            final(self).wf(),
            final(self)@ == old(self)@.cleared(),
    {
        let n: usize = self.buffer.len();
        self.buffer = vec![self.background_color; n];
        self.zbuffer = vec![i32::MAX; n];
        assert(self@.pixels =~= old(self)@.cleared().pixels);
        assert(self@.depths =~= old(self)@.cleared().depths);
    }

    /// Writes the current color at `(x, y)` if the image has such a pixel and
    /// `depth` is not behind what is stored there; equal depths overwrite.
    /// Any other write is dropped.
    pub fn point(&mut self, x: isize, y: isize, depth: Fixed)
        requires
            old(self).wf(),
        ensures
            final(self).wf(),
            final(self)@ == old(self)@.point(x as int, y as int, depth.raw as int),
    {
        if x >= 0 && y >= 0 {
            let ux: usize = x as usize;
            let uy: usize = y as usize;
            if ux < self.width && uy < self.height {
                proof {
                    lemma_index_in_range(self@, x as int, y as int);
                }
                let idx: usize = uy * self.width + ux;
                if depth.raw <= self.zbuffer[idx] {
                    self.buffer.set(idx, self.current_color);
                    self.zbuffer.set(idx, depth.raw);
                }
            }
        }
    }

    /// Chooses `color` and writes it at `(x, y)` under the depth test.
    pub fn plot(&mut self, x: isize, y: isize, depth: Fixed, color: u32)
        requires
            old(self).wf(),
        ensures
            final(self).wf(),
            final(self)@ == old(self)@.plot(x as int, y as int, depth.raw as int, color),
    {
        self.set_current_color(color);
        self.point(x, y, depth);
    }
}

/// A write outside the image changes nothing.
pub proof fn lemma_out_of_bounds_write(v: FramebufferView, x: int, y: int, depth: int)
    requires
        !v.in_bounds(x, y),
    ensures
        v.point(x, y, depth) == v,
{
}

/// A farther write followed by a nearer or equal one at the same pixel
/// updates the image: the pixel then holds the second color and the second
/// depth. This holds wherever the pixel exists and does not already hold
/// something nearer than the second write; the first write may land or not.
pub proof fn lemma_nearer_write_wins(
    v: FramebufferView,
    x: int,
    y: int,
    far: i32,
    near: i32,
    c1: u32,
    c2: u32,
)
    requires
        v.wf(),
        v.in_bounds(x, y),
        near <= far,
        near <= v.depths[v.index(x, y)],
    ensures
        v.plot(x, y, far as int, c1).plot(x, y, near as int, c2).pixels[v.index(x, y)] == c2,
        v.plot(x, y, far as int, c1).plot(x, y, near as int, c2).depths[v.index(x, y)] == near,
{
    lemma_index_in_range(v, x, y);
}

/// Equal depths overwrite: of two writes at the same depth the later one
/// stays.
pub proof fn lemma_tie_overwrites(v: FramebufferView, x: int, y: int, depth: i32, c1: u32, c2: u32)
    requires
        v.wf(),
        v.accepts(x, y, depth as int),
    ensures
        v.plot(x, y, depth as int, c1).plot(x, y, depth as int, c2).pixels[v.index(x, y)] == c2,
{
    lemma_index_in_range(v, x, y);
}

/// A write that is strictly farther than one made before it at the same
/// pixel changes nothing, whether that earlier write landed or not.
pub proof fn lemma_farther_write_dropped(
    v: FramebufferView,
    x: int,
    y: int,
    near: i32,
    far: i32,
    c1: u32,
    c2: u32,
)
    requires
        v.wf(),
        near < far,
    ensures
        v.plot(x, y, near as int, c1).plot(x, y, far as int, c2).pixels == v.plot(
            x,
            y,
            near as int,
            c1,
        ).pixels,
        v.plot(x, y, near as int, c1).plot(x, y, far as int, c2).depths == v.plot(
            x,
            y,
            near as int,
            c1,
        ).depths,
{
    if v.in_bounds(x, y) {
        lemma_index_in_range(v, x, y);
    }
}

/// A write changes no pixel but its own.
pub proof fn lemma_write_is_local(v: FramebufferView, x: int, y: int, depth: int, i: int)
    requires
        v.wf(),
        0 <= i < v.pixels.len(),
        !(v.in_bounds(x, y) && i == v.index(x, y)),
    ensures
        v.point(x, y, depth).pixels[i] == v.pixels[i],
        v.point(x, y, depth).depths[i] == v.depths[i],
{
    if v.in_bounds(x, y) {
        lemma_index_in_range(v, x, y);
    }
}

/// The stored depth never grows: after any write every depth is at most what
/// it was.
pub proof fn lemma_depth_never_grows(v: FramebufferView, x: int, y: int, depth: i32, i: int)
    requires
        v.wf(),
        0 <= i < v.depths.len(),
    ensures
        v.point(x, y, depth as int).depths[i] <= v.depths[i],
        v.point(x, y, depth as int).wf(),
{
    if v.in_bounds(x, y) {
        lemma_index_in_range(v, x, y);
    }
}

/// On a cleared image every write inside it lands.
pub proof fn lemma_cleared_accepts(v: FramebufferView, x: int, y: int, depth: i32)
    requires
        v.wf(),
        v.in_bounds(x, y),
    ensures
        v.cleared().wf(),
        v.cleared().accepts(x, y, depth as int),
{
    lemma_index_in_range(v, x, y);
}

} // verus!
