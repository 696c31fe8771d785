use vstd::prelude::*;

verus! {

/// Depth stored where nothing has been drawn yet; nearer surfaces have smaller depths.
pub const DEPTH_FAR: i64 = 0x7fff_ffff_ffff_ffff;

/// A color buffer of packed `0xRRGGBB` pixels and a depth buffer of the same
/// size, both row-major.
pub struct Framebuffer {
    pub width: usize,
    pub height: usize,
    pub buffer: Vec<u32>,
    pub zbuffer: Vec<i64>,
    pub background_color: u32,
    pub current_color: u32,
}

/// Mathematical model of a framebuffer.
pub struct FrameView {
    pub width: nat,
    pub height: nat,
    pub colors: Seq<u32>,
    pub depths: Seq<i64>,
    pub background: u32,
    pub current: u32,
}

impl View for Framebuffer {
    type V = FrameView;

    open spec fn view(&self) -> FrameView {
        FrameView {
            width: self.width as nat,
            height: self.height as nat,
            colors: self.buffer@,
            depths: self.zbuffer@,
            background: self.background_color,
            current: self.current_color,
        }
    }
}

/// Index of pixel `(x, y)` in the row-major buffers.
pub open spec fn pixel_index(width: nat, x: int, y: int) -> int {
    y * width + x
}

impl FrameView {
    pub open spec fn wf(self) -> bool {
        &&& self.colors.len() == self.width * self.height
        &&& self.depths.len() == self.width * self.height
    }

    pub open spec fn in_bounds(self, x: int, y: int) -> bool {
        0 <= x < self.width && 0 <= y < self.height
    }

    /// The depth test and write at `(x, y)`: the current color and `depth` are
    /// stored only where `depth` is strictly nearer than what is stored there.
    pub open spec fn point(self, x: int, y: int, depth: i64) -> FrameView {
        let i = pixel_index(self.width, x, y);
        if self.in_bounds(x, y) && depth < self.depths[i] {
            FrameView {
                colors: self.colors.update(i, self.current),
                depths: self.depths.update(i, depth),
                ..self
            }
        } else {
            self
        }
    }

    pub open spec fn with_current(self, c: u32) -> FrameView {
        FrameView { current: c, ..self }
    }

    /// Every pixel holds the background color and every depth is `DEPTH_FAR`.
    pub open spec fn is_cleared(self) -> bool {
        &&& forall|i: int| 0 <= i < self.colors.len() ==> self.colors[i] == self.background
        &&& forall|i: int| 0 <= i < self.depths.len() ==> self.depths[i] == DEPTH_FAR
    }
}

pub proof fn lemma_index_in_range(width: nat, height: nat, x: int, y: int)
    requires
        0 <= x < width,
        0 <= y < height,
    ensures
        0 <= pixel_index(width, x, y) < width * height,
{
    assert(0 <= y * width + x < width * height) by (nonlinear_arith)
        requires
            0 <= x < width,
            0 <= y < height,
    ;
}

/// Distinct pixels have distinct indices.
pub proof fn lemma_index_injective(width: nat, x1: int, y1: int, x2: int, y2: int)
    requires
        0 <= x1 < width,
        0 <= x2 < width,
        0 <= y1,
        0 <= y2,
        pixel_index(width, x1, y1) == pixel_index(width, x2, y2),
    ensures
        x1 == x2 && y1 == y2,
{
    if y1 < y2 {
        assert(y1 * width + x1 < y2 * width + x2) by (nonlinear_arith)
            requires
                y1 < y2,
                0 <= x1 < width,
                0 <= x2,
        ;
    } else if y2 < y1 {
        assert(y2 * width + x2 < y1 * width + x1) by (nonlinear_arith)
            requires
                y2 < y1,
                0 <= x2 < width,
                0 <= x1,
        ;
    }
}

impl Framebuffer {
    pub open spec fn wf(&self) -> bool {
        self@.wf()
    }

    /// A cleared framebuffer of `width` by `height` pixels with a black background.
    pub fn new(width: usize, height: usize) -> (fb: Framebuffer)
        requires
            width * height <= usize::MAX,
        ensures
            fb.wf(),
            fb@.width == width,
            fb@.height == height,
            fb@.background == 0,
            fb@.current == 0,
            fb@.is_cleared(),
    {
        let n: usize = width * height;
        let mut buffer: Vec<u32> = Vec::new();
        let mut zbuffer: Vec<i64> = Vec::new();
        let mut i: usize = 0;
        while i < n
            invariant
                i <= n,
                buffer@.len() == i,
                zbuffer@.len() == i,
                forall|k: int| 0 <= k < i ==> buffer@[k] == 0,
                forall|k: int| 0 <= k < i ==> zbuffer@[k] == DEPTH_FAR,
            decreases n - i,
        {
            buffer.push(0);
            zbuffer.push(DEPTH_FAR);
            i = i + 1;
        }
        Framebuffer { width, height, buffer, zbuffer, background_color: 0, current_color: 0 }
    }

    /// Resets every pixel to the background color and every depth to `DEPTH_FAR`.
    pub fn clear(&mut self)
        requires
            old(self).wf(),
        ensures
            final(self).wf(),
            final(self)@ == (FrameView { colors: final(self)@.colors, depths: final(self)@.depths, ..old(self)@ }),
            final(self)@.is_cleared(),
    {
        let n: usize = self.buffer.len();
        let bg: u32 = self.background_color;
        let mut i: usize = 0;
        while i < n
            invariant
                i <= n,
                n == self.buffer@.len(),
                self.buffer@.len() == old(self).buffer@.len(),
                self.zbuffer@.len() == old(self).zbuffer@.len(),
                self.width == old(self).width,
                self.height == old(self).height,
                self.background_color == bg,
                bg == old(self).background_color,
                self.current_color == old(self).current_color,
                forall|k: int| 0 <= k < i ==> self.buffer@[k] == bg,
            decreases n - i,
        {
            self.buffer.set(i, bg);
            i = i + 1;
        }
        let m: usize = self.zbuffer.len();
        let mut j: usize = 0;
        while j < m
            invariant
                j <= m,
                m == self.zbuffer@.len(),
                self.buffer@.len() == old(self).buffer@.len(),
                self.zbuffer@.len() == old(self).zbuffer@.len(),
                self.width == old(self).width,
                self.height == old(self).height,
                self.background_color == bg,
                bg == old(self).background_color,
                self.current_color == old(self).current_color,
                forall|k: int| 0 <= k < self.buffer@.len() ==> self.buffer@[k] == bg,
                forall|k: int| 0 <= k < j ==> self.zbuffer@[k] == DEPTH_FAR,
            decreases m - j,
        {
            self.zbuffer.set(j, DEPTH_FAR);
            j = j + 1;
        }
    }

    pub fn set_background_color(&mut self, color: u32)
        ensures
            final(self)@ == (FrameView { background: color, ..old(self)@ }),
    {
        self.background_color = color;
    }

    /// Sets the color that the next `point` writes.
    pub fn set_current_color(&mut self, color: u32)
        ensures
            final(self)@ == old(self)@.with_current(color),
    {
        self.current_color = color;
    }

    /// Writes the current color at `(x, y)` if `depth` is nearer than the stored
    /// depth there; coordinates outside the buffer change nothing.
    pub fn point(&mut self, x: usize, y: usize, depth: i64)
        requires
            old(self).wf(),
        ensures
            final(self).wf(),
            final(self)@ == old(self)@.point(x as int, y as int, depth),
    {
        if x < self.width && y < self.height {
            let n: usize = self.buffer.len();
            proof {
                lemma_index_in_range(self.width as nat, self.height as nat, x as int, y as int);
                assert(0 <= y * self.width <= y * self.width + x) by (nonlinear_arith)
                    requires
                        0 <= x,
                        0 <= y,
                        0 <= self.width,
                ;
            }
            let i: usize = y * self.width + x;
            if depth < self.zbuffer[i] {
                let c: u32 = self.current_color;
                self.buffer.set(i, c);
                self.zbuffer.set(i, depth);
            }
        }
    }
}

/// Two writes to one pixel give the same buffers in either order, and the
/// nearer one decides the pixel's color: drawn after the farther one it
/// replaces it, and drawn before it the farther write changes nothing.
pub proof fn lemma_depth_ordering(v: FrameView, x: int, y: int, c1: u32, d1: i64, c2: u32, d2: i64)
    requires
        v.wf(),
        v.in_bounds(x, y),
        d1 < d2,
    ensures
        ({
            let far_first = v.with_current(c2).point(x, y, d2).with_current(c1).point(x, y, d1);
            let near_first = v.with_current(c1).point(x, y, d1).with_current(c2).point(x, y, d2);
            &&& near_first == v.with_current(c1).point(x, y, d1).with_current(c2)
            &&& far_first.colors == near_first.colors
            &&& far_first.depths == near_first.depths
            &&& d1 < v.depths[pixel_index(v.width, x, y)] ==> far_first.colors[pixel_index(v.width, x, y)] == c1
        }),
{
    lemma_index_in_range(v.width, v.height, x, y);
    let i = pixel_index(v.width, x, y);
    let far_first = v.with_current(c2).point(x, y, d2).with_current(c1).point(x, y, d1);
    let near_first = v.with_current(c1).point(x, y, d1).with_current(c2).point(x, y, d2);
    assert(far_first.colors =~= near_first.colors);
    assert(far_first.depths =~= near_first.depths);
}

} // verus!
