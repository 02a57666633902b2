use vstd::arithmetic::div_mod::lemma_fundamental_div_mod;
use vstd::arithmetic::div_mod::lemma_fundamental_div_mod_converse;
use vstd::prelude::*;

use crate::block::background;
use crate::block::background_color;
use crate::block::solid_color;
use crate::errors::ConfigError;
use crate::grid::VoxelGrid;
use crate::march::MarchOutcome;
use crate::march::RayPlan;
use crate::march::march_model;
use crate::march::march_ray;
use crate::units::FromTopLeft;

verus! {

/// The 2D array of colors one render call produces: `width * height` RGB
/// triples in row-major order, rows counted from the top of the image.
pub struct Framebuffer {
    width: usize,
    height: usize,
    pixels: Vec<(u8, u8, u8)>,
}

/// A packed pixel: one `u32` holding the red channel in bits 16 to 23, green
/// in bits 8 to 15 and blue in bits 0 to 7.
pub open spec fn pack_rgb_spec(color: (u8, u8, u8)) -> u32 {
    (color.0 as u32 * 0x10000 + color.1 as u32 * 0x100 + color.2 as u32) as u32
}

impl Framebuffer {
    /// Image width in pixels.
    pub closed spec fn spec_width(&self) -> int {
        self.width as int
    }

    /// Image height in pixels.
    pub closed spec fn spec_height(&self) -> int {
        self.height as int
    }

    /// The pixels in row-major order.
    pub closed spec fn contents(&self) -> Seq<(u8, u8, u8)> {
        self.pixels@
    }

    /// The color of the pixel in column `x` of row `y` (row 0 at the top).
    pub open spec fn pixel_at(&self, x: int, y: int) -> (u8, u8, u8) {
        self.contents()[y * self.spec_width() + x]
    }

    /// Structural invariant: the pixel array covers the resolution exactly.
    pub open spec fn wf(&self) -> bool {
        self.contents().len() == self.spec_width() * self.spec_height()
    }

    /// Builds a framebuffer of the given resolution filled with the
    /// background color. The caller supplies the pixel count, already known
    /// to fit in memory.
    fn new_background(width: usize, height: usize, count: usize) -> (fb: Framebuffer)
        requires
            count == width * height,
        ensures
            fb.wf(),
            fb.spec_width() == width,
            fb.spec_height() == height,
            forall|k: int| 0 <= k < count ==> fb.contents()[k] == background_color(),
    {
        let mut pixels: Vec<(u8, u8, u8)> = Vec::new();
        let mut k: usize = 0;
        while k < count
            invariant
                k <= count,
                pixels@.len() == k,
                forall|j: int| 0 <= j < k ==> pixels@[j] == background_color(),
            decreases count - k,
        {
            pixels.push(background());
            k = k + 1;
        }
        Framebuffer { width, height, pixels }
    }

    /// Overwrites the pixel at row-major position `index`.
    fn set_flat(&mut self, index: usize, color: (u8, u8, u8))
        requires
            index < old(self).contents().len(),
        ensures
            final(self).spec_width() == old(self).spec_width(),
            final(self).spec_height() == old(self).spec_height(),
            final(self).contents() == old(self).contents().update(index as int, color),
    {
        self.pixels[index] = color;
    }

    /// Image width in pixels.
    pub fn width(&self) -> (w: usize)
        ensures
            w == self.spec_width(),
    {
        self.width
    }

    /// Image height in pixels.
    pub fn height(&self) -> (h: usize)
        ensures
            h == self.spec_height(),
    {
        self.height
    }

    /// Reads the pixel at a position counted from the top-left corner of the
    /// image: first the column, then the row.
    pub fn pixel(&self, position: FromTopLeft<(usize, usize)>) -> (color: (u8, u8, u8))
        requires
            self.wf(),
            position.0.0 < self.spec_width(),
            position.0.1 < self.spec_height(),
        ensures
            color == self.pixel_at(position.0.0 as int, position.0.1 as int),
    {
        let (x, y) = position.0;
        let len = self.pixels.len();
        proof {
            mul_index_in_range(
                x as int,
                y as int,
                self.spec_width(),
                self.spec_height(),
            );
            assert(y * self.spec_width() + x < len);
        }
        self.pixels[y * self.width + x]
    }

    /// Packs the image into one `u32` per pixel, row-major, as a display
    /// surface expects it.
    pub fn to_packed(&self) -> (packed: Vec<u32>)
        requires
            self.wf(),
        ensures
            packed@.len() == self.contents().len(),
            forall|k: int|
                0 <= k < packed@.len() ==> packed@[k] == pack_rgb_spec(#[trigger] self.contents()[k]),
    {
        let mut packed: Vec<u32> = Vec::new();
        let mut k: usize = 0;
        let count = self.pixels.len();
        while k < count
            invariant
                k <= count,
                count == self.contents().len(),
                packed@.len() == k,
                forall|j: int|
                    0 <= j < k ==> packed@[j] == pack_rgb_spec(#[trigger] self.contents()[j]),
            decreases count - k,
        {
            packed.push(pack_rgb(self.pixels[k]));
            k = k + 1;
        }
        packed
    }
}

/// A row-major position lies strictly inside the pixel array.
proof fn mul_index_in_range(x: int, y: int, width: int, height: int)
    requires
        0 <= x < width,
        0 <= y < height,
    ensures
        0 <= y * width + x < width * height,
{
    assert(y * width + x < width * height) by (nonlinear_arith)
        requires
            0 <= x < width,
            0 <= y < height,
    ;
    assert(y * width >= 0) by (nonlinear_arith)
        requires
            y >= 0,
            width > 0,
    ;
}

/// Packs one RGB triple into a `u32`, red in the highest used byte.
pub fn pack_rgb(color: (u8, u8, u8)) -> (packed: u32)
    ensures
        packed == pack_rgb_spec(color),
{
    let r = color.0 as u32;
    let g = color.1 as u32;
    let b = color.2 as u32;
    proof {
        assert((r << 16) | (g << 8) | b == r * 0x10000 + g * 0x100 + b) by (bit_vector)
            requires
                r < 256,
                g < 256,
                b < 256,
        ;
    }
    (r << 16) | (g << 8) | b
}

/// The color one ray plan yields: the solid color on a hit, the background
/// color on a miss or an exhausted plan.
pub open spec fn expected_pixel(g: VoxelGrid, ray: RayPlan) -> (u8, u8, u8) {
    match march_model(g, ray.start(), ray.steps(), ray.choices@) {
        MarchOutcome::Hit { .. } => solid_color(),
        MarchOutcome::Miss => background_color(),
        MarchOutcome::OutOfSteps => background_color(),
    }
}

/// What a successful render call promises: a framebuffer of the requested
/// resolution whose row-major pixel `k` is exactly the color of ray plan
/// `k`. This pins every pixel, so the output is a function of the inputs.
pub open spec fn render_post(
    g: VoxelGrid,
    rays: Seq<RayPlan>,
    width: int,
    height: int,
    fb: Framebuffer,
) -> bool {
    &&& fb.wf()
    &&& fb.spec_width() == width
    &&& fb.spec_height() == height
    &&& forall|k: int|
        0 <= k < rays.len() ==> #[trigger] fb.contents()[k] == expected_pixel(g, rays[k])
}

/// The configuration mistake a render call reports, checked in this order.
pub open spec fn render_refusal(width: int, height: int, count: int) -> ConfigError {
    if width == 0 {
        ConfigError::ZeroWidth
    } else if height == 0 {
        ConfigError::ZeroHeight
    } else {
        ConfigError::PlanCountMismatch
    }
}

/// Renders one frame: pixel `(x, y)` takes the color of ray plan
/// `y * width + x`. A zero resolution or a plan count that does not cover
/// the pixel grid exactly is refused, and no partial framebuffer escapes.
pub fn render(grid: &VoxelGrid, rays: &Vec<RayPlan>, width: usize, height: usize) -> (result:
    Result<Framebuffer, ConfigError>)
    requires
        grid.wf(),
        forall|k: int| 0 <= k < rays@.len() ==> (#[trigger] rays@[k]).valid_steps(),
    ensures
        result is Ok <==> (width >= 1 && height >= 1 && rays@.len() == width * height),
        result matches Ok(fb) ==> render_post(*grid, rays@, width as int, height as int, fb),
        result matches Err(e) ==> e == render_refusal(width as int, height as int, rays@.len() as int),
{
    if width == 0 {
        return Err(ConfigError::ZeroWidth);
    }
    if height == 0 {
        return Err(ConfigError::ZeroHeight);
    }
    let count = rays.len();
    let ok = count / height == width && count % height == 0;
    proof {
        lemma_fundamental_div_mod(count as int, height as int);
        if count == width * height {
            lemma_fundamental_div_mod_converse(
                count as int,
                height as int,
                width as int,
                0,
            );
        }
    }
    if !ok {
        return Err(ConfigError::PlanCountMismatch);
    }
    proof {
        assert(count == width * height) by (nonlinear_arith)
            requires
                count as int == height as int * (width as int) + 0,
        ;
    }
    let mut fb = Framebuffer::new_background(width, height, count);
    let mut y: usize = 0;
    let mut p: usize = 0;
    while y < height
        invariant
            grid.wf(),
            forall|k: int| 0 <= k < rays@.len() ==> (#[trigger] rays@[k]).valid_steps(),
            count == rays@.len(),
            count == width * height,
            width >= 1,
            height >= 1,
            y <= height,
            p == y * width,
            p <= count,
            fb.wf(),
            fb.spec_width() == width,
            fb.spec_height() == height,
            forall|k: int| 0 <= k < p ==> #[trigger] fb.contents()[k] == expected_pixel(*grid, rays@[k]),
        decreases height - y,
    {
        let mut x: usize = 0;
        proof {
            mul_bound_step(y as int, width as int, height as int);
        }
        while x < width
            invariant
                grid.wf(),
                forall|k: int| 0 <= k < rays@.len() ==> (#[trigger] rays@[k]).valid_steps(),
                count == rays@.len(),
                count == width * height,
                width >= 1,
                height >= 1,
                y < height,
                x <= width,
                p == y * width + x,
                p <= count,
                (y + 1) * width <= count,
                fb.wf(),
                fb.spec_width() == width,
                fb.spec_height() == height,
                forall|k: int| 0 <= k < p ==> #[trigger] fb.contents()[k] == expected_pixel(*grid, rays@[k]),
            decreases width - x,
        {
            proof {
                assert(y * width + width == (y + 1) * width) by (nonlinear_arith);
            }
            let outcome = march_ray(grid, &rays[p]);
            let color = match outcome {
                MarchOutcome::Hit { x: hx, y: hy, z: hz } => grid.get(hx, hy, hz).get_color(),
                MarchOutcome::Miss => background(),
                MarchOutcome::OutOfSteps => background(),
            };
            fb.set_flat(p, color);
            x = x + 1;
            p = p + 1;
        }
        proof {
            assert(y * width + width == (y + 1) * width) by (nonlinear_arith);
        }
        y = y + 1;
    }
    Ok(fb)
}

/// A full row more still fits under the pixel count.
proof fn mul_bound_step(y: int, width: int, height: int)
    requires
        0 <= y < height,
        width >= 1,
    ensures
        (y + 1) * width <= width * height,
        y * width + width == (y + 1) * width,
{
    assert((y + 1) * width <= width * height) by (nonlinear_arith)
        requires
            0 <= y < height,
            width >= 1,
    ;
    assert(y * width + width == (y + 1) * width) by (nonlinear_arith);
}

/// Law: rendering is deterministic. Any two framebuffers that meet the
/// render contract for the same grid, ray plans and resolution agree pixel
/// for pixel, so repeated calls with identical inputs produce identical
/// images.
pub proof fn lemma_render_deterministic(
    g: VoxelGrid,
    rays: Seq<RayPlan>,
    width: int,
    height: int,
    fb1: Framebuffer,
    fb2: Framebuffer,
)
    requires
        rays.len() == width * height,
        render_post(g, rays, width, height, fb1),
        render_post(g, rays, width, height, fb2),
    ensures
        fb1.spec_width() == fb2.spec_width(),
        fb1.spec_height() == fb2.spec_height(),
        fb1.contents() == fb2.contents(),
{
    assert(fb1.contents() =~= fb2.contents());
}

/// Law: a grid of nothing but air renders to a framebuffer that is entirely
/// the background color, whatever the ray plans and the resolution.
pub proof fn lemma_all_air_renders_background(
    g: VoxelGrid,
    rays: Seq<RayPlan>,
    width: int,
    height: int,
    fb: Framebuffer,
)
    requires
        g.all_air(),
        render_post(g, rays, width, height, fb),
    ensures
        forall|k: int| 0 <= k < rays.len() ==> #[trigger] fb.contents()[k] == background_color(),
{
    assert forall|k: int| 0 <= k < rays.len() implies #[trigger] fb.contents()[k]
        == background_color() by {
        crate::march::lemma_all_air_never_hits(g, rays[k].start(), rays[k].steps(), rays[k].choices@);
    }
}

} // verus!
