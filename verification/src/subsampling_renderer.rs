//! The adaptive renderer: it renders a sparse, deterministic selection of
//! pixels exactly, interpolates low-variance neighborhoods, and re-renders
//! exactly wherever the neighborhood disagrees too much.
use vstd::prelude::*;

verus! {

use crate::SCALE;
use crate::camera::Camera;
use crate::color::{Color, spec_colors_diff, spec_sum_r, spec_sum_g, spec_sum_b};
use crate::fx::tdiv;
use crate::renderer::{ray_for, Renderer, FOCAL_BOUND, RES_BOUND};
use crate::scene::{Scene, LIGHT_CAP};

/// One slot of the working image.
#[derive(Clone, Copy, Debug, PartialEq, Eq, Structural)]
pub enum Pixel {
    /// Classified for exact rendering.
    PixelToRender,
    /// A candidate for interpolation.
    PixelToInterpolate,
    /// Rendered exactly.
    RenderedPixel(Color),
    /// Filled with the average of its rendered neighbors.
    InterpolatedPixel(Color),
}

impl Pixel {
    /// The color a finished slot holds.
    pub fn get_color(&self) -> (c: Option<Color>)
        ensures
            match *self {
                Pixel::RenderedPixel(col) => c == Some(col),
                Pixel::InterpolatedPixel(col) => c == Some(col),
                _ => c is None,
            },
    {
        match self {
            Pixel::RenderedPixel(col) => Some(*col),
            Pixel::InterpolatedPixel(col) => Some(*col),
            _ => None,
        }
    }
}

/// A grid as a sequence of rows.
pub open spec fn view_grid(v: Vec<Vec<Pixel>>) -> Seq<Seq<Pixel>> {
    v@.map_values(|r: Vec<Pixel>| r@)
}

/// Every rendered slot of the grid holds exactly the color `c`.
pub open spec fn grid_rendered_eq(img: Seq<Seq<Pixel>>, c: Color) -> bool {
    forall|j: int, i: int|
        0 <= j < img.len() && 0 <= i < img[j].len() ==> ((#[trigger] img[j][i]) matches
            Pixel::RenderedPixel(col) ==> col == c)
}

/// The deterministic sparse selection pattern of each level: level one
/// selects every pixel, levels two to five one in that many, by a fixed
/// modulo rule over the pixel coordinates.
pub open spec fn spec_subsampled(n: int, x: int, y: int) -> bool {
    if n == 1 {
        true
    } else if n == 2 {
        (x + y) % 2 == 0
    } else if n == 3 {
        (x + y) % 3 == 0
    } else if n == 4 {
        (x + y * 2) % 4 == 0
    } else {
        (x + y * 2) % 5 == 0
    }
}

/// The rendered colors of one row segment, left to right.
pub open spec fn spec_row_neighbors(img: Seq<Seq<Pixel>>, y: int, x0: int, x1: int) -> Seq<Color>
    decreases x1 - x0,
{
    if x0 >= x1 {
        Seq::empty()
    } else {
        let rest = spec_row_neighbors(img, y, x0 + 1, x1);
        match img[y][x0] {
            Pixel::RenderedPixel(c) => seq![c] + rest,
            _ => rest,
        }
    }
}

/// The rendered colors of a rectangular block, row by row.
pub open spec fn spec_block_neighbors(
    img: Seq<Seq<Pixel>>,
    y0: int,
    y1: int,
    x0: int,
    x1: int,
) -> Seq<Color>
    decreases y1 - y0,
{
    if y0 >= y1 {
        Seq::empty()
    } else {
        spec_row_neighbors(img, y0, x0, x1) + spec_block_neighbors(img, y0 + 1, y1, x0, x1)
    }
}

/// Extending a row segment on the right appends that slot's color, if any.
proof fn lemma_row_neighbors_snoc(img: Seq<Seq<Pixel>>, y: int, x0: int, x1: int)
    requires
        x0 <= x1,
    ensures
        spec_row_neighbors(img, y, x0, x1 + 1) == spec_row_neighbors(img, y, x0, x1) + (
        match img[y][x1] {
            Pixel::RenderedPixel(c) => seq![c],
            _ => Seq::<Color>::empty(),
        }),
    decreases x1 - x0,
{
    let tailpiece: Seq<Color> = match img[y][x1] {
        Pixel::RenderedPixel(c) => seq![c],
        _ => Seq::<Color>::empty(),
    };
    if x0 == x1 {
        assert(spec_row_neighbors(img, y, x1 + 1, x1 + 1) =~= Seq::<Color>::empty());
        assert(spec_row_neighbors(img, y, x0, x1 + 1) =~= tailpiece);
        assert(spec_row_neighbors(img, y, x0, x1) =~= Seq::<Color>::empty());
        assert(spec_row_neighbors(img, y, x0, x1) + tailpiece =~= tailpiece);
    } else {
        lemma_row_neighbors_snoc(img, y, x0 + 1, x1);
        assert(spec_row_neighbors(img, y, x0, x1 + 1) =~= spec_row_neighbors(img, y, x0, x1)
            + tailpiece);
    }
}

/// Extending a block downward appends that row's colors.
proof fn lemma_block_neighbors_snoc(img: Seq<Seq<Pixel>>, y0: int, y1: int, x0: int, x1: int)
    requires
        y0 <= y1,
    ensures
        spec_block_neighbors(img, y0, y1 + 1, x0, x1) == spec_block_neighbors(
            img,
            y0,
            y1,
            x0,
            x1,
        ) + spec_row_neighbors(img, y1, x0, x1),
    decreases y1 - y0,
{
    if y0 == y1 {
        assert(spec_block_neighbors(img, y1 + 1, y1 + 1, x0, x1) =~= Seq::<Color>::empty());
        assert(spec_block_neighbors(img, y0, y1 + 1, x0, x1) =~= spec_row_neighbors(
            img,
            y1,
            x0,
            x1,
        ));
        assert(spec_block_neighbors(img, y0, y1, x0, x1) =~= Seq::<Color>::empty());
        assert(spec_block_neighbors(img, y0, y1, x0, x1) + spec_row_neighbors(img, y1, x0, x1)
            =~= spec_row_neighbors(img, y1, x0, x1));
    } else {
        lemma_block_neighbors_snoc(img, y0 + 1, y1, x0, x1);
        assert(spec_block_neighbors(img, y0, y1 + 1, x0, x1) =~= spec_block_neighbors(
            img,
            y0,
            y1,
            x0,
            x1,
        ) + spec_row_neighbors(img, y1, x0, x1));
    }
}

/// Whether the pattern of level `n` selects the pixel for exact rendering.
pub fn subsampling_func(subsample_number: i32, pixel: (usize, usize)) -> (b: bool)
    requires
        1 <= subsample_number <= 5,
        pixel.0 <= RES_BOUND,
        pixel.1 <= RES_BOUND,
    ensures
        b == spec_subsampled(subsample_number as int, pixel.0 as int, pixel.1 as int),
{
    let (x, y) = pixel;
    if subsample_number == 1 {
        true
    } else if subsample_number == 2 {
        (x + y) % 2 == 0
    } else if subsample_number == 3 {
        (x + y) % 3 == 0
    } else if subsample_number == 4 {
        (x + y * 2) % 4 == 0
    } else {
        (x + y * 2) % 5 == 0
    }
}

pub struct SubsamplingRenderer {
    pub scene: Scene,
    pub cam: Camera,
    /// The focal length, as in `Renderer`, against the supersampled height.
    pub focal: i128,
    pub resolution: (usize, usize),
    /// The neighborhood color spread above which a candidate is rendered
    /// exactly instead of interpolated.
    pub subsampling_limit: i128,
    pub supersampling_multiplier: usize,
}

impl SubsamplingRenderer {
    pub open spec fn wf(self) -> bool {
        &&& self.scene.wf()
        &&& self.cam.wf()
        &&& 0 < self.focal <= FOCAL_BOUND
        &&& 1 <= self.resolution.0
        &&& 1 <= self.resolution.1
        &&& 1 <= self.supersampling_multiplier
        &&& self.resolution.0 * self.supersampling_multiplier <= RES_BOUND
        &&& self.resolution.1 * self.supersampling_multiplier <= RES_BOUND
        &&& 0 <= self.subsampling_limit
    }

    /// The internal, supersampled resolution.
    pub open spec fn spec_resolution(self) -> (int, int) {
        (
            self.resolution.0 * self.supersampling_multiplier,
            self.resolution.1 * self.supersampling_multiplier,
        )
    }

    pub fn get_resolution(&self) -> (r: (usize, usize))
        requires
            self.wf(),
        ensures
            r.0 == self.spec_resolution().0,
            r.1 == self.spec_resolution().1,
            1 <= r.0 <= RES_BOUND,
            1 <= r.1 <= RES_BOUND,
    {
        proof {
            assert(1 <= self.resolution.0 * self.supersampling_multiplier) by (nonlinear_arith)
                requires
                    1 <= self.resolution.0,
                    1 <= self.supersampling_multiplier,
            ;
            assert(1 <= self.resolution.1 * self.supersampling_multiplier) by (nonlinear_arith)
                requires
                    1 <= self.resolution.1,
                    1 <= self.supersampling_multiplier,
            ;
        }
        (
            self.resolution.0 * self.supersampling_multiplier,
            self.resolution.1 * self.supersampling_multiplier,
        )
    }

    /// Whether a pixel lies on the image border; border pixels are always
    /// rendered exactly so every interior candidate has rendered neighbors.
    pub open spec fn spec_is_edge(self, x: int, y: int) -> bool {
        let (xs, ys) = self.spec_resolution();
        x == 0 || y == 0 || x == xs - 1 || y == ys - 1
    }

    pub fn is_edge(&self, pixel: (usize, usize)) -> (b: bool)
        requires
            self.wf(),
        ensures
            b == self.spec_is_edge(pixel.0 as int, pixel.1 as int),
    {
        let (xs, ys) = self.get_resolution();
        pixel.0 == 0 || pixel.1 == 0 || pixel.0 == xs - 1 || pixel.1 == ys - 1
    }

    /// The exact color of a supersampled pixel.
    pub open spec fn spec_s_pixel(self, x: int, y: int) -> Color {
        let (xs, ys) = self.spec_resolution();
        self.scene.spec_trace_ray(
            Renderer::spec_ray_for(self.cam, self.focal, xs, ys, x, y),
        )
    }

    /// Every supersampled pixel of the scene has the one color `c`.
    pub open spec fn spec_uniform(self, c: Color) -> bool {
        forall|x: int, y: int|
            0 <= x < self.spec_resolution().0 && 0 <= y < self.spec_resolution().1
                ==> #[trigger] self.spec_s_pixel(x, y) == c
    }

    /// A finished working image: correct dimensions, every slot holding a
    /// color, rendered slots exact.
    pub open spec fn image_done(self, img: Seq<Seq<Pixel>>) -> bool {
        let (xs, ys) = self.spec_resolution();
        &&& img.len() == ys
        &&& forall|y: int| 0 <= y < ys ==> (#[trigger] img[y]).len() == xs
        &&& forall|y: int, x: int|
            0 <= y < ys && 0 <= x < xs ==> match #[trigger] img[y][x] {
                Pixel::RenderedPixel(c) => c == self.spec_s_pixel(x, y),
                Pixel::InterpolatedPixel(_) => true,
                _ => false,
            }
    }

    /// Every colored slot of the image holds exactly `c`.
    pub open spec fn image_uniform(self, img: Seq<Seq<Pixel>>, c: Color) -> bool {
        let (xs, ys) = self.spec_resolution();
        forall|y: int, x: int|
            0 <= y < ys && 0 <= x < xs ==> match #[trigger] img[y][x] {
                Pixel::RenderedPixel(col) => col == c,
                Pixel::InterpolatedPixel(col) => col == c,
                _ => true,
            }
    }

    /// Classifies every pixel: all border pixels plus the pattern-selected
    /// ones are rendered exactly, the rest become candidates.
    pub fn create_image_template(&self, subsample_number: i32) -> (img: Vec<Vec<Pixel>>)
        requires
            self.wf(),
            1 <= subsample_number <= 5,
        ensures
            img@.len() == self.spec_resolution().1,
            forall|y: int|
                0 <= y < img@.len() ==> (#[trigger] img@[y])@.len() == self.spec_resolution().0,
            forall|y: int, x: int|
                0 <= y < img@.len() && 0 <= x < img@[y]@.len() ==> #[trigger] img@[y]@[x] == (
                if self.spec_is_edge(x, y) || spec_subsampled(subsample_number as int, x, y) {
                    Pixel::PixelToRender
                } else {
                    Pixel::PixelToInterpolate
                }),
    {
        let (xs, ys) = self.get_resolution();
        let mut img: Vec<Vec<Pixel>> = Vec::new();
        let mut y: usize = 0;
        while y < ys
            invariant
                self.wf(),
                1 <= subsample_number <= 5,
                xs == self.spec_resolution().0,
                ys == self.spec_resolution().1,
                0 <= y <= ys,
                img@.len() == y,
                forall|j: int|
                    0 <= j < img@.len() ==> (#[trigger] img@[j])@.len() == xs,
                forall|j: int, x: int|
                    0 <= j < img@.len() && 0 <= x < img@[j]@.len() ==> #[trigger] img@[j]@[x] == (
                    if self.spec_is_edge(x, j) || spec_subsampled(subsample_number as int, x, j) {
                        Pixel::PixelToRender
                    } else {
                        Pixel::PixelToInterpolate
                    }),
            decreases ys - y,
        {
            let mut row: Vec<Pixel> = Vec::new();
            let mut x: usize = 0;
            while x < xs
                invariant
                    self.wf(),
                    1 <= subsample_number <= 5,
                    xs == self.spec_resolution().0,
                    ys == self.spec_resolution().1,
                    0 <= y < ys,
                    0 <= x <= xs,
                    row@.len() == x,
                    forall|i: int|
                        0 <= i < row@.len() ==> #[trigger] row@[i] == (
                        if self.spec_is_edge(i, y as int) || spec_subsampled(
                            subsample_number as int,
                            i,
                            y as int,
                        ) {
                            Pixel::PixelToRender
                        } else {
                            Pixel::PixelToInterpolate
                        }),
                decreases xs - x,
            {
                if self.is_edge((x, y)) || subsampling_func(subsample_number, (x, y)) {
                    row.push(Pixel::PixelToRender);
                } else {
                    row.push(Pixel::PixelToInterpolate);
                }
                x += 1;
            }
            img.push(row);
            y += 1;
        }
        img
    }

    /// Renders every slot classified for exact rendering; the other slots
    /// pass through unchanged.
    pub fn render_pixels_to_render(&self, image: Vec<Vec<Pixel>>) -> (out: Vec<Vec<Pixel>>)
        requires
            self.wf(),
            image@.len() == self.spec_resolution().1,
            forall|y: int|
                0 <= y < image@.len() ==> (#[trigger] image@[y])@.len()
                    == self.spec_resolution().0,
            forall|y: int, x: int|
                0 <= y < image@.len() && 0 <= x < image@[y]@.len() ==> ((#[trigger] image@[y]@[x])
                    matches Pixel::RenderedPixel(col) ==> col.bounded(LIGHT_CAP as int)),
        ensures
            out@.len() == image@.len(),
            forall|y: int|
                0 <= y < out@.len() ==> (#[trigger] out@[y])@.len() == image@[y]@.len(),
            forall|y: int, x: int|
                0 <= y < out@.len() && 0 <= x < out@[y]@.len() ==> #[trigger] out@[y]@[x] == (
                if image@[y]@[x] is PixelToRender {
                    Pixel::RenderedPixel(self.spec_s_pixel(x, y))
                } else {
                    image@[y]@[x]
                }),
            forall|y: int, x: int|
                0 <= y < out@.len() && 0 <= x < out@[y]@.len() ==> ((#[trigger] out@[y]@[x])
                    matches Pixel::RenderedPixel(col) ==> col.bounded(LIGHT_CAP as int)),
    {
        let (xs, ys) = self.get_resolution();
        let mut out: Vec<Vec<Pixel>> = Vec::new();
        let mut y: usize = 0;
        while y < ys
            invariant
                self.wf(),
                xs == self.spec_resolution().0,
                ys == self.spec_resolution().1,
                image@.len() == ys,
                forall|j: int|
                    0 <= j < image@.len() ==> (#[trigger] image@[j])@.len() == xs,
                0 <= y <= ys,
                out@.len() == y,
                forall|j: int|
                    0 <= j < out@.len() ==> (#[trigger] out@[j])@.len() == xs,
                forall|j: int, x: int|
                    0 <= j < out@.len() && 0 <= x < out@[j]@.len() ==> #[trigger] out@[j]@[x] == (
                    if image@[j]@[x] is PixelToRender {
                        Pixel::RenderedPixel(self.spec_s_pixel(x, j))
                    } else {
                        image@[j]@[x]
                    }),
                forall|j: int, x: int|
                    0 <= j < image@.len() && 0 <= x < image@[j]@.len() ==> ((
                    #[trigger] image@[j]@[x]) matches Pixel::RenderedPixel(col) ==> col.bounded(
                        LIGHT_CAP as int,
                    )),
                forall|j: int, x: int|
                    0 <= j < out@.len() && 0 <= x < out@[j]@.len() ==> ((#[trigger] out@[j]@[x])
                        matches Pixel::RenderedPixel(col) ==> col.bounded(LIGHT_CAP as int)),
            decreases ys - y,
        {
            let mut row: Vec<Pixel> = Vec::new();
            let mut x: usize = 0;
            while x < xs
                invariant
                    self.wf(),
                    xs == self.spec_resolution().0,
                    ys == self.spec_resolution().1,
                    image@.len() == ys,
                    forall|j: int|
                        0 <= j < image@.len() ==> (#[trigger] image@[j])@.len() == xs,
                    0 <= y < ys,
                    0 <= x <= xs,
                    row@.len() == x,
                    forall|i: int|
                        0 <= i < row@.len() ==> #[trigger] row@[i] == (
                        if image@[y as int]@[i] is PixelToRender {
                            Pixel::RenderedPixel(self.spec_s_pixel(i, y as int))
                        } else {
                            image@[y as int]@[i]
                        }),
                    forall|j: int, x2: int|
                        0 <= j < image@.len() && 0 <= x2 < image@[j]@.len() ==> ((
                        #[trigger] image@[j]@[x2]) matches Pixel::RenderedPixel(col)
                            ==> col.bounded(LIGHT_CAP as int)),
                    forall|i: int|
                        0 <= i < row@.len() ==> ((#[trigger] row@[i]) matches
                            Pixel::RenderedPixel(col) ==> col.bounded(LIGHT_CAP as int)),
                decreases xs - x,
            {
                let cell = image[y][x];
                match cell {
                    Pixel::PixelToRender => {
                        let r = ray_for(&self.cam, self.focal, xs, ys, x, y);
                        row.push(Pixel::RenderedPixel(self.scene.trace_ray(r)));
                    },
                    _ => {
                        row.push(cell);
                    },
                }
                x += 1;
            }
            out.push(row);
            y += 1;
        }
        out
    }

    /// The up-to-nine already-rendered colors in the three-by-three block
    /// around an interior pixel.
    #[verifier::loop_isolation(false)]
    pub fn collect_neighbors(x: usize, y: usize, image: &Vec<Vec<Pixel>>) -> (out: Vec<Color>)
        requires
            1 <= x,
            1 <= y,
            y + 1 < image@.len(),
            forall|j: int| 0 <= j < image@.len() ==> x + 1 < (#[trigger] image@[j])@.len(),
            forall|j: int, i: int|
                0 <= j < image@.len() && 0 <= i < image@[j]@.len() ==> ((#[trigger] image@[j]@[i])
                    matches Pixel::RenderedPixel(col) ==> col.bounded(LIGHT_CAP as int)),
        ensures
            out@ == spec_block_neighbors(
                view_grid(*image),
                y - 1,
                y + 2,
                x - 1,
                x + 2,
            ),
            forall|c: Color|
                #[trigger] grid_rendered_eq(view_grid(*image), c) ==> forall|k: int|
                    0 <= k < out@.len() ==> #[trigger] out@[k] == c,
            forall|xi: int, yi: int|
                x - 1 <= xi <= x + 1 && y - 1 <= yi <= y + 1 && (#[trigger] image@[yi]@[xi])
                    is RenderedPixel ==> out@.len() > 0,
            forall|k: int| 0 <= k < out@.len() ==> (#[trigger] out@[k]).bounded(LIGHT_CAP as int),
    {
        let n = image.len();
        assert(y + 1 < n);
        let rl = image[y].len();
        assert(x + 1 < rl);
        let mut out: Vec<Color> = Vec::new();
        proof {
            assert(out@ =~= spec_block_neighbors(
                view_grid(*image),
                y - 1,
                y - 1,
                x - 1,
                x + 2,
            ));
        }
        let mut yi: usize = y - 1;
        while yi <= y + 1
            invariant
                1 <= x,
                1 <= y,
                y + 1 < image@.len(),
                forall|j: int| 0 <= j < image@.len() ==> x + 1 < (#[trigger] image@[j])@.len(),
                forall|j: int, i: int|
                    0 <= j < image@.len() && 0 <= i < image@[j]@.len() ==> ((#[trigger] image@[
                        j
                    ]@[i]) matches Pixel::RenderedPixel(col) ==> col.bounded(LIGHT_CAP as int)),
                y - 1 <= yi <= y + 2,
                out@ == spec_block_neighbors(view_grid(*image), y - 1, yi as int, x - 1, x + 2),
                forall|c: Color|
                    #[trigger] grid_rendered_eq(view_grid(*image), c) ==> forall|k: int|
                        0 <= k < out@.len() ==> #[trigger] out@[k] == c,
                forall|xi2: int, yi2: int|
                    x - 1 <= xi2 <= x + 1 && y - 1 <= yi2 < yi && (#[trigger] image@[yi2]@[xi2])
                        is RenderedPixel ==> out@.len() > 0,
                forall|k: int|
                    0 <= k < out@.len() ==> (#[trigger] out@[k]).bounded(LIGHT_CAP as int),
            decreases y + 2 - yi,
        {
            let mut xi: usize = x - 1;
            while xi <= x + 1
                invariant
                    1 <= x,
                    1 <= y,
                    y + 1 < image@.len(),
                    forall|j: int|
                        0 <= j < image@.len() ==> x + 1 < (#[trigger] image@[j])@.len(),
                    forall|j: int, i: int|
                        0 <= j < image@.len() && 0 <= i < image@[j]@.len() ==> ((
                        #[trigger] image@[j]@[i]) matches Pixel::RenderedPixel(col)
                            ==> col.bounded(LIGHT_CAP as int)),
                    y - 1 <= yi <= y + 1,
                    x - 1 <= xi <= x + 2,
                    out@ == spec_block_neighbors(view_grid(*image), y - 1, yi as int, x - 1, x + 2)
                        + spec_row_neighbors(view_grid(*image), yi as int, x - 1, xi as int),
                    forall|c: Color|
                        #[trigger] grid_rendered_eq(view_grid(*image), c) ==> forall|k: int|
                            0 <= k < out@.len() ==> #[trigger] out@[k] == c,
                    forall|xi2: int, yi2: int|
                        x - 1 <= xi2 <= x + 1 && y - 1 <= yi2 < yi && (#[trigger] image@[yi2]@[
                            xi2
                        ]) is RenderedPixel ==> out@.len() > 0,
                    forall|xi2: int|
                        x - 1 <= xi2 < xi && (#[trigger] image@[yi as int]@[xi2])
                            is RenderedPixel ==> out@.len() > 0,
                    forall|k: int|
                        0 <= k < out@.len() ==> (#[trigger] out@[k]).bounded(LIGHT_CAP as int),
                decreases x + 2 - xi,
            {
                let ghost vg = view_grid(*image);
                let ghost old_out = out@;
                match image[yi][xi] {
                    Pixel::RenderedPixel(col) => {
                        out.push(col);
                        proof {
                            assert forall|c: Color|
                                #[trigger] grid_rendered_eq(view_grid(*image), c) implies forall|
                                k: int,
                            |
                                0 <= k < out@.len() ==> #[trigger] out@[k] == c by {
                                assert(view_grid(*image)[yi as int][xi as int]
                                    == Pixel::RenderedPixel(col));
                            }
                        }
                    },
                    _ => {},
                }
                proof {
                    assert(vg[yi as int][xi as int] == image@[yi as int]@[xi as int]);
                    lemma_row_neighbors_snoc(vg, yi as int, x - 1, xi as int);
                    match image@[yi as int]@[xi as int] {
                        Pixel::RenderedPixel(col) => {
                            assert(out@ =~= old_out + seq![col]);
                            assert(out@ =~= spec_block_neighbors(vg, y - 1, yi as int, x - 1, x
                                + 2) + spec_row_neighbors(vg, yi as int, x - 1, xi + 1));
                        },
                        _ => {
                            assert(out@ =~= spec_block_neighbors(vg, y - 1, yi as int, x - 1, x
                                + 2) + spec_row_neighbors(vg, yi as int, x - 1, xi + 1));
                        },
                    }
                }
                xi += 1;
            }
            proof {
                let vg = view_grid(*image);
                lemma_block_neighbors_snoc(vg, y - 1, yi as int, x - 1, x + 2);
                assert(out@ =~= spec_block_neighbors(vg, y - 1, yi + 1, x - 1, x + 2));
            }
            yi += 1;
        }
        out
    }

    /// What the interpolation pass decides for a candidate at `(x, y)`:
    /// escalate where the rendered neighborhood is absent or spreads beyond
    /// the tolerance, otherwise fill with the neighborhood average.
    pub open spec fn spec_interpolate_decision(self, img: Seq<Seq<Pixel>>, x: int, y: int) -> Pixel {
        let nb = spec_block_neighbors(img, y - 1, y + 2, x - 1, x + 2);
        if nb.len() == 0 {
            Pixel::PixelToRender
        } else if spec_colors_diff(nb) > self.subsampling_limit {
            Pixel::PixelToRender
        } else {
            Pixel::InterpolatedPixel(
                (Color {
                    r: tdiv(spec_sum_r(nb), nb.len() as int) as i128,
                    g: tdiv(spec_sum_g(nb), nb.len() as int) as i128,
                    b: tdiv(spec_sum_b(nb), nb.len() as int) as i128,
                }),
            )
        }
    }

    /// Decides one interpolation candidate: escalate to exact rendering
    /// where the rendered neighborhood is absent or disagrees beyond the
    /// tolerance, otherwise fill with the neighborhood average.
    pub fn interpolate_pixel(&self, x: usize, y: usize, image: &Vec<Vec<Pixel>>) -> (res: Pixel)
        requires
            self.wf(),
            1 <= x,
            1 <= y,
            y + 1 < image@.len(),
            forall|j: int| 0 <= j < image@.len() ==> x + 1 < (#[trigger] image@[j])@.len(),
            forall|j: int, i: int|
                0 <= j < image@.len() && 0 <= i < image@[j]@.len() ==> ((#[trigger] image@[j]@[i])
                    matches Pixel::RenderedPixel(col) ==> col.bounded(LIGHT_CAP as int)),
        ensures
            res == self.spec_interpolate_decision(view_grid(*image), x as int, y as int),
            res is PixelToRender || res is InterpolatedPixel,
            res matches Pixel::InterpolatedPixel(c) ==> c.bounded(LIGHT_CAP as int),
            forall|c: Color|
                #[trigger] grid_rendered_eq(view_grid(*image), c) ==> (res is PixelToRender
                    || res == Pixel::InterpolatedPixel(c)),
    {
        let colors = Self::collect_neighbors(x, y, image);
        if colors.len() == 0 {
            return Pixel::PixelToRender;
        }
        let d = Color::colors_diff(&colors);
        if d > self.subsampling_limit {
            Pixel::PixelToRender
        } else {
            let avg = Color::colors_avg(&colors);
            proof {
                lemma_avg_bound(colors@, LIGHT_CAP as int);
            }
            let res = Pixel::InterpolatedPixel(avg);
            proof {
                assert forall|c: Color|
                    #[trigger] grid_rendered_eq(view_grid(*image), c) implies (res
                    is PixelToRender || res == Pixel::InterpolatedPixel(c)) by {
                    assert(forall|k: int|
                        0 <= k < colors@.len() ==> #[trigger] colors@[k] == c);
                    lemma_const_sum(colors@, c);
                    let n = colors@.len() as int;
                    assert(tdiv(n * c.r, n) == c.r && tdiv(n * c.g, n) == c.g && tdiv(
                        n * c.b,
                        n,
                    ) == c.b) by (nonlinear_arith)
                        requires
                            n > 0,
                    ;
                }
            }
            res
        }
    }

    /// One interpolation pass: every interior candidate is decided, and
    /// everything else, rendered slots in particular, passes through
    /// unchanged.
    pub fn interpolate_image(&self, image: Vec<Vec<Pixel>>) -> (out: Vec<Vec<Pixel>>)
        requires
            self.wf(),
            image@.len() == self.spec_resolution().1,
            forall|j: int|
                0 <= j < image@.len() ==> (#[trigger] image@[j])@.len()
                    == self.spec_resolution().0,
            forall|j: int, i: int|
                0 <= j < image@.len() && 0 <= i < image@[j]@.len() ==> !((#[trigger] image@[j]@[i])
                    is InterpolatedPixel),
            forall|j: int, i: int|
                0 <= j < image@.len() && 0 <= i < image@[j]@.len() ==> ((#[trigger] image@[j]@[i])
                    matches Pixel::RenderedPixel(col) ==> col.bounded(LIGHT_CAP as int)),
        ensures
            out@.len() == image@.len(),
            forall|j: int|
                0 <= j < out@.len() ==> (#[trigger] out@[j])@.len() == image@[j]@.len(),
            forall|j: int, i: int|
                0 <= j < out@.len() && 0 <= i < out@[j]@.len() && !(image@[j]@[i]
                    is PixelToInterpolate) ==> #[trigger] out@[j]@[i] == image@[j]@[i],
            forall|j: int, i: int|
                0 <= j < out@.len() && 0 <= i < out@[j]@.len() && image@[j]@[i]
                    is PixelToInterpolate && 1 <= i && i + 1 < self.spec_resolution().0 && 1 <= j
                    && j + 1 < self.spec_resolution().1 ==> ((#[trigger] out@[j]@[i])
                    is PixelToRender || out@[j]@[i] is InterpolatedPixel),
            forall|j: int, i: int|
                0 <= j < out@.len() && 0 <= i < out@[j]@.len() && image@[j]@[i]
                    is PixelToInterpolate && 1 <= i && i + 1 < self.spec_resolution().0 && 1 <= j
                    && j + 1 < self.spec_resolution().1 ==> #[trigger] out@[j]@[i]
                    == self.spec_interpolate_decision(view_grid(image), i, j),
            forall|j: int, i: int|
                0 <= j < out@.len() && 0 <= i < out@[j]@.len() && image@[j]@[i]
                    is PixelToInterpolate && !(1 <= i && i + 1 < self.spec_resolution().0 && 1 <= j
                    && j + 1 < self.spec_resolution().1) ==> #[trigger] out@[j]@[i] == image@[j]@[
                    i
                ],
            forall|j: int, i: int|
                0 <= j < out@.len() && 0 <= i < out@[j]@.len() ==> ((#[trigger] out@[j]@[i])
                    matches Pixel::InterpolatedPixel(col) ==> col.bounded(LIGHT_CAP as int)),
            forall|c: Color|
                #[trigger] grid_rendered_eq(view_grid(image), c) ==> forall|j: int, i: int|
                    0 <= j < out@.len() && 0 <= i < out@[j]@.len() ==> ((#[trigger] out@[j]@[i])
                        matches Pixel::InterpolatedPixel(col) ==> col == c),
    {
        let ys = image.len();
        let mut out: Vec<Vec<Pixel>> = Vec::new();
        let mut y: usize = 0;
        while y < ys
            invariant
                self.wf(),
                ys == image@.len(),
                image@.len() == self.spec_resolution().1,
                forall|j: int|
                    0 <= j < image@.len() ==> (#[trigger] image@[j])@.len()
                        == self.spec_resolution().0,
                forall|j: int, i: int|
                    0 <= j < image@.len() && 0 <= i < image@[j]@.len() ==> !((
                    #[trigger] image@[j]@[i]) is InterpolatedPixel),
                forall|j: int, i: int|
                    0 <= j < image@.len() && 0 <= i < image@[j]@.len() ==> ((
                    #[trigger] image@[j]@[i]) matches Pixel::RenderedPixel(col)
                        ==> col.bounded(LIGHT_CAP as int)),
                0 <= y <= ys,
                out@.len() == y,
                forall|j: int|
                    0 <= j < out@.len() ==> (#[trigger] out@[j])@.len() == image@[j]@.len(),
                forall|j: int, i: int|
                    0 <= j < out@.len() && 0 <= i < out@[j]@.len() && !(image@[j]@[i]
                        is PixelToInterpolate) ==> #[trigger] out@[j]@[i] == image@[j]@[i],
                forall|j: int, i: int|
                    0 <= j < out@.len() && 0 <= i < out@[j]@.len() && image@[j]@[i]
                        is PixelToInterpolate && 1 <= i && i + 1 < self.spec_resolution().0 && 1
                        <= j && j + 1 < self.spec_resolution().1 ==> ((#[trigger] out@[j]@[i])
                        is PixelToRender || out@[j]@[i] is InterpolatedPixel),
                forall|j: int, i: int|
                    0 <= j < out@.len() && 0 <= i < out@[j]@.len() && image@[j]@[i]
                        is PixelToInterpolate && 1 <= i && i + 1 < self.spec_resolution().0 && 1
                        <= j && j + 1 < self.spec_resolution().1 ==> #[trigger] out@[j]@[i]
                        == self.spec_interpolate_decision(view_grid(image), i, j),
                forall|j: int, i: int|
                    0 <= j < out@.len() && 0 <= i < out@[j]@.len() && image@[j]@[i]
                        is PixelToInterpolate && !(1 <= i && i + 1 < self.spec_resolution().0 && 1
                        <= j && j + 1 < self.spec_resolution().1) ==> #[trigger] out@[j]@[i]
                        == image@[j]@[i],
                forall|j: int, i: int|
                    0 <= j < out@.len() && 0 <= i < out@[j]@.len() ==> ((#[trigger] out@[j]@[i])
                        matches Pixel::InterpolatedPixel(col) ==> col.bounded(LIGHT_CAP as int)),
                forall|c: Color|
                    #[trigger] grid_rendered_eq(view_grid(image), c) ==> forall|j: int, i: int|
                        0 <= j < out@.len() && 0 <= i < out@[j]@.len() ==> ((#[trigger] out@[j]@[
                            i
                        ]) matches Pixel::InterpolatedPixel(col) ==> col == c),
            decreases ys - y,
        {
            let row_len = image[y].len();
            let mut row: Vec<Pixel> = Vec::new();
            let mut x: usize = 0;
            while x < row_len
                invariant
                    self.wf(),
                    ys == image@.len(),
                    image@.len() == self.spec_resolution().1,
                    forall|j: int|
                        0 <= j < image@.len() ==> (#[trigger] image@[j])@.len()
                            == self.spec_resolution().0,
                    forall|j: int, i: int|
                        0 <= j < image@.len() && 0 <= i < image@[j]@.len() ==> !((
                        #[trigger] image@[j]@[i]) is InterpolatedPixel),
                    forall|j: int, i: int|
                        0 <= j < image@.len() && 0 <= i < image@[j]@.len() ==> ((
                        #[trigger] image@[j]@[i]) matches Pixel::RenderedPixel(col)
                            ==> col.bounded(LIGHT_CAP as int)),
                    0 <= y < ys,
                    row_len == image@[y as int]@.len(),
                    0 <= x <= row_len,
                    row@.len() == x,
                    forall|i: int|
                        0 <= i < row@.len() && !(image@[y as int]@[i] is PixelToInterpolate)
                            ==> #[trigger] row@[i] == image@[y as int]@[i],
                    forall|i: int|
                        0 <= i < row@.len() && image@[y as int]@[i] is PixelToInterpolate && 1 <= i
                            && i + 1 < self.spec_resolution().0 && 1 <= y as int && y as int + 1
                            < self.spec_resolution().1 ==> ((#[trigger] row@[i]) is PixelToRender
                            || row@[i] is InterpolatedPixel),
                    forall|i: int|
                        0 <= i < row@.len() && image@[y as int]@[i] is PixelToInterpolate && 1 <= i
                            && i + 1 < self.spec_resolution().0 && 1 <= y as int && y as int + 1
                            < self.spec_resolution().1 ==> #[trigger] row@[i]
                            == self.spec_interpolate_decision(view_grid(image), i, y as int),
                    forall|i: int|
                        0 <= i < row@.len() && image@[y as int]@[i] is PixelToInterpolate && !(1
                            <= i && i + 1 < self.spec_resolution().0 && 1 <= y as int && y as int
                            + 1 < self.spec_resolution().1) ==> #[trigger] row@[i] == image@[
                            y as int
                        ]@[i],
                    forall|i: int|
                        0 <= i < row@.len() ==> ((#[trigger] row@[i]) matches
                            Pixel::InterpolatedPixel(col) ==> col.bounded(LIGHT_CAP as int)),
                    forall|c: Color|
                        #[trigger] grid_rendered_eq(view_grid(image), c) ==> forall|i: int|
                            0 <= i < row@.len() ==> ((#[trigger] row@[i]) matches
                                Pixel::InterpolatedPixel(col) ==> col == c),
                decreases row_len - x,
            {
                let cell = image[y][x];
                let interior = 1 <= x && x + 1 < row_len && 1 <= y && y + 1 < ys;
                match cell {
                    Pixel::PixelToInterpolate => {
                        if interior {
                            row.push(self.interpolate_pixel(x, y, &image));
                        } else {
                            row.push(cell);
                        }
                    },
                    _ => {
                        row.push(cell);
                    },
                }
                x += 1;
            }
            out.push(row);
            y += 1;
        }
        out
    }

    /// What the first stage leaves in a slot: the exact color where the
    /// border or the pattern selects the pixel, else the candidate mark.
    pub open spec fn spec_stage_one(self, n: int, x: int, y: int) -> Pixel {
        if self.spec_is_edge(x, y) || spec_subsampled(n, x, y) {
            Pixel::RenderedPixel(self.spec_s_pixel(x, y))
        } else {
            Pixel::PixelToInterpolate
        }
    }

    /// The whole first-stage grid.
    pub open spec fn spec_stage_one_grid(self, n: int) -> Seq<Seq<Pixel>> {
        Seq::new(
            self.spec_resolution().1 as nat,
            |y: int| Seq::new(self.spec_resolution().0 as nat, |x: int| self.spec_stage_one(n, x, y)),
        )
    }

    /// The three-stage adaptive render: classify and render the selection,
    /// interpolate or escalate every candidate, then render the escalated
    /// pixels. Every slot of the result holds a color; rendered slots hold
    /// the exact pixel color; and on a scene whose pixels all share one
    /// color, every slot holds exactly that color, whatever the pattern
    /// level — sparse levels reproduce the full exact render.
    pub fn render(&self, subsample_number: i32) -> (out: Vec<Vec<Pixel>>)
        requires
            self.wf(),
            1 <= subsample_number <= 5,
        ensures
            out@.len() == self.spec_resolution().1,
            forall|j: int|
                0 <= j < out@.len() ==> (#[trigger] out@[j])@.len() == self.spec_resolution().0,
            forall|j: int, i: int|
                0 <= j < out@.len() && 0 <= i < out@[j]@.len() ==> match #[trigger] out@[j]@[i] {
                    Pixel::RenderedPixel(col) => col == self.spec_s_pixel(i, j) && col.bounded(
                        LIGHT_CAP as int,
                    ),
                    Pixel::InterpolatedPixel(col) => col.bounded(LIGHT_CAP as int),
                    _ => false,
                },
            forall|j: int, i: int|
                0 <= j < out@.len() && 0 <= i < out@[j]@.len() && (#[trigger] out@[j]@[i])
                    is InterpolatedPixel ==> out@[j]@[i] == self.spec_interpolate_decision(
                    self.spec_stage_one_grid(subsample_number as int),
                    i,
                    j,
                ),
            forall|c: Color|
                #[trigger] self.spec_uniform(c) ==> forall|j: int, i: int|
                    0 <= j < out@.len() && 0 <= i < out@[j]@.len() ==> (#[trigger] out@[j]@[i]
                        == Pixel::RenderedPixel(c) || out@[j]@[i] == Pixel::InterpolatedPixel(c)),
    {
        let template = self.create_image_template(subsample_number);
        let s1 = self.render_pixels_to_render(template);
        let s2 = self.interpolate_image(s1);
        let s3 = self.render_pixels_to_render(s2);
        proof {
            let (xs, ys) = self.spec_resolution();
            assert(view_grid(s1) =~~= self.spec_stage_one_grid(subsample_number as int));
            assert forall|j: int, i: int|
                0 <= j < s3@.len() && 0 <= i < s3@[j]@.len() && (#[trigger] s3@[j]@[i])
                    is InterpolatedPixel implies s3@[j]@[i] == self.spec_interpolate_decision(
                self.spec_stage_one_grid(subsample_number as int),
                i,
                j,
            ) by {
                assert(s2@[j]@.len() == xs);
                assert(s2@[j]@[i] == s3@[j]@[i]);
                assert(s1@[j]@[i] is PixelToInterpolate);
                assert(!self.spec_is_edge(i, j));
            }
            assert forall|j: int, i: int|
                0 <= j < s3@.len() && 0 <= i < s3@[j]@.len() implies match #[trigger] s3@[j]@[i] {
                Pixel::RenderedPixel(col) => col == self.spec_s_pixel(i, j) && col.bounded(
                    LIGHT_CAP as int,
                ),
                Pixel::InterpolatedPixel(col) => col.bounded(LIGHT_CAP as int),
                _ => false,
            } by {
                assert(s2@[j]@.len() == xs);
                if s2@[j]@[i] is PixelToInterpolate {
                    assert(s1@[j]@[i] is PixelToInterpolate);
                    assert(!self.spec_is_edge(i, j));
                    assert(false);
                }
            }
            assert forall|c: Color| #[trigger] self.spec_uniform(c) implies forall|j: int, i: int|
                0 <= j < s3@.len() && 0 <= i < s3@[j]@.len() ==> (#[trigger] s3@[j]@[i]
                    == Pixel::RenderedPixel(c) || s3@[j]@[i] == Pixel::InterpolatedPixel(c)) by {
                assert(grid_rendered_eq(view_grid(s1), c)) by {
                    assert forall|j: int, i: int|
                        0 <= j < view_grid(s1).len() && 0 <= i < view_grid(s1)[j].len() implies ((
                        #[trigger] view_grid(s1)[j][i]) matches Pixel::RenderedPixel(col) ==> col
                            == c) by {
                        assert(view_grid(s1)[j][i] == s1@[j]@[i]);
                    }
                }
                assert forall|j: int, i: int|
                    0 <= j < s3@.len() && 0 <= i < s3@[j]@.len() implies (#[trigger] s3@[j]@[i]
                    == Pixel::RenderedPixel(c) || s3@[j]@[i] == Pixel::InterpolatedPixel(c)) by {
                    assert(s2@[j]@.len() == xs);
                    if s2@[j]@[i] is PixelToInterpolate {
                        assert(false);
                    }
                }
            }
        }
        s3
    }

    /// The finished image at the output resolution: each output pixel is
    /// the average of its supersampling block. On a scene whose pixels all
    /// share one color, every output pixel is exactly that color, whatever
    /// the pattern level.
    pub fn render_image(&self, subsample_number: i32) -> (out: Vec<Vec<Color>>)
        requires
            self.wf(),
            1 <= subsample_number <= 5,
        ensures
            out@.len() == self.resolution.1,
            forall|j: int|
                0 <= j < out@.len() ==> (#[trigger] out@[j])@.len() == self.resolution.0,
            forall|c: Color|
                #[trigger] self.spec_uniform(c) ==> forall|j: int, i: int|
                    0 <= j < out@.len() && 0 <= i < out@[j]@.len() ==> #[trigger] out@[j]@[i]
                        == c,
    {
        let img = self.render(subsample_number);
        let (res_x, res_y) = self.resolution;
        let m = self.supersampling_multiplier;
        let mut out: Vec<Vec<Color>> = Vec::new();
        let mut y: usize = 0;
        while y < res_y
            invariant
                self.wf(),
                res_x == self.resolution.0,
                res_y == self.resolution.1,
                m == self.supersampling_multiplier,
                img@.len() == self.spec_resolution().1,
                forall|j: int|
                    0 <= j < img@.len() ==> (#[trigger] img@[j])@.len()
                        == self.spec_resolution().0,
                forall|j: int, i: int|
                    0 <= j < img@.len() && 0 <= i < img@[j]@.len() ==> match #[trigger] img@[j]@[
                        i
                    ] {
                        Pixel::RenderedPixel(col) => col.bounded(LIGHT_CAP as int),
                        Pixel::InterpolatedPixel(col) => col.bounded(LIGHT_CAP as int),
                        _ => false,
                    },
                forall|c: Color|
                    #[trigger] self.spec_uniform(c) ==> forall|j: int, i: int|
                        0 <= j < img@.len() && 0 <= i < img@[j]@.len() ==> (#[trigger] img@[j]@[i]
                            == Pixel::RenderedPixel(c) || img@[j]@[i] == Pixel::InterpolatedPixel(
                            c,
                        )),
                0 <= y <= res_y,
                out@.len() == y,
                forall|j: int|
                    0 <= j < out@.len() ==> (#[trigger] out@[j])@.len() == self.resolution.0,
                forall|c: Color|
                    #[trigger] self.spec_uniform(c) ==> forall|j: int, i: int|
                        0 <= j < out@.len() && 0 <= i < out@[j]@.len() ==> #[trigger] out@[j]@[i]
                            == c,
            decreases res_y - y,
        {
            let mut row: Vec<Color> = Vec::new();
            let mut x: usize = 0;
            while x < res_x
                invariant
                    self.wf(),
                    res_x == self.resolution.0,
                    res_y == self.resolution.1,
                    m == self.supersampling_multiplier,
                    img@.len() == self.spec_resolution().1,
                    forall|j: int|
                        0 <= j < img@.len() ==> (#[trigger] img@[j])@.len()
                            == self.spec_resolution().0,
                    forall|j: int, i: int|
                        0 <= j < img@.len() && 0 <= i < img@[j]@.len() ==> match #[trigger] img@[
                            j
                        ]@[i] {
                            Pixel::RenderedPixel(col) => col.bounded(LIGHT_CAP as int),
                            Pixel::InterpolatedPixel(col) => col.bounded(LIGHT_CAP as int),
                            _ => false,
                        },
                    forall|c: Color|
                        #[trigger] self.spec_uniform(c) ==> forall|j: int, i: int|
                            0 <= j < img@.len() && 0 <= i < img@[j]@.len() ==> (#[trigger] img@[
                                j
                            ]@[i] == Pixel::RenderedPixel(c) || img@[j]@[i]
                                == Pixel::InterpolatedPixel(c)),
                    0 <= y < res_y,
                    0 <= x <= res_x,
                    row@.len() == x,
                    forall|c: Color|
                        #[trigger] self.spec_uniform(c) ==> forall|i: int|
                            0 <= i < row@.len() ==> #[trigger] row@[i] == c,
                decreases res_x - x,
            {
                let mut colors: Vec<Color> = Vec::new();
                proof {
                    lemma_block_range(y as int, res_y as int, m as int);
                    lemma_block_range(x as int, res_x as int, m as int);
                    assert((y + 1) * m <= res_y * m && (x + 1) * m <= res_x * m)
                        by (nonlinear_arith)
                        requires
                            0 <= y < res_y,
                            0 <= x < res_x,
                            1 <= m,
                    ;
                }
                let mut yi: usize = y * m;
                while yi < (y + 1) * m
                    invariant
                        self.wf(),
                        res_x == self.resolution.0,
                        res_y == self.resolution.1,
                        m == self.supersampling_multiplier,
                        img@.len() == self.spec_resolution().1,
                        forall|j: int|
                            0 <= j < img@.len() ==> (#[trigger] img@[j])@.len()
                                == self.spec_resolution().0,
                        forall|j: int, i: int|
                            0 <= j < img@.len() && 0 <= i < img@[j]@.len() ==> match #[trigger] img@[
                                j
                            ]@[i] {
                                Pixel::RenderedPixel(col) => col.bounded(LIGHT_CAP as int),
                                Pixel::InterpolatedPixel(col) => col.bounded(LIGHT_CAP as int),
                                _ => false,
                            },
                        forall|c: Color|
                            #[trigger] self.spec_uniform(c) ==> forall|j: int, i: int|
                                0 <= j < img@.len() && 0 <= i < img@[j]@.len() ==> (
                                #[trigger] img@[j]@[i] == Pixel::RenderedPixel(c) || img@[j]@[i]
                                    == Pixel::InterpolatedPixel(c)),
                        0 <= y < res_y,
                        0 <= x < res_x,
                        y * m <= yi <= (y + 1) * m,
                        (y + 1) * m <= img@.len(),
                        (y + 1) * m <= 4096,
                        (x + 1) * m <= self.spec_resolution().0,
                        (x + 1) * m <= 4096,
                        colors@.len() == (yi - y * m) * m,
                        forall|k: int|
                            0 <= k < colors@.len() ==> (#[trigger] colors@[k]).bounded(
                                LIGHT_CAP as int,
                            ),
                        forall|c: Color|
                            #[trigger] self.spec_uniform(c) ==> forall|k: int|
                                0 <= k < colors@.len() ==> #[trigger] colors@[k] == c,
                    decreases (y + 1) * m - yi,
                {
                    proof {
                        assert(x * m <= (x + 1) * m && y * m <= (y + 1) * m) by (nonlinear_arith)
                            requires
                                0 <= x,
                                0 <= y,
                                1 <= m,
                        ;
                    }
                    let mut xi: usize = x * m;
                    while xi < (x + 1) * m
                        invariant
                            self.wf(),
                            res_x == self.resolution.0,
                            res_y == self.resolution.1,
                            m == self.supersampling_multiplier,
                            img@.len() == self.spec_resolution().1,
                            forall|j: int|
                                0 <= j < img@.len() ==> (#[trigger] img@[j])@.len()
                                    == self.spec_resolution().0,
                            forall|j: int, i: int|
                                0 <= j < img@.len() && 0 <= i < img@[j]@.len() ==> match #[trigger] img@[
                                    j
                                ]@[i] {
                                    Pixel::RenderedPixel(col) => col.bounded(LIGHT_CAP as int),
                                    Pixel::InterpolatedPixel(col) => col.bounded(
                                        LIGHT_CAP as int,
                                    ),
                                    _ => false,
                                },
                            forall|c: Color|
                                #[trigger] self.spec_uniform(c) ==> forall|j: int, i: int|
                                    0 <= j < img@.len() && 0 <= i < img@[j]@.len() ==> (
                                    #[trigger] img@[j]@[i] == Pixel::RenderedPixel(c) || img@[
                                        j
                                    ]@[i] == Pixel::InterpolatedPixel(c)),
                            0 <= y < res_y,
                            0 <= x < res_x,
                            y * m <= yi < (y + 1) * m,
                            (y + 1) * m <= img@.len(),
                            (y + 1) * m <= 4096,
                            x * m <= xi <= (x + 1) * m,
                            (x + 1) * m <= self.spec_resolution().0,
                            (x + 1) * m <= 4096,
                            colors@.len() == (yi - y * m) * m + (xi - x * m),
                            forall|k: int|
                                0 <= k < colors@.len() ==> (#[trigger] colors@[k]).bounded(
                                    LIGHT_CAP as int,
                                ),
                            forall|c: Color|
                                #[trigger] self.spec_uniform(c) ==> forall|k: int|
                                    0 <= k < colors@.len() ==> #[trigger] colors@[k] == c,
                        decreases (x + 1) * m - xi,
                    {
                        match img[yi][xi].get_color() {
                            Some(col) => {
                                colors.push(col);
                            },
                            None => {
                                proof {
                                    assert(false);
                                }
                            },
                        }
                        xi += 1;
                    }
                    proof {
                        assert((x + 1) * m - x * m == m) by (nonlinear_arith);
                        assert((yi + 1 - y * m) * m == (yi - y * m) * m + m) by (nonlinear_arith);
                    }
                    yi += 1;
                }
                proof {
                    assert(colors@.len() == m * m) by {
                        assert(((y + 1) * m - y * m) * m == m * m) by (nonlinear_arith);
                    }
                    assert(1 <= m * m) by (nonlinear_arith)
                        requires
                            1 <= m,
                    ;
                }
                let avg = Color::colors_avg(&colors);
                proof {
                    assert forall|c: Color| #[trigger] self.spec_uniform(c) implies avg == c by {
                        lemma_const_sum(colors@, c);
                        let n2 = colors@.len() as int;
                        assert(tdiv(n2 * c.r, n2) == c.r && tdiv(n2 * c.g, n2) == c.g && tdiv(
                            n2 * c.b,
                            n2,
                        ) == c.b) by (nonlinear_arith)
                            requires
                                n2 > 0,
                        ;
                    }
                }
                row.push(avg);
                x += 1;
            }
            out.push(row);
            y += 1;
        }
        out
    }
}

/// An output pixel's block fits inside the supersampled grid.
proof fn lemma_block_range(v: int, bound: int, m: int)
    requires
        0 <= v < bound,
        1 <= m,
    ensures
        0 <= v * m,
        (v + 1) * m <= bound * m,
        v * m < (v + 1) * m,
        (v + 1) * m == v * m + m,
{
    assert(0 <= v * m && (v + 1) * m <= bound * m && v * m < (v + 1) * m && (v + 1) * m == v * m
        + m) by (nonlinear_arith)
        requires
            0 <= v < bound,
            1 <= m,
    ;
}

/// In a sequence of one repeated color, every channel sum is the count
/// times that channel.
proof fn lemma_const_sum(s: Seq<Color>, c: Color)
    requires
        forall|k: int| 0 <= k < s.len() ==> #[trigger] s[k] == c,
    ensures
        spec_sum_r(s) == s.len() * c.r,
        spec_sum_g(s) == s.len() * c.g,
        spec_sum_b(s) == s.len() * c.b,
    decreases s.len(),
{
    if s.len() > 0 {
        lemma_const_sum(s.drop_last(), c);
        assert((s.len() - 1) * c.r + c.r == s.len() * c.r) by (nonlinear_arith);
        assert((s.len() - 1) * c.g + c.g == s.len() * c.g) by (nonlinear_arith);
        assert((s.len() - 1) * c.b + c.b == s.len() * c.b) by (nonlinear_arith);
    }
}

/// The average of capped colors stays within the cap.
proof fn lemma_avg_bound(s: Seq<Color>, cap: int)
    requires
        s.len() > 0,
        0 <= cap,
        forall|k: int| 0 <= k < s.len() ==> (#[trigger] s[k]).bounded(cap),
    ensures
        crate::fx::iabs(tdiv(spec_sum_r(s), s.len() as int)) <= cap,
        crate::fx::iabs(tdiv(spec_sum_g(s), s.len() as int)) <= cap,
        crate::fx::iabs(tdiv(spec_sum_b(s), s.len() as int)) <= cap,
{
    lemma_sum_bound(s, cap);
    crate::fx::lemma_tdiv_bound(spec_sum_r(s), s.len() as int, s.len() * cap);
    crate::fx::lemma_tdiv_bound(spec_sum_g(s), s.len() as int, s.len() * cap);
    crate::fx::lemma_tdiv_bound(spec_sum_b(s), s.len() as int, s.len() * cap);
    assert(tdiv(s.len() * cap, s.len() as int) == cap) by (nonlinear_arith)
        requires
            s.len() > 0,
            0 <= cap,
    ;
}

/// Channel sums of capped colors are capped by the count times the cap.
proof fn lemma_sum_bound(s: Seq<Color>, cap: int)
    requires
        0 <= cap,
        forall|k: int| 0 <= k < s.len() ==> (#[trigger] s[k]).bounded(cap),
    ensures
        crate::fx::iabs(spec_sum_r(s)) <= s.len() * cap,
        crate::fx::iabs(spec_sum_g(s)) <= s.len() * cap,
        crate::fx::iabs(spec_sum_b(s)) <= s.len() * cap,
    decreases s.len(),
{
    if s.len() > 0 {
        lemma_sum_bound(s.drop_last(), cap);
        assert((s.len() - 1) * cap + cap == s.len() * cap) by (nonlinear_arith);
    }
}

} // verus!
