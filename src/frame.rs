use vstd::prelude::*;

use crate::pixel::Rgb8;

verus! {

/// Where pixel `(x, y)` lies in a row-major buffer of rows `width` long.
pub open spec fn pixel_index(width: int, x: int, y: int) -> int {
    y * width + x
}

/// Pixel positions of earlier rows, and of earlier columns in the same row,
/// come earlier in the buffer.
proof fn lemma_index_in_bounds(width: int, height: int, x: int, y: int)
    requires
        0 <= x < width,
        0 <= y < height,
    ensures
        0 <= pixel_index(width, x, y) < height * width,
        pixel_index(width, x, y) < (y + 1) * width,
{
    assert(0 <= y * width + x < height * width) by (nonlinear_arith)
        requires
            0 <= x < width,
            0 <= y < height,
    ;
    assert(y * width + x < (y + 1) * width) by (nonlinear_arith)
        requires
            0 <= x < width,
    ;
}

/// An image of `width` times `height` pixels, stored row by row from the top
/// left corner.
pub struct Frame {
    width: u32,
    height: u32,
    pixels: Vec<Rgb8>,
}

impl Frame {
    #[verifier::type_invariant]
    spec fn well_formed(self) -> bool {
        self.pixels.len() == self.height as int * self.width as int
    }

    /// The number of pixels in a row.
    pub closed spec fn spec_width(self) -> nat {
        self.width as nat
    }

    /// The number of rows.
    pub closed spec fn spec_height(self) -> nat {
        self.height as nat
    }

    /// All pixels, row by row.
    pub closed spec fn cells(self) -> Seq<Rgb8> {
        self.pixels@
    }

    /// The pixel in column `x` of row `y`.
    pub open spec fn at(self, x: int, y: int) -> Rgb8 {
        self.cells()[pixel_index(self.spec_width() as int, x, y)]
    }

    pub fn width(&self) -> (r: u32)
        ensures
            r == self.spec_width(),
    {
        self.width
    }

    pub fn height(&self) -> (r: u32)
        ensures
            r == self.spec_height(),
    {
        self.height
    }

    /// The pixel in column `x` of row `y`.
    pub fn pixel(&self, x: u32, y: u32) -> (r: Rgb8)
        requires
            x < self.spec_width(),
            y < self.spec_height(),
        ensures
            r == self.at(x as int, y as int),
    {
        proof {
            use_type_invariant(self);
            lemma_index_in_bounds(self.width as int, self.height as int, x as int, y as int);
        }
        self.pixels[(y as usize) * (self.width as usize) + (x as usize)]
    }
}

/// Whether `p` is what the renderer writes at `(x, y)` for a per-pixel
/// shading function that may return `o` there: the shaded color where the
/// primary ray hits, else the background.
pub open spec fn written_for(o: Option<Rgb8>, background: Rgb8, p: Rgb8) -> bool {
    match o {
        Some(c) => p == c,
        None => p == background,
    }
}

/// Whether `p` is a pixel that the renderer may write at `(x, y)`.
pub open spec fn shaded_as<F: Fn(u32, u32) -> Option<Rgb8>>(
    shade: F,
    background: Rgb8,
    x: u32,
    y: u32,
    p: Rgb8,
) -> bool {
    exists|o: Option<Rgb8>| call_ensures(shade, (x, y), o) && written_for(o, background, p)
}

/// Whether `frame` is a rendering of a `width` by `height` image: each pixel
/// holds what the shading function gave for its own coordinates, or the
/// background where it gave nothing.
pub open spec fn renders<F: Fn(u32, u32) -> Option<Rgb8>>(
    frame: Frame,
    width: u32,
    height: u32,
    background: Rgb8,
    shade: F,
) -> bool {
    &&& frame.spec_width() == width
    &&& frame.spec_height() == height
    &&& frame.cells().len() == height as int * width as int
    &&& forall|x: u32, y: u32|
        x < width && y < height ==> shaded_as(shade, background, x, y, #[trigger] frame.at(x as int, y as int))
}

/// Renders a `width` by `height` image. `shade` maps a pixel's coordinates to
/// the color of what its primary ray hits, or `None` where it hits nothing;
/// such pixels get `background`. Each pixel is computed from its own
/// coordinates alone.
pub fn render_frame<F: Fn(u32, u32) -> Option<Rgb8>>(
    width: u32,
    height: u32,
    background: Rgb8,
    shade: F,
) -> (r: Frame)
    requires
        width as int * height as int <= usize::MAX,
        forall|x: u32, y: u32| x < width && y < height ==> call_requires(shade, (x, y)),
    ensures
        renders(r, width, height, background, shade),
{
    let ghost w = width as int;
    let mut pixels: Vec<Rgb8> = Vec::new();
    let mut y: u32 = 0;
    while y < height
        invariant
            y <= height,
            width as int * height as int <= usize::MAX,
            forall|x: u32, y: u32| x < width && y < height ==> call_requires(shade, (x, y)),
            pixels.len() == y as int * w,
            w == width as int,
            forall|xx: u32, yy: u32|
                xx < width && yy < y ==> shaded_as(
                    shade,
                    background,
                    xx,
                    yy,
                    #[trigger] pixels@[pixel_index(w, xx as int, yy as int)],
                ),
        decreases height - y,
    {
        let mut x: u32 = 0;
        while x < width
            invariant
                y < height,
                x <= width,
                forall|x: u32, y: u32| x < width && y < height ==> call_requires(shade, (x, y)),
                pixels.len() == y as int * w + x as int,
                w == width as int,
                forall|xx: u32, yy: u32|
                    (xx < width && yy < y) || (xx < x && yy == y) ==> shaded_as(
                        shade,
                        background,
                        xx,
                        yy,
                        #[trigger] pixels@[pixel_index(w, xx as int, yy as int)],
                    ),
            decreases width - x,
        {
            let o = shade(x, y);
            let p = match o {
                Some(c) => c,
                None => background,
            };
            assert(written_for(o, background, p));
            let ghost before = pixels@;
            proof {
                lemma_index_in_bounds(w, height as int, x as int, y as int);
            }
            pixels.push(p);
            assert forall|xx: u32, yy: u32|
                (xx < width && yy < y) || (xx < x + 1 && yy == y) implies shaded_as(
                    shade,
                    background,
                    xx,
                    yy,
                    #[trigger] pixels@[pixel_index(w, xx as int, yy as int)],
                ) by {
                if xx == x && yy == y {
                    assert(pixels@[pixel_index(w, xx as int, yy as int)] == p);
                } else {
                    lemma_index_in_bounds(w, y as int + 1, xx as int, yy as int);
                    if yy < y {
                        assert((yy as int + 1) * w <= y as int * w) by (nonlinear_arith)
                            requires
                                yy < y,
                                w >= 0,
                        ;
                    }
                    assert(pixel_index(w, xx as int, yy as int) < before.len());
                    assert(pixels@[pixel_index(w, xx as int, yy as int)] == before[pixel_index(w, xx as int, yy as int)]);
                }
            }
            x = x + 1;
        }
        assert(pixels.len() == (y as int + 1) * w) by (nonlinear_arith)
            requires
                pixels.len() == y as int * w + w,
        ;
        y = y + 1;
    }
    let r = Frame { width, height, pixels };
    assert(r.cells() == pixels@);
    r
}

/// Whether `shade` gives at most one result for each pixel's coordinates.
pub open spec fn is_functional<F: Fn(u32, u32) -> Option<Rgb8>>(shade: F) -> bool {
    forall|x: u32, y: u32, o1: Option<Rgb8>, o2: Option<Rgb8>|
        call_ensures(shade, (x, y), o1) && call_ensures(shade, (x, y), o2) ==> o1 == o2
}

/// A pixel whose primary ray hits nothing, so that the shading function can
/// only answer `None` there, holds exactly the background.
pub proof fn lemma_missed_pixel_is_background<F: Fn(u32, u32) -> Option<Rgb8>>(
    frame: Frame,
    width: u32,
    height: u32,
    background: Rgb8,
    shade: F,
    x: u32,
    y: u32,
)
    requires
        renders(frame, width, height, background, shade),
        x < width,
        y < height,
        forall|o: Option<Rgb8>| call_ensures(shade, (x, y), o) ==> o is None,
    ensures
        frame.at(x as int, y as int) == background,
{
    assert(shaded_as(shade, background, x, y, frame.at(x as int, y as int)));
}

/// Rendering is deterministic: two renderings of the same image size with the
/// same background and the same shading function, one that gives at most one
/// result per pixel, are pixel for pixel identical, whatever order the pixels
/// were computed in.
pub proof fn lemma_render_deterministic<F: Fn(u32, u32) -> Option<Rgb8>>(
    a: Frame,
    b: Frame,
    width: u32,
    height: u32,
    background: Rgb8,
    shade: F,
)
    requires
        renders(a, width, height, background, shade),
        renders(b, width, height, background, shade),
        is_functional(shade),
    ensures
        a.spec_width() == b.spec_width(),
        a.spec_height() == b.spec_height(),
        a.cells() == b.cells(),
{
    let w = width as int;
    assert forall|i: int| 0 <= i < a.cells().len() implies a.cells()[i] == b.cells()[i] by {
        let x = i % w;
        let y = i / w;
        assert(w > 0) by (nonlinear_arith)
            requires
                0 <= i < height as int * w,
        ;
        vstd::arithmetic::div_mod::lemma_fundamental_div_mod(i, w);
        vstd::arithmetic::div_mod::lemma_mod_bound(i, w);
        assert(y < height) by (nonlinear_arith)
            requires
                i == w * y + x,
                0 <= x,
                i < height as int * w,
                w > 0,
        ;
        assert(0 <= y) by (nonlinear_arith)
            requires
                i == w * y + x,
                x < w,
                i >= 0,
                w > 0,
        ;
        assert(pixel_index(w, x, y) == i) by (nonlinear_arith)
            requires
                i == w * y + x,
        ;
        let xu = x as u32;
        let yu = y as u32;
        assert(shaded_as(shade, background, xu, yu, a.at(x, y)));
        assert(shaded_as(shade, background, xu, yu, b.at(x, y)));
        let oa = choose|o: Option<Rgb8>| call_ensures(shade, (xu, yu), o) && written_for(o, background, a.at(x, y));
        let ob = choose|o: Option<Rgb8>| call_ensures(shade, (xu, yu), o) && written_for(o, background, b.at(x, y));
        assert(oa == ob);
    }
    assert(a.cells() =~= b.cells());
}

} // verus!
