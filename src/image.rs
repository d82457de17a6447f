use vstd::prelude::*;
use rand::rngs::StdRng;
use rand::Rng;
use crate::background::{background_pixel, background_spec, gradient_spec, star_drawn, Rgb8};

verus! {

#[verifier::external_type_specification]
#[verifier::external_body]
pub struct ExStdRng(StdRng);

/// Relies on rand's `Rng::gen::<u32>` on `StdRng`: the next value of the
/// generator's stream, any `u32`.
#[verifier::external_body]
fn next_draw(rng: &mut StdRng) -> (r: u32) {
    rng.gen::<u32>()
}

/// Why an image cannot be produced.
#[derive(Clone, Copy, Debug, PartialEq, Eq, Structural)]
pub enum RenderError {
    /// The width or the height is zero.
    EmptyImage,
    /// The RGBA buffer, four bytes per pixel, would not fit in memory.
    TooLarge,
}

/// Column of pixel `i`: `i % width`.
pub open spec fn pixel_x(i: nat, width: nat) -> nat {
    i % width
}

/// Row of pixel `i`: `i / height`. Both moduli are kept as the renderer has
/// them, so that for images with `width != height` the row is `i / height`.
pub open spec fn pixel_y(i: nat, height: nat) -> nat {
    i / height
}

/// The column and row of pixel `i`.
pub fn pixel_coords(i: u64, width: u32, height: u32) -> (xy: (u32, u32))
    requires
        width > 0,
        height > 0,
        i < width * height,
    ensures
        xy.0 as nat == pixel_x(i as nat, width as nat),
        xy.1 as nat == pixel_y(i as nat, height as nat),
{
    proof {
        lemma_row_fits(i as nat, width as nat, height as nat);
    }
    ((i % (width as u64)) as u32, (i / (height as u64)) as u32)
}

/// The colour of pixel `i`: its shaded colour where its ray hit the scene,
/// else the background of its row for the pixel's draws.
pub open spec fn pixel_spec(
    i: int,
    height: nat,
    shaded: Seq<Option<Rgb8>>,
    stars: Seq<u32>,
    grays: Seq<u32>,
) -> (nat, nat, nat) {
    match shaded[i] {
        Some(c) => c.view(),
        None => background_spec(pixel_y(i as nat, height), height, stars[i] as nat, grays[i] as nat),
    }
}

/// The four bytes of pixel `i` in an RGBA buffer.
pub open spec fn rgba_at(bytes: Seq<u8>, i: int) -> (nat, nat, nat, nat) {
    (
        bytes[4 * i] as nat,
        bytes[4 * i + 1] as nat,
        bytes[4 * i + 2] as nat,
        bytes[4 * i + 3] as nat,
    )
}

/// Whether `bytes` holds `n` RGBA pixels with the colours `pixel_spec` gives
/// and an opaque alpha.
pub open spec fn image_spec(
    bytes: Seq<u8>,
    n: nat,
    height: nat,
    shaded: Seq<Option<Rgb8>>,
    stars: Seq<u32>,
    grays: Seq<u32>,
) -> bool {
    &&& bytes.len() == 4 * n
    &&& forall|i: int|
        0 <= i < n ==> {
            let c = #[trigger] pixel_spec(i, height, shaded, stars, grays);
            rgba_at(bytes, i) == (c.0, c.1, c.2, 255nat)
        }
}

proof fn lemma_row_fits(i: nat, width: nat, height: nat)
    requires
        height > 0,
        i < width * height,
    ensures
        i / height < width,
{
    assert(i / height < width) by (nonlinear_arith)
        requires
            height > 0,
            i < width * height,
    ;
}

/// What `compose_pixels` refuses for a `width` by `height` image, if anything.
pub open spec fn size_error(width: nat, height: nat) -> Option<RenderError> {
    if width == 0 || height == 0 {
        Some(RenderError::EmptyImage)
    } else if 4 * (width * height) > usize::MAX {
        Some(RenderError::TooLarge)
    } else {
        None
    }
}

fn buffer_fits(width: u32, height: u32) -> (b: bool)
    ensures
        b == (4 * (width * height) <= usize::MAX),
{
    let w: u128 = width as u128;
    let h: u128 = height as u128;
    assert(w * h <= 0xffff_ffff * 0xffff_ffff) by (nonlinear_arith)
        requires
            w <= 0xffff_ffff,
            h <= 0xffff_ffff,
    ;
    w * h * 4 <= usize::MAX as u128
}

/// Turns per-pixel results into a row-major RGBA buffer, four bytes per
/// pixel: a pixel whose ray hit the scene takes its shaded colour, any other
/// the background of its row for its star and grey draws. Fails on an
/// image with no pixels.
pub fn compose_pixels(
    width: u32,
    height: u32,
    shaded: &Vec<Option<Rgb8>>,
    star_draws: &Vec<u32>,
    gray_draws: &Vec<u32>,
) -> (r: Result<Vec<u8>, RenderError>)
    requires
        size_error(width as nat, height as nat) is None ==> {
            &&& shaded@.len() == width * height
            &&& star_draws@.len() == width * height
            &&& gray_draws@.len() == width * height
        },
    ensures
        r matches Err(e) ==> size_error(width as nat, height as nat) == Some(e),
        r is Ok <==> size_error(width as nat, height as nat) is None,
        r matches Ok(bytes) ==> image_spec(
            bytes@,
            (width * height) as nat,
            height as nat,
            shaded@,
            star_draws@,
            gray_draws@,
        ),
{
    if width == 0 || height == 0 {
        return Err(RenderError::EmptyImage);
    }
    if !buffer_fits(width, height) {
        return Err(RenderError::TooLarge);
    }
    let n: usize = (width as usize) * (height as usize);
    let mut out: Vec<u8> = Vec::new();
    let mut i: usize = 0;
    while i < n
        invariant
            n == width * height,
            4 * n <= usize::MAX,
            height > 0,
            i <= n,
            shaded@.len() == n,
            star_draws@.len() == n,
            gray_draws@.len() == n,
            out@.len() == 4 * i,
            forall|j: int|
                0 <= j < i ==> {
                    let c = #[trigger] pixel_spec(j, height as nat, shaded@, star_draws@, gray_draws@);
                    rgba_at(out@, j) == (c.0, c.1, c.2, 255nat)
                },
        decreases n - i,
    {
        proof {
            lemma_row_fits(i as nat, width as nat, height as nat);
        }
        let y: u32 = (i / (height as usize)) as u32;
        let c: Rgb8 = match shaded[i] {
            Some(c) => c,
            None => background_pixel(y, height, star_draws[i], gray_draws[i]),
        };
        let ghost before = out@;
        out.push(c.r);
        out.push(c.g);
        out.push(c.b);
        out.push(255u8);
        proof {
            assert forall|j: int| 0 <= j < i + 1 implies {
                let c = #[trigger] pixel_spec(j, height as nat, shaded@, star_draws@, gray_draws@);
                rgba_at(out@, j) == (c.0, c.1, c.2, 255nat)
            } by {
                if j < i {
                    assert(rgba_at(out@, j) == rgba_at(before, j));
                }
            }
        }
        i = i + 1;
    }
    Ok(out)
}

/// Like `compose_pixels`, with the star and grey draws of each pixel taken
/// from `rng`: every background pixel is the background of its row for some
/// pair of draws.
pub fn compose_pixels_rng(
    width: u32,
    height: u32,
    shaded: &Vec<Option<Rgb8>>,
    rng: &mut StdRng,
) -> (r: Result<Vec<u8>, RenderError>)
    requires
        size_error(width as nat, height as nat) is None ==> shaded@.len() == width * height,
    ensures
        r matches Err(e) ==> size_error(width as nat, height as nat) == Some(e),
        r is Ok <==> size_error(width as nat, height as nat) is None,
        r matches Ok(bytes) ==> exists|stars: Seq<u32>, grays: Seq<u32>|
            #![trigger image_spec(bytes@, (width * height) as nat, height as nat, shaded@, stars, grays)]
            {
                &&& stars.len() == width * height
                &&& grays.len() == width * height
                &&& image_spec(bytes@, (width * height) as nat, height as nat, shaded@, stars, grays)
            },
{
    if width == 0 || height == 0 {
        return Err(RenderError::EmptyImage);
    }
    if !buffer_fits(width, height) {
        return Err(RenderError::TooLarge);
    }
    let n: usize = (width as usize) * (height as usize);
    let mut stars: Vec<u32> = Vec::new();
    let mut grays: Vec<u32> = Vec::new();
    let mut i: usize = 0;
    while i < n
        invariant
            i <= n,
            stars@.len() == i,
            grays@.len() == i,
        decreases n - i,
    {
        let s: u32 = next_draw(rng);
        let g: u32 = next_draw(rng);
        stars.push(s);
        grays.push(g);
        i = i + 1;
    }
    let r = compose_pixels(width, height, shaded, &stars, &grays);
    r
}

/// Rendering is deterministic once the draws are fixed: two buffers that both
/// hold the image of the same per-pixel results and draws are byte for byte
/// the same.
pub proof fn lemma_image_deterministic(
    a: Seq<u8>,
    b: Seq<u8>,
    n: nat,
    height: nat,
    shaded: Seq<Option<Rgb8>>,
    stars: Seq<u32>,
    grays: Seq<u32>,
)
    requires
        image_spec(a, n, height, shaded, stars, grays),
        image_spec(b, n, height, shaded, stars, grays),
    ensures
        a == b,
{
    assert forall|k: int| 0 <= k < a.len() implies a[k] == b[k] by {
        let i = k / 4;
        assert(0 <= i < n);
        let _ = pixel_spec(i, height, shaded, stars, grays);
        assert(rgba_at(a, i) == rgba_at(b, i));
        assert(k == 4 * i || k == 4 * i + 1 || k == 4 * i + 2 || k == 4 * i + 3);
    }
    assert(a =~= b);
}

/// Where no draw lights a star, every pixel that no ray hit takes the sky
/// gradient of its row.
pub proof fn lemma_starless_background_is_gradient(
    bytes: Seq<u8>,
    n: nat,
    height: nat,
    shaded: Seq<Option<Rgb8>>,
    stars: Seq<u32>,
    grays: Seq<u32>,
    i: int,
)
    requires
        image_spec(bytes, n, height, shaded, stars, grays),
        0 <= i < n,
        shaded[i] is None,
        !star_drawn(pixel_y(i as nat, height), height, stars[i] as nat),
    ensures
        ({
            let g = gradient_spec(pixel_y(i as nat, height), height);
            rgba_at(bytes, i) == (g.0, g.1, g.2, 255nat)
        }),
{
    let _ = pixel_spec(i, height, shaded, stars, grays);
}

} // verus!
