//! Rasterizing: a decoded RGB image becomes a text frame of a fixed grid
//! of glyphs, one per sample, each row closed by a line break.
use vstd::prelude::*;
use crate::ramp::{Ramp, ramp_index_spec};

verus! {

/// Columns of every text frame.
pub const GRID_WIDTH: u32 = 256;

/// Rows of every text frame.
pub const GRID_HEIGHT: u32 = 144;

/// Largest sum of the three 8-bit channels of a pixel.
pub const CHANNEL_SUM_MAX: u64 = 765;

/// An image of 8-bit RGB samples, row by row, three bytes per pixel.
pub struct DecodedImage {
    pub width: u32,
    pub height: u32,
    pub data: Vec<u8>,
}

impl DecodedImage {
    /// Both sides are positive and `data` holds exactly one RGB triple per
    /// pixel.
    pub open spec fn wf(&self) -> bool {
        &&& self.width > 0
        &&& self.height > 0
        &&& self.data@.len() == 3 * self.width * self.height
    }

    /// The image of `width` by `height` pixels with samples `data`, or
    /// `None` when a side is zero or `data` does not hold exactly three
    /// bytes per pixel.
    pub fn from_rgb8(width: u32, height: u32, data: Vec<u8>) -> (r: Option<DecodedImage>)
        ensures
            r is Some <==> (width > 0 && height > 0 && data@.len() == 3 * width * height),
            r matches Some(img) ==> img.width == width && img.height == height && img.data@
                == data@ && img.wf(),
    {
        let n = data.len();
        if width == 0 || height == 0 {
            return None;
        }
        assert((width as int) * (height as int) <= u64::MAX) by (nonlinear_arith)
            requires
                width <= u32::MAX,
                height <= u32::MAX,
        ;
        let pixels: u64 = (width as u64) * (height as u64);
        if pixels > (usize::MAX / 3) as u64 {
            assert(3 * width * height > usize::MAX) by (nonlinear_arith)
                requires
                    pixels == width * height,
                    pixels > usize::MAX / 3,
            ;
            return None;
        }
        assert(3 * width * height == 3 * pixels) by (nonlinear_arith)
            requires
                pixels == width * height,
        ;
        if n != 3 * (pixels as usize) {
            return None;
        }
        Some(DecodedImage { width, height, data })
    }
}

/// Sum of the three channels of pixel `p` (its brightness is this sum
/// divided by [`CHANNEL_SUM_MAX`]).
pub open spec fn channel_sum(data: Seq<u8>, p: int) -> int {
    data[3 * p] + data[3 * p + 1] + data[3 * p + 2]
}

/// Glyph for pixel `p`.
pub open spec fn glyph_at(data: Seq<u8>, p: int, ramp: Seq<char>) -> char {
    ramp[ramp_index_spec(channel_sum(data, p), CHANNEL_SUM_MAX as int, ramp.len() as int)]
}

/// Row `y` of the text of an image `width` pixels wide: its glyphs, then a
/// line break.
pub open spec fn text_row(data: Seq<u8>, width: nat, y: nat, ramp: Seq<char>) -> Seq<char> {
    Seq::new(width, |x: int| glyph_at(data, (y * width + x) as int, ramp)).push('\n')
}

/// The text of the first `rows` rows, top to bottom.
pub open spec fn text_rows(data: Seq<u8>, width: nat, rows: nat, ramp: Seq<char>) -> Seq<char>
    decreases rows,
{
    if rows == 0 {
        Seq::empty()
    } else {
        text_rows(data, width, (rows - 1) as nat, ramp) + text_row(
            data,
            width,
            (rows - 1) as nat,
            ramp,
        )
    }
}

/// The text frame of a whole image.
pub open spec fn image_text(img: &DecodedImage, ramp: Seq<char>) -> Seq<char> {
    text_rows(img.data@, img.width as nat, img.height as nat, ramp)
}

/// The samples that the Gaussian resampling of an RGB image of `width` by
/// `height` pixels with samples `data` to `new_width` by `new_height`
/// pixels yields.
pub uninterp spec fn gaussian_resized(
    data: Seq<u8>,
    width: nat,
    height: nat,
    new_width: nat,
    new_height: nat,
) -> Seq<u8>;

/// The text frame that `frame` becomes: resampled to the grid, then
/// rendered with `ramp`.
pub open spec fn rasterized(frame: &DecodedImage, ramp: Seq<char>) -> Seq<char> {
    text_rows(
        gaussian_resized(
            frame.data@,
            frame.width as nat,
            frame.height as nat,
            GRID_WIDTH as nat,
            GRID_HEIGHT as nat,
        ),
        GRID_WIDTH as nat,
        GRID_HEIGHT as nat,
        ramp,
    )
}

/// Relies on `String::push`: it appends `c` at the end.
#[verifier::external_body]
fn push_char(s: &mut String, c: char)
    ensures
        final(s)@ == old(s)@.push(c),
{
    s.push(c);
}

/// Relies on `image::imageops::resize` with `FilterType::Gaussian` on an
/// `RgbImage`: the result has exactly the requested size, three bytes per
/// pixel, and its samples depend on the source samples and the sizes alone.
/// `RgbImage::from_raw` accepts `data` since it holds three bytes per pixel.
#[verifier::external_body]
fn resample(img: &DecodedImage, new_width: u32, new_height: u32) -> (r: DecodedImage)
    requires
        img.wf(),
        new_width > 0,
        new_height > 0,
        4 * img.width * new_height <= usize::MAX,
        3 * new_width * new_height <= usize::MAX,
    ensures
        r.width == new_width,
        r.height == new_height,
        r.data@ == gaussian_resized(
            img.data@,
            img.width as nat,
            img.height as nat,
            new_width as nat,
            new_height as nat,
        ),
        r.data@.len() == 3 * new_width * new_height,
{
    let src = image::RgbImage::from_raw(img.width, img.height, img.data.clone()).unwrap();
    let out = image::imageops::resize(
        &src,
        new_width,
        new_height,
        image::imageops::FilterType::Gaussian,
    );
    DecodedImage { width: out.width(), height: out.height(), data: out.into_raw() }
}

/// Appending one more row to the text of the rows above it.
proof fn lemma_row_prefix(data: Seq<u8>, width: nat, y: nat, ramp: Seq<char>, x: nat)
    requires
        x < width,
    ensures
        text_row(data, width, y, ramp).take(x + 1 as int) == text_row(data, width, y, ramp).take(
            x as int,
        ).push(glyph_at(data, (y * width + x) as int, ramp)),
{
    assert(text_row(data, width, y, ramp).take(x + 1 as int) =~= text_row(data, width, y, ramp).take(
        x as int,
    ).push(glyph_at(data, (y * width + x) as int, ramp)));
}

/// The text frame of `img`, one glyph of `ramp` per pixel, row by row, each
/// row followed by a line break.
pub fn render_text(img: &DecodedImage, ramp: &Ramp) -> (r: String)
    requires
        img.wf(),
        ramp.wf(),
    ensures
        r@ == image_text(img, ramp@),
{
    let ghost data = img.data@;
    let ghost w = img.width as nat;
    let n = img.data.len();
    let mut out = String::new();
    let mut y: u32 = 0;
    let mut p: usize = 0;
    while y < img.height
        invariant
            img.wf(),
            ramp.wf(),
            data == img.data@,
            n == data.len(),
            w == img.width,
            y <= img.height,
            p == y * w,
            out@ == text_rows(data, w, y as nat, ramp@),
        decreases img.height - y,
    {
        let mut x: u32 = 0;
        while x < img.width
            invariant
                img.wf(),
                ramp.wf(),
                data == img.data@,
                n == data.len(),
                w == img.width,
                y < img.height,
                x <= img.width,
                p == y * w + x,
                out@ == text_rows(data, w, y as nat, ramp@) + text_row(
                    data,
                    w,
                    y as nat,
                    ramp@,
                ).take(x as int),
            decreases img.width - x,
        {
            assert(p < img.width * img.height) by (nonlinear_arith)
                requires
                    p == y * w + x,
                    x < w,
                    y < img.height,
                    w == img.width,
            ;
            assert(3 * p + 2 < img.data@.len()) by (nonlinear_arith)
                requires
                    p < img.width * img.height,
                    img.data@.len() == 3 * img.width * img.height,
            ;
            let sum: u64 = img.data[3 * p] as u64 + img.data[3 * p + 1] as u64 + img.data[3 * p
                + 2] as u64;
            let c = ramp.glyph_for(sum, CHANNEL_SUM_MAX);
            proof {
                lemma_row_prefix(data, w, y as nat, ramp@, x as nat);
            }
            push_char(&mut out, c);
            x = x + 1;
            p = p + 1;
            assert(out@ =~= text_rows(data, w, y as nat, ramp@) + text_row(
                data,
                w,
                y as nat,
                ramp@,
            ).take(x as int));
        }
        assert(text_row(data, w, y as nat, ramp@).take(x as int) =~= text_row(
            data,
            w,
            y as nat,
            ramp@,
        ).drop_last());
        push_char(&mut out, '\n');
        assert(out@ =~= text_rows(data, w, (y + 1) as nat, ramp@));
        assert(p == (y + 1) * w) by (nonlinear_arith)
            requires
                p == y * w + w,
        ;
        y = y + 1;
    }
    out
}

/// The text frame of `frame`: resampled with a Gaussian filter to
/// [`GRID_WIDTH`] by [`GRID_HEIGHT`] samples, each sample's brightness then
/// drawn as a glyph of `ramp`.
pub fn asciify(frame: &DecodedImage, ramp: &Ramp) -> (r: String)
    requires
        frame.wf(),
        ramp.wf(),
        4 * frame.width * GRID_HEIGHT <= usize::MAX,
    ensures
        r@ == rasterized(frame, ramp@),
{
    assert(3 * GRID_WIDTH * GRID_HEIGHT <= usize::MAX);
    let small = resample(frame, GRID_WIDTH, GRID_HEIGHT);
    render_text(&small, ramp)
}

/// Row `y` of a text frame whose rows are `width` glyphs and a line break.
pub open spec fn frame_row(text: Seq<char>, width: nat, y: int) -> Seq<char> {
    text.subrange(y * (width + 1), (y + 1) * (width + 1))
}

/// The text of `rows` rows is those rows one after another.
pub proof fn lemma_text_rows_split(data: Seq<u8>, width: nat, rows: nat, ramp: Seq<char>)
    ensures
        text_rows(data, width, rows, ramp).len() == rows * (width + 1),
        forall|y: int|
            0 <= y < rows ==> #[trigger] frame_row(text_rows(data, width, rows, ramp), width, y)
                == text_row(data, width, y as nat, ramp),
    decreases rows,
{
    if rows > 0 {
        let r1 = (rows - 1) as nat;
        lemma_text_rows_split(data, width, r1, ramp);
        let head = text_rows(data, width, r1, ramp);
        let t = text_rows(data, width, rows, ramp);
        assert(t == head + text_row(data, width, r1, ramp));
        assert(text_row(data, width, r1, ramp).len() == width + 1);
        assert(rows * (width + 1) == r1 * (width + 1) + (width + 1)) by (nonlinear_arith)
            requires
                r1 == rows - 1,
        ;
        assert forall|y: int| 0 <= y < rows implies #[trigger] frame_row(t, width, y) == text_row(
            data,
            width,
            y as nat,
            ramp,
        ) by {
            assert((y + 1) * (width + 1) == y * (width + 1) + (width + 1)) by (nonlinear_arith);
            if y < r1 {
                assert((y + 1) * (width + 1) <= r1 * (width + 1)) by (nonlinear_arith)
                    requires
                        y < r1,
                ;
                assert(0 <= y * (width + 1)) by (nonlinear_arith)
                    requires
                        0 <= y,
                ;
                assert(frame_row(t, width, y) =~= frame_row(head, width, y));
            } else {
                assert(frame_row(t, width, y) =~= text_row(data, width, r1, ramp));
            }
        }
    } else {
        assert(rows * (width + 1) == 0) by (nonlinear_arith)
            requires
                rows == 0,
        ;
    }
}

/// Whatever the size of `frame`, its text frame has [`GRID_HEIGHT`] rows,
/// each made of [`GRID_WIDTH`] glyphs of `ramp` and a line break, and
/// nothing else.
pub proof fn lemma_frame_dimensions(frame: &DecodedImage, ramp: Seq<char>)
    requires
        ramp.len() > 0,
    ensures
        rasterized(frame, ramp).len() == GRID_HEIGHT * (GRID_WIDTH + 1),
        forall|y: int|
            0 <= y < GRID_HEIGHT ==> (#[trigger] frame_row(
                rasterized(frame, ramp),
                GRID_WIDTH as nat,
                y,
            )).len() == GRID_WIDTH + 1 && frame_row(rasterized(frame, ramp), GRID_WIDTH as nat, y)[GRID_WIDTH as int]
                == '\n',
        forall|y: int, x: int|
            0 <= y < GRID_HEIGHT && 0 <= x < GRID_WIDTH ==> ramp.contains(
                #[trigger] frame_row(rasterized(frame, ramp), GRID_WIDTH as nat, y)[x],
            ),
{
    let w = GRID_WIDTH as nat;
    let data = gaussian_resized(
        frame.data@,
        frame.width as nat,
        frame.height as nat,
        GRID_WIDTH as nat,
        GRID_HEIGHT as nat,
    );
    lemma_text_rows_split(data, w, GRID_HEIGHT as nat, ramp);
    assert forall|y: int, x: int| 0 <= y < GRID_HEIGHT && 0 <= x < GRID_WIDTH implies ramp.contains(
        #[trigger] frame_row(rasterized(frame, ramp), w, y)[x],
    ) by {
        let row = text_row(data, w, y as nat, ramp);
        assert(frame_row(rasterized(frame, ramp), w, y) == row);
        let sum = channel_sum(data, y * w + x);
        assert(0 <= ramp.len() * sum / (CHANNEL_SUM_MAX as int)) by (nonlinear_arith)
            requires
                sum >= 0,
        ;
        let i = ramp_index_spec(sum, CHANNEL_SUM_MAX as int, ramp.len() as int);
        assert(0 <= i < ramp.len());
        assert(row[x] == ramp[i]);
    }
}

/// Rasterizing the same image with the same ramp twice gives the same text
/// frame.
pub proof fn lemma_asciify_deterministic(a: &DecodedImage, b: &DecodedImage, ramp: Seq<char>)
    requires
        a.width == b.width,
        a.height == b.height,
        a.data@ == b.data@,
    ensures
        rasterized(a, ramp) == rasterized(b, ramp),
{
}

} // verus!
