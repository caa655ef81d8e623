//! The frame recorder: on a fixed cadence the evolving image is turned into
//! a grey raster of 8-bit intensities and kept as the frame of its
//! iteration.
//!
//! A pixel reaches the recorder as an integer level, the pixel's real value
//! times 255 and rounded. Pixels are not confined to the unit interval, so
//! a level may lie anywhere. The recorder saturates: a level below 0 gives
//! intensity 0, a level above 255 gives intensity 255.

use vstd::prelude::*;

verus! {

/// The 8-bit intensity of a level: the level itself where it is one, else
/// the nearest of 0 and 255.
pub open spec fn intensity(level: i64) -> u8 {
    if level <= 0 {
        0u8
    } else if level >= 255 {
        255u8
    } else {
        level as u8
    }
}

/// The raster of a grey image: red, green and blue of each pixel in turn,
/// all three the pixel's intensity.
pub open spec fn gray_rgb(levels: Seq<i64>) -> Seq<u8> {
    Seq::new(3 * levels.len(), |k: int| intensity(levels[k / 3]))
}

/// The iterations below `iterations` whose image is recorded at cadence
/// `interval`: the multiples of the interval, in rising order.
pub open spec fn recorded_iterations(interval: nat, iterations: nat) -> Seq<nat>
    recommends
        interval > 0,
{
    Seq::new(((iterations + interval - 1) / interval as int) as nat, |k: int| (k * interval) as nat)
}

/// One row of an image as text: a one and a blank for a marked pixel, a
/// blank alone for any other.
pub open spec fn row_text(marks: Seq<bool>) -> Seq<u8>
    decreases marks.len(),
{
    if marks.len() == 0 {
        Seq::empty()
    } else {
        row_text(marks.drop_last()) + (if marks.last() {
            seq![49u8, 32u8]
        } else {
            seq![32u8]
        })
    }
}

/// The first `rows` rows of an image of the given width as text, each row
/// ended by a line feed.
pub open spec fn grid_text(marks: Seq<bool>, width: nat, rows: nat) -> Seq<u8>
    decreases rows,
{
    if rows == 0 {
        Seq::empty()
    } else {
        grid_text(marks, width, (rows - 1) as nat) + row_text(
            marks.subrange((rows - 1) * width, (rows * width) as int),
        ) + seq![10u8]
    }
}

/// The encoding of a raster of `width` by `height` RGB pixels as a PNG
/// file, or `None` where the encoder refuses the raster.
pub uninterp spec fn png_encoding(width: u32, height: u32, rgb: Seq<u8>) -> Option<Seq<u8>>;

/// Encodes an RGB raster with `image::write_buffer_with_format`, as 8-bit
/// RGB in the PNG format, into memory. Trusted: the outcome is
/// `png_encoding` of the arguments, the file's bytes on `Ok` and `None` on
/// `Err`. The encoder panics on a buffer that is not `3 * width * height`
/// bytes long, which `requires` leaves out.
#[verifier::external_body]
fn encode_png(width: u32, height: u32, rgb: &Vec<u8>) -> (r: Option<Vec<u8>>)
    requires
        rgb@.len() == 3 * width * height,
    ensures
        match r {
            Some(bytes) => png_encoding(width, height, rgb@) == Some(bytes@),
            None => png_encoding(width, height, rgb@) is None,
        },
{
    let mut file = std::io::Cursor::new(Vec::new());
    let written = image::write_buffer_with_format(
        &mut file,
        rgb.as_slice(),
        width,
        height,
        image::ColorType::Rgb8,
        image::ImageOutputFormat::Png,
    );
    match written {
        Ok(()) => Some(file.into_inner()),
        Err(_) => None,
    }
}

/// The image of one iteration as a raster.
#[derive(Clone, Debug, PartialEq, Eq)]
pub struct Frame {
    /// The iteration whose image this is.
    pub iteration: u64,
    pub width: u32,
    pub height: u32,
    /// Rows from the top, pixels from the left, three bytes per pixel.
    pub rgb: Vec<u8>,
}

impl Frame {
    /// The raster holds all pixels of its shape and no more.
    pub open spec fn wf(&self) -> bool {
        self.rgb@.len() == 3 * self.width * self.height
    }

    /// The frame as a PNG file, or `None` where the encoder refuses it.
    pub fn to_png(&self) -> (r: Option<Vec<u8>>)
        requires
            self.wf(),
        ensures
            match r {
                Some(bytes) => png_encoding(self.width, self.height, self.rgb@) == Some(bytes@),
                None => png_encoding(self.width, self.height, self.rgb@) is None,
            },
    {
        encode_png(self.width, self.height, &self.rgb)
    }
}

/// The 8-bit intensity of a level.
pub fn to_intensity(level: i64) -> (r: u8)
    ensures
        r == intensity(level),
{
    if level <= 0 {
        0
    } else if level >= 255 {
        255
    } else {
        level as u8
    }
}

/// Records every `sampling_interval`-th image of a run as a frame.
#[derive(Clone, Copy, Debug, PartialEq, Eq, Structural)]
pub struct FrameRecorder {
    pub width: u32,
    pub height: u32,
    pub sampling_interval: u64,
}

impl FrameRecorder {
    /// The cadence is not zero and a raster of the shape fits the machine.
    pub open spec fn wf(&self) -> bool {
        &&& self.sampling_interval > 0
        &&& 3 * self.width * self.height <= usize::MAX
    }

    /// Number of pixels of an image.
    pub open spec fn spec_pixel_count(&self) -> nat {
        (self.width * self.height) as nat
    }

    /// The image of `iteration` is recorded.
    pub open spec fn spec_records(&self, iteration: u64) -> bool {
        iteration % self.sampling_interval == 0
    }

    /// The recorder of the given shape and cadence, if the cadence is not
    /// zero and the shape fits the machine.
    pub fn new(width: u32, height: u32, sampling_interval: u64) -> (r: Option<FrameRecorder>)
        ensures
            ({
                let recorder = FrameRecorder { width, height, sampling_interval };
                r == (if recorder.wf() {
                    Some(recorder)
                } else {
                    None
                })
            }),
    {
        assert(width * height <= 0xffff_ffff * 0xffff_ffff) by (nonlinear_arith)
            requires
                width <= 0xffff_ffff,
                height <= 0xffff_ffff,
        ;
        let pixels: u64 = (width as u64) * (height as u64);
        assert(3 * width * height == 3 * pixels) by (nonlinear_arith)
            requires
                pixels == width * height,
        ;
        if sampling_interval > 0 && pixels <= (usize::MAX as u64) / 3 {
            Some(FrameRecorder { width, height, sampling_interval })
        } else {
            None
        }
    }

    /// The recorder of 28 by 28 images that keeps every fifth.
    pub fn standard() -> (r: FrameRecorder)
        ensures
            r == (FrameRecorder { width: 28, height: 28, sampling_interval: 5 }),
            r.wf(),
    {
        FrameRecorder { width: 28, height: 28, sampling_interval: 5 }
    }

    /// Number of pixels of an image.
    pub fn pixel_count(&self) -> (r: usize)
        requires
            self.wf(),
        ensures
            r == self.spec_pixel_count(),
    {
        assert(self.width * self.height <= 3 * self.width * self.height) by (nonlinear_arith);
        (self.width as usize) * (self.height as usize)
    }

    /// Whether the image of `iteration` is recorded: it is where the
    /// iteration is a multiple of the cadence.
    pub fn records(&self, iteration: u64) -> (r: bool)
        requires
            self.wf(),
        ensures
            r == self.spec_records(iteration),
    {
        iteration % self.sampling_interval == 0
    }

    /// The raster of an image, whatever the iteration: the pixel in column
    /// `x` of row `y` is taken from `levels[x + width * y]`.
    pub fn rasterize(&self, levels: &Vec<i64>, iteration: u64) -> (frame: Frame)
        requires
            self.wf(),
            levels@.len() >= self.spec_pixel_count(),
        ensures
            frame.iteration == iteration,
            frame.width == self.width,
            frame.height == self.height,
            frame.rgb@ == gray_rgb(levels@.take(self.spec_pixel_count() as int)),
            frame.wf(),
    {
        let count: usize = self.pixel_count();
        let ghost shown = levels@.take(count as int);
        let mut rgb: Vec<u8> = Vec::new();
        let mut p: usize = 0;
        while p < count
            invariant
                p <= count,
                count <= levels@.len(),
                shown == levels@.take(count as int),
                rgb@.len() == 3 * p,
                forall|k: int| 0 <= k < 3 * p ==> rgb@[k] == intensity(#[trigger] shown[k / 3]),
            decreases count - p,
        {
            let gray: u8 = to_intensity(levels[p]);
            rgb.push(gray);
            rgb.push(gray);
            rgb.push(gray);
            p += 1;
        }
        assert(3 * (self.width * self.height) == 3 * self.width * self.height) by (nonlinear_arith);
        Frame { iteration, width: self.width, height: self.height, rgb }
    }

    /// The image as text for a terminal, one line per row: `marks` says of
    /// each pixel whether it is shown as a one.
    pub fn render_marks(&self, marks: &Vec<bool>) -> (text: Vec<u8>)
        requires
            self.wf(),
            marks@.len() >= self.spec_pixel_count(),
        ensures
            text@ == grid_text(marks@, self.width as nat, self.height as nat),
    {
        let count: usize = self.pixel_count();
        let width: usize = self.width as usize;
        let height: usize = self.height as usize;
        let mut text: Vec<u8> = Vec::new();
        let mut y: usize = 0;
        while y < height
            invariant
                y <= height,
                count == width * height,
                count <= marks@.len(),
                text@ == grid_text(marks@, width as nat, y as nat),
            decreases height - y,
        {
            assert(y * width + width <= width * height && (y + 1) * width == y * width + width)
                by (nonlinear_arith)
                requires
                    y < height,
            ;
            let base: usize = y * width;
            let ghost above = text@;
            let ghost row = marks@.subrange(base as int, base + width);
            let mut x: usize = 0;
            while x < width
                invariant
                    x <= width,
                    base + width <= marks.len(),
                    row == marks@.subrange(base as int, base + width),
                    text@ == above + row_text(row.take(x as int)),
                decreases width - x,
            {
                proof {
                    let longer = row.take(x + 1);
                    assert(longer.drop_last() =~= row.take(x as int));
                }
                if marks[base + x] {
                    text.push(49);
                    text.push(32);
                } else {
                    text.push(32);
                }
                x += 1;
            }
            assert(row.take(width as int) =~= row);
            text.push(10);
            y += 1;
        }
        text
    }

    /// The frame of `iteration`, if its image is recorded.
    pub fn maybe_record(&self, levels: &Vec<i64>, iteration: u64) -> (r: Option<Frame>)
        requires
            self.wf(),
            levels@.len() >= self.spec_pixel_count(),
        ensures
            r is Some <==> self.spec_records(iteration),
            r matches Some(frame) ==> {
                &&& frame.iteration == iteration
                &&& frame.width == self.width
                &&& frame.height == self.height
                &&& frame.rgb@ == gray_rgb(levels@.take(self.spec_pixel_count() as int))
                &&& frame.wf()
            },
    {
        if self.records(iteration) {
            Some(self.rasterize(levels, iteration))
        } else {
            None
        }
    }
}

/// In a raster of a grey image, each byte of the pixel in column `x` of
/// row `y` is the intensity of level `x + width * y`.
pub proof fn lemma_raster_is_row_major(levels: Seq<i64>, width: nat, height: nat, x: nat, y: nat, channel: nat)
    requires
        levels.len() == width * height,
        x < width,
        y < height,
        channel < 3,
    ensures
        x + width * y < levels.len(),
        gray_rgb(levels)[(3 * (x + width * y) + channel) as int] == intensity(
            levels[(x + width * y) as int],
        ),
{
    assert(x + width * y < width * height) by (nonlinear_arith)
        requires
            x < width,
            y < height,
    ;
}

/// Over a run of `iterations` iterations, an image is recorded exactly at
/// the multiples of the cadence below `iterations`, and there are
/// `ceil(iterations / interval)` of them.
pub proof fn lemma_sampling_cadence(recorder: FrameRecorder, iterations: u64, i: u64)
    requires
        recorder.wf(),
    ensures
        recorded_iterations(recorder.sampling_interval as nat, iterations as nat).len() == (iterations
            + recorder.sampling_interval - 1) / (recorder.sampling_interval as int),
        (i < iterations && recorder.spec_records(i)) <==> recorded_iterations(
            recorder.sampling_interval as nat,
            iterations as nat,
        ).contains(i as nat),
{
    let interval = recorder.sampling_interval as nat;
    let count = (iterations + interval - 1) / (interval as int);
    let marks = recorded_iterations(interval, iterations as nat);
    assert(count >= 0) by (nonlinear_arith)
        requires
            count == (iterations + interval - 1) / (interval as int),
            interval > 0,
    ;
    if i < iterations && i % recorder.sampling_interval == 0 {
        let k = i as int / interval as int;
        assert(k * interval == i && 0 <= k < count) by (nonlinear_arith)
            requires
                k == i as int / interval as int,
                i as int % interval as int == 0,
                i < iterations,
                interval > 0,
                count == (iterations + interval - 1) / (interval as int),
        ;
        assert(marks[k] == i);
    }
    if marks.contains(i as nat) {
        let k = choose|k: int| 0 <= k < marks.len() && marks[k] == i as nat;
        assert(i < iterations && i as int % interval as int == 0) by (nonlinear_arith)
            requires
                i == k * interval,
                0 <= k < count,
                interval > 0,
                count == (iterations + interval - 1) / (interval as int),
        ;
    }
}

} // verus!
