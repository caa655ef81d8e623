//! The sequence assembler: after a run, the recorded frames are read back
//! in rising order of iteration and joined into one looping animation.
//!
//! The assembler names the iteration whose frame it wants next, and the
//! caller answers with the bytes of that frame's file, or with nothing where
//! the file cannot be read. The first frame that is missing or cannot be
//! decoded ends the sequence: the animation holds the frames before it.

use vstd::prelude::*;

verus! {

/// Quantisation speed of the animation's encoder, from 1 (best) to 30.
pub const GIF_SPEED: i32 = 10;

/// A decoded frame in the pixel format that all frames of an animation
/// share: four bytes per pixel, red, green, blue and alpha.
#[derive(Clone, Debug, PartialEq, Eq)]
pub struct Still {
    pub width: u32,
    pub height: u32,
    /// Rows from the top, pixels from the left.
    pub rgba: Vec<u8>,
}

/// A decoded frame as a sequence of bytes.
pub struct StillView {
    pub width: u32,
    pub height: u32,
    pub rgba: Seq<u8>,
}

impl View for Still {
    type V = StillView;

    open spec fn view(&self) -> StillView {
        StillView { width: self.width, height: self.height, rgba: self.rgba@ }
    }
}

impl Still {
    /// The raster holds all pixels of its shape and no more.
    pub open spec fn wf(&self) -> bool {
        self.rgba@.len() == 4 * self.width * self.height
    }
}

/// The frames as sequences of bytes.
pub open spec fn stills_view(stills: Seq<Still>) -> Seq<StillView> {
    stills.map_values(|still: Still| still@)
}

/// The answers that files give: the picture of each file that holds one,
/// and nothing for a file that is missing or holds none.
pub open spec fn decoded_answers(files: Seq<Option<Vec<u8>>>) -> Seq<Option<StillView>> {
    files.map_values(
        |file: Option<Vec<u8>>|
            match file {
                Some(bytes) => png_decoding(bytes@),
                None => None,
            },
    )
}

/// The picture that a PNG file holds, in four bytes per pixel, or `None`
/// where the bytes are no PNG file that the decoder accepts.
pub uninterp spec fn png_decoding(bytes: Seq<u8>) -> Option<StillView>;

/// The looping animation of the frames, each shown without delay, as a GIF
/// file, or `None` where the encoder refuses a frame.
pub uninterp spec fn gif_encoding(frames: Seq<StillView>, speed: i32) -> Option<Seq<u8>>;

/// Decodes a PNG file with `image::load_from_memory_with_format` and turns
/// the picture into 8-bit RGBA with `DynamicImage::into_rgba8`. Trusted:
/// the outcome is `png_decoding` of the bytes, `None` on `Err`, and the
/// raster that comes back has exactly four bytes for each pixel of its
/// shape.
#[verifier::external_body]
fn decode_png(bytes: &Vec<u8>) -> (r: Option<Still>)
    ensures
        match r {
            Some(still) => png_decoding(bytes@) == Some(still@) && still.wf(),
            None => png_decoding(bytes@) is None,
        },
{
    match image::load_from_memory_with_format(bytes.as_slice(), image::ImageFormat::Png) {
        Ok(picture) => {
            let raster = picture.into_rgba8();
            Some(Still { width: raster.width(), height: raster.height(), rgba: raster.into_raw() })
        },
        Err(_) => None,
    }
}

/// Encodes frames with `image::codecs::gif::GifEncoder`: made by
/// `new_with_speed`, set to repeat for ever by `set_repeat`, and fed by
/// `encode_frames` with one `image::Frame::new` per frame. Trusted: the
/// outcome is `gif_encoding` of the frames and the speed, the file's bytes
/// on `Ok` and `None` on `Err`. The encoder panics on a speed outside 1 to
/// 30 and on a raster that is not four bytes per pixel of its shape, which
/// `requires` leaves out.
#[verifier::external_body]
fn encode_gif(stills: &Vec<Still>, speed: i32) -> (r: Option<Vec<u8>>)
    requires
        1 <= speed <= 30,
        forall|i: int| 0 <= i < stills@.len() ==> (#[trigger] stills@[i]).wf(),
    ensures
        match r {
            Some(bytes) => gif_encoding(stills_view(stills@), speed) == Some(bytes@),
            None => gif_encoding(stills_view(stills@), speed) is None,
        },
{
    let mut file: Vec<u8> = Vec::new();
    let mut encoder = image::codecs::gif::GifEncoder::new_with_speed(&mut file, speed);
    let repeat = encoder.set_repeat(image::codecs::gif::Repeat::Infinite);
    let frames = stills.iter().map(
        |still| image::Frame::new(image::RgbaImage::from_raw(still.width, still.height, still.rgba.clone()).unwrap()),
    );
    let written = repeat.and_then(|_| encoder.encode_frames(frames));
    drop(encoder);
    match written {
        Ok(()) => Some(file),
        Err(_) => None,
    }
}

/// Collects the frames of an animation.
pub struct SequenceAssembler {
    /// Distance between the iterations of two neighbouring frames.
    pub cadence: u64,
    /// Number of frames that are read back at most.
    pub limit: u64,
    /// The frames taken so far, in rising order of iteration.
    pub stills: Vec<Still>,
    /// A frame was missing: no further frame is taken.
    pub closed: bool,
}

/// An assembler as sequences.
pub struct AssemblerView {
    pub cadence: u64,
    pub limit: u64,
    pub stills: Seq<StillView>,
    pub closed: bool,
}

impl View for SequenceAssembler {
    type V = AssemblerView;

    open spec fn view(&self) -> AssemblerView {
        AssemblerView {
            cadence: self.cadence,
            limit: self.limit,
            stills: stills_view(self.stills@),
            closed: self.closed,
        }
    }
}

impl AssemblerView {
    /// An assembler that has taken no frame.
    pub open spec fn fresh(cadence: u64, limit: u64) -> AssemblerView {
        AssemblerView { cadence, limit, stills: Seq::empty(), closed: false }
    }

    /// The iteration whose frame is wanted next, if one is.
    pub open spec fn wanted(self) -> Option<u64> {
        if !self.closed && self.stills.len() < self.limit {
            Some((self.cadence * self.stills.len()) as u64)
        } else {
            None
        }
    }

    /// The assembler after the answer to what it wanted: a frame is taken,
    /// a missing frame closes the sequence. Where nothing was wanted the
    /// answer changes nothing.
    pub open spec fn answered(self, answer: Option<StillView>) -> AssemblerView {
        if self.wanted() is None {
            self
        } else {
            match answer {
                Some(still) => AssemblerView { stills: self.stills.push(still), ..self },
                None => AssemblerView { closed: true, ..self },
            }
        }
    }

    /// The assembler after a run of answers.
    pub open spec fn answered_all(self, answers: Seq<Option<StillView>>) -> AssemblerView
        decreases answers.len(),
    {
        if answers.len() == 0 {
            self
        } else {
            self.answered_all(answers.drop_last()).answered(answers.last())
        }
    }
}

impl SequenceAssembler {
    /// Every frame taken is a whole raster, no more frames are taken than
    /// the limit, and every iteration that can be wanted fits the machine.
    pub open spec fn wf(&self) -> bool {
        &&& self.cadence * self.limit <= u64::MAX
        &&& self.stills@.len() <= self.limit
        &&& forall|i: int| 0 <= i < self.stills@.len() ==> (#[trigger] self.stills@[i]).wf()
    }

    /// An assembler that reads back up to `limit` frames, those of
    /// iterations 0, `cadence`, twice `cadence` and so on. `None` where
    /// the last of these leaves the machine word.
    pub fn new(cadence: u64, limit: u64) -> (r: Option<SequenceAssembler>)
        ensures
            r is Some <==> cadence * limit <= u64::MAX,
            r matches Some(assembler) ==> assembler@ == AssemblerView::fresh(cadence, limit)
                && assembler.wf(),
    {
        let fits: bool = if limit == 0 {
            true
        } else {
            cadence <= u64::MAX / limit
        };
        proof {
            if limit > 0 {
                assert(cadence <= u64::MAX / limit <==> cadence * limit <= u64::MAX)
                    by (nonlinear_arith)
                    requires
                        limit > 0,
                ;
            }
        }
        if fits {
            let assembler = SequenceAssembler { cadence, limit, stills: Vec::new(), closed: false };
            assert(assembler@.stills =~= Seq::<StillView>::empty());
            Some(assembler)
        } else {
            None
        }
    }

    /// The assembler for a run that records every fifth image: it reads
    /// back up to 100 frames.
    pub fn standard() -> (r: SequenceAssembler)
        ensures
            r@ == AssemblerView::fresh(5, 100),
            r.wf(),
    {
        let assembler = SequenceAssembler { cadence: 5, limit: 100, stills: Vec::new(), closed: false };
        assert(assembler@.stills =~= Seq::<StillView>::empty());
        assembler
    }

    /// The iteration whose frame is wanted next, or `None` when the
    /// sequence is closed or full.
    pub fn next_index(&self) -> (r: Option<u64>)
        requires
            self.wf(),
        ensures
            r == self@.wanted(),
    {
        if !self.closed && (self.stills.len() as u64) < self.limit {
            let taken: u64 = self.stills.len() as u64;
            assert(self.cadence * taken <= u64::MAX) by (nonlinear_arith)
                requires
                    self.cadence * self.limit <= u64::MAX,
                    taken < self.limit,
            ;
            Some(self.cadence * taken)
        } else {
            None
        }
    }

    /// Takes the decoded answer to what was wanted.
    pub fn accept(&mut self, answer: Option<Still>)
        requires
            old(self).wf(),
            answer matches Some(still) ==> still.wf(),
        ensures
            final(self).wf(),
            final(self)@ == old(self)@.answered(
                match answer {
                    Some(still) => Some(still@),
                    None => None,
                },
            ),
    {
        if self.closed || (self.stills.len() as u64) >= self.limit {
            return ;
        }
        match answer {
            Some(still) => {
                self.stills.push(still);
                assert(stills_view(self.stills@) =~= stills_view(old(self).stills@).push(still@));
            },
            None => {
                self.closed = true;
            },
        }
    }

    /// Takes the answer to what was wanted: the bytes of the frame's file,
    /// or `None` where the file cannot be read. Bytes that are no picture
    /// count as a missing frame.
    pub fn offer(&mut self, file: Option<&Vec<u8>>)
        requires
            old(self).wf(),
        ensures
            final(self).wf(),
            final(self)@ == old(self)@.answered(
                match file {
                    Some(bytes) => png_decoding(bytes@),
                    None => None,
                },
            ),
    {
        match file {
            Some(bytes) => {
                let decoded = decode_png(bytes);
                self.accept(decoded);
            },
            None => {
                self.accept(None);
            },
        }
    }

    /// The animation of a run of files, offered in their order to this
    /// assembler: `files[k]` answers the `k`-th question. A missing file
    /// shortens the animation and does not fail it.
    pub fn assemble(self, files: &Vec<Option<Vec<u8>>>) -> (r: Option<Vec<u8>>)
        requires
            self.wf(),
        ensures
            match r {
                Some(bytes) => gif_encoding(
                    self@.answered_all(decoded_answers(files@)).stills,
                    GIF_SPEED,
                ) == Some(bytes@),
                None => gif_encoding(self@.answered_all(decoded_answers(files@)).stills, GIF_SPEED)
                    is None,
            },
    {
        let ghost answers = decoded_answers(files@);
        let ghost start = self@;
        let mut assembler = self;
        let mut k: usize = 0;
        while k < files.len()
            invariant
                k <= files@.len(),
                answers == decoded_answers(files@),
                assembler.wf(),
                assembler@ == start.answered_all(answers.take(k as int)),
            decreases files@.len() - k,
        {
            proof {
                let upto = answers.take(k + 1);
                assert(upto.drop_last() =~= answers.take(k as int));
            }
            match &files[k] {
                Some(bytes) => assembler.offer(Some(bytes)),
                None => assembler.offer(None),
            }
            k += 1;
        }
        assert(answers.take(k as int) =~= answers);
        assembler.finish()
    }

    /// The animation of the frames taken, as the bytes of a GIF file that
    /// loops for ever, or `None` where the encoder refuses a frame.
    pub fn finish(&self) -> (r: Option<Vec<u8>>)
        requires
            self.wf(),
        ensures
            match r {
                Some(bytes) => gif_encoding(self@.stills, GIF_SPEED) == Some(bytes@),
                None => gif_encoding(self@.stills, GIF_SPEED) is None,
            },
    {
        encode_gif(&self.stills, GIF_SPEED)
    }
}

/// A missing frame ends the sequence and does not fail it: whatever the
/// answers, the frames taken are those of the answers before the first gap,
/// up to the limit, in their order.
pub proof fn lemma_assembly_stops_at_first_gap(
    cadence: u64,
    limit: u64,
    answers: Seq<Option<StillView>>,
    n: nat,
)
    requires
        n <= answers.len(),
        n <= limit,
        forall|i: int| 0 <= i < n ==> (#[trigger] answers[i]) is Some,
        n == answers.len() || n == limit || answers[n as int] is None,
    ensures
        AssemblerView::fresh(cadence, limit).answered_all(answers) == (AssemblerView {
            cadence,
            limit,
            stills: Seq::new(n, |i: int| answers[i]->0),
            closed: n < answers.len() && n < limit,
        }),
    decreases answers.len(),
{
    let start = AssemblerView::fresh(cadence, limit);
    let taken = Seq::new(n, |i: int| answers[i]->0);
    if answers.len() == 0 {
        assert(start.answered_all(answers).stills =~= taken);
    } else {
        let before = answers.drop_last();
        let m: nat = if n == answers.len() {
            (n - 1) as nat
        } else {
            n
        };
        assert forall|i: int| 0 <= i < m implies (#[trigger] before[i]) is Some by {}
        lemma_assembly_stops_at_first_gap(cadence, limit, before, m);
        let kept = Seq::new(m, |i: int| before[i]->0);
        if n == answers.len() {
            assert(kept.push(answers.last()->0) =~= taken);
        } else {
            assert(kept =~= taken);
        }
    }
}

} // verus!
