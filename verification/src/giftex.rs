//! The animated-image pipeline. The decode phase turns fetched bytes into raw
//! RGBA frames off the render thread: the bitstream decoding itself is the
//! outside decoder's work, trusted behind one wrapper, while this module owns
//! what is decided about the result — every source delay unit becomes exactly
//! ten milliseconds of display time. The upload phase belongs to the render
//! thread and to the host's graphics device; this module models an uploaded
//! animation as a list of frame handles with delays and drives its playback:
//! a frame advances once its delay has elapsed, wrapping to the first frame
//! after the last.

use gif::DecodeOptions;
use gif_dispose::Screen;
use vstd::prelude::*;

verus! {

/// What the outside GIF decoder produces for a byte stream: `Some` with the
/// frames (raw RGBA bytes and the source delay, in the source's 10 ms units)
/// and the screen size, or `None` when the stream is malformed. The decoding
/// depends on the bytes alone.
pub uninterp spec fn gif_decoded(bytes: Seq<u8>) -> Option<(Seq<(Seq<u8>, u16)>, u16, u16)>;

/// The decoder's frames before delay scaling: raw RGBA buffers with the
/// source's own delay values and the screen size as the wire carries it.
pub struct SourceGif {
    pub frames: Vec<(Vec<u8>, u16)>,
    pub width: u16,
    pub height: u16,
}

/// Relies on `gif::DecodeOptions::read_info` / `Decoder::read_next_frame`
/// (palette-indexed output, the options' default, with frame-consistency
/// checking on, so a frame rectangle outside the logical screen is a decode
/// error) and `gif_dispose::Screen::new_decoder` / `blit_frame` /
/// `pixels_rgba` to decode a whole GIF byte stream into composed RGBA
/// frames. A zero-width or zero-height screen or frame, which the decoder
/// accepts but the compositor rejects by panicking, is treated as malformed
/// here, before the compositor sees it. Each frame's `delay` is the
/// source's delay in units of 10 ms, every frame's buffer is the full
/// screen at four bytes per pixel with rows tightly packed, and `None` is
/// returned on any malformed input.
#[verifier::external_body]
fn decode_gif_bytes(bytes: &Vec<u8>) -> (r: Option<SourceGif>)
    ensures
        r is Some <==> gif_decoded(bytes@) is Some,
        r matches Some(d) ==> gif_decoded(bytes@) == Some(
            (d.frames@.map_values(|p: (Vec<u8>, u16)| (p.0@, p.1)), d.width, d.height),
        ),
        r matches Some(d) ==> forall|i: int|
            0 <= i < d.frames@.len() ==> (#[trigger] d.frames@[i]).0@.len() == 4 * d.width
                * d.height,
{
    let mut o = DecodeOptions::new();
    o.check_frame_consistency(true);
    let mut d = o.read_info(bytes.as_slice()).ok()?;
    if d.width() == 0 || d.height() == 0 { return None; }
    let mut s = Screen::new_decoder(&d);
    let mut fs = Vec::new();
    while let Some(f) = d.read_next_frame().ok()? {
        if f.width == 0 || f.height == 0 { return None; }
        s.blit_frame(f).ok()?;
        fs.push((s.pixels_rgba().pixels().flat_map(<[u8; 4]>::from).collect(), f.delay));
    }
    Some(SourceGif { frames: fs, width: d.width(), height: d.height() })
}

/// Why a fetched image yielded no animation.
#[derive(Debug, Clone, Copy, PartialEq, Eq, Structural)]
pub enum GifError {
    /// The byte stream is not a GIF this pipeline can decode.
    Malformed,
}

/// One decoded frame awaiting upload: raw RGBA bytes, rows tightly packed at
/// four bytes per pixel, and the display duration in milliseconds.
pub struct RawFrame {
    pub data: Vec<u8>,
    pub delay_ms: u32,
}

/// A decoded animation awaiting upload.
pub struct RawGif {
    pub frames: Vec<RawFrame>,
    pub width: u32,
    pub height: u32,
}

/// The display duration of a source delay value: always exactly ten
/// milliseconds per source unit.
pub open spec fn display_delay_ms(source_delay: u16) -> u32 {
    (10 * source_delay) as u32
}

/// Decodes a fetched byte stream into upload-ready frames. Succeeds exactly
/// when the outside decoder accepts the stream; every frame keeps its RGBA
/// bytes — the full screen, four bytes per pixel, rows tightly packed, the
/// same size for every frame of one animation — and its display duration is
/// exactly `10 × source delay units` milliseconds.
pub fn decode_gif(bytes: &Vec<u8>) -> (r: Result<RawGif, GifError>)
    ensures
        r is Ok <==> gif_decoded(bytes@) is Some,
        r matches Ok(g) ==> {
            let (frames, width, height) = gif_decoded(bytes@).unwrap();
            &&& g.width == width as u32
            &&& g.height == height as u32
            &&& g.frames@.len() == frames.len()
            &&& forall|i: int|
                0 <= i < frames.len() ==> (#[trigger] g.frames@[i]).data@ == frames[i].0
                    && g.frames@[i].delay_ms == display_delay_ms(frames[i].1)
        },
        r matches Ok(g) ==> forall|i: int|
            0 <= i < g.frames@.len() ==> (#[trigger] g.frames@[i]).data@.len() == 4 * g.width
                * g.height,
        r is Err ==> r == Err::<RawGif, GifError>(GifError::Malformed),
{
    let source = match decode_gif_bytes(bytes) {
        Some(s) => s,
        None => {
            return Err(GifError::Malformed);
        },
    };
    let ghost spec_frames = gif_decoded(bytes@).unwrap().0;
    let mut frames: Vec<RawFrame> = Vec::new();
    let mut source_frames = source.frames;
    let ghost all = source_frames@;
    let n0 = source_frames.len();
    let mut taken: usize = 0;
    proof {
        assert(all.skip(0) =~= all);
    }
    while source_frames.len() > 0
        invariant
            taken <= n0,
            all.len() == n0,
            source_frames@ =~= all.skip(taken as int),
            spec_frames == all.map_values(|p: (Vec<u8>, u16)| (p.0@, p.1)),
            frames@.len() == taken,
            forall|i: int|
                0 <= i < taken ==> (#[trigger] frames@[i]).data@ == all[i].0@ && frames@[i].delay_ms
                    == display_delay_ms(all[i].1),
            forall|i: int|
                0 <= i < all.len() ==> (#[trigger] all[i]).0@.len() == 4 * source.width
                    * source.height,
        decreases source_frames@.len(),
    {
        proof {
            assert(all.skip(taken as int)[0] == all[taken as int]);
            assert(all.skip(taken as int).drop_first() =~= all.skip(taken as int + 1));
        }
        let (data, delay) = source_frames.remove(0);
        proof {
            assert(source_frames@ =~= all.skip(taken as int + 1));
        }
        let delay_ms: u32 = 10 * (delay as u32);
        frames.push(RawFrame { data, delay_ms });
        taken += 1;
    }
    Ok(RawGif { frames, width: source.width as u32, height: source.height as u32 })
}

/// One uploaded frame: the shader-view handle the host's device returned for
/// it, and its display duration in milliseconds.
#[derive(Debug, Clone, Copy, PartialEq, Eq, Structural)]
pub struct GifFrame {
    pub id: u64,
    pub delay_ms: u32,
}

impl GifFrame {
    /// The frame's shader-view handle, as the drawing layer consumes it.
    pub fn get_id(&self) -> (r: u64)
        ensures
            r == self.id,
    {
        self.id
    }
}

/// One uploaded animation: per-frame handles with delays, and the declared
/// size every frame shares.
#[derive(Debug)]
pub struct Gif {
    pub frames: Vec<GifFrame>,
    pub width: u32,
    pub height: u32,
}

impl Gif {
    /// The drawn size of every frame of this animation.
    pub fn size(&self) -> (r: (u32, u32))
        ensures
            r == (self.width, self.height),
    {
        (self.width, self.height)
    }

    /// An exact copy, field by field.
    pub fn duplicate(&self) -> (r: Gif)
        ensures
            r.frames@ == self.frames@,
            r.width == self.width,
            r.height == self.height,
    {
        let mut frames: Vec<GifFrame> = Vec::new();
        let mut i: usize = 0;
        while i < self.frames.len()
            invariant
                i <= self.frames@.len(),
                frames@ =~= self.frames@.take(i as int),
            decreases self.frames@.len() - i,
        {
            frames.push(self.frames[i]);
            proof {
                assert(frames@ =~= self.frames@.take(i + 1));
            }
            i += 1;
        }
        proof {
            assert(self.frames@.take(self.frames@.len() as int) =~= self.frames@);
        }
        Gif { frames, width: self.width, height: self.height }
    }
}

/// Pairs the shader-view handles the host's device returned for the
/// uploaded frames with the decoded animation: one handle per frame, in
/// frame order, each frame keeping its display duration, and the declared
/// size carried over unchanged. This is the render thread's last step of
/// the upload phase; the device calls themselves are the host's.
pub fn assemble_gif(raw: &RawGif, handles: &Vec<u64>) -> (r: Gif)
    requires
        handles@.len() == raw.frames@.len(),
    ensures
        r.width == raw.width,
        r.height == raw.height,
        r.frames@.len() == raw.frames@.len(),
        forall|i: int|
            0 <= i < raw.frames@.len() ==> (#[trigger] r.frames@[i]).id == handles@[i]
                && r.frames@[i].delay_ms == raw.frames@[i].delay_ms,
{
    let mut frames: Vec<GifFrame> = Vec::new();
    let mut i: usize = 0;
    while i < handles.len()
        invariant
            i <= handles@.len(),
            handles@.len() == raw.frames@.len(),
            frames@.len() == i,
            forall|j: int|
                0 <= j < i ==> (#[trigger] frames@[j]).id == handles@[j] && frames@[j].delay_ms
                    == raw.frames@[j].delay_ms,
        decreases handles@.len() - i,
    {
        frames.push(GifFrame { id: handles[i], delay_ms: raw.frames[i].delay_ms });
        i += 1;
    }
    Gif { frames, width: raw.width, height: raw.height }
}

/// Playback state of one animation: the selected frame and how long it has
/// been shown. Restartable from the first frame by constructing it anew.
#[derive(Debug)]
pub struct GifState {
    pub frames: Gif,
    pub current_frame: usize,
    /// Milliseconds the current frame has been displayed; `None` until the
    /// first tick starts the clock.
    pub shown_ms: Option<u64>,
}

/// How one playback tick relates the state after to the state before: the
/// frames themselves never change; the first tick starts the clock; then a
/// frame holds until its delay is exceeded, at which point the next frame
/// (wrapping to the first after the last) starts fresh.
pub open spec fn advanced(pre: GifState, post: GifState, elapsed_ms: u64) -> bool {
    &&& post.frames == pre.frames
    &&& match pre.shown_ms {
        None => post.current_frame == pre.current_frame && post.shown_ms == Some(0u64),
        Some(t) => {
            let delay = pre.frames.frames@[pre.current_frame as int].delay_ms;
            if t + elapsed_ms > delay {
                &&& post.current_frame as int == (pre.current_frame + 1) % (
                pre.frames.frames@.len() as int)
                &&& post.shown_ms == Some(0u64)
            } else {
                &&& post.current_frame == pre.current_frame
                &&& post.shown_ms == Some((t + elapsed_ms) as u64)
            }
        },
    }
}

/// One tick of a playback state that might not be coherent (an empty
/// animation, for instance): a coherent state advances, any other is left
/// alone.
pub open spec fn ticked(pre: GifState, post: GifState, elapsed_ms: u64) -> bool {
    if pre.well_formed() {
        advanced(pre, post, elapsed_ms)
    } else {
        post == pre
    }
}

impl GifState {
    /// A playback state is coherent when it points at a real frame and has
    /// not outlived the frame's delay.
    pub open spec fn well_formed(self) -> bool {
        &&& self.frames.frames@.len() > 0
        &&& self.current_frame < self.frames.frames@.len()
        &&& self.shown_ms matches Some(t) ==> t <= self.frames.frames@[
            self.current_frame as int].delay_ms
    }

    /// Fresh playback: the first frame, clock not yet started.
    pub fn new(frames: Gif) -> (r: GifState)
        ensures
            r.frames == frames,
            r.current_frame == 0,
            r.shown_ms is None,
            frames.frames@.len() > 0 ==> r.well_formed(),
    {
        GifState { frames, current_frame: 0, shown_ms: None }
    }

    /// Advances playback by `elapsed_ms` of wall time and returns the handle
    /// to draw. The first call starts the clock; afterwards, once the shown
    /// time exceeds the current frame's delay the next frame is selected,
    /// wrapping to the first after the last.
    pub fn advance(&mut self, elapsed_ms: u64) -> (r: u64)
        requires
            old(self).well_formed(),
            elapsed_ms <= 1_000_000_000,
        ensures
            final(self).well_formed(),
            advanced(*old(self), *final(self), elapsed_ms),
            r == final(self).frames.frames@[final(self).current_frame as int].id,
    {
        match self.shown_ms {
            None => {
                self.shown_ms = Some(0);
            },
            Some(t) => {
                let shown = t + elapsed_ms;
                if shown > self.frames.frames[self.current_frame].delay_ms as u64 {
                    let n = self.frames.frames.len();
                    self.current_frame = (self.current_frame + 1) % n;
                    self.shown_ms = Some(0);
                } else {
                    self.shown_ms = Some(shown);
                }
            },
        }
        self.frames.frames[self.current_frame].get_id()
    }

    /// One total playback tick: advances a coherent state and returns the
    /// frame handle to draw; leaves any other state untouched.
    pub fn tick_frame(&mut self, elapsed_ms: u64) -> (r: Option<u64>)
        requires
            elapsed_ms <= 1_000_000_000,
        ensures
            ticked(*old(self), *final(self), elapsed_ms),
            old(self).well_formed() ==> final(self).well_formed() && r == Some(
                final(self).frames.frames@[final(self).current_frame as int].id,
            ),
            !old(self).well_formed() ==> r is None,
    {
        let n = self.frames.frames.len();
        let coherent = n > 0 && self.current_frame < n && (match self.shown_ms {
            None => true,
            Some(t) => t <= self.frames.frames[self.current_frame].delay_ms as u64,
        });
        if coherent {
            Some(self.advance(elapsed_ms))
        } else {
            None
        }
    }
}

} // verus!
