//! Turning an ordered frame stream into an animated GIF.

use vstd::prelude::*;
use crate::schedule::{CapturedFrame, PixelBuffer};
use crate::timing::frame_delay_of;

verus! {

/// A GIF encoder writing into memory; opaque to proofs, which see it
/// through `gif_screen` and `gif_frames`.
#[verifier::external_body]
pub struct GifSink {
    encoder: gif::Encoder<Vec<u8>>,
}

#[verifier::external_type_specification]
#[verifier::external_body]
pub struct ExGifEncodingError(gif::EncodingError);

/// The frames that an encoder has written: delay in hundredths of a
/// second, width, height and RGB bytes of each.
pub uninterp spec fn gif_frames(e: GifSink) -> Seq<(u16, u16, u16, Seq<u8>)>;

/// The logical screen of an encoder: width, height and whether it loops.
pub uninterp spec fn gif_screen(e: GifSink) -> (u16, u16, bool);

/// The bytes of a finished GIF with the given screen and frames.
pub uninterp spec fn gif_bytes(screen: (u16, u16, bool), frames: Seq<(u16, u16, u16, Seq<u8>)>) -> Seq<u8>;

/// Relies on `gif::Encoder::new`: an encoder into a fresh buffer for a
/// screen of the given size, without global palette, with no frame yet.
/// With an empty palette and an in-memory buffer it has no failing path.
#[verifier::external_body]
fn gif_encoder(width: u16, height: u16) -> (r: Result<GifSink, gif::EncodingError>)
    ensures
        r is Ok,
        r is Ok ==> gif_screen(r->Ok_0) == (width, height, false),
        r is Ok ==> gif_frames(r->Ok_0) == Seq::<(u16, u16, u16, Seq<u8>)>::empty(),
{
    gif::Encoder::new(Vec::new(), width, height, &[]).map(|encoder| GifSink { encoder })
}

/// Relies on `gif::Encoder::set_repeat` with `Repeat::Infinite`: writes the
/// extension that makes the animation loop forever; writing into memory it
/// does not fail.
#[verifier::external_body]
fn loop_forever(e: &mut GifSink) -> (r: Result<(), gif::EncodingError>)
    requires
        gif_frames(*old(e)).len() == 0,
        !gif_screen(*old(e)).2,
    ensures
        r is Ok,
        r is Ok ==> gif_frames(*final(e)) == gif_frames(*old(e)) && gif_screen(*final(e)) == (
            gif_screen(*old(e)).0,
            gif_screen(*old(e)).1,
            true,
        ),
{
    e.encoder.set_repeat(gif::Repeat::Infinite)
}

/// Relies on `gif::Frame::from_rgb`, which reduces the pixels to a palette
/// of their own and panics unless there are `width * height * 3` bytes, and
/// on `gif::Encoder::write_frame`, which appends the frame; such a frame has
/// a full buffer and its own palette, so writing it into memory does not fail.
#[verifier::external_body]
fn write_rgb_frame(e: &mut GifSink, width: u16, height: u16, rgb: &Vec<u8>, delay: u16) -> (r:
    Result<(), gif::EncodingError>)
    requires
        rgb@.len() == width as int * height as int * 3,
    ensures
        r is Ok,
        r is Ok ==> gif_frames(*final(e)) == gif_frames(*old(e)).push((delay, width, height, rgb@))
            && gif_screen(*final(e)) == gif_screen(*old(e)),
{
    let mut frame = gif::Frame::from_rgb(width, height, rgb);
    frame.delay = delay;
    e.encoder.write_frame(&frame)
}

/// Relies on `gif::Encoder::into_inner`: writes the trailer into memory and
/// hands back the buffer.
#[verifier::external_body]
fn finish_gif(e: GifSink) -> (r: Option<Vec<u8>>)
    ensures
        r is Some,
        r is Some ==> r->Some_0@ == gif_bytes(gif_screen(e), gif_frames(e)),
{
    e.encoder.into_inner().ok()
}

/// Why no animation came out.
#[derive(Debug, Clone, Copy, PartialEq, Eq, Structural)]
pub enum AssemblyError {
    /// There is no frame.
    NoFrames,
    /// A frame's size differs from the first one's, its pixel data does not
    /// match its size, or the size exceeds what the format holds.
    FrameSize,
    /// The encoder failed; encoding into memory does not.
    Encoding,
}

/// The RGB bytes of the first `p` pixels of RGBA data.
pub open spec fn rgb_prefix(rgba: Seq<u8>, p: nat) -> Seq<u8>
    decreases p,
{
    if p == 0 {
        Seq::empty()
    } else {
        let q = (p - 1) as nat;
        let b = 4 * q as int;
        rgb_prefix(rgba, q) + seq![rgba[b], rgba[b + 1], rgba[b + 2]]
    }
}

/// RGBA data with the alpha byte of each pixel dropped.
pub open spec fn rgb_of(rgba: Seq<u8>) -> Seq<u8> {
    rgb_prefix(rgba, rgba.len() / 4)
}

proof fn lemma_rgb_prefix_len(rgba: Seq<u8>, p: nat)
    ensures
        rgb_prefix(rgba, p).len() == 3 * p,
    decreases p,
{
    if p > 0 {
        lemma_rgb_prefix_len(rgba, (p - 1) as nat);
    }
}

/// Drops the alpha byte of each pixel; the format has no transparency.
pub fn rgba_to_rgb(rgba: &Vec<u8>) -> (r: Vec<u8>)
    ensures
        r@ == rgb_of(rgba@),
{
    let len = rgba.len();
    let n = len / 4;
    let mut out: Vec<u8> = Vec::new();
    let mut p: usize = 0;
    while p < n
        invariant
            len == rgba@.len(),
            n == len / 4,
            p <= n,
            out@ == rgb_prefix(rgba@, p as nat),
        decreases n - p,
    {
        assert(4 * p + 3 < len);
        let b = 4 * p;
        out.push(rgba[b]);
        out.push(rgba[b + 1]);
        out.push(rgba[b + 2]);
        assert(out@ =~= rgb_prefix(rgba@, (p + 1) as nat));
        p = p + 1;
    }
    out
}

/// The display time of a frame in hundredths of a second, as the format
/// stores it: the delay in ms divided by ten, capped at the largest value
/// that 16 bits hold.
pub open spec fn delay_cs_of(frame_delay_ms: u64) -> u16 {
    if frame_delay_ms / 10 > u16::MAX {
        u16::MAX
    } else {
        (frame_delay_ms / 10) as u16
    }
}

pub fn frame_delay_cs(frame_delay_ms: u64) -> (r: u16)
    ensures
        r == delay_cs_of(frame_delay_ms),
{
    let cs = frame_delay_ms / 10;
    if cs > u16::MAX as u64 {
        u16::MAX
    } else {
        cs as u16
    }
}

/// Whether pixels have the given size and four bytes per pixel.
pub open spec fn fits(p: PixelBuffer, width: u32, height: u32) -> bool {
    &&& p.width == width
    &&& p.height == height
    &&& p.rgba@.len() == width as int * height as int * 4
}

/// Whether frames can make an animation: at least one, all of the first
/// one's size, which fits in 16 bits each way.
pub open spec fn frames_fit(frames: Seq<CapturedFrame>) -> bool {
    &&& frames.len() > 0
    &&& frames[0].pixels.width <= u16::MAX
    &&& frames[0].pixels.height <= u16::MAX
    &&& forall|k: int|
        0 <= k < frames.len() ==> fits(
            #[trigger] frames[k].pixels,
            frames[0].pixels.width,
            frames[0].pixels.height,
        )
}

/// What the encoder is handed for the first `k` frames.
pub open spec fn frame_log(frames: Seq<CapturedFrame>, delay_cs: u16, k: int) -> Seq<
    (u16, u16, u16, Seq<u8>),
> {
    Seq::new(
        k as nat,
        |i: int|
            (
                delay_cs,
                frames[i].pixels.width as u16,
                frames[i].pixels.height as u16,
                rgb_of(frames[i].pixels.rgba@),
            ),
    )
}

/// The GIF that frames make, looping forever, every frame shown for the
/// same time.
pub open spec fn animation_of(frames: Seq<CapturedFrame>, frame_delay_ms: u64) -> Seq<u8> {
    gif_bytes(
        (frames[0].pixels.width as u16, frames[0].pixels.height as u16, true),
        frame_log(frames, delay_cs_of(frame_delay_ms), frames.len() as int),
    )
}

fn check_sizes(frames: &Vec<CapturedFrame>) -> (r: bool)
    requires
        frames@.len() > 0,
    ensures
        r == frames_fit(frames@),
{
    let w = frames[0].pixels.width;
    let h = frames[0].pixels.height;
    if w > 0xffff || h > 0xffff {
        return false;
    }
    let mut k: usize = 0;
    while k < frames.len()
        invariant
            k <= frames@.len(),
            w == frames@[0].pixels.width,
            h == frames@[0].pixels.height,
            w <= 0xffff,
            h <= 0xffff,
            forall|j: int| 0 <= j < k ==> fits(#[trigger] frames@[j].pixels, w, h),
        decreases frames@.len() - k,
    {
        let p = &frames[k].pixels;
        assert(w as u128 * h as u128 <= 0xffff * 0xffff) by (nonlinear_arith)
            requires
                w <= 0xffff,
                h <= 0xffff,
        ;
        let want: u128 = w as u128 * h as u128 * 4;
        if p.width != w || p.height != h || p.rgba.len() as u128 != want {
            assert(!fits(frames@[k as int].pixels, w, h));
            return false;
        }
        k = k + 1;
    }
    true
}

/// Encodes frames as a GIF that loops forever, each frame shown for the
/// frame delay divided by ten in hundredths of a second, alpha dropped.
pub fn assemble_gif(frames: &Vec<CapturedFrame>, frame_delay_ms: u64) -> (r: Result<Vec<u8>, AssemblyError>)
    ensures
        frames@.len() == 0 ==> r == Err::<Vec<u8>, AssemblyError>(AssemblyError::NoFrames),
        frames@.len() > 0 && !frames_fit(frames@) ==> r == Err::<Vec<u8>, AssemblyError>(
            AssemblyError::FrameSize,
        ),
        frames_fit(frames@) ==> r is Ok,
        r matches Ok(b) ==> frames_fit(frames@) && b@ == animation_of(frames@, frame_delay_ms),
{
    if frames.len() == 0 {
        return Err(AssemblyError::NoFrames);
    }
    if !check_sizes(frames) {
        return Err(AssemblyError::FrameSize);
    }
    let w = frames[0].pixels.width as u16;
    let h = frames[0].pixels.height as u16;
    let delay = frame_delay_cs(frame_delay_ms);
    let mut enc = match gif_encoder(w, h) {
        Ok(e) => e,
        Err(_) => return Err(AssemblyError::Encoding),
    };
    match loop_forever(&mut enc) {
        Ok(()) => {},
        Err(_) => return Err(AssemblyError::Encoding),
    }
    let mut k: usize = 0;
    while k < frames.len()
        invariant
            k <= frames@.len(),
            frames_fit(frames@),
            w == frames@[0].pixels.width as u16,
            h == frames@[0].pixels.height as u16,
            delay == delay_cs_of(frame_delay_ms),
            gif_screen(enc) == (w, h, true),
            gif_frames(enc) =~= frame_log(frames@, delay, k as int),
        decreases frames@.len() - k,
    {
        let rgb = rgba_to_rgb(&frames[k].pixels.rgba);
        proof {
            let p = frames@[k as int].pixels;
            assert(fits(p, frames@[0].pixels.width, frames@[0].pixels.height));
            let wh = p.width as int * p.height as int;
            assert(p.rgba@.len() / 4 == wh) by (nonlinear_arith)
                requires
                    p.rgba@.len() == wh * 4,
            ;
            lemma_rgb_prefix_len(p.rgba@, (p.rgba@.len() / 4) as nat);
        }
        match write_rgb_frame(&mut enc, w, h, &rgb, delay) {
            Ok(()) => {},
            Err(_) => return Err(AssemblyError::Encoding),
        }
        assert(gif_frames(enc) =~= frame_log(frames@, delay, k + 1));
        k = k + 1;
    }
    match finish_gif(enc) {
        Some(b) => Ok(b),
        None => Err(AssemblyError::Encoding),
    }
}

/// Assembling the same frames with the same delay twice gives the same bytes
/// (each assembly of fitting frames succeeds, with `animation_of` as bytes).
pub proof fn lemma_assembly_deterministic(
    frames: Seq<CapturedFrame>,
    frame_delay_ms: u64,
    first: Seq<u8>,
    second: Seq<u8>,
)
    requires
        first == animation_of(frames, frame_delay_ms),
        second == animation_of(frames, frame_delay_ms),
    ensures
        first == second,
{
}

/// At any rate of at least 2 millihertz each frame is shown for the frame
/// delay of that rate divided by ten, uncapped; slower rates give delays
/// beyond what the format holds.
pub proof fn lemma_display_time_of_rate(fps_millihertz: nat)
    requires
        fps_millihertz >= 2,
    ensures
        frame_delay_of(fps_millihertz) <= u64::MAX,
        delay_cs_of(frame_delay_of(fps_millihertz) as u64) as nat == frame_delay_of(fps_millihertz) / 10,
{
    let d = frame_delay_of(fps_millihertz);
    assert(d <= 500_000) by (nonlinear_arith)
        requires
            fps_millihertz >= 2,
            d == (2_000_000 + fps_millihertz) / (2 * fps_millihertz),
    ;
}

} // verus!
