use vstd::prelude::*;
use vstd::string::*;
use image::{AnimationDecoder, ImageDecoder};
use crate::paths::{join, joined};

verus! {

/// Why one file could not be recompressed; the rest of the batch goes on.
#[derive(Debug, Clone, Copy, PartialEq, Eq, Structural)]
pub enum CompressErrType {
    CompressFail,
    FileSystemFail,
}

impl CompressErrType {
    /// The numeric code that responses carry for this error.
    pub fn code(&self) -> (r: u32)
        ensures
            r == match *self {
                CompressErrType::CompressFail => 0u32,
                CompressErrType::FileSystemFail => 1u32,
            },
    {
        match *self {
            CompressErrType::CompressFail => 0,
            CompressErrType::FileSystemFail => 1,
        }
    }
}

/// image's error type, which the decoding wrapper hands back.
#[verifier::external_type_specification]
#[verifier::external_body]
pub struct ExImageError(image::ImageError);

/// gif's encoding error type, which the encoder wrappers hand back.
#[verifier::external_type_specification]
#[verifier::external_body]
pub struct ExEncodingError(gif::EncodingError);

/// std's I/O error type, which finishing an encoding hands back.
#[verifier::external_type_specification]
#[verifier::external_body]
pub struct ExIoError(std::io::Error);

/// A GIF encoder that writes into memory. It is held opaque because Verus refuses a
/// declaration of gif's `Encoder`, whose writer parameter is bound by an I/O trait.
#[verifier::external_body]
struct GifSink {
    encoder: gif::Encoder<Vec<u8>>,
}

/// What decoding `data` as an animated GIF gives: the screen width and height and
/// the RGBA pixels of each frame in order, or `None` when it is no readable GIF.
pub uninterp spec fn gif_decoding(data: Seq<u8>) -> Option<(u32, u32, Seq<Seq<u8>>)>;

/// The RGBA pixels of a `width` x `height` image, read from `pixels`, resampled to
/// `new_width` x `new_height` by nearest-neighbour sampling.
pub uninterp spec fn nearest_resized(
    pixels: Seq<u8>,
    width: u32,
    height: u32,
    new_width: u32,
    new_height: u32,
) -> Seq<u8>;

/// The views of a list of byte buffers.
pub open spec fn buffers(v: Seq<Vec<u8>>) -> Seq<Seq<u8>> {
    v.map_values(|b: Vec<u8>| b@)
}

/// The byte length of a `width` x `height` RGBA image.
pub open spec fn rgba_len(width: int, height: int) -> int {
    4 * width * height
}

/// Relies on image's `GifDecoder::new`, `ImageDecoder::dimensions` and
/// `AnimationDecoder::into_frames` with `Frames::collect_frames`: decoding is a
/// function of the bytes, and the screen size comes from the GIF's 16-bit fields.
/// The steps stand in one item because Verus refuses a declaration of
/// `GifDecoder`, whose reader parameter is bound by an I/O trait.
#[verifier::external_body]
fn decode_gif(data: &Vec<u8>) -> (r: Result<(u32, u32, Vec<Vec<u8>>), image::ImageError>)
    ensures
        r is Ok <==> gif_decoding(data@) is Some,
        r matches Ok(d) ==> {
            &&& gif_decoding(data@) == Some((d.0, d.1, buffers(d.2@)))
            &&& d.0 <= u16::MAX
            &&& d.1 <= u16::MAX
        },
{
    let decoder = image::codecs::gif::GifDecoder::new(std::io::Cursor::new(data.clone()))?;
    let (width, height) = decoder.dimensions();
    let frames = decoder.into_frames().collect_frames()?;
    Ok((width, height, frames.into_iter().map(|f| f.into_buffer().into_raw()).collect()))
}

/// Relies on image's `imageops::resize` with `FilterType::Nearest`, reached through
/// `ImageBuffer::from_raw`, which refuses a buffer shorter than `4 * width * height`
/// bytes; the resized image is `new_width` x `new_height`. Shrinking an image that
/// fits its buffer neither overflows a buffer length nor samples outside it.
#[verifier::external_body]
fn resize_nearest(pixels: &Vec<u8>, width: u32, height: u32, new_width: u32, new_height: u32) -> (r:
    Option<Vec<u8>>)
    requires
        new_width <= width,
        new_height <= height,
    ensures
        r is Some <==> rgba_len(width as int, height as int) <= pixels@.len(),
        r matches Some(p) ==> {
            &&& p@ == nearest_resized(pixels@, width, height, new_width, new_height)
            &&& p@.len() == rgba_len(new_width as int, new_height as int)
        },
{
    image::ImageBuffer::<image::Rgba<u8>, Vec<u8>>::from_raw(width, height, pixels.clone()).map(
        |img| image::imageops::resize(&img, new_width, new_height, image::imageops::FilterType::Nearest).into_raw(),
    )
}

/// The bytes that an encoder has written so far.
pub uninterp spec fn sink_bytes(s: GifSink) -> Seq<u8>;

/// A 16-bit value, little-endian.
pub open spec fn le16(x: u16) -> Seq<u8> {
    seq![(x % 256) as u8, (x / 256) as u8]
}

/// What gif's encoder writes first for a `width` x `height` screen with a global
/// colour table of two colours, `palette`: the `GIF89a` signature, the screen
/// descriptor (sizes, a flags byte that announces a two-entry global table, no
/// background index, no aspect ratio), then the table itself.
pub open spec fn gif_preamble(width: u16, height: u16, palette: Seq<u8>) -> Seq<u8> {
    seq![0x47u8, 0x49u8, 0x46u8, 0x38u8, 0x39u8, 0x61u8] + le16(width) + le16(height) + seq![0x80u8, 0x00u8, 0x00u8]
        + palette
}

/// What gif's encoder writes for one frame made from `width` x `height` RGBA
/// pixels: its control extension, image descriptor, local colour table and
/// compressed data.
pub uninterp spec fn rgba_frame_block(width: u16, height: u16, pixels: Seq<u8>) -> Seq<u8>;

/// The application extension that makes an animation loop forever.
pub open spec fn loop_forever_block() -> Seq<u8> {
    seq![0x21u8, 0xFFu8, 0x0Bu8]
        + seq![0x4Eu8, 0x45u8, 0x54u8, 0x53u8, 0x43u8, 0x41u8, 0x50u8, 0x45u8, 0x32u8, 0x2Eu8, 0x30u8]
        + seq![0x03u8, 0x01u8, 0x00u8, 0x00u8, 0x00u8]
}

/// The byte that ends a GIF stream.
pub open spec fn gif_trailer() -> u8 {
    0x3Bu8
}

/// Relies on gif's `Encoder::new`, writing into memory. With a two-colour palette
/// the colour-table check passes and the writes go to a `Vec`, so it succeeds
/// and has written the preamble.
#[verifier::external_body]
fn gif_encoder(width: u16, height: u16, palette: &[u8]) -> (r: Result<GifSink, gif::EncodingError>)
    requires
        palette@.len() == 6,
    ensures
        r is Ok,
        r matches Ok(s) ==> sink_bytes(s) == gif_preamble(width, height, palette@),
{
    gif::Encoder::new(Vec::new(), width, height, palette).map(|encoder| GifSink { encoder })
}

/// Relies on gif's `Encoder::set_repeat` with `Repeat::Infinite`, which writes the
/// NETSCAPE2.0 application extension with a loop count of 0; writing to a `Vec`
/// does not fail.
#[verifier::external_body]
fn loop_forever(sink: &mut GifSink) -> (r: Result<(), gif::EncodingError>)
    ensures
        r is Ok,
        r is Ok ==> sink_bytes(*final(sink)) == sink_bytes(*old(sink)) + loop_forever_block(),
{
    sink.encoder.set_repeat(gif::Repeat::Infinite)
}

/// Relies on gif's `Frame::from_rgba`, which panics unless the buffer holds exactly
/// `4 * width * height` bytes, and on `Encoder::write_frame`, which writes the frame
/// with the local colour table that `from_rgba` always gives it. Both stand in one
/// item so that the frame is named by the pixels it was made from. The frame's
/// index buffer has one byte per pixel and its palette at most 256 colours, so
/// `write_frame` passes its checks, and writing to a `Vec` does not fail.
#[verifier::external_body]
fn write_rgba_frame(sink: &mut GifSink, width: u16, height: u16, pixels: &Vec<u8>) -> (r: Result<(), gif::EncodingError>)
    requires
        pixels@.len() == rgba_len(width as int, height as int),
    ensures
        r is Ok,
        r is Ok ==> sink_bytes(*final(sink)) == sink_bytes(*old(sink)) + rgba_frame_block(width, height, pixels@),
{
    let frame = gif::Frame::from_rgba(width, height, &mut pixels.clone());
    sink.encoder.write_frame(&frame)
}

/// Relies on gif's `Encoder::into_inner`, which writes the trailer byte and hands
/// back the bytes written; the writer is still held, so it succeeds.
#[verifier::external_body]
fn finish_encoding(sink: GifSink) -> (r: Result<Vec<u8>, std::io::Error>)
    ensures
        r is Ok,
        r matches Ok(b) ==> b@ == sink_bytes(sink).push(gif_trailer()),
{
    sink.encoder.into_inner()
}

/// The global colour table of every output: black, then white.
pub open spec fn two_color_palette() -> Seq<u8> {
    seq![0u8, 0u8, 0u8, 255u8, 255u8, 255u8]
}

/// The blocks of `frames`, each `width` x `height` RGBA pixels, in order.
pub open spec fn frame_blocks(width: u16, height: u16, frames: Seq<Seq<u8>>) -> Seq<u8>
    decreases frames.len(),
{
    if frames.len() == 0 {
        Seq::empty()
    } else {
        frame_blocks(width, height, frames.drop_last()) + rgba_frame_block(width, height, frames.last())
    }
}

/// The GIF that encodes `frames` on a `width` x `height` screen with the
/// black-and-white global palette, looping forever.
pub open spec fn two_color_gif(width: u16, height: u16, frames: Seq<Seq<u8>>) -> Seq<u8> {
    (gif_preamble(width, height, two_color_palette()) + loop_forever_block() + frame_blocks(width, height, frames)).push(
        gif_trailer(),
    )
}

/// Each frame of a `width` x `height` animation halved in both dimensions by
/// nearest-neighbour sampling; `None` when some frame holds fewer pixels than the
/// screen size asks for.
pub open spec fn halved_frames(width: u32, height: u32, frames: Seq<Seq<u8>>) -> Option<Seq<Seq<u8>>> {
    if forall|i: int| 0 <= i < frames.len() ==> rgba_len(width as int, height as int) <= #[trigger] frames[i].len() {
        Some(frames.map_values(|f: Seq<u8>| nearest_resized(f, width, height, width / 2, height / 2)))
    } else {
        None
    }
}

/// Halves every frame of a `width` x `height` animation by nearest-neighbour
/// sampling, in order. Fails with `CompressFail` exactly when some frame holds
/// fewer pixels than the screen size asks for; no partial result is kept.
pub fn halve_frames(width: u32, height: u32, frames: &Vec<Vec<u8>>) -> (r: Result<Vec<Vec<u8>>, CompressErrType>)
    ensures
        r is Err <==> halved_frames(width, height, buffers(frames@)) is None,
        r matches Err(e) ==> e == CompressErrType::CompressFail,
        r matches Ok(v) ==> halved_frames(width, height, buffers(frames@)) == Some(buffers(v@)),
        r matches Ok(v) ==> forall|i: int| 0 <= i < v@.len() ==> (#[trigger] v@[i])@.len() == rgba_len((width / 2) as int, (height / 2) as int),
{
    let mut out: Vec<Vec<u8>> = Vec::new();
    let mut i: usize = 0;
    while i < frames.len()
        invariant
            0 <= i <= frames@.len(),
            out@.len() == i,
            forall|j: int| 0 <= j < i ==> rgba_len(width as int, height as int) <= #[trigger] frames@[j]@.len(),
            forall|j: int| 0 <= j < i ==> (#[trigger] out@[j])@ == nearest_resized(frames@[j]@, width, height, width / 2, height / 2),
            forall|j: int| 0 <= j < i ==> (#[trigger] out@[j])@.len() == rgba_len((width / 2) as int, (height / 2) as int),
        decreases frames@.len() - i,
    {
        match resize_nearest(&frames[i], width, height, width / 2, height / 2) {
            Some(p) => out.push(p),
            None => {
                proof {
                    assert(buffers(frames@)[i as int].len() < rgba_len(width as int, height as int));
                }
                return Err(CompressErrType::CompressFail);
            },
        }
        i = i + 1;
    }
    proof {
        let fs = buffers(frames@);
        assert forall|j: int| 0 <= j < fs.len() implies rgba_len(width as int, height as int) <= #[trigger] fs[j].len() by {
            assert(fs[j] == frames@[j]@);
        }
        assert(buffers(out@) =~= fs.map_values(|f: Seq<u8>| nearest_resized(f, width, height, width / 2, height / 2)));
    }
    Ok(out)
}

/// Encodes `frames`, each `width` x `height` RGBA pixels, as a GIF that loops
/// forever and has the black-and-white global palette.
fn encode_two_color(width: u16, height: u16, frames: &Vec<Vec<u8>>) -> (r: Result<Vec<u8>, CompressErrType>)
    requires
        forall|i: int| 0 <= i < frames@.len() ==> (#[trigger] frames@[i])@.len() == rgba_len(width as int, height as int),
    ensures
        r matches Ok(b) && b@ == two_color_gif(width, height, buffers(frames@)),
{
    let palette: Vec<u8> = vec![0u8, 0u8, 0u8, 255u8, 255u8, 255u8];
    assert(palette@ =~= two_color_palette());
    let mut sink = match gif_encoder(width, height, palette.as_slice()) {
        Ok(s) => s,
        Err(_) => return Err(CompressErrType::CompressFail),
    };
    if loop_forever(&mut sink).is_err() {
        return Err(CompressErrType::CompressFail);
    }
    let ghost head = gif_preamble(width, height, two_color_palette()) + loop_forever_block();
    let mut i: usize = 0;
    while i < frames.len()
        invariant
            0 <= i <= frames@.len(),
            forall|j: int| 0 <= j < frames@.len() ==> (#[trigger] frames@[j])@.len() == rgba_len(width as int, height as int),
            sink_bytes(sink) == head + frame_blocks(width, height, buffers(frames@.subrange(0, i as int))),
        decreases frames@.len() - i,
    {
        if write_rgba_frame(&mut sink, width, height, &frames[i]).is_err() {
            return Err(CompressErrType::CompressFail);
        }
        proof {
            let next = buffers(frames@.subrange(0, i as int + 1));
            assert(next.drop_last() =~= buffers(frames@.subrange(0, i as int)));
            assert(next.last() == frames@[i as int]@);
            assert(head + frame_blocks(width, height, next) =~= head + frame_blocks(width, height, next.drop_last())
                + rgba_frame_block(width, height, frames@[i as int]@));
        }
        i = i + 1;
    }
    proof {
        assert(frames@.subrange(0, frames@.len() as int) =~= frames@);
    }
    match finish_encoding(sink) {
        Ok(bytes) => Ok(bytes),
        Err(_) => Err(CompressErrType::CompressFail),
    }
}

/// The position of the last `.` in `name`, or -1 when there is none.
pub open spec fn last_dot(name: Seq<char>) -> int
    decreases name.len(),
{
    if name.len() == 0 {
        -1
    } else if name.last() == '.' {
        name.len() - 1
    } else {
        last_dot(name.drop_last())
    }
}

proof fn lemma_last_dot_bounds(name: Seq<char>)
    ensures
        -1 <= last_dot(name) < name.len(),
    decreases name.len(),
{
    if name.len() > 0 {
        lemma_last_dot_bounds(name.drop_last());
    }
}

/// The stem of a file name: the part before its last `.`, or the whole name when
/// it has no `.` or only a leading one.
pub open spec fn stem_of(name: Seq<char>) -> Seq<char> {
    if last_dot(name) <= 0 {
        name
    } else {
        name.subrange(0, last_dot(name))
    }
}

/// The name of the output made from `raw_name`: its stem, the suffix, `.gif`.
pub open spec fn output_name_of(raw_name: Seq<char>, suffix: Seq<char>) -> Seq<char> {
    stem_of(raw_name) + suffix + ".gif"@
}

/// The stem of the file name `name`.
pub fn file_stem(name: &String) -> (r: String)
    ensures
        r@ == stem_of(name@),
{
    let s = name.as_str();
    let n = s.unicode_len();
    let mut found: bool = false;
    let mut last: usize = 0;
    let mut i: usize = 0;
    while i < n
        invariant
            n == s@.len(),
            s@ == name@,
            0 <= i <= n,
            found == (last_dot(s@.subrange(0, i as int)) >= 0),
            found ==> last == last_dot(s@.subrange(0, i as int)),
            n <= usize::MAX,
        decreases n - i,
    {
        proof {
            lemma_last_dot_bounds(s@.subrange(0, i as int));
            assert(s@.subrange(0, i as int + 1).drop_last() =~= s@.subrange(0, i as int));
        }
        if s.get_char(i) == '.' {
            found = true;
            last = i;
        }
        i = i + 1;
    }
    proof {
        assert(s@.subrange(0, n as int) =~= s@);
        lemma_last_dot_bounds(s@);
    }
    if !found || last == 0 {
        name.clone()
    } else {
        String::from_str(s.substring_char(0, last))
    }
}

/// The name of the output made from the upload `raw_name` with `suffix`.
pub fn output_name(raw_name: &String, suffix: &String) -> (r: String)
    ensures
        r@ == output_name_of(raw_name@, suffix@),
{
    let mut r = file_stem(raw_name);
    r.append(suffix.as_str());
    r.append(".gif");
    r
}

/// The recompression of the GIF `raw`: its frames halved and encoded with the
/// black-and-white palette on a screen of half the size; empty when `raw` is no
/// GIF or has a frame smaller than its screen.
pub open spec fn compressed_gif_of(raw: Seq<u8>) -> Seq<u8> {
    match gif_decoding(raw) {
        Some(d) => match halved_frames(d.0, d.1, d.2) {
            Some(h) => two_color_gif((d.0 / 2) as u16, (d.1 / 2) as u16, h),
            None => Seq::empty(),
        },
        None => Seq::empty(),
    }
}

/// Recompressing the same bytes twice with the same name, directory and suffix:
/// when both runs succeed they give the same path and byte-for-byte the same
/// output, as `compress` states both as functions of its arguments.
pub proof fn lemma_compress_deterministic(
    raw: Seq<u8>,
    raw_name: Seq<char>,
    dir: Seq<char>,
    suffix: Seq<char>,
    first: CompressedGif,
    second: CompressedGif,
)
    requires
        first.bytes@ == compressed_gif_of(raw),
        second.bytes@ == compressed_gif_of(raw),
        first.path@ == joined(dir, output_name_of(raw_name, suffix)),
        second.path@ == joined(dir, output_name_of(raw_name, suffix)),
    ensures
        first.bytes@ == second.bytes@,
        first.path@ == second.path@,
{
}

/// A recompressed GIF: where it belongs and its bytes.
pub struct CompressedGif {
    pub path: String,
    pub bytes: Vec<u8>,
}

/// Recompresses the GIF `raw`, uploaded as `raw_name`: decodes every frame, halves
/// each by nearest-neighbour sampling and encodes the result with the
/// black-and-white palette, looping forever. The output belongs at
/// `{result_save_dir}/{stem}{suffix}.gif`. It succeeds exactly when `raw` decodes
/// as a GIF whose frames all fill the screen; otherwise it gives `CompressFail`.
/// The output bytes are a function of the input bytes alone: compressing the same
/// GIF twice gives the same output.
pub fn compress(raw_name: &String, raw: &Vec<u8>, result_save_dir: &String, suffix: &String) -> (r: Result<
    CompressedGif,
    CompressErrType,
>)
    ensures
        r matches Err(e) ==> e == CompressErrType::CompressFail,
        r is Ok <==> (gif_decoding(raw@) matches Some(d) && halved_frames(d.0, d.1, d.2) is Some),
        r matches Ok(out) ==> {
            &&& gif_decoding(raw@) matches Some(d) && halved_frames(d.0, d.1, d.2) is Some
            &&& out.path@ == joined(result_save_dir@, output_name_of(raw_name@, suffix@))
            &&& out.bytes@ == compressed_gif_of(raw@)
        },
{
    let (width, height, frames) = match decode_gif(raw) {
        Ok(d) => d,
        Err(_) => return Err(CompressErrType::CompressFail),
    };
    let halved = halve_frames(width, height, &frames)?;
    let bytes = encode_two_color((width / 2) as u16, (height / 2) as u16, &halved)?;
    let path = join(result_save_dir, &output_name(raw_name, suffix));
    Ok(CompressedGif { path, bytes })
}

} // verus!
