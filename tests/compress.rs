use gif_compressor::compress::{compress, file_stem, halve_frames, output_name, CompressErrType};
use gif_compressor::ingest::{PayloadFileFailType, PayloadSave, UploadPolicy};
use gif_compressor::report::{compress_gif, FailureStage};

/// A looping GIF of `frames` frames, each `width` x `height`, with many colours.
fn sample_gif(width: u16, height: u16, frames: usize) -> Vec<u8> {
    let mut out = Vec::new();
    {
        let mut encoder = gif::Encoder::new(&mut out, width, height, &[]).unwrap();
        encoder.set_repeat(gif::Repeat::Infinite).unwrap();
        for k in 0..frames {
            let mut pixels = Vec::with_capacity(width as usize * height as usize * 4);
            for y in 0..height as usize {
                for x in 0..width as usize {
                    pixels.push(((x * 7 + k * 13) % 256) as u8);
                    pixels.push(((y * 5 + x * 3) % 256) as u8);
                    pixels.push(((x * y + k) % 256) as u8);
                    pixels.push(255);
                }
            }
            let frame = gif::Frame::from_rgba(width, height, &mut pixels);
            encoder.write_frame(&frame).unwrap();
        }
    }
    out
}

fn screen_and_palette(bytes: &[u8]) -> (u16, u16, usize, usize) {
    let mut options = gif::DecodeOptions::new();
    options.set_color_output(gif::ColorOutput::Indexed);
    let mut decoder = options.read_info(bytes).unwrap();
    let palette_len = decoder.global_palette().map(|p| p.len()).unwrap_or(0);
    let mut count = 0;
    while decoder.read_next_frame().unwrap().is_some() {
        count += 1;
    }
    (decoder.width(), decoder.height(), palette_len, count)
}

#[test]
fn ten_frame_gif_is_halved_with_a_two_color_palette() {
    let raw = sample_gif(100, 100, 10);
    let out = compress(&"anim.gif".to_string(), &raw, &"./gifs/s".to_string(), &"-compressed".to_string())
        .ok()
        .unwrap();
    assert_eq!(out.path, "./gifs/s/anim-compressed.gif");
    let (w, h, palette_len, frames) = screen_and_palette(&out.bytes);
    assert_eq!((w, h), (50, 50));
    assert_eq!(palette_len, 6);
    assert_eq!(frames, 10);
    let reduction = (1.0 - out.bytes.len() as f64 / raw.len() as f64) * 100.0;
    assert!(reduction > 0.0);
}

#[test]
fn compressing_twice_gives_identical_bytes() {
    let raw = sample_gif(40, 30, 3);
    let a = compress(&"x.gif".to_string(), &raw, &"d".to_string(), &"-compressed".to_string()).ok().unwrap();
    let b = compress(&"x.gif".to_string(), &raw, &"d".to_string(), &"-compressed".to_string()).ok().unwrap();
    assert_eq!(a.bytes, b.bytes);
    assert_eq!(a.path, b.path);
}

#[test]
fn bytes_that_are_no_gif_fail_to_compress() {
    let raw = b"not a gif at all".to_vec();
    let r = compress(&"x.gif".to_string(), &raw, &"d".to_string(), &"-compressed".to_string());
    assert!(matches!(r, Err(CompressErrType::CompressFail)));
}

#[test]
fn halve_frames_refuses_a_short_frame() {
    let frames = vec![vec![0u8; 4 * 4 * 4], vec![0u8; 10]];
    assert!(matches!(halve_frames(4, 4, &frames), Err(CompressErrType::CompressFail)));
}

#[test]
fn halve_frames_takes_every_other_pixel() {
    let mut pixels = Vec::new();
    for i in 0..16u8 {
        pixels.extend_from_slice(&[i, i, i, 255]);
    }
    let out = halve_frames(4, 4, &vec![pixels]).ok().unwrap();
    assert_eq!(out.len(), 1);
    assert_eq!(out[0].len(), 2 * 2 * 4);
    assert_ne!(out[0], vec![0u8; 16]);
}

#[test]
fn file_stems() {
    assert_eq!(file_stem(&"cat.gif".to_string()), "cat");
    assert_eq!(file_stem(&"a.b.gif".to_string()), "a.b");
    assert_eq!(file_stem(&".hidden".to_string()), ".hidden");
    assert_eq!(file_stem(&"noext".to_string()), "noext");
    assert_eq!(file_stem(&"trail.".to_string()), "trail");
    assert_eq!(output_name(&"cat.gif".to_string(), &"-compressed".to_string()), "cat-compressed.gif");
}

#[test]
fn compress_error_codes() {
    assert_eq!(CompressErrType::CompressFail.code(), 0);
    assert_eq!(CompressErrType::FileSystemFail.code(), 1);
}

#[test]
fn mixed_upload_reports_one_success_and_one_type_mismatch() {
    let mut upload = PayloadSave::start(1000, "./gifs/s".to_string(), UploadPolicy::gif_uploads()).ok().unwrap();
    assert!(upload.on_part(Some("text/plain".to_string()), Some("readme.txt".to_string())).is_none());
    let dest = upload.on_part(Some("image/gif".to_string()), Some("anim.gif".to_string())).unwrap();
    upload.on_stored(dest);
    let (accepted, upload_fails) = upload.finish().ok().unwrap();
    assert_eq!(accepted.len(), 1);

    let raw = sample_gif(100, 100, 10);
    let out = compress(&"anim.gif".to_string(), &raw, &"./gifs/s".to_string(), &"-compressed".to_string())
        .ok()
        .unwrap();
    let measured = vec![("anim.gif".to_string(), Some(raw.len() as u64), Some(out.bytes.len() as u64))];
    let report = compress_gif(&measured, &upload_fails, &Vec::new()).ok().unwrap();
    assert_eq!(report.success, 1);
    assert_eq!(report.fail, 1);
    assert_eq!(report.fail_detail[0].filename, "readme.txt");
    assert_eq!(report.fail_detail[0].stage, FailureStage::Ingestion);
    assert_eq!(report.fail_detail[0].code, PayloadFileFailType::TypeMismatch.code());
    assert!(report.success_detail[0].compressed_size < report.success_detail[0].raw_size);
}
