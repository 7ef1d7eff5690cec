use gif_compressor::compress::CompressErrType;
use gif_compressor::ingest::PayloadFileFailType;
use gif_compressor::report::{compress_gif, failure_records, size_reports, FailureStage, NOTHING_COMPRESSED};

#[test]
fn nothing_compressed_fails_the_batch() {
    let fails = vec![("a.gif".to_string(), CompressErrType::CompressFail)];
    let r = compress_gif(&Vec::new(), &Vec::new(), &fails);
    assert!(matches!(r, Err(NOTHING_COMPRESSED)));
    assert_eq!(NOTHING_COMPRESSED, 10);
}

#[test]
fn size_reports_skip_unreadable_sizes() {
    let measured = vec![
        ("a.gif".to_string(), Some(100u64), Some(40u64)),
        ("b.gif".to_string(), None, Some(10u64)),
        ("c.gif".to_string(), Some(7u64), None),
        ("d.gif".to_string(), Some(9u64), Some(3u64)),
    ];
    let r = size_reports(&measured);
    assert_eq!(r.len(), 2);
    assert_eq!((r[0].filename.as_str(), r[0].raw_size, r[0].compressed_size), ("a.gif", 100, 40));
    assert_eq!((r[1].filename.as_str(), r[1].raw_size, r[1].compressed_size), ("d.gif", 9, 3));
}

#[test]
fn failures_list_ingestion_before_compression() {
    let upload = vec![("t.txt".to_string(), PayloadFileFailType::TypeMismatch), ("u".to_string(), PayloadFileFailType::FileErr)];
    let compression = vec![("v.gif".to_string(), CompressErrType::FileSystemFail)];
    let r = failure_records(&upload, &compression);
    assert_eq!(r.len(), 3);
    assert_eq!((r[0].filename.as_str(), r[0].stage, r[0].code), ("t.txt", FailureStage::Ingestion, 0));
    assert_eq!((r[1].filename.as_str(), r[1].stage, r[1].code), ("u", FailureStage::Ingestion, 1));
    assert_eq!((r[2].filename.as_str(), r[2].stage, r[2].code), ("v.gif", FailureStage::Compression, 1));
    assert_eq!(FailureStage::Compression.code(), 1);
}

#[test]
fn batch_counts_failures_of_both_stages() {
    let measured = vec![("a.gif".to_string(), Some(10u64), Some(4u64))];
    let upload = vec![("t.txt".to_string(), PayloadFileFailType::TypeMismatch)];
    let compression = vec![("b.gif".to_string(), CompressErrType::CompressFail)];
    let r = compress_gif(&measured, &upload, &compression).ok().unwrap();
    assert_eq!(r.success, 1);
    assert_eq!(r.fail, 2);
    assert_eq!(r.fail_detail.len(), 2);
    assert_eq!(r.success_detail.len(), 1);
}
