use gif_compressor::ingest::{declared_length, is_safe_file_name, PayloadFileFailType, PayloadSave, PayloadSaveErrType, UploadPolicy};
use gif_compressor::paths::{archive_path, join, session_dir};

fn policy(max_total_size: usize, max_file_count: usize) -> UploadPolicy {
    UploadPolicy { allowed_types: vec!["image/gif".to_string()], max_total_size, max_file_count }
}

#[test]
fn declared_length_reads_decimal_or_zero() {
    assert_eq!(declared_length(Some("123")), 123);
    assert_eq!(declared_length(Some("+7")), 7);
    assert_eq!(declared_length(Some("12a")), 0);
    assert_eq!(declared_length(Some("")), 0);
    assert_eq!(declared_length(Some("-1")), 0);
    assert_eq!(declared_length(None), 0);
}

#[test]
fn size_gate_rejects_a_declared_length_over_the_cap() {
    let r = PayloadSave::start(201, "./gifs/s".to_string(), policy(200, 10));
    assert!(matches!(r, Err(PayloadSaveErrType::SizeLimitExceed)));
    let r = PayloadSave::start(200, "./gifs/s".to_string(), policy(200, 10));
    assert!(r.is_ok());
}

#[test]
fn every_part_rejected_gives_file_not_attached() {
    let mut p = PayloadSave::start(10, "./gifs/s".to_string(), policy(200, 10)).ok().unwrap();
    assert!(p.on_part(Some("text/plain".to_string()), Some("a.txt".to_string())).is_none());
    assert!(p.on_part(None, Some("b.gif".to_string())).is_none());
    assert!(p.on_part(Some("image/gif".to_string()), None).is_none());
    assert!(matches!(p.finish(), Err(PayloadSaveErrType::FileNotAttached)));
}

#[test]
fn no_parts_at_all_gives_file_not_attached() {
    let p = PayloadSave::start(0, "./gifs/s".to_string(), policy(200, 10)).ok().unwrap();
    assert!(matches!(p.finish(), Err(PayloadSaveErrType::FileNotAttached)));
}

#[test]
fn one_accepted_part_makes_the_upload_succeed() {
    let mut p = PayloadSave::start(10, "./gifs/s".to_string(), policy(200, 10)).ok().unwrap();
    assert!(p.on_part(Some("text/plain".to_string()), Some("notes.txt".to_string())).is_none());
    let dest = p.on_part(Some("image/gif".to_string()), Some("cat.gif".to_string())).unwrap();
    assert_eq!(dest, "./gifs/s/cat.gif");
    p.on_stored(dest);
    let dest2 = p.on_part(Some("image/gif".to_string()), Some("dog.gif".to_string())).unwrap();
    p.on_store_failed("dog.gif".to_string());
    assert_eq!(dest2, "./gifs/s/dog.gif");
    let (accepted, rejected) = p.finish().ok().unwrap();
    assert_eq!(accepted, vec!["./gifs/s/cat.gif".to_string()]);
    assert_eq!(rejected.len(), 2);
    assert_eq!(rejected[0].0, "notes.txt");
    assert_eq!(rejected[0].1, PayloadFileFailType::TypeMismatch);
    assert_eq!(rejected[1].0, "dog.gif");
    assert_eq!(rejected[1].1, PayloadFileFailType::FileErr);
}

#[test]
fn missing_file_name_is_reported_empty() {
    let mut p = PayloadSave::start(10, "./gifs/s".to_string(), policy(200, 10)).ok().unwrap();
    assert!(p.on_part(Some("image/gif".to_string()), None).is_none());
    assert!(p.on_part(Some("text/html".to_string()), None).is_none());
    let dest = p.on_part(Some("image/gif".to_string()), Some("x.gif".to_string())).unwrap();
    p.on_stored(dest);
    let (_, rejected) = p.finish().ok().unwrap();
    assert_eq!(rejected, vec![
        (String::new(), PayloadFileFailType::FileErr),
        (String::new(), PayloadFileFailType::TypeMismatch),
    ]);
}

#[test]
fn file_count_cap_stops_the_stream() {
    let mut p = PayloadSave::start(10, "./gifs/s".to_string(), policy(200, 2)).ok().unwrap();
    assert!(p.wants_more());
    let d = p.on_part(Some("image/gif".to_string()), Some("a.gif".to_string())).unwrap();
    p.on_stored(d);
    assert!(p.on_part(Some("image/png".to_string()), Some("b.png".to_string())).is_none());
    assert!(p.wants_more());
    let d = p.on_part(Some("image/gif".to_string()), Some("c.gif".to_string())).unwrap();
    p.on_stored(d);
    assert!(!p.wants_more());
}

#[test]
fn gif_upload_policy_values() {
    let p = UploadPolicy::gif_uploads();
    assert_eq!(p.allowed_types, vec!["image/gif".to_string()]);
    assert_eq!(p.max_total_size, 200_000_000);
    assert_eq!(p.max_file_count, 10);
}

#[test]
fn error_codes() {
    assert_eq!(PayloadSaveErrType::SizeLimitExceed.code(), 0);
    assert_eq!(PayloadSaveErrType::FileNotAttached.code(), 1);
    assert_eq!(PayloadSaveErrType::FileSystemFail.code(), 3);
    assert_eq!(PayloadSaveErrType::ServerErr.code(), 4);
    assert_eq!(PayloadFileFailType::TypeMismatch.code(), 0);
    assert_eq!(PayloadFileFailType::FileErr.code(), 1);
}

#[test]
fn session_paths() {
    let id = "abc".to_string();
    assert_eq!(session_dir(&id), "./gifs/abc");
    assert_eq!(archive_path(&id), "./gifs/abc.zip");
    assert_eq!(join(&"d".to_string(), &"f.gif".to_string()), "d/f.gif");
}

#[test]
fn names_that_leave_the_directory_are_refused() {
    let mut p = PayloadSave::start(10, "./gifs/s".to_string(), policy(200, 10)).ok().unwrap();
    for bad in ["../x.gif", "a/b.gif", "..", ".", ""] {
        assert!(p.on_part(Some("image/gif".to_string()), Some(bad.to_string())).is_none());
    }
    let d = p.on_part(Some("image/gif".to_string()), Some("..x.gif".to_string())).unwrap();
    assert_eq!(d, "./gifs/s/..x.gif");
    p.on_stored(d);
    let (accepted, rejected) = p.finish().ok().unwrap();
    assert_eq!(accepted.len(), 1);
    assert_eq!(rejected.len(), 5);
    assert_eq!(rejected[0], ("../x.gif".to_string(), PayloadFileFailType::FileErr));
    assert!(rejected.iter().all(|r| r.1 == PayloadFileFailType::FileErr));
}

#[test]
fn safe_file_names() {
    assert!(is_safe_file_name(&"a.gif".to_string()));
    assert!(is_safe_file_name(&"...".to_string()));
    assert!(!is_safe_file_name(&"".to_string()));
    assert!(!is_safe_file_name(&".".to_string()));
    assert!(!is_safe_file_name(&"..".to_string()));
    assert!(!is_safe_file_name(&"x/y".to_string()));
}

#[test]
fn accepted_files_never_pass_the_cap() {
    let mut p = PayloadSave::start(10, "./gifs/s".to_string(), policy(200, 10)).ok().unwrap();
    let mut k = 0;
    while p.wants_more() {
        let d = p.on_part(Some("image/gif".to_string()), Some(format!("f{}.gif", k))).unwrap();
        p.on_stored(d);
        k += 1;
    }
    assert_eq!(k, 10);
    let (accepted, _) = p.finish().ok().unwrap();
    assert_eq!(accepted.len(), 10);
}
