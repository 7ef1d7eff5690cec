use gif_compressor::package::{
    build_archive, compress_result_download, ends_with, find_outputs, DownloadPlan, ListingError,
};
use gif_compressor::session::AppState;
use std::io::Read;

fn live_state() -> (AppState, String) {
    let mut state = AppState::new();
    state.insert_session("sid".to_string(), 0);
    (state, "sid".to_string())
}

fn names(v: &[&str]) -> Vec<String> {
    v.iter().map(|s| s.to_string()).collect()
}

#[test]
fn ends_with_matches_suffixes() {
    assert!(ends_with("a-compressed.gif", "-compressed.gif"));
    assert!(ends_with("-compressed.gif", "-compressed.gif"));
    assert!(!ends_with("a.gif", "-compressed.gif"));
    assert!(!ends_with("gif", "-compressed.gif"));
}

#[test]
fn find_outputs_keeps_marked_names_in_order() {
    let found = find_outputs(&"./gifs/sid".to_string(), &names(&["b-compressed.gif", "b.gif", "a-compressed.gif"]));
    assert_eq!(found.len(), 2);
    assert_eq!(found[0].name, "b-compressed.gif");
    assert_eq!(found[0].path, "./gifs/sid/b-compressed.gif");
    assert_eq!(found[1].name, "a-compressed.gif");
}

#[test]
fn download_without_a_live_session_is_bad() {
    let (state, _) = live_state();
    assert!(matches!(compress_result_download(&state, &None, Ok(Vec::new())), DownloadPlan::BadRequest));
    let other = Some("nope".to_string());
    assert!(matches!(compress_result_download(&state, &other, Ok(Vec::new())), DownloadPlan::BadRequest));
}

#[test]
fn download_listing_errors() {
    let (state, id) = live_state();
    let c = Some(id);
    assert!(matches!(compress_result_download(&state, &c, Err(ListingError::NotFound)), DownloadPlan::NotFound));
    assert!(matches!(compress_result_download(&state, &c, Err(ListingError::Other)), DownloadPlan::InternalError));
    assert!(matches!(compress_result_download(&state, &c, Ok(names(&["a.gif"]))), DownloadPlan::NotFound));
}

#[test]
fn one_output_is_served_as_it_is() {
    let (state, id) = live_state();
    match compress_result_download(&state, &Some(id), Ok(names(&["a.gif", "a-compressed.gif"]))) {
        DownloadPlan::Single(f) => {
            assert_eq!(f.name, "a-compressed.gif");
            assert_eq!(f.path, "./gifs/sid/a-compressed.gif");
        },
        _ => panic!("expected a single file"),
    }
}

#[test]
fn several_outputs_are_bundled_in_one_archive() {
    let (state, id) = live_state();
    let plan = compress_result_download(&state, &Some(id), Ok(names(&["a-compressed.gif", "a.gif", "b-compressed.gif"])));
    let files = match plan {
        DownloadPlan::Archive(v) => v,
        _ => panic!("expected an archive"),
    };
    assert_eq!(files.len(), 2);
    let members: Vec<(String, Vec<u8>)> =
        files.iter().enumerate().map(|(i, f)| (f.name.clone(), vec![i as u8; 5])).collect();
    let bytes = build_archive(&members).ok().unwrap();
    assert_eq!(build_archive(&members).ok().unwrap(), bytes);
    let mut archive = zip::ZipArchive::new(std::io::Cursor::new(bytes)).unwrap();
    assert_eq!(archive.len(), 2);
    assert_eq!(archive.by_index(0).unwrap().name(), "a-compressed.gif");
    let mut entry = archive.by_name("b-compressed.gif").unwrap();
    assert_eq!(entry.compression(), zip::CompressionMethod::Stored);
    let mut content = Vec::new();
    entry.read_to_end(&mut content).unwrap();
    assert_eq!(content, vec![1u8; 5]);
}

#[test]
fn an_archive_of_no_members_is_empty() {
    let bytes = build_archive(&Vec::new()).ok().unwrap();
    let archive = zip::ZipArchive::new(std::io::Cursor::new(bytes)).unwrap();
    assert_eq!(archive.len(), 0);
}

#[test]
fn an_empty_member_is_kept() {
    let members = vec![("e.gif".to_string(), Vec::new()), ("f.gif".to_string(), vec![7u8, 8])];
    let bytes = build_archive(&members).ok().unwrap();
    let mut archive = zip::ZipArchive::new(std::io::Cursor::new(bytes)).unwrap();
    assert_eq!(archive.len(), 2);
    assert_eq!(archive.by_name("e.gif").unwrap().size(), 0);
    assert_eq!(archive.by_name("f.gif").unwrap().size(), 2);
}
