use aegis::display::{display_socket, reserve_display_name};
use aegis::paths::{extension, file_name, join_path, parent, PathFacts};
use aegis::transfers::{
    infer_mime_type, mime_for_extension, resolve_transfer_paths, sanitize_component,
    stage_upload_file, stage_upload_file_at, upload_payload,
};
use aegis::AegisStatePaths;

#[test]
fn resolves_default_transfer_paths_inside_aegis_home() {
    let paths = resolve_transfer_paths(None, None, &AegisStatePaths::at("/state".into()));
    assert_eq!(paths.download_dir, "/state/files/downloads");
    assert_eq!(paths.upload_dir, "/state/files/uploads");
    let own = resolve_transfer_paths(
        Some("/d".into()),
        Some("/u".into()),
        &AegisStatePaths::at("/state".into()),
    );
    assert_eq!((own.download_dir.as_str(), own.upload_dir.as_str()), ("/d", "/u"));
}

#[test]
fn stages_upload_files_in_target_directory() {
    let staged = stage_upload_file("/tmp/my file?.pdf", true, "/tmp/uploads")
        .expect("upload should stage");
    assert_eq!(staged.source_path, "/tmp/my file?.pdf");
    assert!(staged.staged_path.starts_with("/tmp/uploads/"));
    assert!(staged.staged_path.ends_with("my_file_.pdf"));
}

#[test]
fn staged_names_start_with_the_time() {
    let staged = stage_upload_file_at("/tmp/a.txt", true, "/up", 12).expect("a file");
    assert_eq!(staged.staged_path, "/up/12-a.txt");
    assert_eq!(
        stage_upload_file_at("/tmp/dir", false, "/up", 12).err(),
        Some("upload path /tmp/dir is not a file".to_string())
    );
    let unnamed = stage_upload_file_at("/", true, "/up", 12).expect("a file");
    assert_eq!(unnamed.staged_path, "/up/12-upload.bin");
}

#[test]
fn names_are_made_plain() {
    assert_eq!(sanitize_component("my file?.pdf"), "my_file_.pdf");
    assert_eq!(sanitize_component("???"), "file");
    assert_eq!(sanitize_component("../x"), ".._x");
    for name in ["__a b__", "???", "my file?.pdf", "_", "a_b"] {
        let once = sanitize_component(name);
        assert!(!once.starts_with('_') && !once.ends_with('_'), "{name}");
        assert_eq!(sanitize_component(&once), once, "{name}");
    }
}

#[test]
fn media_types_follow_the_extension() {
    assert_eq!(mime_for_extension("PDF"), "application/pdf");
    assert_eq!(mime_for_extension("jpeg"), "image/jpeg");
    assert_eq!(mime_for_extension("xyz"), "application/octet-stream");
    assert_eq!(infer_mime_type("/a/b.csv").as_deref(), Some("text/csv"));
}

#[test]
fn uploads_carry_their_bytes_in_base64() {
    let payload = upload_payload("/tmp/hello.txt", b"Hello", Some(5));
    assert_eq!(payload.name, "hello.txt");
    assert_eq!(payload.base64, "SGVsbG8=");
    assert_eq!(payload.mime_type.as_deref(), Some("text/plain"));
    assert_eq!(payload.last_modified_ms, Some(5));
}

#[test]
fn paths_are_taken_apart_as_std_does() {
    assert_eq!(file_name("/a/b.txt").as_deref(), Some("b.txt"));
    assert_eq!(file_name("/a/.."), None);
    assert_eq!(extension("/a/b.tar.gz").as_deref(), Some("gz"));
    assert_eq!(extension("/a/.profile"), None);
    for path in ["/a/b", "/a/b.", "/a/.b.c", "a..b", "/a/..", "", "/", "x.y/z", ".", "..c", "é.ü"] {
        assert_eq!(
            extension(path).as_deref(),
            std::path::Path::new(path).extension().and_then(|e| e.to_str()),
            "{path}"
        );
    }
    assert_eq!(parent("/a/b").as_deref(), Some("/a"));
    assert_eq!(parent("a").as_deref(), Some(""));
    assert_eq!(parent("/"), None);
    for (base, part) in [("/a", "b"), ("/a/", "b"), ("", "b"), ("/a", "/b"), ("a", "")] {
        assert_eq!(
            join_path(base, part),
            std::path::Path::new(base).join(part).to_str().unwrap(),
            "{base} {part}"
        );
    }
}

#[test]
fn the_first_free_display_is_taken() {
    let facts = PathFacts { existing: vec![] };
    assert_eq!(reserve_display_name(&facts), Ok(":90".to_string()));
    let facts = PathFacts {
        existing: vec!["/tmp/.X11-unix/X90".into(), "/tmp/.X91-lock".into()],
    };
    assert_eq!(reserve_display_name(&facts), Ok(":92".to_string()));
    assert_eq!(display_socket(":92"), "/tmp/.X11-unix/X92");
    let all = PathFacts {
        existing: (90..200).map(|n| format!("/tmp/.X{n}-lock")).collect(),
    };
    assert!(reserve_display_name(&all).is_err());
}
