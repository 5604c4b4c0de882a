use hls_bot::metadata::{
    download_outcome, media_filename, metadata_from_json, metadata_outcome, ExecError,
};

#[test]
fn reads_all_fields() {
    let m = metadata_from_json(
        "{\"title\":\"T\",\"uploader\":\"U\",\"duration\":123,\"filesize\":456,\"ext\":\"webm\"}",
    )
    .unwrap();
    assert_eq!(m.title, "T");
    assert_eq!(m.uploader, "U");
    assert_eq!(m.duration_seconds, 123);
    assert_eq!(m.filesize_bytes, 456);
    assert_eq!(m.file_extension, "webm");
}

#[test]
fn missing_numbers_default_to_zero() {
    let m = metadata_from_json("{\"title\":\"Sample\",\"uploader\":\"Bob\"}").unwrap();
    assert_eq!(m.duration_seconds, 0);
    assert_eq!(m.filesize_bytes, 0);
}

#[test]
fn missing_strings_default_to_placeholders() {
    let m = metadata_from_json("{}").unwrap();
    assert_eq!(m.title, "Untitled");
    assert_eq!(m.uploader, "Unknown");
    assert_eq!(m.file_extension, "mp4");
}

#[test]
fn mistyped_fields_fall_back_to_defaults() {
    let m = metadata_from_json("{\"title\":7,\"duration\":\"long\",\"filesize\":-1}").unwrap();
    assert_eq!(m.title, "Untitled");
    assert_eq!(m.duration_seconds, 0);
    assert_eq!(m.filesize_bytes, 0);
}

#[test]
fn malformed_json_is_a_parse_failure() {
    let r = metadata_from_json("not json at all {");
    assert!(matches!(r, Err(ExecError::MetadataParseFailed)));
}

#[test]
fn nonzero_exit_is_a_fetch_failure_with_stderr_cause() {
    let r = metadata_outcome(false, "{\"title\":\"T\"}", "tool blew up");
    match r {
        Err(ExecError::MetadataFetchFailed { cause }) => assert_eq!(cause, "tool blew up"),
        _ => panic!("a non-zero exit must be a fetch failure"),
    }
}

#[test]
fn clean_exit_reads_stdout() {
    let m = metadata_outcome(true, "{\"title\":\"T\"}", "").unwrap();
    assert_eq!(m.title, "T");
}

#[test]
fn download_outcome_reports_stderr() {
    assert!(download_outcome(true, "").is_ok());
    match download_outcome(false, "no such format") {
        Err(ExecError::DownloadFailed { cause }) => assert_eq!(cause, "no such format"),
        _ => panic!("a non-zero exit must be a download failure"),
    }
}

#[test]
fn media_filename_joins_title_and_extension() {
    let m = metadata_from_json("{\"title\":\"Sample\",\"ext\":\"webm\"}").unwrap();
    assert_eq!(media_filename(&m), "Sample.webm");
}
