use mjai_reviewer_service::analysis::analyzer_args;
use mjai_reviewer_service::errors::UploadError;
use mjai_reviewer_service::ingest::artifact_request_path;
use mjai_reviewer_service::ingest::concat_chunks;
use mjai_reviewer_service::ingest::join_path;
use mjai_reviewer_service::ingest::parse_multipart_fields;
use mjai_reviewer_service::ingest::read_player_id;
use mjai_reviewer_service::ingest::split_file_name;
use mjai_reviewer_service::ingest::unique_file_name;
use mjai_reviewer_service::ingest::Part;
use mjai_reviewer_service::text::parse_u64;
use mjai_reviewer_service::text::trim_str;
use mjai_reviewer_service::text::u64_to_string;

fn part(name: &str, filename: Option<&str>, chunks: Vec<Vec<u8>>) -> Part {
    Part {
        name: name.to_string(),
        filename: filename.map(|f| f.to_string()),
        chunks,
    }
}

#[test]
fn parse_u64_accepts_plain_numbers() {
    assert_eq!(parse_u64("0"), Some(0));
    assert_eq!(parse_u64("123"), Some(123));
    assert_eq!(parse_u64("+42"), Some(42));
    assert_eq!(parse_u64("18446744073709551615"), Some(u64::MAX));
}

#[test]
fn parse_u64_rejects_everything_else() {
    assert_eq!(parse_u64(""), None);
    assert_eq!(parse_u64("+"), None);
    assert_eq!(parse_u64("abc"), None);
    assert_eq!(parse_u64("12a"), None);
    assert_eq!(parse_u64(" 5"), None);
    assert_eq!(parse_u64("5 "), None);
    assert_eq!(parse_u64("-3"), None);
    assert_eq!(parse_u64("18446744073709551616"), None);
}

#[test]
fn u64_renders_in_decimal() {
    assert_eq!(u64_to_string(0), "0");
    assert_eq!(u64_to_string(7), "7");
    assert_eq!(u64_to_string(1234567890), "1234567890");
    assert_eq!(u64_to_string(u64::MAX), "18446744073709551615");
}

#[test]
fn trim_removes_surrounding_whitespace() {
    assert_eq!(trim_str(" 3 "), "3");
    assert_eq!(trim_str("\t\n a b \r\n"), "a b");
    assert_eq!(trim_str("   "), "");
    assert_eq!(trim_str(""), "");
    assert_eq!(trim_str("\u{a0}x\u{3000}"), "x");
}

#[test]
fn split_takes_the_last_dot() {
    assert_eq!(split_file_name("report.mjson"), ("report".to_string(), "mjson".to_string()));
    assert_eq!(split_file_name("archive.tar.gz"), ("archive.tar".to_string(), "gz".to_string()));
    assert_eq!(split_file_name("noext"), ("noext".to_string(), "".to_string()));
    assert_eq!(split_file_name("trailing."), ("trailing".to_string(), "".to_string()));
}

#[test]
fn split_handles_hidden_and_degenerate_names() {
    assert_eq!(split_file_name(".hidden"), (".hidden".to_string(), "".to_string()));
    assert_eq!(split_file_name("..a"), (".".to_string(), "a".to_string()));
    assert_eq!(split_file_name(""), ("file".to_string(), "".to_string()));
    assert_eq!(split_file_name("."), ("file".to_string(), "".to_string()));
    assert_eq!(split_file_name(".."), ("file".to_string(), "".to_string()));
}

#[test]
fn unique_name_combines_stem_time_and_extension() {
    assert_eq!(unique_file_name("report.mjson", 123456), "report_123456.mjson");
    assert_eq!(unique_file_name("notes", 9), "notes_9.");
}

#[test]
fn unique_name_sanitizes_traversal_attempts() {
    // the path separators are gone, the rest of the name survives
    assert_eq!(unique_file_name("../evil.txt", 5), "..evil_5.txt");
    assert_eq!(unique_file_name("a/b\\c.txt", 5), "abc_5.txt");
}

#[test]
fn join_path_inserts_one_separator() {
    assert_eq!(join_path("uploads", "a.txt"), "uploads/a.txt");
    assert_eq!(join_path("uploads/", "a.txt"), "uploads/a.txt");
    assert_eq!(join_path("", "a.txt"), "a.txt");
}

#[test]
fn chunks_concatenate_in_order() {
    let r = concat_chunks(&vec![b"ab".to_vec(), vec![], b"c".to_vec()]);
    assert_eq!(r, b"abc".to_vec());
    assert_eq!(concat_chunks(&vec![]), Vec::<u8>::new());
}

#[test]
fn player_id_is_decoded_and_trimmed() {
    assert_eq!(read_player_id(&vec![b"  4".to_vec(), b"2 \n".to_vec()]), "42");
    assert_eq!(read_player_id(&vec![]), "");
}

#[test]
fn player_id_decodes_invalid_bytes_lossily() {
    assert_eq!(read_player_id(&vec![vec![0xff]]), "\u{fffd}");
}

#[test]
fn upload_round_trip_stores_content_under_unique_name() {
    let body = vec![
        part("player_id", None, vec![b"3".to_vec()]),
        part(
            "file",
            Some("report.mjson"),
            vec![b"{\"round\":1}".to_vec(), b"{\"round\":2}".to_vec()],
        ),
    ];
    let plan = parse_multipart_fields(&body, 777, "uploads").unwrap();
    assert_eq!(plan.player_id, "3");
    assert_eq!(plan.stored_path, "uploads/report_777.mjson");
    assert_eq!(plan.content, b"{\"round\":1}{\"round\":2}".to_vec());
    let args = analyzer_args(&plan.stored_path, &plan.player_id);
    assert_eq!(args, vec!["-e", "mortal", "-i", "uploads/report_777.mjson", "-a", "3"]);
}

#[test]
fn artifact_lookup_rejects_traversal_names() {
    assert_eq!(
        artifact_request_path("uploads", "report_7.mjson.html").as_deref(),
        Some("uploads/report_7.mjson.html")
    );
    assert_eq!(artifact_request_path("uploads", "../secret"), None);
    assert_eq!(artifact_request_path("uploads", "a/b.html"), None);
    assert_eq!(artifact_request_path("uploads", "a\\b.html"), None);
    assert_eq!(artifact_request_path("uploads", ".."), None);
    assert_eq!(artifact_request_path("uploads", "."), None);
    assert_eq!(artifact_request_path("uploads", ""), None);
}

#[test]
fn body_without_file_field_is_rejected() {
    let body = vec![part("player_id", None, vec![b"3".to_vec()])];
    let r = parse_multipart_fields(&body, 1, "uploads");
    assert_eq!(r.unwrap_err(), UploadError::MissingFile);
}

#[test]
fn empty_body_is_rejected() {
    let r = parse_multipart_fields(&vec![], 1, "uploads");
    assert_eq!(r.unwrap_err(), UploadError::MissingFile);
}

#[test]
fn file_without_filename_is_rejected() {
    let body = vec![part("file", None, vec![b"x".to_vec()])];
    let r = parse_multipart_fields(&body, 1, "uploads");
    assert_eq!(r.unwrap_err(), UploadError::MissingFilename);
}

#[test]
fn unknown_fields_are_ignored_and_identifier_defaults() {
    let body = vec![
        part("comment", None, vec![b"hi".to_vec()]),
        part("file", Some("a.txt"), vec![b"x".to_vec()]),
    ];
    let plan = parse_multipart_fields(&body, 2, "uploads").unwrap();
    assert_eq!(plan.player_id, "0");
    assert_eq!(plan.stored_path, "uploads/a_2.txt");
    assert_eq!(plan.content, b"x".to_vec());
}

#[test]
fn later_fields_override_earlier_ones() {
    let body = vec![
        part("player_id", None, vec![b"1".to_vec()]),
        part("file", Some("a.txt"), vec![b"first".to_vec()]),
        part("player_id", None, vec![b"2".to_vec()]),
        part("file", Some("b.txt"), vec![b"second".to_vec()]),
    ];
    let plan = parse_multipart_fields(&body, 3, "uploads").unwrap();
    assert_eq!(plan.player_id, "2");
    assert_eq!(plan.stored_path, "uploads/b_3.txt");
    assert_eq!(plan.content, b"second".to_vec());
}
