use canvas_lms::error::CanvasError;
use canvas_lms::pagination::{parse_pagination_info, PaginationInfo};

fn parse(h: &str) -> Result<PaginationInfo, CanvasError> {
    parse_pagination_info(Some(h.as_bytes()))
}

#[test]
fn next_and_last_links_are_extracted() {
    let info = parse(
        "<https://host/api/v1/courses?page=2>; rel=\"next\", <https://host/api/v1/courses?page=9>; rel=\"last\"",
    )
    .unwrap();
    assert_eq!(info.next_url.as_deref(), Some("https://host/api/v1/courses?page=2"));
    assert_eq!(info.last_url.as_deref(), Some("https://host/api/v1/courses?page=9"));
    assert_eq!(info.current_url, None);
    assert_eq!(info.prev_url, None);
    assert_eq!(info.first_url, None);
}

#[test]
fn all_five_relations_are_captured() {
    let info = parse(
        "<https://h/c?page=3>; rel=\"current\", <https://h/c?page=2>; rel=\"prev\", <https://h/c?page=4>; rel=\"next\", <https://h/c?page=1>; rel=\"first\", <https://h/c?page=9>; rel=\"last\"",
    )
    .unwrap();
    assert_eq!(info.current_url.as_deref(), Some("https://h/c?page=3"));
    assert_eq!(info.prev_url.as_deref(), Some("https://h/c?page=2"));
    assert_eq!(info.next_url.as_deref(), Some("https://h/c?page=4"));
    assert_eq!(info.first_url.as_deref(), Some("https://h/c?page=1"));
    assert_eq!(info.last_url.as_deref(), Some("https://h/c?page=9"));
}

#[test]
fn absent_header_means_single_page() {
    let info = parse_pagination_info(None).unwrap();
    assert_eq!(info.current_url, None);
    assert_eq!(info.next_url, None);
    assert_eq!(info.prev_url, None);
    assert_eq!(info.first_url, None);
    assert_eq!(info.last_url, None);
}

#[test]
fn unknown_relation_is_skipped() {
    let info = parse("<https://h/a>; rel=\"alternate\", <https://h/n>; rel=\"next\"").unwrap();
    assert_eq!(info.next_url.as_deref(), Some("https://h/n"));
    assert_eq!(info.current_url, None);
    assert_eq!(info.last_url, None);
    let only = parse("<https://h/a>; rel=\"alternate\"").unwrap();
    assert_eq!(only.next_url, None);
}

#[test]
fn unquoted_relation_is_a_format_error() {
    assert!(matches!(parse("<https://h/n>; rel=next"), Err(CanvasError::Pagination)));
}

#[test]
fn single_quoted_relation_is_a_format_error() {
    assert!(matches!(parse("<https://h/n>; rel='next'"), Err(CanvasError::Pagination)));
}

#[test]
fn relation_without_leading_space_is_a_format_error() {
    assert!(matches!(parse("<https://h/n>;rel=\"next\""), Err(CanvasError::Pagination)));
}

#[test]
fn entry_without_semicolon_is_a_format_error() {
    assert!(matches!(parse("<https://h/n> rel=\"next\""), Err(CanvasError::Pagination)));
}

#[test]
fn url_without_brackets_is_a_format_error() {
    assert!(matches!(parse("https://h/n; rel=\"next\""), Err(CanvasError::Pagination)));
}

#[test]
fn empty_header_is_a_format_error() {
    assert!(matches!(parse(""), Err(CanvasError::Pagination)));
}

#[test]
fn unreadable_header_is_a_format_error() {
    let bytes: &[u8] = &[0x3c, 0x68, 0xff, 0x3e, 0x3b, 0x20];
    assert!(matches!(parse_pagination_info(Some(bytes)), Err(CanvasError::Pagination)));
    assert!(matches!(parse("<https://h/é>; rel=\"next\""), Err(CanvasError::Pagination)));
}

#[test]
fn later_entry_wins_for_a_repeated_relation() {
    let info = parse("<https://h/1>; rel=\"next\", <https://h/2>; rel=\"next\"").unwrap();
    assert_eq!(info.next_url.as_deref(), Some("https://h/2"));
}

#[test]
fn whitespace_before_the_url_is_skipped() {
    let info = parse("<https://h/1>; rel=\"first\",\t <https://h/2>; rel=\"next\"").unwrap();
    assert_eq!(info.first_url.as_deref(), Some("https://h/1"));
    assert_eq!(info.next_url.as_deref(), Some("https://h/2"));
}

#[test]
fn empty_url_between_brackets_is_kept() {
    let info = parse("<>; rel=\"prev\"").unwrap();
    assert_eq!(info.prev_url.as_deref(), Some(""));
}

#[test]
fn new_info_has_no_links_and_set_link_records_one() {
    let mut info = PaginationInfo::new();
    assert_eq!(info.next_url, None);
    info.set_link(canvas_lms::pagination::Relation::Last, "https://h/9".to_string());
    assert_eq!(info.last_url.as_deref(), Some("https://h/9"));
    assert_eq!(info.next_url, None);
}
