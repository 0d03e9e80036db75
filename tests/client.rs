use canvas_lms::canvas::{
    account_users_endpoint, course_endpoint, user_courses_endpoint, user_endpoint, Canvas,
};
use canvas_lms::error::CanvasError;
use canvas_lms::paginator::Step;
use canvas_lms::timestamps::timestamp_text;

#[test]
fn valid_token_builds_a_client() {
    let c = Canvas::init("https://school.example", "abc123~XYZ").unwrap();
    assert_eq!(c.url_from_endpoint("courses"), "https://school.example/api/v1/courses");
}

#[test]
fn token_with_newline_is_a_configuration_error() {
    assert!(matches!(Canvas::init("https://school.example", "abc\n123"), Err(CanvasError::InvalidToken)));
}

#[test]
fn token_with_delete_character_is_a_configuration_error() {
    assert!(matches!(Canvas::init("https://school.example", "abc\u{7f}"), Err(CanvasError::InvalidToken)));
}

#[test]
fn bearer_value_carries_the_token() {
    assert_eq!(Canvas::bearer("tok"), "Bearer tok");
}

#[test]
fn endpoint_paths_hold_the_identifier() {
    assert_eq!(course_endpoint(12345), "courses/12345");
    assert_eq!(course_endpoint(0), "courses/0");
    assert_eq!(user_endpoint(7), "users/7");
    assert_eq!(user_courses_endpoint(42), "users/42/courses");
    assert_eq!(account_users_endpoint(4294967295), "accounts/4294967295/users");
}

#[test]
fn stream_endpoint_first_requests_the_endpoint_url() {
    let c = Canvas::init("https://school.example", "tok").unwrap();
    let mut p = c.stream_endpoint::<u32>("courses");
    assert!(matches!(p.poll(), Step::Fetch(u) if u == "https://school.example/api/v1/courses"));
}

#[test]
fn null_timestamp_text_is_missing() {
    assert_eq!(timestamp_text(Some("null".to_string())), None);
    assert_eq!(timestamp_text(None), None);
    assert_eq!(
        timestamp_text(Some("2024-01-02T03:04:05Z".to_string())),
        Some("2024-01-02T03:04:05Z".to_string())
    );
    assert_eq!(timestamp_text(Some("NULL".to_string())), Some("NULL".to_string()));
}
