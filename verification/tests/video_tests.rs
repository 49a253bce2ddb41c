use videocaster::video::{accept_ranges_value, plan_not_found, plan_response, plan_seek_failed,
    plan_stat_failed, HttpStatus};

#[test]
fn accept_ranges_is_always_bytes() {
    assert_eq!(accept_ranges_value(), "bytes");
}

#[test]
fn first_of_several_ranges_served_as_partial_content() {
    let p = plan_response("bytes=500-600,601-999", 10000);
    assert_eq!(p.status.code(), 206);
    assert_eq!(p.offset, 500);
    assert_eq!(p.length, 101);
    assert_eq!(p.content_range.as_deref(), Some("bytes 500-600/10000"));
    assert!(p.content_encoding_identity);
    assert!(p.has_body);
}

#[test]
fn no_range_header_serves_whole_resource() {
    let p = plan_response("", 10000);
    assert_eq!(p.status.code(), 200);
    assert_eq!(p.offset, 0);
    assert_eq!(p.length, 10000);
    assert!(p.content_range.is_none());
    assert!(!p.content_encoding_identity);
    assert!(p.has_body);
}

#[test]
fn missing_resource_yields_404_without_body() {
    let p = plan_not_found();
    assert_eq!(p.status.code(), 404);
    assert!(!p.has_body);
    assert!(p.content_range.is_none());
}

#[test]
fn unreadable_size_yields_500_without_body() {
    let p = plan_stat_failed();
    assert_eq!(p.status.code(), 500);
    assert!(!p.has_body);
}

#[test]
fn unparseable_range_yields_416_with_star_content_range() {
    let p = plan_response("bytes=5-4", 10000);
    assert_eq!(p.status.code(), 416);
    assert_eq!(p.content_range.as_deref(), Some("bytes */10000"));
    assert_eq!(p.offset, 0);
    assert_eq!(p.length, 10000);
    assert!(p.has_body);
}

#[test]
fn full_explicit_range_yields_200_with_content_range() {
    let p = plan_response("bytes=0-", 10000);
    assert_eq!(p.status.code(), 200);
    assert_eq!(p.offset, 0);
    assert_eq!(p.length, 10000);
    assert_eq!(p.content_range.as_deref(), Some("bytes 0-9999/10000"));
    assert!(p.content_encoding_identity);
}

#[test]
fn open_ended_range_served_to_end() {
    let p = plan_response("bytes=9500-", 10000);
    assert_eq!(p.status.code(), 206);
    assert_eq!(p.offset, 9500);
    assert_eq!(p.length, 500);
    assert_eq!(p.content_range.as_deref(), Some("bytes 9500-9999/10000"));
}

#[test]
fn seek_failure_turns_plan_into_500_without_body() {
    let p = plan_response("bytes=500-600", 10000);
    let q = plan_seek_failed(p);
    assert_eq!(q.status.code(), 500);
    assert!(!q.has_body);
    assert_eq!(q.offset, 500);
    assert_eq!(q.length, 101);
    assert_eq!(q.content_range.as_deref(), Some("bytes 500-600/10000"));
}

#[test]
fn zero_length_first_range_serves_whole_resource() {
    let p = plan_response("bytes=-0", 10000);
    assert_eq!(p.status.code(), 200);
    assert_eq!(p.offset, 0);
    assert_eq!(p.length, 10000);
    assert!(p.content_range.is_none());
}

#[test]
fn status_codes_are_the_five_of_the_protocol() {
    assert_eq!(HttpStatus::Success.code(), 200);
    assert_eq!(HttpStatus::PartialContent.code(), 206);
    assert_eq!(HttpStatus::NotFound.code(), 404);
    assert_eq!(HttpStatus::RangeNotSatisfiable.code(), 416);
    assert_eq!(HttpStatus::InternalServerError.code(), 500);
}
