use videocaster::browse::ignore;
use videocaster::by_metadata::{encode, format_url};
use videocaster::common::VideoRef;

#[test]
fn title_search_url_is_encoded() {
    let url = format_url("The Matrix", None, None);
    assert_eq!(
        url,
        "https://rest.opensubtitles.org/search/query-The%20Matrix/sublanguageid-eng"
    );
}

#[test]
fn season_and_episode_are_appended() {
    let url = format_url("a.b", Some("1"), Some("2"));
    assert_eq!(
        url,
        "https://rest.opensubtitles.org/search/query-a%20b/sublanguageid-eng/season-1/episode-2"
    );
}

#[test]
fn encode_replaces_dots_and_slashes_then_percent_encodes() {
    assert_eq!(encode("a.b/c"), "a%20b%20c");
    assert_eq!(encode("abc123"), "abc123");
    assert_eq!(encode(""), "");
}

#[test]
fn encode_escapes_non_alphanumeric_characters() {
    assert_eq!(encode("a b"), "a%20b");
    assert_eq!(encode("a&b"), "a%26b");
}

#[test]
fn unescape_restores_dots_and_slashes() {
    let v = VideoRef {
        escaped_path: "%2Fhome%2Fuser%2Fvideo%2Emp4".to_string(),
    };
    assert_eq!(v.unescape(), "/home/user/video.mp4");
}

#[test]
fn unescape_leaves_other_text_alone() {
    let v = VideoRef {
        escaped_path: "plain name".to_string(),
    };
    assert_eq!(v.unescape(), "plain name");
}

#[test]
fn hidden_entries_are_ignored() {
    assert!(ignore(".test", false));
    assert!(ignore(".test", true));
}

#[test]
fn directories_are_kept_unless_hidden() {
    assert!(!ignore("video", false));
}

#[test]
fn files_need_a_video_extension() {
    assert!(ignore("video", true));
    assert!(!ignore("video.avi", true));
    assert!(!ignore("video.mkv", true));
    assert!(!ignore("video.mp4", true));
    assert!(!ignore("video.webm", true));
}
