use mixyt::download::extract_video_id;

#[test]
fn test_extract_video_id() {
    assert_eq!(
        extract_video_id("https://www.youtube.com/watch?v=dQw4w9WgXcQ"),
        Some("dQw4w9WgXcQ".to_string())
    );
    assert_eq!(
        extract_video_id("https://youtu.be/dQw4w9WgXcQ"),
        Some("dQw4w9WgXcQ".to_string())
    );
    assert_eq!(
        extract_video_id("https://youtube.com/watch?v=abc123&t=10"),
        Some("abc123".to_string())
    );
}

#[test]
fn extract_video_id_rejects_other_hosts() {
    assert_eq!(extract_video_id("https://example.com/watch?v=abc"), None);
    assert_eq!(extract_video_id(""), None);
}

#[test]
fn extract_video_id_short_host_with_query() {
    assert_eq!(
        extract_video_id("https://youtu.be/xyz789?t=42"),
        Some("xyz789".to_string())
    );
}

#[test]
fn extract_video_id_long_host_without_parameter() {
    assert_eq!(extract_video_id("https://youtube.com/feed"), None);
}
