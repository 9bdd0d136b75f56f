use drova_launcher::cache::cache_file_name;
use drova_launcher::cache::cache_flag_enabled;
use drova_launcher::cache::file_url;
use drova_launcher::cache::is_expired;

#[test]
fn test_cache_file_name_extension() {
    let name = cache_file_name("https://example.com/image.jpg?x=1");
    assert!(name.ends_with(".jpg"));
    assert!(name.len() > 10);
}

#[test]
fn test_cache_file_name_default_extension() {
    let name = cache_file_name("https://example.com/image");
    assert!(name.ends_with(".img"));
}

#[test]
fn test_cache_file_name_exact() {
    assert_eq!(
        cache_file_name("https://example.com/image.jpg?x=1"),
        "d3543bbd48fae987d8792e8f9d6663b77b99ad67.jpg"
    );
    assert_eq!(
        cache_file_name("https://example.com/image"),
        "abab9ab21cffb8eaa231263bb4e9694bee9be7d8.img"
    );
}

#[test]
fn test_cache_file_name_pure_and_query_sensitive() {
    let a1 = cache_file_name("https://example.com/image.jpg?x=1");
    let a2 = cache_file_name("https://example.com/image.jpg?x=1");
    assert_eq!(a1, a2);

    let b = cache_file_name("https://example.com/image.jpg?x=2");
    assert!(a1.ends_with(".jpg"));
    assert!(b.ends_with(".jpg"));
    assert_ne!(a1, b);
}

#[test]
fn test_cache_file_name_leading_dot_segment() {
    let name = cache_file_name("https://example.com/.hidden");
    assert!(name.ends_with(".img"));
}

#[test]
fn test_file_url() {
    let url = file_url("/tmp/test.png").unwrap();
    assert!(url.starts_with("file://"));
    assert_eq!(url, "file:///tmp/test.png");
}

#[test]
fn test_file_url_relative_path_fails() {
    assert!(file_url("relative/test.png").is_err());
}

#[test]
fn test_is_expired() {
    assert!(!is_expired(10, 60));
    assert!(is_expired(100, 60));
}

#[test]
fn test_is_expired_boundaries() {
    assert!(!is_expired(0, 24 * 60 * 60));
    assert!(!is_expired(60, 60));
    assert!(is_expired(61, 60));
}

#[test]
fn test_cache_flag_enabled() {
    assert!(cache_flag_enabled("1"));
    assert!(cache_flag_enabled(" true "));
    assert!(cache_flag_enabled("YES"));
    assert!(cache_flag_enabled("On"));
    assert!(!cache_flag_enabled(""));
    assert!(!cache_flag_enabled("0"));
    assert!(!cache_flag_enabled("off"));
}
