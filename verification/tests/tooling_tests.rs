use vodlib::meta::{
    build_channel_section_urls, classify_update_output, cookie_args, normalize_channel_base_url,
    quality_to_format, resolve_override, UpdateStatus,
};

// =========================================================
// resolve_override
// =========================================================

#[test]
fn resolve_override_some_path() {
    assert_eq!(
        resolve_override(Some("/usr/bin/yt-dlp".to_string())),
        Some("/usr/bin/yt-dlp".to_string())
    );
}

#[test]
fn resolve_override_none() {
    assert_eq!(resolve_override(None), None);
}

#[test]
fn resolve_override_empty_string() {
    assert_eq!(resolve_override(Some("".to_string())), None);
}

#[test]
fn resolve_override_whitespace_only() {
    assert_eq!(resolve_override(Some("   ".to_string())), None);
}

#[test]
fn resolve_override_trimmed() {
    assert_eq!(
        resolve_override(Some("  /path/bin  ".to_string())),
        Some("/path/bin".to_string())
    );
}

// =========================================================
// cookie_args
// =========================================================

#[test]
fn apply_cookies_browser_mode() {
    let args = cookie_args(Some("browser"), None, Some("chrome"));
    assert!(args.contains(&"--cookies-from-browser".to_string()));
    assert!(args.contains(&"chrome".to_string()));
}

#[test]
fn apply_cookies_file_mode() {
    let args = cookie_args(Some("file"), Some("/cookies.txt"), None);
    assert!(args.contains(&"--cookies".to_string()));
    assert!(args.contains(&"/cookies.txt".to_string()));
}

#[test]
fn apply_cookies_implicit_file() {
    let args = cookie_args(Some(""), Some("/cookies.txt"), None);
    assert!(args.contains(&"--cookies".to_string()));
}

#[test]
fn apply_cookies_no_source_no_file() {
    let args = cookie_args(None, None, None);
    assert!(args.is_empty());
}

#[test]
fn apply_cookies_browser_empty_name() {
    let args = cookie_args(Some("browser"), Some("/file.txt"), Some(""));
    // No browser argument comes out because the browser name is empty.
    assert!(!args.contains(&"--cookies-from-browser".to_string()));
}

// =========================================================
// quality_to_format
// =========================================================

#[test]
fn quality_format_audio() {
    assert_eq!(quality_to_format(Some("audio")), "bestaudio[ext=m4a]/bestaudio");
}

#[test]
fn quality_format_720p() {
    assert_eq!(
        quality_to_format(Some("720p")),
        "bestvideo[height<=720][ext=mp4][vcodec^=avc1]+bestaudio[ext=m4a]/best[height<=720][ext=mp4][vcodec^=avc1]"
    );
}

#[test]
fn quality_format_default() {
    assert_eq!(
        quality_to_format(None),
        "bestvideo[ext=mp4][vcodec^=avc1]+bestaudio[ext=m4a]/best[ext=mp4][vcodec^=avc1]"
    );
    assert_eq!(quality_to_format(Some("unknown")), quality_to_format(None));
}

// =========================================================
// channel address helpers
// =========================================================

#[test]
fn normalize_channel_url_strips_videos() {
    assert_eq!(
        normalize_channel_base_url("https://www.youtube.com/@chan/videos"),
        "https://www.youtube.com/@chan"
    );
}

#[test]
fn normalize_channel_url_strips_live_and_slash() {
    assert_eq!(
        normalize_channel_base_url("https://www.youtube.com/@chan/live/"),
        "https://www.youtube.com/@chan"
    );
}

#[test]
fn normalize_channel_url_plain_kept() {
    assert_eq!(
        normalize_channel_base_url("https://www.youtube.com/@chan"),
        "https://www.youtube.com/@chan"
    );
}

#[test]
fn channel_section_urls_four_sections() {
    let urls = build_channel_section_urls("https://www.youtube.com/@chan/");
    assert_eq!(urls.len(), 4);
    assert_eq!(urls[0], "https://www.youtube.com/@chan/videos");
    assert_eq!(urls[1], "https://www.youtube.com/@chan/streams");
    assert_eq!(urls[2], "https://www.youtube.com/@chan/live");
    assert_eq!(urls[3], "https://www.youtube.com/@chan/shorts");
}

// =========================================================
// update-output classification
// =========================================================

#[test]
fn update_output_up_to_date() {
    assert_eq!(
        classify_update_output(true, "yt-dlp is up to date (2026.01.01)", ""),
        UpdateStatus::UpToDate
    );
}

#[test]
fn update_output_updated() {
    assert_eq!(
        classify_update_output(true, "Updated yt-dlp to 2026.01.31", ""),
        UpdateStatus::Updated
    );
}

#[test]
fn update_output_failed() {
    assert_eq!(classify_update_output(false, "", "boom"), UpdateStatus::Failed);
}
