use server::filename::{
    attachment_content_disposition, sanitize_filename, MAX_FILENAME_CHARS,
};

#[test]
fn keeps_a_safe_media_name() {
    assert_eq!(sanitize_filename("Lecture 01.mp4"), "Lecture 01.mp4");
    assert_eq!(sanitize_filename("clip.WEBM"), "clip.WEBM");
}

#[test]
fn replaces_unsafe_characters_and_adds_extension() {
    assert_eq!(sanitize_filename("a/b:c"), "a_b_c.mp4");
    assert_eq!(sanitize_filename("课程 录像"), "课程 录像.mp4");
    assert_eq!(sanitize_filename("notes.txt"), "notes.txt.mp4");
}

#[test]
fn removes_parent_markers_and_trims() {
    assert_eq!(sanitize_filename("../../etc/passwd"), "etc_passwd.mp4");
    assert_eq!(sanitize_filename("  ..name.mp4.. "), "name.mp4");
}

#[test]
fn empty_names_become_the_default() {
    assert_eq!(sanitize_filename(""), "video.mp4");
    assert_eq!(sanitize_filename(" ._ "), "video.mp4");
    assert_eq!(sanitize_filename("///"), "video.mp4");
}

#[test]
fn long_names_are_bounded() {
    let long = "x".repeat(500);
    let sanitized = sanitize_filename(&long);
    assert_eq!(sanitized.chars().count(), MAX_FILENAME_CHARS);
    assert!(sanitized.ends_with(".mp4"));
    let long_media = format!("{}.mov", "y".repeat(300));
    let kept = sanitize_filename(&long_media);
    assert!(kept.chars().count() <= MAX_FILENAME_CHARS);
    assert!(kept.ends_with(".mp4"));
}

#[test]
fn content_disposition_has_fallback_and_encoded_name() {
    assert_eq!(
        attachment_content_disposition("Lecture 01.mp4"),
        "attachment; filename=\"Lecture 01.mp4\"; filename*=UTF-8''Lecture%2001.mp4"
    );
    assert_eq!(
        attachment_content_disposition("课.mp4"),
        "attachment; filename=\"mp4\"; filename*=UTF-8''%E8%AF%BE.mp4"
    );
    let value = attachment_content_disposition("报告\"\n.mp4");
    assert!(value.chars().all(|c| (' '..='~').contains(&c)));
}

#[test]
fn sanitising_twice_changes_nothing() {
    let long_dotted = format!("{}.{}.txt", "a".repeat(115), "b".repeat(10));
    let once = sanitize_filename(&long_dotted);
    assert_eq!(once, format!("{}..mp4", "a".repeat(115)));
    assert_eq!(sanitize_filename(&once), once);
    for name in ["", "..", "lecture.MP4", "a/b\\c?.mkv", "  week 1 .. notes ", "视频 第一讲.webm", "x.tar.gz"] {
        let once = sanitize_filename(name);
        assert_eq!(sanitize_filename(&once), once);
    }
}
