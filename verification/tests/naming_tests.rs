use subtitle_pipeline::naming::{
    audio_temp_name, file_stem, final_srt_name, greet, sanitize_language, task_log_name,
    transcript_temp_name,
};
use subtitle_pipeline::strutil::{dec_str, str_contains, str_eq};

#[test]
fn file_stem_strips_directory_and_extension() {
    assert_eq!(file_stem("/videos/talk.mp4"), Some("talk".to_string()));
    assert_eq!(file_stem("C:\\media\\talk.mp4"), Some("talk".to_string()));
    assert_eq!(file_stem("talk.mp4"), Some("talk".to_string()));
    assert_eq!(file_stem("archive.tar.gz"), Some("archive.tar".to_string()));
    assert_eq!(file_stem("noext"), Some("noext".to_string()));
    assert_eq!(file_stem(".hidden"), Some(".hidden".to_string()));
    assert_eq!(file_stem("/videos/"), None);
    assert_eq!(file_stem(""), None);
}

#[test]
fn artifact_names_follow_the_task_id_and_stem() {
    assert_eq!(audio_temp_name("task7", "talk"), "task7_talk.wav");
    assert_eq!(transcript_temp_name("task7", "talk"), "task7_talk-original.srt");
    assert_eq!(task_log_name("task7"), "task7.log");
}

#[test]
fn final_name_carries_the_sanitized_language_only_on_request() {
    assert_eq!(final_srt_name("talk", "German", false), "talk.srt");
    assert_eq!(final_srt_name("talk", "German", true), "talk_German.srt");
    assert_eq!(
        final_srt_name("talk", "Brazilian Portuguese", true),
        "talk_Brazilian_Portuguese.srt"
    );
}

#[test]
fn language_sanitizing_replaces_spaces() {
    assert_eq!(sanitize_language("zh TW"), "zh_TW");
    assert_eq!(sanitize_language("French"), "French");
    assert_eq!(sanitize_language(""), "");
}

#[test]
fn greeting_text() {
    assert_eq!(greet("Ada"), "Hello, Ada! You've been greeted from Rust!");
}

#[test]
fn decimal_formatting() {
    assert_eq!(dec_str(0), "0");
    assert_eq!(dec_str(7), "7");
    assert_eq!(dec_str(42), "42");
    assert_eq!(dec_str(600), "600");
    assert_eq!(dec_str(123456789), "123456789");
}

#[test]
fn string_equality_and_search() {
    assert!(str_eq("abc", "abc"));
    assert!(!str_eq("abc", "abd"));
    assert!(!str_eq("abc", "ab"));
    assert!(str_contains("connection 401 refused", "401"));
    assert!(str_contains("abc", ""));
    assert!(!str_contains("abc", "abcd"));
    assert!(str_contains("abcd", "bcd"));
    assert!(!str_contains("abcd", "bd"));
}
