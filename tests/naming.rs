use podcast_summarize::download::{
    filename_from_url, id_decimal, model_file_name, model_url, transcript_file, truncate_filename,
};
use podcast_summarize::feed::{pick_audio_url, title_or_untitled, url_looks_audio, LinkRef, MediaRef};
use podcast_summarize::summarize::{completions_url, system_prompt, user_message, DEFAULT_SYSTEM_PROMPT};

#[test]
fn filename_strips_path_and_query() {
    assert_eq!(filename_from_url("https://cdn.ex.com/shows/ep12.mp3?token=abc"), "ep12.mp3");
    assert_eq!(filename_from_url("https://cdn.ex.com/ep.mp3"), "ep.mp3");
    assert_eq!(filename_from_url("ep.mp3"), "ep.mp3");
    assert_eq!(filename_from_url("https://cdn.ex.com/dir/"), "");
    assert_eq!(filename_from_url("https://ex.com/a?b/c.mp3"), "c.mp3");
}

#[test]
fn filename_truncated_for_display() {
    assert_eq!(truncate_filename("a-very-long-episode-file-name.mp3", 10), "a-very-...");
    assert_eq!(truncate_filename("short.mp3", 30), "short.mp3");
}

#[test]
fn completions_endpoint() {
    assert_eq!(completions_url("https://api.ex.com/v1/"), "https://api.ex.com/v1/chat/completions");
    assert_eq!(completions_url("https://api.ex.com/v1"), "https://api.ex.com/v1/chat/completions");
    assert_eq!(completions_url("https://api.ex.com/v1///"), "https://api.ex.com/v1/chat/completions");
}

#[test]
fn request_texts() {
    assert_eq!(user_message("hi"), "Here is the podcast transcript to summarize:\n\nhi");
    assert_eq!(system_prompt(Some("Be brief.")), "Be brief.");
    assert_eq!(system_prompt(None), DEFAULT_SYSTEM_PROMPT);
}

#[test]
fn audio_url_from_media_then_links() {
    let media = vec![
        MediaRef { url: Some("https://ex.com/cover.jpg".to_string()), mime_top: Some("image".to_string()) },
        MediaRef { url: None, mime_top: Some("audio".to_string()) },
        MediaRef { url: Some("https://ex.com/ep.m4a".to_string()), mime_top: None },
    ];
    let links = vec![LinkRef {
        href: "https://ex.com/link.mp3".to_string(),
        media_type: Some("audio/mpeg".to_string()),
        rel: None,
    }];
    assert_eq!(pick_audio_url(&media, &links).as_deref(), Some("https://ex.com/ep.m4a"));
    assert_eq!(pick_audio_url(&vec![], &links).as_deref(), Some("https://ex.com/link.mp3"));
    let enclosure = vec![
        LinkRef { href: "https://ex.com/page".to_string(), media_type: Some("text/html".to_string()), rel: None },
        LinkRef { href: "https://ex.com/x".to_string(), media_type: None, rel: Some("enclosure".to_string()) },
    ];
    assert_eq!(pick_audio_url(&vec![], &enclosure).as_deref(), Some("https://ex.com/x"));
    assert_eq!(pick_audio_url(&media[..2].to_vec(), &vec![]), None);
}

#[test]
fn audio_extensions_and_titles() {
    assert!(url_looks_audio("https://ex.com/a.ogg"));
    assert!(!url_looks_audio("https://ex.com/a.mp3?x=1"));
    assert_eq!(title_or_untitled(None), "Untitled");
    assert_eq!(title_or_untitled(Some("Pod".to_string())), "Pod");
}

#[test]
fn local_file_names() {
    assert_eq!(model_file_name("base"), "ggml-base.bin");
    assert_eq!(
        model_url("ggml-base.bin"),
        "https://huggingface.co/ggerganov/whisper.cpp/resolve/main/ggml-base.bin"
    );
    assert_eq!(transcript_file("/data/transcripts", 7, 42), "/data/transcripts/7/42.txt");
    assert_eq!(id_decimal(-12), "-12");
    assert_eq!(id_decimal(i64::MIN), "-9223372036854775808");
}
