use voice_assistant::console::voiceinput::{recording_should_stop, stop_requested};
use voice_assistant::voiceoutput::{current_audio, playback_pause_secs, Phrase};

#[test]
fn phrase_files() {
    assert_eq!(current_audio("слушаю").as_deref(), Some("listen.mp3"));
    assert_eq!(current_audio("открываю").as_deref(), Some("open.mp3"));
    assert_eq!(current_audio("поиск").as_deref(), Some("search.mp3"));
    assert_eq!(current_audio("люблю").as_deref(), Some("love.mp3"));
    assert_eq!(current_audio("приветствие").as_deref(), Some("greetings.mp3"));
    assert_eq!(current_audio("пока"), None);
    assert_eq!(current_audio(""), None);
}

#[test]
fn every_phrase_has_a_file() {
    for p in [Phrase::Greeting, Phrase::Listening, Phrase::Love, Phrase::Search, Phrase::Opening] {
        assert!(current_audio(p.name()).is_some());
    }
    assert_eq!(Phrase::Greeting.name(), "приветствие");
    assert_eq!(Phrase::Opening.name(), "открываю");
}

#[test]
fn playback_pause() {
    assert_eq!(playback_pause_secs(0), 2);
    assert_eq!(playback_pause_secs(50 * 1024 - 1), 2);
    assert_eq!(playback_pause_secs(50 * 1024), 4);
    assert_eq!(playback_pause_secs(u64::MAX), 4);
    let mut last = 0;
    for len in (0..200_000u64).step_by(997) {
        let p = playback_pause_secs(len);
        assert!(p >= last);
        last = p;
    }
}

#[test]
fn stop_phrase_in_lower_case() {
    assert!(stop_requested("ну стоп запись"));
    assert!(!stop_requested("стоп"));
    assert!(!stop_requested("Стоп запись"));
}

#[test]
fn recording_stops_on_phrase_in_any_case_or_long_silence() {
    assert!(recording_should_stop("СТОП ЗАПИСЬ", 0));
    assert!(recording_should_stop("Стоп Запись пожалуйста", 5));
    assert!(!recording_should_stop("продолжай", 9_999));
    assert!(recording_should_stop("продолжай", 10_000));
    assert!(recording_should_stop("", 60_000));
}

