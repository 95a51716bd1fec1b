use voice_assistant::voiceinput::{
    correct_command, feeds_recognizer, ListenAction, ListenEvent, Listener, Notice, Stage,
};
use voice_assistant::voiceoutput::Phrase;

fn heard(s: &str) -> ListenEvent {
    ListenEvent::Transcript(s.to_string())
}

fn flags(general_active: bool, processing: bool) -> ListenEvent {
    ListenEvent::Flags { general_active, processing }
}

#[test]
fn keyword_session_sends_corrected_command() {
    let (mut l, first) = Listener::new(true, true, false);
    assert_eq!(first, vec![ListenAction::Speak(Phrase::Greeting)]);
    assert_eq!(l.stage, Stage::Ready);

    assert_eq!(l.step(flags(true, false)), vec![]);
    assert_eq!(l.stage, Stage::Watching);

    assert_eq!(
        l.step(heard("привет риша")),
        vec![
            ListenAction::Log(Notice::KeywordDetected),
            ListenAction::SetProcessing(true),
            ListenAction::Speak(Phrase::Listening),
        ]
    );
    assert_eq!(l.stage, Stage::AwaitingCommand { keyword: true });

    assert_eq!(l.step(heard("")), vec![ListenAction::Pause(3000)]);
    assert_eq!(l.stage, Stage::AwaitingCommand { keyword: true });

    assert_eq!(
        l.step(heard("открой телеграмму")),
        vec![
            ListenAction::Log(Notice::CommandReceived("открой телеграмму".to_string())),
            ListenAction::Speak(Phrase::Opening),
            ListenAction::Send("открой телеграмм".to_string()),
            ListenAction::SetProcessing(false),
            ListenAction::Log(Notice::KeywordSessionOver),
            ListenAction::Pause(3000),
        ]
    );
    assert_eq!(l.stage, Stage::Ready);
    assert!(!l.immediate_listening);
    assert!(l.wait_for_keyword);
}

#[test]
fn busy_flag_makes_listener_wait() {
    let (mut l, _) = Listener::new(true, true, false);
    assert_eq!(l.step(flags(true, true)), vec![ListenAction::Pause(100)]);
    assert_eq!(l.stage, Stage::Ready);
}

#[test]
fn listening_off_stops_for_good() {
    let (mut l, _) = Listener::new(false, true, false);
    assert_eq!(
        l.step(flags(false, false)),
        vec![ListenAction::Log(Notice::ListeningOff), ListenAction::Log(Notice::RecordingStopped)]
    );
    assert_eq!(l.stage, Stage::Stopped);
    assert_eq!(l.step(flags(true, false)), vec![]);
    assert_eq!(l.step(heard("риша")), vec![]);
    assert_eq!(l.stage, Stage::Stopped);
}

#[test]
fn immediate_session() {
    let (mut l, first) = Listener::new(true, false, true);
    assert_eq!(first, vec![]);
    l.step(flags(true, false));
    assert_eq!(l.step(heard("шум")), vec![ListenAction::Speak(Phrase::Listening)]);
    assert_eq!(l.stage, Stage::AwaitingCommand { keyword: false });
    assert_eq!(l.step(heard("")), vec![ListenAction::Pause(1000)]);
    assert_eq!(
        l.step(heard("хватит")),
        vec![ListenAction::Log(Notice::StoppingListening), ListenAction::Pause(3000)]
    );
    assert_eq!(l.stage, Stage::Ready);
    assert!(l.immediate_listening);

    l.step(flags(true, false));
    l.step(heard("что-то"));
    assert_eq!(
        l.step(heard("найди кошек")),
        vec![
            ListenAction::Log(Notice::CommandReceived("найди кошек".to_string())),
            ListenAction::Speak(Phrase::Search),
            ListenAction::Send("найди кошек".to_string()),
            ListenAction::Pause(3000),
        ]
    );
    assert!(!l.immediate_listening);
    l.step(flags(true, false));
    assert_eq!(l.step(heard("ещё")), vec![ListenAction::Pause(3000)]);
    assert_eq!(l.stage, Stage::Ready);
}

#[test]
fn keyword_session_ended_by_enough() {
    let (mut l, _) = Listener::new(true, true, false);
    l.step(flags(true, false));
    l.step(heard("риша"));
    assert_eq!(
        l.step(heard("хватит")),
        vec![
            ListenAction::Log(Notice::StoppingListening),
            ListenAction::SetProcessing(false),
            ListenAction::Log(Notice::KeywordSessionOver),
            ListenAction::Pause(3000),
        ]
    );
    assert_eq!(l.stage, Stage::Ready);
}

#[test]
fn stop_phrase_switches_everything_off() {
    let (mut l, _) = Listener::new(true, true, false);
    l.step(flags(true, false));
    l.step(heard("риша"));
    assert_eq!(
        l.step(heard("стоп запись")),
        vec![
            ListenAction::Speak(Phrase::Love),
            ListenAction::DeactivateGeneral,
            ListenAction::Log(Notice::RecordingStopped),
        ]
    );
    assert_eq!(l.stage, Stage::Stopped);
}

#[test]
fn plain_listener_never_takes_a_command() {
    let (mut l, first) = Listener::new(true, false, false);
    assert_eq!(first, vec![ListenAction::Speak(Phrase::Greeting)]);
    for text in ["риша", "открой ютуб", "стоп запись"] {
        assert_eq!(l.step(flags(true, false)), vec![]);
        assert_eq!(l.step(heard(text)), vec![ListenAction::Pause(3000)]);
        assert_eq!(l.stage, Stage::Ready);
    }
}

#[test]
fn command_without_confirmation_phrase() {
    let (mut l, _) = Listener::new(true, true, false);
    l.step(flags(true, false));
    l.step(heard("риша"));
    let acts = l.step(heard("посчитай два плюс два"));
    assert_eq!(acts[1], ListenAction::Send("посчитай два плюс два".to_string()));
    assert_eq!(acts.len(), 5);
}

#[test]
fn corrections() {
    let fix = |s: &str| -> String { correct_command(&s.chars().collect()).into_iter().collect() };
    assert_eq!(fix("открой телеграмму"), "открой телеграмм");
    assert_eq!(fix("открой телеграммы"), "открой телеграмм");
    assert_eq!(fix("откроем ютуб"), "открой ютуб");
    assert_eq!(fix("открой ютуб"), "открой ютуб");
    assert_eq!(fix(""), "");
}

#[test]
fn audio_goes_to_recogniser_only_while_listening_and_silent() {
    assert!(feeds_recognizer(false, true));
    assert!(!feeds_recognizer(true, true));
    assert!(!feeds_recognizer(false, false));
    assert!(!feeds_recognizer(true, false));
}
