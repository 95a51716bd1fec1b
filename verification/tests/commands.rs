use voice_assistant::commands::{handle_command, handle_find, handle_open, CommandAction};
use voice_assistant::console::commands as console;

fn url(s: &str) -> CommandAction {
    CommandAction::OpenUrl(s.to_string())
}

fn app(s: &str) -> CommandAction {
    CommandAction::LaunchApplication(s.to_string())
}

#[test]
fn open_known_targets() {
    assert_eq!(handle_command("открой яндекс"), url("https://www.yandex.ru"));
    assert_eq!(handle_command("открой блокнот"), app("notepad"));
    assert_eq!(handle_command("открой калькулятор"), app("calc"));
    assert_eq!(handle_command("открой ютуб"), url("https://www.youtube.com"));
    assert_eq!(
        handle_command("открой телеграмм"),
        app("C:/Users/User/AppData/Roaming/Telegram Desktop/Telegram.exe")
    );
    assert_eq!(
        handle_command("открой музыку"),
        url("https://vk.com/audios539944585?block=my_playlists")
    );
}

#[test]
fn open_unknown_target() {
    assert_eq!(handle_command("открой дверь"), CommandAction::UnknownTarget("дверь".to_string()));
    assert_eq!(handle_command("открой"), CommandAction::UnknownTarget(String::new()));
    // only the second word is the target
    assert_eq!(handle_command("открой ютуб пожалуйста"), url("https://www.youtube.com"));
}

#[test]
fn find_joins_query_with_plus() {
    assert_eq!(
        handle_command("найди погоду в москве"),
        url("https://yandex.ru/search/?text=погоду+в+москве")
    );
    assert_eq!(handle_command("найди"), url("https://yandex.ru/search/?text="));
    assert_eq!(
        handle_find(&"кошки".chars().collect()),
        url("https://yandex.ru/search/?text=кошки")
    );
}

#[test]
fn calculate_joins_with_single_spaces() {
    assert_eq!(
        handle_command("посчитай  два   плюс\tдва"),
        CommandAction::Calculate("два плюс два".to_string())
    );
    assert_eq!(handle_command("посчитай"), CommandAction::Calculate(String::new()));
}

#[test]
fn power_commands() {
    assert_eq!(handle_command("заверши работу"), CommandAction::Shutdown);
    assert_eq!(handle_command("режим сна"), CommandAction::Suspend);
    assert_eq!(handle_command("заверши"), CommandAction::Shutdown);
}

#[test]
fn unknown_commands() {
    assert_eq!(handle_command("спой песню"), CommandAction::UnknownCommand("спой".to_string()));
    assert_eq!(handle_command(""), CommandAction::UnknownCommand(String::new()));
    assert_eq!(handle_command("   "), CommandAction::UnknownCommand(String::new()));
    // the words must match exactly
    assert_eq!(handle_command("Открой ютуб"), CommandAction::UnknownCommand("Открой".to_string()));
}

#[test]
fn white_space_layout_does_not_matter() {
    assert_eq!(handle_command("  открой\t\tютуб \n"), handle_command("открой ютуб"));
    assert_eq!(handle_command("найди  кошек\u{a0}и собак"), handle_command("найди кошек и собак"));
}

#[test]
fn search_query_has_no_white_space() {
    match handle_command(" найди  рецепт   борща  ") {
        CommandAction::OpenUrl(u) => {
            let q = u.strip_prefix("https://yandex.ru/search/?text=").unwrap();
            assert_eq!(q, "рецепт+борща");
            assert!(!q.chars().any(char::is_whitespace));
        }
        other => panic!("unexpected {:?}", other),
    }
}

#[test]
fn calculation_expression_splits_back_into_the_same_words() {
    let cmd = "посчитай 12   умножить\tна 3";
    match handle_command(cmd) {
        CommandAction::Calculate(e) => {
            let back: Vec<&str> = e.split_whitespace().collect();
            let rest: Vec<&str> = cmd.split_whitespace().skip(1).collect();
            assert_eq!(back, rest);
        }
        other => panic!("unexpected {:?}", other),
    }
}

#[test]
fn handle_open_alone() {
    assert_eq!(handle_open("ютуб"), url("https://www.youtube.com"));
    assert_eq!(handle_open("браузер"), CommandAction::UnknownTarget("браузер".to_string()));
}

#[test]
fn console_commands() {
    assert_eq!(console::handle_command("открой браузер"), url("https://www.yandex.ru"));
    assert_eq!(console::handle_command("открой блокнот"), app("notepad"));
    assert_eq!(console::handle_command("открой калькулятор"), app("calc"));
    assert_eq!(console::handle_command("открой ютуб"), CommandAction::UnknownTarget("ютуб".to_string()));
    assert_eq!(console::handle_command("найди кошек"), CommandAction::UnknownCommand("найди".to_string()));
    assert_eq!(console::handle_command(""), CommandAction::UnknownCommand(String::new()));
    assert_eq!(console::handle_open("блокнот"), app("notepad"));
}
