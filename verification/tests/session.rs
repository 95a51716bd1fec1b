use voice_assistant::session::{activate_command_listening, toggle_general_listening, ListenRequest};

#[test]
fn toggle_on_and_off() {
    let on = toggle_general_listening(false);
    assert!(on.general_active);
    assert_eq!(on.message, "Общий поток включен");
    assert_eq!(on.start, Some(ListenRequest { wait_for_keyword: true, immediate_listening: false }));
    let off = toggle_general_listening(on.general_active);
    assert!(!off.general_active);
    assert_eq!(off.message, "Общий поток выключен");
    assert_eq!(off.start, None);
}

#[test]
fn command_listening_needs_general_listening() {
    let refused = activate_command_listening(false);
    assert!(!refused.general_active);
    assert_eq!(refused.start, None);
    assert_eq!(refused.message, "Общий поток не активен. Сначала включите общий поток.");
    let started = activate_command_listening(true);
    assert!(started.general_active);
    assert_eq!(
        started.start,
        Some(ListenRequest { wait_for_keyword: false, immediate_listening: true })
    );
    assert_eq!(started.message, "Прослушивание команд активировано");
}
