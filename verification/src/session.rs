use vstd::prelude::*;

verus! {

/// How a new listener is to be started.
#[derive(Debug, Clone, Copy, PartialEq, Eq)]
pub struct ListenRequest {
    /// Wait for the keyword "риша" before taking a command.
    pub wait_for_keyword: bool,
    /// Take a command at once, without the keyword.
    pub immediate_listening: bool,
}

/// The answer to a control request of the user interface.
#[derive(Debug, Clone, PartialEq, Eq)]
pub struct ControlReply {
    /// Whether general listening is on afterwards.
    pub general_active: bool,
    /// The listener to start, if any; its commands go to `handle_command`.
    pub start: Option<ListenRequest>,
    /// The text shown to the user.
    pub message: String,
}

/// Switches general listening: off where it is on; on where it is off, starting a listener
/// that waits for the keyword.
pub fn toggle_general_listening(general_active: bool) -> (r: ControlReply)
    ensures
        r.general_active == !general_active,
        general_active ==> r.start is None && r.message@ == "Общий поток выключен"@,
        !general_active ==> r.start == Some(
            ListenRequest { wait_for_keyword: true, immediate_listening: false },
        ) && r.message@ == "Общий поток включен"@,
{
    if general_active {
        ControlReply {
            general_active: false,
            start: None,
            message: "Общий поток выключен".to_owned(),
        }
    } else {
        ControlReply {
            general_active: true,
            start: Some(ListenRequest { wait_for_keyword: true, immediate_listening: false }),
            message: "Общий поток включен".to_owned(),
        }
    }
}

/// Starts a listener that takes one command at once, where general listening is on;
/// refuses where it is off. General listening itself is left as it was.
pub fn activate_command_listening(general_active: bool) -> (r: ControlReply)
    ensures
        r.general_active == general_active,
        general_active ==> r.start == Some(
            ListenRequest { wait_for_keyword: false, immediate_listening: true },
        ) && r.message@ == "Прослушивание команд активировано"@,
        !general_active ==> r.start is None && r.message@
            == "Общий поток не активен. Сначала включите общий поток."@,
{
    if general_active {
        ControlReply {
            general_active: true,
            start: Some(ListenRequest { wait_for_keyword: false, immediate_listening: true }),
            message: "Прослушивание команд активировано".to_owned(),
        }
    } else {
        ControlReply {
            general_active: false,
            start: None,
            message: "Общий поток не активен. Сначала включите общий поток.".to_owned(),
        }
    }
}

} // verus!
