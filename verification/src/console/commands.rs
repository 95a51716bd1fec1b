use vstd::prelude::*;

use crate::commands::{
    command_word, first_word, is_text, next_word, second_word, ActionView, CommandAction,
};
use crate::text::{chars_of, split_whitespace, string_of, words};

verus! {

/// What "открой <target>" does in the console assistant.
pub open spec fn console_open_target(t: Seq<char>) -> ActionView {
    if t == "браузер"@ {
        ActionView::OpenUrl("https://www.yandex.ru"@)
    } else if t == "блокнот"@ {
        ActionView::LaunchApplication("notepad"@)
    } else if t == "калькулятор"@ {
        ActionView::LaunchApplication("calc"@)
    } else {
        ActionView::UnknownTarget(t)
    }
}

/// What the console assistant does for the command text `cmd`: it knows "открой" alone,
/// whose target is the second word.
pub open spec fn console_action(cmd: Seq<char>) -> ActionView {
    let ws = words(cmd);
    if command_word(ws) == "открой"@ {
        console_open_target(second_word(ws))
    } else {
        ActionView::UnknownCommand(command_word(ws))
    }
}

/// What "открой <target>" does in the console assistant, for the target's characters.
pub fn console_open_action(target: &Vec<char>) -> (r: CommandAction)
    ensures
        r@ == console_open_target(target@),
{
    if is_text(target, "браузер") {
        CommandAction::OpenUrl("https://www.yandex.ru".to_owned())
    } else if is_text(target, "блокнот") {
        CommandAction::LaunchApplication("notepad".to_owned())
    } else if is_text(target, "калькулятор") {
        CommandAction::LaunchApplication("calc".to_owned())
    } else {
        CommandAction::UnknownTarget(string_of(target))
    }
}

/// What "открой <target>" does in the console assistant.
pub fn handle_open(target: &str) -> (r: CommandAction)
    ensures
        r@ == console_open_target(target@),
{
    console_open_action(&chars_of(target))
}

/// Parses a recognised command and decides what the console assistant does for it.
pub fn handle_command(command: &str) -> (r: CommandAction)
    ensures
        r@ == console_action(command@),
{
    let cs = chars_of(command);
    let ws = split_whitespace(&cs);
    let action = first_word(&ws);
    if is_text(&action, "открой") {
        console_open_action(&next_word(&ws))
    } else {
        CommandAction::UnknownCommand(string_of(&action))
    }
}

proof fn lemma_console_targets_distinct()
    ensures
        "браузер"@ != "блокнот"@,
        "браузер"@ != "калькулятор"@,
        "блокнот"@ != "калькулятор"@,
        "браузер"@.len() > 0,
        "блокнот"@.len() > 0,
        "калькулятор"@.len() > 0,
{
    reveal_strlit("браузер");
    reveal_strlit("блокнот");
    reveal_strlit("калькулятор");
    assert("браузер"@.len() == 7);
    assert("блокнот"@.len() == 7);
    assert("калькулятор"@.len() == 11);
    assert("браузер"@[1] != "блокнот"@[1]);
}

/// In the console assistant "открой" acts on the second word alone: "браузер" opens Yandex,
/// "блокнот" and "калькулятор" start their programs, any other word (or none) is an unknown
/// target; words after the second are ignored.
pub proof fn lemma_console_open_acts_on_second_word(cmd: Seq<char>)
    requires
        words(cmd).len() > 0,
        words(cmd)[0] == "открой"@,
    ensures
        words(cmd).len() < 2 ==> console_action(cmd) == ActionView::UnknownTarget(seq![]),
        words(cmd).len() >= 2 ==> {
            let t = words(cmd)[1];
            &&& t == "браузер"@ ==> console_action(cmd) == ActionView::OpenUrl(
                "https://www.yandex.ru"@,
            )
            &&& t == "блокнот"@ ==> console_action(cmd) == ActionView::LaunchApplication(
                "notepad"@,
            )
            &&& t == "калькулятор"@ ==> console_action(cmd) == ActionView::LaunchApplication(
                "calc"@,
            )
            &&& t != "браузер"@ && t != "блокнот"@ && t != "калькулятор"@ ==> console_action(cmd)
                == ActionView::UnknownTarget(t)
        },
{
    lemma_console_targets_distinct();
}

/// Any first word but "открой" (or none) is an unknown command, named by that word.
pub proof fn lemma_console_unknown_command(cmd: Seq<char>)
    ensures
        words(cmd).len() == 0 ==> console_action(cmd) == ActionView::UnknownCommand(seq![]),
        words(cmd).len() > 0 && words(cmd)[0] != "открой"@ ==> console_action(cmd)
            == ActionView::UnknownCommand(words(cmd)[0]),
{
    reveal_strlit("открой");
    assert("открой"@.len() == 6);
}

/// Two console commands that agree in their first two words do the same thing.
pub proof fn lemma_console_only_two_words_matter(a: Seq<char>, b: Seq<char>)
    requires
        words(a).len() >= 2,
        words(b).len() >= 2,
        words(a)[0] == words(b)[0],
        words(a)[1] == words(b)[1],
    ensures
        console_action(a) == console_action(b),
{
}

} // verus!
