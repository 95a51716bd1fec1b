use vstd::prelude::*;

use crate::text::{
    chars_of, is_space, join, join_from, lemma_join_has_no_space, lemma_words_are_words,
    lemma_words_of_spaced_join, push_all, same_chars, split_whitespace, string_of, views, words,
};

verus! {

/// What the assistant does for one spoken command.
#[derive(Debug, Clone, PartialEq, Eq)]
pub enum CommandAction {
    /// Open this address in the web browser.
    OpenUrl(String),
    /// Start this program.
    LaunchApplication(String),
    /// "открой" with a target it does not know; the target.
    UnknownTarget(String),
    /// Work out this arithmetic expression and say the result.
    Calculate(String),
    /// Shut the computer down.
    Shutdown,
    /// Put the computer to sleep.
    Suspend,
    /// The first word names no command; that word.
    UnknownCommand(String),
}

/// A `CommandAction` with its texts taken as character sequences.
pub enum ActionView {
    OpenUrl(Seq<char>),
    LaunchApplication(Seq<char>),
    UnknownTarget(Seq<char>),
    Calculate(Seq<char>),
    Shutdown,
    Suspend,
    UnknownCommand(Seq<char>),
}

impl View for CommandAction {
    type V = ActionView;

    open spec fn view(&self) -> ActionView {
        match self {
            CommandAction::OpenUrl(s) => ActionView::OpenUrl(s@),
            CommandAction::LaunchApplication(s) => ActionView::LaunchApplication(s@),
            CommandAction::UnknownTarget(s) => ActionView::UnknownTarget(s@),
            CommandAction::Calculate(s) => ActionView::Calculate(s@),
            CommandAction::Shutdown => ActionView::Shutdown,
            CommandAction::Suspend => ActionView::Suspend,
            CommandAction::UnknownCommand(s) => ActionView::UnknownCommand(s@),
        }
    }
}

/// The first word of a command (empty where there is none): what to do.
pub open spec fn command_word(ws: Seq<Seq<char>>) -> Seq<char> {
    if ws.len() > 0 {
        ws[0]
    } else {
        seq![]
    }
}

/// The second word of a command (empty where there is none).
pub open spec fn second_word(ws: Seq<Seq<char>>) -> Seq<char> {
    if ws.len() > 1 {
        ws[1]
    } else {
        seq![]
    }
}

/// What a command acts on: for "найди" all further words joined by '+', for "посчитай"
/// all further words joined by single spaces, otherwise the second word.
pub open spec fn command_target(ws: Seq<Seq<char>>) -> Seq<char> {
    if command_word(ws) == "найди"@ {
        join(ws.drop_first(), "+"@)
    } else if command_word(ws) == "посчитай"@ {
        join(ws.drop_first(), " "@)
    } else {
        second_word(ws)
    }
}

/// The address that a search for `query` opens.
pub open spec fn search_url(query: Seq<char>) -> Seq<char> {
    "https://yandex.ru/search/?text="@ + query
}

/// What "открой <target>" does.
pub open spec fn open_target(t: Seq<char>) -> ActionView {
    if t == "яндекс"@ {
        ActionView::OpenUrl("https://www.yandex.ru"@)
    } else if t == "блокнот"@ {
        ActionView::LaunchApplication("notepad"@)
    } else if t == "калькулятор"@ {
        ActionView::LaunchApplication("calc"@)
    } else if t == "ютуб"@ {
        ActionView::OpenUrl("https://www.youtube.com"@)
    } else if t == "телеграмм"@ {
        ActionView::LaunchApplication("C:/Users/User/AppData/Roaming/Telegram Desktop/Telegram.exe"@)
    } else if t == "музыку"@ {
        ActionView::OpenUrl("https://vk.com/audios539944585?block=my_playlists"@)
    } else {
        ActionView::UnknownTarget(t)
    }
}

/// What the assistant does for the command text `cmd`.
pub open spec fn command_action(cmd: Seq<char>) -> ActionView {
    let ws = words(cmd);
    let action = command_word(ws);
    let target = command_target(ws);
    if action == "открой"@ {
        open_target(target)
    } else if action == "найди"@ {
        ActionView::OpenUrl(search_url(target))
    } else if action == "посчитай"@ {
        ActionView::Calculate(target)
    } else if action == "заверши"@ {
        ActionView::Shutdown
    } else if action == "режим"@ {
        ActionView::Suspend
    } else {
        ActionView::UnknownCommand(action)
    }
}

/// A copy of `v`.
pub fn copy_chars(v: &Vec<char>) -> (r: Vec<char>)
    ensures
        r@ == v@,
{
    let mut r: Vec<char> = Vec::new();
    push_all(&mut r, v);
    r
}

/// The first word of the command (empty where there is none).
pub fn first_word(ws: &Vec<Vec<char>>) -> (r: Vec<char>)
    ensures
        r@ == command_word(views(ws@)),
{
    if ws.len() > 0 {
        copy_chars(&ws[0])
    } else {
        Vec::new()
    }
}

/// The second word of the command (empty where there is none).
pub fn next_word(ws: &Vec<Vec<char>>) -> (r: Vec<char>)
    ensures
        r@ == second_word(views(ws@)),
{
    if ws.len() > 1 {
        copy_chars(&ws[1])
    } else {
        Vec::new()
    }
}

/// Whether the characters `v` spell the literal `s`.
pub fn is_text(v: &Vec<char>, s: &str) -> (r: bool)
    ensures
        r == (v@ == s@),
{
    same_chars(v, &chars_of(s))
}

/// What "открой <target>" does, for the target's characters.
pub fn open_action(t: &Vec<char>) -> (r: CommandAction)
    ensures
        r@ == open_target(t@),
{
    if is_text(t, "яндекс") {
        CommandAction::OpenUrl("https://www.yandex.ru".to_owned())
    } else if is_text(t, "блокнот") {
        CommandAction::LaunchApplication("notepad".to_owned())
    } else if is_text(t, "калькулятор") {
        CommandAction::LaunchApplication("calc".to_owned())
    } else if is_text(t, "ютуб") {
        CommandAction::OpenUrl("https://www.youtube.com".to_owned())
    } else if is_text(t, "телеграмм") {
        CommandAction::LaunchApplication(
            "C:/Users/User/AppData/Roaming/Telegram Desktop/Telegram.exe".to_owned(),
        )
    } else if is_text(t, "музыку") {
        CommandAction::OpenUrl("https://vk.com/audios539944585?block=my_playlists".to_owned())
    } else {
        CommandAction::UnknownTarget(string_of(t))
    }
}

/// What "открой <target>" does.
pub fn handle_open(target: &str) -> (r: CommandAction)
    ensures
        r@ == open_target(target@),
{
    open_action(&chars_of(target))
}

/// The search for the query `target` ("найди"): opening the search page for it.
pub fn handle_find(target: &Vec<char>) -> (r: CommandAction)
    ensures
        r@ == ActionView::OpenUrl(search_url(target@)),
        r@ == ActionView::OpenUrl("https://yandex.ru/search/?text="@ + target@),
{
    let mut url = chars_of("https://yandex.ru/search/?text=");
    push_all(&mut url, target);
    CommandAction::OpenUrl(string_of(&url))
}

/// Parses a recognised command and decides what to do for it: the first word chooses the
/// command ("открой", "найди", "посчитай", "заверши", "режим"), the rest says what it acts on.
pub fn handle_command(command: &str) -> (r: CommandAction)
    ensures
        r@ == command_action(command@),
{
    let cs = chars_of(command);
    let ws = split_whitespace(&cs);
    let ghost vs = views(ws@);
    let action = first_word(&ws);
    let is_find = is_text(&action, "найди");
    let is_calc = is_text(&action, "посчитай");
    let target = if is_find {
        proof {
            reveal_strlit("найди");
            assert("найди"@.len() == 5);
            assert(vs.len() == ws@.len());
            assert(ws.len() > 0);
        }
        assert(vs.skip(1) =~= vs.drop_first());
        join_from(&ws, 1, &chars_of("+"))
    } else if is_calc {
        proof {
            reveal_strlit("посчитай");
            assert("посчитай"@.len() == 8);
            assert(vs.len() == ws@.len());
            assert(ws.len() > 0);
        }
        assert(vs.skip(1) =~= vs.drop_first());
        join_from(&ws, 1, &chars_of(" "))
    } else {
        next_word(&ws)
    };
    assert(target@ == command_target(vs));
    if is_text(&action, "открой") {
        open_action(&target)
    } else if is_find {
        handle_find(&target)
    } else if is_calc {
        CommandAction::Calculate(string_of(&target))
    } else if is_text(&action, "заверши") {
        CommandAction::Shutdown
    } else if is_text(&action, "режим") {
        CommandAction::Suspend
    } else {
        CommandAction::UnknownCommand(string_of(&action))
    }
}

/// Only the words of a command matter, not how much white space stands around them.
pub proof fn lemma_only_words_matter(a: Seq<char>, b: Seq<char>)
    requires
        words(a) == words(b),
    ensures
        command_action(a) == command_action(b),
{
}

/// The query of a search holds no white space: its words are joined by '+'.
pub proof fn lemma_search_query_has_no_space(cmd: Seq<char>)
    requires
        command_word(words(cmd)) == "найди"@,
    ensures
        command_action(cmd) == ActionView::OpenUrl(search_url(command_target(words(cmd)))),
        forall|k: int|
            0 <= k < command_target(words(cmd)).len() ==> !is_space(
                #[trigger] command_target(words(cmd))[k],
            ),
{
    reveal_strlit("+");
    reveal_strlit("найди");
    reveal_strlit("открой");
    let ws = words(cmd);
    assert("найди"@.len() == 5);
    assert(ws.len() > 0);
    lemma_words_are_words(cmd);
    let rest = ws.drop_first();
    assert forall|i: int| 0 <= i < rest.len() implies crate::text::is_word(#[trigger] rest[i]) by {
        assert(rest[i] == ws[i + 1]);
    }
    lemma_join_has_no_space(rest, "+"@);
}

/// The expression of "посчитай" is the rest of the command with single spaces between its
/// words: split again, it gives back exactly those words.
pub proof fn lemma_calculation_keeps_words(cmd: Seq<char>)
    requires
        command_word(words(cmd)) == "посчитай"@,
    ensures
        command_action(cmd) == ActionView::Calculate(command_target(words(cmd))),
        words(command_target(words(cmd))) == words(cmd).drop_first(),
{
    reveal_strlit(" ");
    reveal_strlit("посчитай");
    reveal_strlit("найди");
    reveal_strlit("открой");
    let ws = words(cmd);
    assert("посчитай"@.len() == 8);
    assert(ws.len() > 0);
    lemma_words_are_words(cmd);
    let rest = ws.drop_first();
    assert forall|i: int| 0 <= i < rest.len() implies crate::text::is_word(#[trigger] rest[i]) by {
        assert(rest[i] == ws[i + 1]);
    }
    assert(" "@ == seq![' ']);
    lemma_words_of_spaced_join(rest);
}

proof fn lemma_command_words_distinct()
    ensures
        "открой"@ != "найди"@,
        "открой"@ != "посчитай"@,
        "открой"@ != "заверши"@,
        "открой"@ != "режим"@,
        "найди"@ != "посчитай"@,
        "найди"@ != "заверши"@,
        "найди"@ != "режим"@,
        "посчитай"@ != "заверши"@,
        "посчитай"@ != "режим"@,
        "заверши"@ != "режим"@,
        "открой"@.len() > 0,
        "найди"@.len() > 0,
        "посчитай"@.len() > 0,
        "заверши"@.len() > 0,
        "режим"@.len() > 0,
{
    reveal_strlit("открой");
    reveal_strlit("найди");
    reveal_strlit("посчитай");
    reveal_strlit("заверши");
    reveal_strlit("режим");
    assert("открой"@.len() == 6);
    assert("найди"@.len() == 5);
    assert("посчитай"@.len() == 8);
    assert("заверши"@.len() == 7);
    assert("режим"@.len() == 5);
    assert("найди"@[0] != "режим"@[0]);
}

proof fn lemma_targets_distinct()
    ensures
        "яндекс"@ != "блокнот"@,
        "яндекс"@ != "калькулятор"@,
        "яндекс"@ != "ютуб"@,
        "яндекс"@ != "телеграмм"@,
        "яндекс"@ != "музыку"@,
        "блокнот"@ != "калькулятор"@,
        "блокнот"@ != "ютуб"@,
        "блокнот"@ != "телеграмм"@,
        "блокнот"@ != "музыку"@,
        "калькулятор"@ != "ютуб"@,
        "калькулятор"@ != "телеграмм"@,
        "калькулятор"@ != "музыку"@,
        "ютуб"@ != "телеграмм"@,
        "ютуб"@ != "музыку"@,
        "телеграмм"@ != "музыку"@,
        "яндекс"@.len() > 0,
        "блокнот"@.len() > 0,
        "калькулятор"@.len() > 0,
        "ютуб"@.len() > 0,
        "телеграмм"@.len() > 0,
        "музыку"@.len() > 0,
{
    reveal_strlit("яндекс");
    reveal_strlit("блокнот");
    reveal_strlit("калькулятор");
    reveal_strlit("ютуб");
    reveal_strlit("телеграмм");
    reveal_strlit("музыку");
    assert("яндекс"@.len() == 6);
    assert("блокнот"@.len() == 7);
    assert("калькулятор"@.len() == 11);
    assert("ютуб"@.len() == 4);
    assert("телеграмм"@.len() == 9);
    assert("музыку"@.len() == 6);
    assert("яндекс"@[0] != "музыку"@[0]);
}

/// "найди" opens the Yandex search for all the further words joined by '+'; a one-word
/// query is that word.
pub proof fn lemma_find_searches_the_further_words(cmd: Seq<char>)
    requires
        words(cmd).len() > 0,
        words(cmd)[0] == "найди"@,
    ensures
        command_action(cmd) == ActionView::OpenUrl(
            "https://yandex.ru/search/?text="@ + join(words(cmd).drop_first(), "+"@),
        ),
        words(cmd).len() == 2 ==> command_action(cmd) == ActionView::OpenUrl(
            "https://yandex.ru/search/?text="@ + words(cmd)[1],
        ),
{
    lemma_command_words_distinct();
    let ws = words(cmd);
    if ws.len() == 2 {
        assert(ws.drop_first() =~= seq![ws[1]]);
    }
}

/// "посчитай" calculates all the further words joined by single spaces.
pub proof fn lemma_calculate_takes_the_further_words(cmd: Seq<char>)
    requires
        words(cmd).len() > 0,
        words(cmd)[0] == "посчитай"@,
    ensures
        command_action(cmd) == ActionView::Calculate(join(words(cmd).drop_first(), " "@)),
{
    lemma_command_words_distinct();
}

/// "заверши" shuts the computer down and "режим" puts it to sleep, whatever follows.
pub proof fn lemma_power_commands(cmd: Seq<char>)
    requires
        words(cmd).len() > 0,
    ensures
        words(cmd)[0] == "заверши"@ ==> command_action(cmd) == ActionView::Shutdown,
        words(cmd)[0] == "режим"@ ==> command_action(cmd) == ActionView::Suspend,
{
    lemma_command_words_distinct();
}

/// A command whose first word is none of "открой", "найди", "посчитай", "заверши", "режим"
/// is unknown, and named by that word (by the empty word where there is none).
pub proof fn lemma_unknown_command(cmd: Seq<char>)
    ensures
        words(cmd).len() == 0 ==> command_action(cmd) == ActionView::UnknownCommand(seq![]),
        words(cmd).len() > 0 && words(cmd)[0] != "открой"@ && words(cmd)[0] != "найди"@
            && words(cmd)[0] != "посчитай"@ && words(cmd)[0] != "заверши"@ && words(cmd)[0]
            != "режим"@ ==> command_action(cmd) == ActionView::UnknownCommand(words(cmd)[0]),
{
    lemma_command_words_distinct();
}

/// "открой" acts on the second word alone: the six known targets open their site or
/// program, any other word (or none) is an unknown target.
pub proof fn lemma_open_acts_on_second_word(cmd: Seq<char>)
    requires
        words(cmd).len() > 0,
        words(cmd)[0] == "открой"@,
    ensures
        words(cmd).len() < 2 ==> command_action(cmd) == ActionView::UnknownTarget(seq![]),
        words(cmd).len() >= 2 ==> {
            let t = words(cmd)[1];
            &&& t == "яндекс"@ ==> command_action(cmd) == ActionView::OpenUrl(
                "https://www.yandex.ru"@,
            )
            &&& t == "блокнот"@ ==> command_action(cmd) == ActionView::LaunchApplication(
                "notepad"@,
            )
            &&& t == "калькулятор"@ ==> command_action(cmd) == ActionView::LaunchApplication(
                "calc"@,
            )
            &&& t == "ютуб"@ ==> command_action(cmd) == ActionView::OpenUrl(
                "https://www.youtube.com"@,
            )
            &&& t == "телеграмм"@ ==> command_action(cmd) == ActionView::LaunchApplication(
                "C:/Users/User/AppData/Roaming/Telegram Desktop/Telegram.exe"@,
            )
            &&& t == "музыку"@ ==> command_action(cmd) == ActionView::OpenUrl(
                "https://vk.com/audios539944585?block=my_playlists"@,
            )
            &&& t != "яндекс"@ && t != "блокнот"@ && t != "калькулятор"@ && t != "ютуб"@ && t
                != "телеграмм"@ && t != "музыку"@ ==> command_action(cmd)
                == ActionView::UnknownTarget(t)
        },
{
    lemma_command_words_distinct();
    lemma_targets_distinct();
}

} // verus!
