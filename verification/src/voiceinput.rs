use vstd::prelude::*;

use crate::text::{
    chars_of, contains, contains_chars, is_space, lemma_absent_when_longer,
    lemma_absent_without_first_char, lemma_replace_absent, lemma_replace_splits_at,
    lemma_replace_whole, replace_all, replace_chars,
};
use crate::voiceoutput::Phrase;

verus! {

/// Where a listener stands between two things it hears.
#[derive(Debug, Clone, Copy, PartialEq, Eq)]
pub enum Stage {
    /// About to learn whether listening is still on and whether another listener is busy.
    Ready,
    /// About to take what was heard and look for the keyword.
    Watching,
    /// Waiting for a command; `keyword` where the keyword started the wait.
    AwaitingCommand { keyword: bool },
    /// Done: recording has stopped.
    Stopped,
}

/// A listener of the desktop assistant: what it was started for, and where it stands.
#[derive(Debug, Clone, Copy, PartialEq, Eq)]
pub struct Listener {
    /// Wait for the keyword "риша" before taking a command.
    pub wait_for_keyword: bool,
    /// Take a command at once, without the keyword (cleared once a command is sent).
    pub immediate_listening: bool,
    /// Where the listener stands.
    pub stage: Stage,
}

/// What the listener learns from the outside world.
#[derive(Debug, Clone, PartialEq, Eq)]
pub enum ListenEvent {
    /// At `Stage::Ready`: whether general listening is on, and whether a keyword session is
    /// in progress.
    Flags { general_active: bool, processing: bool },
    /// At `Stage::Watching` or `Stage::AwaitingCommand`: the text the recogniser heard.
    Transcript(String),
}

/// A `ListenEvent` with its text taken as a character sequence.
pub enum EventView {
    Flags { general_active: bool, processing: bool },
    Transcript(Seq<char>),
}

impl View for ListenEvent {
    type V = EventView;

    open spec fn view(&self) -> EventView {
        match self {
            ListenEvent::Flags { general_active, processing } => EventView::Flags {
                general_active: *general_active,
                processing: *processing,
            },
            ListenEvent::Transcript(t) => EventView::Transcript(t@),
        }
    }
}

/// A message for the log.
#[derive(Debug, Clone, PartialEq, Eq)]
pub enum Notice {
    /// "Общий поток выключен."
    ListeningOff,
    /// "Запись остановлена."
    RecordingStopped,
    /// "Ключевое слово 'риша' обнаружено. Ожидание команды..."
    KeywordDetected,
    /// "Остановка прослушивания..."
    StoppingListening,
    /// "Команда получена: <command>", with the command as it was heard.
    CommandReceived(String),
    /// "Риша не слушает"
    KeywordSessionOver,
}

/// A `Notice` with its text taken as a character sequence.
pub enum NoticeView {
    ListeningOff,
    RecordingStopped,
    KeywordDetected,
    StoppingListening,
    CommandReceived(Seq<char>),
    KeywordSessionOver,
}

impl View for Notice {
    type V = NoticeView;

    open spec fn view(&self) -> NoticeView {
        match self {
            Notice::ListeningOff => NoticeView::ListeningOff,
            Notice::RecordingStopped => NoticeView::RecordingStopped,
            Notice::KeywordDetected => NoticeView::KeywordDetected,
            Notice::StoppingListening => NoticeView::StoppingListening,
            Notice::CommandReceived(c) => NoticeView::CommandReceived(c@),
            Notice::KeywordSessionOver => NoticeView::KeywordSessionOver,
        }
    }
}

/// What the listener asks the outside world to do, in order.
#[derive(Debug, Clone, PartialEq, Eq)]
pub enum ListenAction {
    /// Write this message to the log.
    Log(Notice),
    /// Say this phrase.
    Speak(Phrase),
    /// Set the shared flag that a keyword session is in progress.
    SetProcessing(bool),
    /// Switch general listening off.
    DeactivateGeneral,
    /// Hand this command on to be carried out.
    Send(String),
    /// Wait this many milliseconds.
    Pause(u64),
}

/// A `ListenAction` with its texts taken as character sequences.
pub enum ActionView {
    Log(NoticeView),
    Speak(Phrase),
    SetProcessing(bool),
    DeactivateGeneral,
    Send(Seq<char>),
    Pause(u64),
}

impl View for ListenAction {
    type V = ActionView;

    open spec fn view(&self) -> ActionView {
        match self {
            ListenAction::Log(n) => ActionView::Log(n@),
            ListenAction::Speak(p) => ActionView::Speak(*p),
            ListenAction::SetProcessing(b) => ActionView::SetProcessing(*b),
            ListenAction::DeactivateGeneral => ActionView::DeactivateGeneral,
            ListenAction::Send(c) => ActionView::Send(c@),
            ListenAction::Pause(ms) => ActionView::Pause(*ms),
        }
    }
}

/// The views of a sequence of actions.
pub open spec fn actions_view(v: Seq<ListenAction>) -> Seq<ActionView> {
    v.map_values(|a: ListenAction| a@)
}

/// The event is of the kind the stage waits for.
pub open spec fn event_fits(stage: Stage, e: EventView) -> bool {
    match stage {
        Stage::Ready => e is Flags,
        Stage::Watching => e is Transcript,
        Stage::AwaitingCommand { .. } => e is Transcript,
        Stage::Stopped => true,
    }
}

/// A heard command with the recogniser's usual mishearings set right: "телеграмму" and
/// "телеграммы" become "телеграмм", then "откроем" becomes "открой".
pub open spec fn corrected(c: Seq<char>) -> Seq<char> {
    replace_all(
        replace_all(replace_all(c, "телеграмму"@, "телеграмм"@), "телеграммы"@, "телеграмм"@),
        "откроем"@,
        "открой"@,
    )
}

/// What ends a session that waited for a command: for a keyword session, clearing the
/// shared flag and saying so.
pub open spec fn session_end(keyword: bool) -> Seq<ActionView> {
    if keyword {
        seq![ActionView::SetProcessing(false), ActionView::Log(NoticeView::KeywordSessionOver)]
    } else {
        seq![]
    }
}

/// What is said before a command is sent: "поиск" for a search, "открываю" for an opening.
pub open spec fn confirmation(fixed: Seq<char>) -> Seq<ActionView> {
    if contains(fixed, "найди"@) {
        seq![ActionView::Speak(Phrase::Search)]
    } else if contains(fixed, "открой"@) {
        seq![ActionView::Speak(Phrase::Opening)]
    } else {
        seq![]
    }
}

/// The listener with another stage.
pub open spec fn at_stage(l: Listener, stage: Stage) -> Listener {
    Listener { wait_for_keyword: l.wait_for_keyword, immediate_listening: l.immediate_listening, stage }
}

/// What a listener waiting for a command does with the text `c` it heard.
pub open spec fn command_step(l: Listener, keyword: bool, c: Seq<char>) -> (Listener, Seq<ActionView>) {
    let fixed = corrected(c);
    if c == "хватит"@ {
        (
            at_stage(l, Stage::Ready),
            seq![ActionView::Log(NoticeView::StoppingListening)] + session_end(keyword) + seq![
                ActionView::Pause(3000),
            ],
        )
    } else if fixed == "стоп запись"@ {
        (
            at_stage(l, Stage::Stopped),
            seq![
                ActionView::Speak(Phrase::Love),
                ActionView::DeactivateGeneral,
                ActionView::Log(NoticeView::RecordingStopped),
            ],
        )
    } else if fixed.len() > 0 {
        (
            Listener {
                wait_for_keyword: l.wait_for_keyword,
                immediate_listening: false,
                stage: Stage::Ready,
            },
            seq![ActionView::Log(NoticeView::CommandReceived(c))] + confirmation(fixed) + seq![
                ActionView::Send(fixed),
            ] + session_end(keyword) + seq![ActionView::Pause(3000)],
        )
    } else {
        (l, seq![ActionView::Pause(if keyword { 3000 } else { 1000 })])
    }
}

/// One step of a listener: its next state and what it asks for, given what it learnt.
pub open spec fn listen_step(l: Listener, e: EventView) -> (Listener, Seq<ActionView>) {
    match l.stage {
        Stage::Stopped => (l, seq![]),
        Stage::Ready => match e {
            EventView::Flags { general_active, processing } => {
                if !general_active {
                    (
                        at_stage(l, Stage::Stopped),
                        seq![
                            ActionView::Log(NoticeView::ListeningOff),
                            ActionView::Log(NoticeView::RecordingStopped),
                        ],
                    )
                } else if processing {
                    (l, seq![ActionView::Pause(100)])
                } else {
                    (at_stage(l, Stage::Watching), seq![])
                }
            },
            EventView::Transcript(_) => (l, seq![]),
        },
        Stage::Watching => match e {
            EventView::Transcript(t) => {
                if l.wait_for_keyword && contains(t, "риша"@) {
                    (
                        at_stage(l, Stage::AwaitingCommand { keyword: true }),
                        seq![
                            ActionView::Log(NoticeView::KeywordDetected),
                            ActionView::SetProcessing(true),
                            ActionView::Speak(Phrase::Listening),
                        ],
                    )
                } else if l.immediate_listening {
                    (
                        at_stage(l, Stage::AwaitingCommand { keyword: false }),
                        seq![ActionView::Speak(Phrase::Listening)],
                    )
                } else {
                    (at_stage(l, Stage::Ready), seq![ActionView::Pause(3000)])
                }
            },
            EventView::Flags { .. } => (l, seq![]),
        },
        Stage::AwaitingCommand { keyword } => match e {
            EventView::Transcript(c) => command_step(l, keyword, c),
            EventView::Flags { .. } => (l, seq![]),
        },
    }
}

/// What a listener says when it starts: the greeting, where general listening is on and it
/// is not one that takes a command at once.
pub open spec fn start_actions(general_active: bool, immediate_listening: bool) -> Seq<ActionView> {
    if general_active && !immediate_listening {
        seq![ActionView::Speak(Phrase::Greeting)]
    } else {
        seq![]
    }
}

/// Whether a chunk of microphone audio goes to the recogniser: not while the assistant itself
/// speaks, and only while general listening is on.
pub fn feeds_recognizer(ignore_audio: bool, general_active: bool) -> (r: bool)
    ensures
        r == (!ignore_audio && general_active),
{
    !ignore_audio && general_active
}

fn push_action(v: &mut Vec<ListenAction>, a: ListenAction)
    ensures
        actions_view(final(v)@) == actions_view(old(v)@).push(a@),
{
    v.push(a);
    assert(actions_view(v@) =~= actions_view(old(v)@).push(a@));
}

fn push_session_end(v: &mut Vec<ListenAction>, keyword: bool)
    ensures
        actions_view(final(v)@) == actions_view(old(v)@) + session_end(keyword),
{
    if keyword {
        push_action(v, ListenAction::SetProcessing(false));
        push_action(v, ListenAction::Log(Notice::KeywordSessionOver));
    }
    assert(actions_view(v@) =~= actions_view(old(v)@) + session_end(keyword));
}

/// A heard command with the recogniser's usual mishearings set right.
pub fn correct_command(c: &Vec<char>) -> (r: Vec<char>)
    ensures
        r@ == corrected(c@),
{
    proof {
        reveal_strlit("телеграмму");
        reveal_strlit("телеграммы");
        reveal_strlit("откроем");
    }
    let to = chars_of("телеграмм");
    let a = replace_chars(c, &chars_of("телеграмму"), &to);
    let b = replace_chars(&a, &chars_of("телеграммы"), &to);
    replace_chars(&b, &chars_of("откроем"), &chars_of("открой"))
}

impl Listener {
    /// A listener that is starting, and what it says first.
    pub fn new(general_active: bool, wait_for_keyword: bool, immediate_listening: bool) -> (r: (
        Listener,
        Vec<ListenAction>,
    ))
        ensures
            r.0 == (Listener { wait_for_keyword, immediate_listening, stage: Stage::Ready }),
            actions_view(r.1@) == start_actions(general_active, immediate_listening),
            general_active && !immediate_listening ==> r.1@.len() == 1 && r.1@[0]
                == ListenAction::Speak(Phrase::Greeting),
            !(general_active && !immediate_listening) ==> r.1@.len() == 0,
    {
        let mut out: Vec<ListenAction> = Vec::new();
        if general_active && !immediate_listening {
            out.push(ListenAction::Speak(Phrase::Greeting));
        }
        assert(actions_view(out@) =~= start_actions(general_active, immediate_listening));
        (Listener { wait_for_keyword, immediate_listening, stage: Stage::Ready }, out)
    }

    /// Takes what the listener learnt, moves it on, and returns what it asks for, in order.
    pub fn step(&mut self, event: ListenEvent) -> (r: Vec<ListenAction>)
        requires
            event_fits(old(self).stage, event@),
        ensures
            (*final(self), actions_view(r@)) == listen_step(*old(self), event@),
    {
        let mut out: Vec<ListenAction> = Vec::new();
        assert(actions_view(out@) =~= Seq::<ActionView>::empty());
        match self.stage {
            Stage::Stopped => {},
            Stage::Ready => {
                if let ListenEvent::Flags { general_active, processing } = event {
                    if !general_active {
                        push_action(&mut out, ListenAction::Log(Notice::ListeningOff));
                        push_action(&mut out, ListenAction::Log(Notice::RecordingStopped));
                        self.stage = Stage::Stopped;
                    } else if processing {
                        push_action(&mut out, ListenAction::Pause(100));
                    } else {
                        self.stage = Stage::Watching;
                    }
                }
            },
            Stage::Watching => {
                if let ListenEvent::Transcript(t) = event {
                    let heard = chars_of(t.as_str());
                    if self.wait_for_keyword && contains_chars(&heard, &chars_of("риша")) {
                        push_action(&mut out, ListenAction::Log(Notice::KeywordDetected));
                        push_action(&mut out, ListenAction::SetProcessing(true));
                        push_action(&mut out, ListenAction::Speak(Phrase::Listening));
                        self.stage = Stage::AwaitingCommand { keyword: true };
                    } else if self.immediate_listening {
                        push_action(&mut out, ListenAction::Speak(Phrase::Listening));
                        self.stage = Stage::AwaitingCommand { keyword: false };
                    } else {
                        push_action(&mut out, ListenAction::Pause(3000));
                        self.stage = Stage::Ready;
                    }
                }
            },
            Stage::AwaitingCommand { keyword } => {
                if let ListenEvent::Transcript(c) = event {
                    self.take_command(keyword, c, &mut out);
                }
            },
        }
        out
    }

    fn take_command(&mut self, keyword: bool, c: String, out: &mut Vec<ListenAction>)
        ensures
            (*final(self), actions_view(final(out)@)) == ({
                let (l, acts) = command_step(*old(self), keyword, c@);
                (l, actions_view(old(out)@) + acts)
            }),
    {
        let ghost start = actions_view(out@);
        let heard = chars_of(c.as_str());
        let fixed = correct_command(&heard);
        if crate::commands::is_text(&heard, "хватит") {
            push_action(out, ListenAction::Log(Notice::StoppingListening));
            push_session_end(out, keyword);
            push_action(out, ListenAction::Pause(3000));
            self.stage = Stage::Ready;
        } else if crate::commands::is_text(&fixed, "стоп запись") {
            push_action(out, ListenAction::Speak(Phrase::Love));
            push_action(out, ListenAction::DeactivateGeneral);
            push_action(out, ListenAction::Log(Notice::RecordingStopped));
            self.stage = Stage::Stopped;
        } else if fixed.len() > 0 {
            push_action(out, ListenAction::Log(Notice::CommandReceived(c)));
            let ghost before = actions_view(out@);
            if contains_chars(&fixed, &chars_of("найди")) {
                push_action(out, ListenAction::Speak(Phrase::Search));
            } else if contains_chars(&fixed, &chars_of("открой")) {
                push_action(out, ListenAction::Speak(Phrase::Opening));
            }
            assert(actions_view(out@) =~= before + confirmation(fixed@));
            push_action(out, ListenAction::Send(crate::text::string_of(&fixed)));
            push_session_end(out, keyword);
            push_action(out, ListenAction::Pause(3000));
            self.immediate_listening = false;
            self.stage = Stage::Ready;
        } else {
            push_action(out, ListenAction::Pause(if keyword { 3000 } else { 1000 }));
        }
        assert(actions_view(out@) =~= start + command_step(*old(self), keyword, c@).1);
    }
}

/// What the listener was started for agrees with where it stands: it waits for a command
/// after the keyword only if it listens for the keyword, and waits for one without the keyword
/// only while it takes commands at once.
pub open spec fn consistent(l: Listener) -> bool {
    match l.stage {
        Stage::AwaitingCommand { keyword } => if keyword {
            l.wait_for_keyword
        } else {
            l.immediate_listening
        },
        _ => true,
    }
}

/// Once recording has stopped, nothing more happens.
pub proof fn lemma_stopped_is_final(l: Listener, e: EventView)
    requires
        l.stage == Stage::Stopped,
    ensures
        listen_step(l, e) == (l, Seq::<ActionView>::empty()),
{
}

/// A step keeps what the listener listens for, and never turns immediate listening back on.
pub proof fn lemma_mode_kept(l: Listener, e: EventView)
    ensures
        listen_step(l, e).0.wait_for_keyword == l.wait_for_keyword,
        !l.immediate_listening ==> !listen_step(l, e).0.immediate_listening,
{
}

/// A starting listener is consistent, and every step keeps it so.
pub proof fn lemma_consistent_kept(l: Listener, e: EventView)
    requires
        consistent(l),
    ensures
        consistent(listen_step(l, e).0),
        consistent(Listener { wait_for_keyword: l.wait_for_keyword, immediate_listening: l.immediate_listening, stage: Stage::Ready }),
{
}

/// A listener started with neither the keyword nor immediate listening never waits for a
/// command, so never sends one.
pub proof fn lemma_plain_listener_never_takes_commands(l: Listener, e: EventView)
    requires
        consistent(l),
        !l.wait_for_keyword,
        !l.immediate_listening,
    ensures
        !(listen_step(l, e).0.stage is AwaitingCommand),
        forall|i: int|
            0 <= i < listen_step(l, e).1.len() ==> !(#[trigger] listen_step(l, e).1[i] is Send),
{
}

/// A command is sent only as the corrected form of a text heard while waiting for a command,
/// never empty and never "хватит"; after it the listener is ready again and no longer takes
/// commands at once.
pub proof fn lemma_sent_command(l: Listener, e: EventView, i: int)
    requires
        0 <= i < listen_step(l, e).1.len(),
        listen_step(l, e).1[i] is Send,
    ensures
        l.stage is AwaitingCommand,
        e is Transcript,
        e->Transcript_0 != "хватит"@,
        listen_step(l, e).1[i]->Send_0 == corrected(e->Transcript_0),
        corrected(e->Transcript_0).len() > 0,
        corrected(e->Transcript_0) != "стоп запись"@,
        listen_step(l, e).0.stage == Stage::Ready,
        !listen_step(l, e).0.immediate_listening,
{
    let acts = listen_step(l, e).1;
    match l.stage {
        Stage::AwaitingCommand { keyword } => {
            if let EventView::Transcript(c) = e {
                let fixed = corrected(c);
                if c == "хватит"@ {
                    assert(acts[i] == (seq![ActionView::Log(NoticeView::StoppingListening)]
                        + session_end(keyword) + seq![ActionView::Pause(3000)])[i]);
                } else if fixed == "стоп запись"@ {
                } else if fixed.len() > 0 {
                    let head = seq![ActionView::Log(NoticeView::CommandReceived(c))] + confirmation(fixed);
                    let tail = session_end(keyword) + seq![ActionView::Pause(3000)];
                    assert(acts =~= head + seq![ActionView::Send(fixed)] + tail);
                    if i < head.len() {
                        assert(acts[i] == head[i]);
                    } else if i > head.len() {
                        assert(acts[i] == tail[i - head.len() - 1]);
                    }
                }
            }
        },
        _ => {},
    }
}

/// Hearing "стоп запись" (once corrected) while waiting for a command stops recording and
/// switches general listening off.
pub proof fn lemma_stop_phrase_stops(l: Listener, keyword: bool, c: Seq<char>)
    requires
        l.stage == (Stage::AwaitingCommand { keyword }),
        c != "хватит"@,
        corrected(c) == "стоп запись"@,
    ensures
        listen_step(l, EventView::Transcript(c)).0.stage == Stage::Stopped,
        listen_step(l, EventView::Transcript(c)).1.contains(ActionView::DeactivateGeneral),
{
    assert(listen_step(l, EventView::Transcript(c)).1[1] == ActionView::DeactivateGeneral);
}

/// General listening is switched off only by the stop phrase.
pub proof fn lemma_deactivation_only_by_stop_phrase(l: Listener, e: EventView, i: int)
    requires
        0 <= i < listen_step(l, e).1.len(),
        listen_step(l, e).1[i] is DeactivateGeneral,
    ensures
        l.stage is AwaitingCommand,
        e is Transcript,
        e->Transcript_0 != "хватит"@,
        corrected(e->Transcript_0) == "стоп запись"@,
        listen_step(l, e).0.stage == Stage::Stopped,
{
    let acts = listen_step(l, e).1;
    match l.stage {
        Stage::AwaitingCommand { keyword } => {
            if let EventView::Transcript(c) = e {
                let fixed = corrected(c);
                if c == "хватит"@ {
                    assert(acts[i] == (seq![ActionView::Log(NoticeView::StoppingListening)]
                        + session_end(keyword) + seq![ActionView::Pause(3000)])[i]);
                } else if fixed == "стоп запись"@ {
                } else if fixed.len() > 0 {
                    let head = seq![ActionView::Log(NoticeView::CommandReceived(c))] + confirmation(fixed);
                    let tail = session_end(keyword) + seq![ActionView::Pause(3000)];
                    assert(acts =~= head + seq![ActionView::Send(fixed)] + tail);
                    if i < head.len() {
                        assert(acts[i] == head[i]);
                    } else if i > head.len() {
                        assert(acts[i] == tail[i - head.len() - 1]);
                    }
                }
            }
        },
        _ => {},
    }
}

/// When general listening is found off, the listener stops.
pub proof fn lemma_listening_off_stops(l: Listener, processing: bool)
    requires
        l.stage == Stage::Ready,
    ensures
        listen_step(l, EventView::Flags { general_active: false, processing }).0.stage
            == Stage::Stopped,
{
}

/// A keyword session raises the shared busy flag when it starts and lowers it when it ends
/// with "хватит" or a sent command; only a listener that listens for the keyword touches
/// the flag.
pub proof fn lemma_keyword_session_flag(l: Listener, e: EventView)
    requires
        consistent(l),
    ensures
        l.stage == Stage::Watching && listen_step(l, e).0.stage == (Stage::AwaitingCommand {
            keyword: true,
        }) ==> listen_step(l, e).1.contains(ActionView::SetProcessing(true)),
        l.stage == (Stage::AwaitingCommand { keyword: true }) && listen_step(l, e).0.stage
            == Stage::Ready ==> listen_step(l, e).1.contains(ActionView::SetProcessing(false)),
        forall|i: int|
            0 <= i < listen_step(l, e).1.len() && (#[trigger] listen_step(l, e).1[i]) is SetProcessing
                ==> l.wait_for_keyword,
{
    let (next, acts) = listen_step(l, e);
    if l.stage == Stage::Watching && next.stage == (Stage::AwaitingCommand { keyword: true }) {
        assert(acts[1] == ActionView::SetProcessing(true));
    }
    match l.stage {
        Stage::AwaitingCommand { keyword } => {
            if let EventView::Transcript(c) = e {
                let fixed = corrected(c);
                let end = session_end(keyword);
                if c == "хватит"@ {
                    let head = seq![ActionView::Log(NoticeView::StoppingListening)];
                    assert(acts =~= head + end + seq![ActionView::Pause(3000)]);
                    if keyword {
                        assert(acts[1] == ActionView::SetProcessing(false));
                    }
                    assert forall|i: int| 0 <= i < acts.len() && (#[trigger] acts[i]) is SetProcessing
                        implies l.wait_for_keyword by {
                        if 1 <= i < 1 + end.len() {
                            assert(acts[i] == end[i - 1]);
                        }
                    }
                } else if fixed == "стоп запись"@ {
                } else if fixed.len() > 0 {
                    let head = seq![ActionView::Log(NoticeView::CommandReceived(c))] + confirmation(fixed)
                        + seq![ActionView::Send(fixed)];
                    assert(acts =~= head + end + seq![ActionView::Pause(3000)]);
                    if keyword {
                        assert(acts[head.len() as int] == ActionView::SetProcessing(false));
                    }
                    assert forall|i: int| 0 <= i < acts.len() && (#[trigger] acts[i]) is SetProcessing
                        implies l.wait_for_keyword by {
                        if i < head.len() {
                            assert(acts[i] == head[i]);
                        } else if i < head.len() + end.len() {
                            assert(acts[i] == end[i - head.len()]);
                        }
                    }
                }
            }
        },
        _ => {},
    }
}

/// A heard command with none of the misheard forms in it is passed on as it was heard.
pub proof fn lemma_correction_keeps_clean_text(c: Seq<char>)
    requires
        !contains(c, "телеграмму"@),
        !contains(c, "телеграммы"@),
        !contains(c, "откроем"@),
    ensures
        corrected(c) == c,
{
    crate::text::lemma_replace_absent(c, "телеграмму"@, "телеграмм"@);
    crate::text::lemma_replace_absent(c, "телеграммы"@, "телеграмм"@);
    crate::text::lemma_replace_absent(c, "откроем"@, "открой"@);
}

proof fn lemma_misheard_forms_have_no_space()
    ensures
        forall|k: int| 0 <= k < "телеграмму"@.len() ==> !is_space(#[trigger] "телеграмму"@[k]),
        forall|k: int| 0 <= k < "телеграммы"@.len() ==> !is_space(#[trigger] "телеграммы"@[k]),
        forall|k: int| 0 <= k < "откроем"@.len() ==> !is_space(#[trigger] "откроем"@[k]),
{
    reveal_strlit("телеграмму");
    reveal_strlit("телеграммы");
    reveal_strlit("откроем");
}

/// The correction works word by word: text on either side of a white-space character is
/// corrected on its own.
pub proof fn lemma_correction_word_by_word(x: Seq<char>, c: char, y: Seq<char>)
    requires
        is_space(c),
    ensures
        corrected(x + seq![c] + y) == corrected(x) + seq![c] + corrected(y),
{
    lemma_misheard_forms_have_no_space();
    let p1 = "телеграмму"@;
    let p2 = "телеграммы"@;
    let p3 = "откроем"@;
    let t = "телеграмм"@;
    let o = "открой"@;
    lemma_replace_splits_at(x, c, y, p1, t);
    let x1 = replace_all(x, p1, t);
    let y1 = replace_all(y, p1, t);
    lemma_replace_splits_at(x1, c, y1, p2, t);
    let x2 = replace_all(x1, p2, t);
    let y2 = replace_all(y1, p2, t);
    lemma_replace_splits_at(x2, c, y2, p3, o);
}

/// Each misheard word is set right: "откроем" becomes "открой", and "телеграмму" and
/// "телеграммы" become "телеграмм".
pub proof fn lemma_misheard_words_corrected()
    ensures
        corrected("откроем"@) == "открой"@,
        corrected("телеграмму"@) == "телеграмм"@,
        corrected("телеграммы"@) == "телеграмм"@,
{
    reveal_strlit("телеграмму");
    reveal_strlit("телеграммы");
    reveal_strlit("телеграмм");
    reveal_strlit("откроем");
    reveal_strlit("открой");
    let p1 = "телеграмму"@;
    let p2 = "телеграммы"@;
    let p3 = "откроем"@;
    let t = "телеграмм"@;
    let o = "открой"@;
    // "откроем"
    lemma_absent_when_longer(p3, p1);
    lemma_replace_absent(p3, p1, t);
    lemma_absent_when_longer(p3, p2);
    lemma_replace_absent(p3, p2, t);
    lemma_replace_whole(p3, o);
    // "телеграмму"
    lemma_replace_whole(p1, t);
    lemma_absent_when_longer(t, p2);
    lemma_replace_absent(t, p2, t);
    assert forall|i: int| 0 <= i < t.len() implies t[i] != p3[0] by {}
    lemma_absent_without_first_char(t, p3);
    lemma_replace_absent(t, p3, o);
    // "телеграммы"
    assert(p2[9] != p1[9]);
    assert forall|i: int| !crate::text::occurs_at(p2, p1, i) by {
        if crate::text::occurs_at(p2, p1, i) {
            assert(i == 0);
            assert(p2.subrange(0, 10) =~= p2);
        }
    }
    lemma_replace_absent(p2, p1, t);
    lemma_replace_whole(p2, t);
}

/// A keyword listener that hears "риша" anywhere in what it heard starts waiting for a
/// command: it logs so, raises the busy flag and says "слушаю".
pub proof fn lemma_keyword_anywhere_starts_session(l: Listener, t: Seq<char>, i: int)
    requires
        l.stage == Stage::Watching,
        l.wait_for_keyword,
        0 <= i,
        i + "риша"@.len() <= t.len(),
        t.subrange(i, i + "риша"@.len()) == "риша"@,
    ensures
        listen_step(l, EventView::Transcript(t)) == (
            Listener {
                wait_for_keyword: true,
                immediate_listening: l.immediate_listening,
                stage: Stage::AwaitingCommand { keyword: true },
            },
            seq![
                ActionView::Log(NoticeView::KeywordDetected),
                ActionView::SetProcessing(true),
                ActionView::Speak(Phrase::Listening),
            ],
        ),
{
    assert(crate::text::occurs_at(t, "риша"@, i));
}

/// Without "риша" in what it heard (or when it does not listen for the keyword), a watching
/// listener takes a command at once only in immediate mode, after saying "слушаю";
/// otherwise it pauses three seconds and is ready again.
pub proof fn lemma_no_keyword(l: Listener, t: Seq<char>)
    requires
        l.stage == Stage::Watching,
        !l.wait_for_keyword || forall|i: int|
            !(0 <= i && i + "риша"@.len() <= t.len() && #[trigger] t.subrange(
                i,
                i + "риша"@.len(),
            ) == "риша"@),
    ensures
        l.immediate_listening ==> listen_step(l, EventView::Transcript(t)) == (
            Listener {
                wait_for_keyword: l.wait_for_keyword,
                immediate_listening: true,
                stage: Stage::AwaitingCommand { keyword: false },
            },
            seq![ActionView::Speak(Phrase::Listening)],
        ),
        !l.immediate_listening ==> listen_step(l, EventView::Transcript(t)) == (
            Listener {
                wait_for_keyword: l.wait_for_keyword,
                immediate_listening: false,
                stage: Stage::Ready,
            },
            seq![ActionView::Pause(3000)],
        ),
{
    if l.wait_for_keyword {
        assert(!contains(t, "риша"@)) by {
            assert forall|i: int| !crate::text::occurs_at(t, "риша"@, i) by {
                if crate::text::occurs_at(t, "риша"@, i) {
                    assert(t.subrange(i, i + "риша"@.len()) == "риша"@);
                }
            }
        }
    }
}

/// A ready listener that finds general listening off stops, logging that listening is off
/// and recording stopped.
pub proof fn lemma_ready_listening_off(l: Listener, processing: bool)
    requires
        l.stage == Stage::Ready,
    ensures
        listen_step(l, EventView::Flags { general_active: false, processing }) == (
            Listener {
                wait_for_keyword: l.wait_for_keyword,
                immediate_listening: l.immediate_listening,
                stage: Stage::Stopped,
            },
            seq![
                ActionView::Log(NoticeView::ListeningOff),
                ActionView::Log(NoticeView::RecordingStopped),
            ],
        ),
{
}

/// A ready listener that finds listening on waits 100 ms while another keyword session is
/// busy, and otherwise goes on to take what was heard, asking for nothing.
pub proof fn lemma_ready_listening_on(l: Listener, processing: bool)
    requires
        l.stage == Stage::Ready,
    ensures
        processing ==> listen_step(l, EventView::Flags { general_active: true, processing })
            == (l, seq![ActionView::Pause(100)]),
        !processing ==> listen_step(l, EventView::Flags { general_active: true, processing })
            == (
            Listener {
                wait_for_keyword: l.wait_for_keyword,
                immediate_listening: l.immediate_listening,
                stage: Stage::Watching,
            },
            Seq::<ActionView>::empty(),
        ),
{
}

/// "хватит" ends the wait for a command: it is logged, a keyword session lowers the busy flag
/// and says it no longer listens, and the listener pauses three seconds and is ready again.
pub proof fn lemma_enough_ends_wait(l: Listener, keyword: bool)
    requires
        l.stage == (Stage::AwaitingCommand { keyword }),
    ensures
        listen_step(l, EventView::Transcript("хватит"@)) == (
            Listener {
                wait_for_keyword: l.wait_for_keyword,
                immediate_listening: l.immediate_listening,
                stage: Stage::Ready,
            },
            if keyword {
                seq![
                    ActionView::Log(NoticeView::StoppingListening),
                    ActionView::SetProcessing(false),
                    ActionView::Log(NoticeView::KeywordSessionOver),
                    ActionView::Pause(3000),
                ]
            } else {
                seq![ActionView::Log(NoticeView::StoppingListening), ActionView::Pause(3000)]
            },
        ),
{
    if keyword {
        assert(session_end(keyword) =~= seq![
            ActionView::SetProcessing(false),
            ActionView::Log(NoticeView::KeywordSessionOver),
        ]);
    }
}

/// Hearing the stop phrase (once corrected) says "люблю", switches general listening off,
/// logs that recording stopped, and stops the listener.
pub proof fn lemma_stop_phrase_result(l: Listener, keyword: bool, t: Seq<char>)
    requires
        l.stage == (Stage::AwaitingCommand { keyword }),
        t != "хватит"@,
        corrected(t) == "стоп запись"@,
    ensures
        listen_step(l, EventView::Transcript(t)) == (
            Listener {
                wait_for_keyword: l.wait_for_keyword,
                immediate_listening: l.immediate_listening,
                stage: Stage::Stopped,
            },
            seq![
                ActionView::Speak(Phrase::Love),
                ActionView::DeactivateGeneral,
                ActionView::Log(NoticeView::RecordingStopped),
            ],
        ),
{
}

/// A command heard while waiting (not "хватит", not the stop phrase, not empty once
/// corrected) is logged as heard, confirmed aloud ("поиск" where it holds "найди", else
/// "открываю" where it holds "открой"), sent corrected, ends a keyword session, and is
/// followed by a three-second pause; the listener is then ready and out of immediate mode.
pub proof fn lemma_command_is_sent(l: Listener, keyword: bool, t: Seq<char>)
    requires
        l.stage == (Stage::AwaitingCommand { keyword }),
        t != "хватит"@,
        corrected(t) != "стоп запись"@,
        corrected(t).len() > 0,
    ensures
        listen_step(l, EventView::Transcript(t)) == (
            Listener {
                wait_for_keyword: l.wait_for_keyword,
                immediate_listening: false,
                stage: Stage::Ready,
            },
            seq![ActionView::Log(NoticeView::CommandReceived(t))] + (if contains(
                corrected(t),
                "найди"@,
            ) {
                seq![ActionView::Speak(Phrase::Search)]
            } else if contains(corrected(t), "открой"@) {
                seq![ActionView::Speak(Phrase::Opening)]
            } else {
                Seq::<ActionView>::empty()
            }) + seq![ActionView::Send(corrected(t))] + (if keyword {
                seq![
                    ActionView::SetProcessing(false),
                    ActionView::Log(NoticeView::KeywordSessionOver),
                ]
            } else {
                Seq::<ActionView>::empty()
            }) + seq![ActionView::Pause(3000)],
        ),
{
}

/// Hearing nothing (once corrected) while waiting for a command pauses, three seconds in a
/// keyword session and one second otherwise, and keeps waiting.
pub proof fn lemma_nothing_heard_keeps_waiting(l: Listener, keyword: bool, t: Seq<char>)
    requires
        l.stage == (Stage::AwaitingCommand { keyword }),
        t != "хватит"@,
        corrected(t).len() == 0,
    ensures
        listen_step(l, EventView::Transcript(t)) == (
            l,
            seq![ActionView::Pause(if keyword { 3000 } else { 1000 })],
        ),
{
    reveal_strlit("стоп запись");
    assert("стоп запись"@.len() == 11);
}

} // verus!
