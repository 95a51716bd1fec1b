use vstd::prelude::*;

use crate::commands::is_text;

verus! {

/// The phrases that the assistant says aloud.
#[derive(Debug, Clone, Copy, PartialEq, Eq)]
pub enum Phrase {
    /// "приветствие": said when general listening starts.
    Greeting,
    /// "слушаю": said when the assistant waits for a command.
    Listening,
    /// "люблю": said when recording is stopped by voice.
    Love,
    /// "поиск": said before a search is run.
    Search,
    /// "открываю": said before something is opened.
    Opening,
}

/// The name under which a phrase is looked up.
pub open spec fn phrase_name(p: Phrase) -> Seq<char> {
    match p {
        Phrase::Greeting => "приветствие"@,
        Phrase::Listening => "слушаю"@,
        Phrase::Love => "люблю"@,
        Phrase::Search => "поиск"@,
        Phrase::Opening => "открываю"@,
    }
}

impl Phrase {
    /// The name under which this phrase is looked up.
    pub fn name(&self) -> (r: &'static str)
        ensures
            r@ == phrase_name(*self),
    {
        match self {
            Phrase::Greeting => "приветствие",
            Phrase::Listening => "слушаю",
            Phrase::Love => "люблю",
            Phrase::Search => "поиск",
            Phrase::Opening => "открываю",
        }
    }
}

/// The audio file (under the `audio` directory) recorded for a phrase name, if there is one.
pub open spec fn audio_file(text: Seq<char>) -> Option<Seq<char>> {
    if text == "слушаю"@ {
        Some("listen.mp3"@)
    } else if text == "открываю"@ {
        Some("open.mp3"@)
    } else if text == "поиск"@ {
        Some("search.mp3"@)
    } else if text == "люблю"@ {
        Some("love.mp3"@)
    } else if text == "приветствие"@ {
        Some("greetings.mp3"@)
    } else {
        None
    }
}

/// The audio file to play for the phrase name `text`; `None` where no file is recorded for it.
pub fn current_audio(text: &str) -> (r: Option<String>)
    ensures
        match r {
            Some(f) => audio_file(text@) == Some(f@),
            None => audio_file(text@) is None,
        },
{
    let t = crate::text::chars_of(text);
    if is_text(&t, "слушаю") {
        Some("listen.mp3".to_owned())
    } else if is_text(&t, "открываю") {
        Some("open.mp3".to_owned())
    } else if is_text(&t, "поиск") {
        Some("search.mp3".to_owned())
    } else if is_text(&t, "люблю") {
        Some("love.mp3".to_owned())
    } else if is_text(&t, "приветствие") {
        Some("greetings.mp3".to_owned())
    } else {
        None
    }
}

/// Every phrase the assistant says has an audio file.
pub proof fn lemma_every_phrase_has_audio(p: Phrase)
    ensures
        audio_file(phrase_name(p)) is Some,
{
}

/// How long, in seconds, the assistant waits after starting to play an audio file of
/// `file_len` bytes: two seconds, and two more for a file of at least 50 KiB.
pub open spec fn pause_after_playing(file_len: nat) -> nat {
    if file_len / 1024 >= 50 {
        4
    } else {
        2
    }
}

/// The wait, in seconds, after starting to play an audio file of `file_len` bytes.
pub fn playback_pause_secs(file_len: u64) -> (r: u64)
    ensures
        r == pause_after_playing(file_len as nat),
{
    let kib = file_len / 1024;
    if kib >= 50 {
        2 + 2
    } else {
        2
    }
}

/// A longer file is never followed by a shorter wait.
pub proof fn lemma_pause_monotone(a: nat, b: nat)
    requires
        a <= b,
    ensures
        pause_after_playing(a) <= pause_after_playing(b),
{
    assert(a / 1024 <= b / 1024) by (nonlinear_arith)
        requires
            a <= b,
    ;
}

proof fn lemma_phrase_names_distinct()
    ensures
        "слушаю"@ != "открываю"@,
        "слушаю"@ != "поиск"@,
        "слушаю"@ != "люблю"@,
        "слушаю"@ != "приветствие"@,
        "открываю"@ != "поиск"@,
        "открываю"@ != "люблю"@,
        "открываю"@ != "приветствие"@,
        "поиск"@ != "люблю"@,
        "поиск"@ != "приветствие"@,
        "люблю"@ != "приветствие"@,
{
    reveal_strlit("слушаю");
    reveal_strlit("открываю");
    reveal_strlit("поиск");
    reveal_strlit("люблю");
    reveal_strlit("приветствие");
    assert("слушаю"@.len() == 6);
    assert("открываю"@.len() == 8);
    assert("поиск"@.len() == 5);
    assert("люблю"@.len() == 5);
    assert("приветствие"@.len() == 11);
    assert("поиск"@[0] != "люблю"@[0]);
}

/// Each phrase is said under its own name and played from its own recording: the greeting
/// "приветствие" from greetings.mp3, "слушаю" from listen.mp3, "люблю" from love.mp3,
/// "поиск" from search.mp3, "открываю" from open.mp3.
pub proof fn lemma_phrase_recordings(p: Phrase)
    ensures
        p == Phrase::Greeting ==> phrase_name(p) == "приветствие"@ && audio_file(phrase_name(p))
            == Some("greetings.mp3"@),
        p == Phrase::Listening ==> phrase_name(p) == "слушаю"@ && audio_file(phrase_name(p))
            == Some("listen.mp3"@),
        p == Phrase::Love ==> phrase_name(p) == "люблю"@ && audio_file(phrase_name(p)) == Some(
            "love.mp3"@,
        ),
        p == Phrase::Search ==> phrase_name(p) == "поиск"@ && audio_file(phrase_name(p)) == Some(
            "search.mp3"@,
        ),
        p == Phrase::Opening ==> phrase_name(p) == "открываю"@ && audio_file(phrase_name(p))
            == Some("open.mp3"@),
{
    lemma_phrase_names_distinct();
}

/// Different phrases have different names.
pub proof fn lemma_phrase_names_differ(p: Phrase, q: Phrase)
    requires
        p != q,
    ensures
        phrase_name(p) != phrase_name(q),
{
    lemma_phrase_names_distinct();
}

/// A name other than the five phrase names has no recording.
pub proof fn lemma_unknown_name_has_no_recording(text: Seq<char>)
    requires
        text != "слушаю"@,
        text != "открываю"@,
        text != "поиск"@,
        text != "люблю"@,
        text != "приветствие"@,
    ensures
        audio_file(text) is None,
{
}

/// The pause after playing is two seconds for a file under 50 KiB (51200 bytes) and four
/// seconds from 50 KiB on.
pub proof fn lemma_pause_threshold(file_len: nat)
    ensures
        file_len < 51200 ==> pause_after_playing(file_len) == 2,
        file_len >= 51200 ==> pause_after_playing(file_len) == 4,
{
    if file_len < 51200 {
        assert(file_len / 1024 < 50) by (nonlinear_arith)
            requires
                file_len < 51200,
        ;
    } else {
        assert(file_len / 1024 >= 50) by (nonlinear_arith)
            requires
                file_len >= 51200,
        ;
    }
}

} // verus!
