use vstd::prelude::*;

use crate::text::{chars_of, contains, contains_chars};

verus! {

/// What `str::to_lowercase` gives for a text.
pub uninterp spec fn lowercase(s: Seq<char>) -> Seq<char>;

/// The text in lower case: std's `str::to_lowercase`. Its result depends on the text alone;
/// what it maps each character to (Unicode's case tables) is left unsaid.
#[verifier::external_body]
fn to_lowercase(s: &str) -> (r: String)
    ensures
        r@ == lowercase(s@),
{
    s.to_lowercase()
}

/// The silence, in milliseconds, after which recording stops.
pub const SILENCE_LIMIT_MS: u64 = 10000;

/// Whether a partial transcript that is already in lower case asks to stop recording:
/// it holds "стоп запись".
pub fn stop_requested(lowered: &str) -> (r: bool)
    ensures
        r == contains(lowered@, "стоп запись"@),
{
    contains_chars(&chars_of(lowered), &chars_of("стоп запись"))
}

/// Whether recording stops, given the partial transcript heard so far and the milliseconds
/// since the last sound: when the transcript, in lower case, holds "стоп запись", or when
/// ten seconds have passed in silence.
pub fn recording_should_stop(partial: &str, silence_ms: u64) -> (r: bool)
    ensures
        r == (contains(lowercase(partial@), "стоп запись"@) || silence_ms >= SILENCE_LIMIT_MS),
{
    let lowered = to_lowercase(partial);
    let heard = stop_requested(lowered.as_str());
    heard || silence_ms >= SILENCE_LIMIT_MS
}

/// Once recording would stop after some silence, it would stop after any longer one too.
pub proof fn lemma_stop_is_monotone_in_silence(partial: Seq<char>, a: u64, b: u64)
    requires
        a <= b,
        contains(lowercase(partial), "стоп запись"@) || a >= SILENCE_LIMIT_MS,
    ensures
        contains(lowercase(partial), "стоп запись"@) || b >= SILENCE_LIMIT_MS,
{
}

} // verus!
