//! Counting sentiment markers in a text.

use crate::text::{contains_text, lowercase_of, occurs_in};
use vstd::prelude::*;

verus! {

/// How many of the positive and of the negative marker words occur in a text.
#[derive(Clone, Copy, Debug, PartialEq, Eq, Structural)]
pub struct SentimentCounts {
    pub positive: u32,
    pub negative: u32,
}

/// One if `marker` occurs in `text`, else zero.
pub open spec fn marker_hit(marker: Seq<char>, text: Seq<char>) -> nat {
    if occurs_in(marker, text) {
        1
    } else {
        0
    }
}

/// How many of the words love, amazing, great and excellent occur in `text`.
pub open spec fn positive_hits(text: Seq<char>) -> nat {
    marker_hit("love"@, text) + marker_hit("amazing"@, text) + marker_hit("great"@, text)
        + marker_hit("excellent"@, text)
}

/// How many of the words hate, terrible, awful and bad occur in `text`.
pub open spec fn negative_hits(text: Seq<char>) -> nat {
    marker_hit("hate"@, text) + marker_hit("terrible"@, text) + marker_hit("awful"@, text)
        + marker_hit("bad"@, text)
}

/// The marker counts of a text that is already in lower case.
pub open spec fn counts_of(lowered: Seq<char>) -> SentimentCounts {
    SentimentCounts {
        positive: positive_hits(lowered) as u32,
        negative: negative_hits(lowered) as u32,
    }
}

fn hit(text: &str, marker: &str) -> (n: u32)
    ensures
        n == marker_hit(marker@, text@),
{
    if contains_text(text, marker) {
        1
    } else {
        0
    }
}

/// Counts the marker words that occur in `lowered`, letter for letter. Each
/// word counts once, however often it occurs.
pub fn count_markers(lowered: &str) -> (counts: SentimentCounts)
    ensures
        counts == counts_of(lowered@),
        counts.positive == positive_hits(lowered@),
        counts.negative == negative_hits(lowered@),
        counts.positive <= 4,
        counts.negative <= 4,
{
    let positive: u32 = hit(lowered, "love") + hit(lowered, "amazing") + hit(lowered, "great")
        + hit(lowered, "excellent");
    let negative: u32 = hit(lowered, "hate") + hit(lowered, "terrible") + hit(lowered, "awful")
        + hit(lowered, "bad");
    SentimentCounts { positive, negative }
}

/// Counts the marker words in `text` without regard to case: the counts of
/// its lower-case form.
pub fn tally_sentiment(text: &str) -> (counts: SentimentCounts)
    ensures
        counts == counts_of(lowercase_of(text@)),
{
    let lowered = text.to_lowercase();
    count_markers(lowered.as_str())
}

} // verus!
