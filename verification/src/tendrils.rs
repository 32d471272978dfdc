//! Text runs, held in the compact strings that `tendril` provides.
//!
//! The builder hands a run on to the sink as it came. The one thing it
//! asks of a run is whether it is white space only.

use tendril::StrTendril;
use vstd::prelude::*;

verus! {

/// A run of text: a `StrTendril`, of which contracts know the characters
/// and nothing else.
#[verifier::external_body]
#[derive(Debug, PartialEq, Eq)]
pub struct Text {
    tendril: StrTendril,
}

/// The characters that a run holds.
pub uninterp spec fn text_chars(text: Text) -> Seq<char>;

impl View for Text {
    type V = Seq<char>;

    open spec fn view(&self) -> Seq<char> {
        text_chars(*self)
    }
}

/// White space as XML has it: space, tab, line feed, carriage return.
pub open spec fn is_space(c: char) -> bool {
    c == ' ' || c == '\t' || c == '\n' || c == '\r'
}

/// Whether `chars` holds white space only.
pub open spec fn is_blank(chars: Seq<char>) -> bool {
    forall|i: int| 0 <= i < chars.len() ==> is_space(#[trigger] chars[i])
}

/// Whether a slice is short enough for a tendril, which counts its bytes
/// in 32 bits.
pub open spec fn fits_tendril(s: &str) -> bool {
    s.len() <= u32::MAX
}

/// Calls `StrTendril::from(&str)`, which copies the slice into a new
/// tendril: the run holds the characters of `s`. The call panics on a
/// slice of more than `u32::MAX` bytes.
#[verifier::external_body]
fn tendril_of(s: &str) -> (text: Text)
    requires
        fits_tendril(s),
    ensures
        text_chars(text) == s@,
{
    Text { tendril: StrTendril::from(s) }
}

/// Calls the tendril's `Deref` to `str`: the slice holds the run's
/// characters.
#[verifier::external_body]
fn str_of(text: &Text) -> (s: &str)
    ensures
        s@ == text_chars(*text),
{
    &text.tendril
}

impl Text {
    /// A run that holds the characters of `s`, where `s` is short enough
    /// for a tendril.
    pub fn from_str(s: &str) -> (text: Option<Text>)
        ensures
            match text {
                Some(run) => fits_tendril(s) && run@ == s@,
                None => !fits_tendril(s),
            },
    {
        if s.len() as u64 <= 0xFFFF_FFFFu64 {
            Some(tendril_of(s))
        } else {
            None
        }
    }

    /// The characters of the run.
    pub fn as_str(&self) -> (s: &str)
        ensures
            s@ == self@,
    {
        str_of(self)
    }

    /// Whether the run holds white space only.
    pub fn is_blank(&self) -> (blank: bool)
        ensures
            blank == is_blank(self@),
    {
        let s = self.as_str();
        let mut blank = true;
        for c in it: s.chars()
            invariant
                it.seq() == self@,
                blank == (forall|i: int| 0 <= i < it.index() ==> is_space(#[trigger] self@[i])),
        {
            if !(c == ' ' || c == '\t' || c == '\n' || c == '\r') {
                blank = false;
            }
        }
        blank
    }
}

} // verus!
