//! The rules of the game: the shared value range, what makes a guess valid,
//! and the reasons a guess can be rejected.

use vstd::prelude::*;

use crate::parse::{chunk_value, chunk_value_of, parse_series_bytes, series_values};
use vstd::utf8::encode_utf8;

verus! {

/// Largest number of primary numbers a guess series may hold.
pub const MAX_SERIES_LENGTH: usize = 6;

/// Smallest value a guessed or drawn number may take.
pub const RANGE_MIN: u8 = 1;

/// Largest value a guessed or drawn number may take.
pub const RANGE_MAX: u8 = 49;

/// A number is playable when it lies inside the shared value range.
pub open spec fn in_range(v: u8) -> bool {
    RANGE_MIN <= v <= RANGE_MAX
}

/// Every number of the series lies inside the shared value range.
pub open spec fn series_in_range(s: Seq<u8>) -> bool {
    forall|i: int| 0 <= i < s.len() ==> in_range(#[trigger] s[i])
}

/// No number occurs twice in the series.
pub open spec fn series_distinct(s: Seq<u8>) -> bool {
    forall|i: int, j: int| 0 <= i < j < s.len() ==> #[trigger] s[i] != #[trigger] s[j]
}

/// One reason a guess is rejected.  The surrounding application turns these
/// into display text; the core only decides which ones apply.
#[derive(Clone, Copy, Debug, PartialEq, Eq, Structural)]
pub enum GuessError {
    /// The guess series holds no numbers at all.
    EmptySeries,
    /// The guess series holds more than `MAX_SERIES_LENGTH` numbers.
    SeriesTooLong,
    /// Some number of the series lies outside the shared value range.
    SeriesValueOutOfRange,
    /// The Superzahl lies outside the shared value range.
    SuperzahlOutOfRange,
    /// A number occurs more than once in the series.
    DuplicateInSeries,
    /// The Superzahl also occurs in the series.
    SuperzahlInSeries,
}

/// The rejection reasons that apply to a guess, in the order the checks run:
/// emptiness, length, series range, Superzahl range, Superzahl membership.
/// Uniqueness of the series is not among them; it is the input collaborator's
/// concern (see [`input_error_list`]).
pub open spec fn guess_error_list(series: Seq<u8>, superzahl: u8) -> Seq<GuessError> {
    (if series.len() == 0 {
        seq![GuessError::EmptySeries]
    } else {
        Seq::<GuessError>::empty()
    }) + (if series.len() > MAX_SERIES_LENGTH {
        seq![GuessError::SeriesTooLong]
    } else {
        Seq::<GuessError>::empty()
    }) + (if !series_in_range(series) {
        seq![GuessError::SeriesValueOutOfRange]
    } else {
        Seq::<GuessError>::empty()
    }) + (if !in_range(superzahl) {
        seq![GuessError::SuperzahlOutOfRange]
    } else {
        Seq::<GuessError>::empty()
    }) + (if series.contains(superzahl) {
        seq![GuessError::SuperzahlInSeries]
    } else {
        Seq::<GuessError>::empty()
    })
}

/// The rejection reasons the input collaborator checks, in the order the
/// checks run.  On top of [`guess_error_list`]'s reasons it also rejects a
/// series with a duplicate number.
pub open spec fn input_error_list(series: Seq<u8>, superzahl: u8) -> Seq<GuessError> {
    (if series.len() == 0 {
        seq![GuessError::EmptySeries]
    } else {
        Seq::<GuessError>::empty()
    }) + (if series.len() > MAX_SERIES_LENGTH {
        seq![GuessError::SeriesTooLong]
    } else {
        Seq::<GuessError>::empty()
    }) + (if !series_in_range(series) {
        seq![GuessError::SeriesValueOutOfRange]
    } else {
        Seq::<GuessError>::empty()
    }) + (if !in_range(superzahl) {
        seq![GuessError::SuperzahlOutOfRange]
    } else {
        Seq::<GuessError>::empty()
    }) + (if !series_distinct(series) {
        seq![GuessError::DuplicateInSeries]
    } else {
        Seq::<GuessError>::empty()
    }) + (if series.contains(superzahl) {
        seq![GuessError::SuperzahlInSeries]
    } else {
        Seq::<GuessError>::empty()
    })
}

/// A guess the core accepts: non-empty, not over-long, every value in range,
/// the Superzahl in range and outside the series.
pub open spec fn guess_acceptable(series: Seq<u8>, superzahl: u8) -> bool {
    &&& series.len() > 0
    &&& series.len() <= MAX_SERIES_LENGTH
    &&& series_in_range(series)
    &&& in_range(superzahl)
    &&& !series.contains(superzahl)
}

/// A guess the input collaborator accepts: [`guess_acceptable`] and a
/// duplicate-free series.
pub open spec fn input_acceptable(series: Seq<u8>, superzahl: u8) -> bool {
    guess_acceptable(series, superzahl) && series_distinct(series)
}

/// An acceptable guess is exactly one with an empty rejection list.
pub proof fn lemma_guess_acceptable_iff_no_errors(series: Seq<u8>, superzahl: u8)
    ensures
        guess_acceptable(series, superzahl) <==> guess_error_list(series, superzahl).len() == 0,
{
}

/// An input-acceptable guess is exactly one with an empty input rejection
/// list.
pub proof fn lemma_input_acceptable_iff_no_errors(series: Seq<u8>, superzahl: u8)
    ensures
        input_acceptable(series, superzahl) <==> input_error_list(series, superzahl).len() == 0,
{
}

/// A guess that could not be parsed into an acceptable series and Superzahl.
#[derive(Clone, Copy, Debug, PartialEq, Eq, Structural)]
pub struct InvalidGuessError;

impl InvalidGuessError {
    /// The fixed display text of a rejected guess.
    pub fn message(&self) -> (r: String)
        ensures
            r@ == "Bad guess."@,
    {
        "Bad guess.".to_owned()
    }
}

/// Raw, still unparsed user input: the series guess and the Superzahl guess
/// as entered, one line each.
pub struct UserInput {
    /// The series guess as entered, for example `"1, 45, 38, 5, 23, 19"`.
    pub series: String,
    /// The Superzahl guess as entered, for example `"13"`.
    pub superzahl: String,
}

impl UserInput {
    /// Wraps the two entered lines.
    pub fn new(series: String, superzahl: String) -> (r: UserInput)
        ensures
            r.series@ == series@,
            r.superzahl@ == superzahl@,
    {
        UserInput { series, superzahl }
    }

    /// Parses both entered lines and validates the outcome: the series line
    /// is trimmed and split on commas with one number per chunk, the
    /// Superzahl line's digits are read as one number, and the pair is
    /// returned exactly when [`input_acceptable`] holds of it.
    pub fn parse(&self) -> (r: Result<(Vec<u8>, u8), InvalidGuessError>)
        ensures
            ({
                let series = series_values(encode_utf8(self.series@));
                let superzahl = chunk_value(encode_utf8(self.superzahl@));
                &&& (r matches Ok(p) ==> p.0@ == series && p.1 == superzahl)
                &&& (r is Ok <==> input_acceptable(series, superzahl))
                &&& (r is Err <==> !input_acceptable(series, superzahl))
            }),
    {
        let series_bytes = self.series.as_str().as_bytes();
        let parsed_series = parse_series_bytes(series_bytes);

        let superzahl_bytes = self.superzahl.as_str().as_bytes();
        let parsed_superzahl = chunk_value_of(superzahl_bytes, 0, superzahl_bytes.len());
        proof {
            assert(superzahl_bytes@.subrange(0, superzahl_bytes@.len() as int)
                =~= superzahl_bytes@);
        }

        match Self::validate(&parsed_series, &parsed_superzahl) {
            Ok(()) => Ok((parsed_series, parsed_superzahl)),
            Err(_) => Err(InvalidGuessError),
        }
    }

    /// Decides which rejection reasons apply to a parsed guess, in the fixed
    /// check order of [`input_error_list`].  Returns `Ok` exactly when none
    /// does.
    pub fn validate(series: &Vec<u8>, superzahl: &u8) -> (r: Result<(), Vec<GuessError>>)
        ensures
            r is Ok <==> input_acceptable(series@, *superzahl),
            r matches Err(v) ==> v@ == input_error_list(series@, *superzahl),
            r is Ok <==> input_error_list(series@, *superzahl).len() == 0,
    {
        let mut messages: Vec<GuessError> = Vec::new();

        if series.len() == 0 {
            messages.push(GuessError::EmptySeries);
        }
        if series.len() > MAX_SERIES_LENGTH {
            messages.push(GuessError::SeriesTooLong);
        }
        if !vec_in_range(series) {
            messages.push(GuessError::SeriesValueOutOfRange);
        }
        if *superzahl < RANGE_MIN || *superzahl > RANGE_MAX {
            messages.push(GuessError::SuperzahlOutOfRange);
        }
        if !vec_distinct(series) {
            messages.push(GuessError::DuplicateInSeries);
        }
        if vec_contains(series, *superzahl) {
            messages.push(GuessError::SuperzahlInSeries);
        }

        proof {
            assert(messages@ =~= input_error_list(series@, *superzahl));
            lemma_input_acceptable_iff_no_errors(series@, *superzahl);
        }

        if messages.len() > 0 {
            return Err(messages);
        }
        Ok(())
    }
}

/// Whether `v@` holds `x`, decided by a scan.
pub fn vec_contains(v: &Vec<u8>, x: u8) -> (r: bool)
    ensures
        r == v@.contains(x),
{
    let mut i: usize = 0;
    while i < v.len()
        invariant
            0 <= i <= v@.len(),
            forall|k: int| 0 <= k < i ==> v@[k] != x,
        decreases v@.len() - i,
    {
        if v[i] == x {
            assert(v@[i as int] == x);
            return true;
        }
        i = i + 1;
    }
    false
}

/// Whether every number of `v@` lies in the shared value range.
pub fn vec_in_range(v: &Vec<u8>) -> (r: bool)
    ensures
        r == series_in_range(v@),
{
    let mut i: usize = 0;
    while i < v.len()
        invariant
            0 <= i <= v@.len(),
            forall|k: int| 0 <= k < i ==> in_range(#[trigger] v@[k]),
        decreases v@.len() - i,
    {
        if v[i] < RANGE_MIN || v[i] > RANGE_MAX {
            assert(!in_range(v@[i as int]));
            return false;
        }
        i = i + 1;
    }
    true
}

/// Whether no number occurs twice in `v@`, decided by a quadratic scan.
pub fn vec_distinct(v: &Vec<u8>) -> (r: bool)
    ensures
        r == series_distinct(v@),
{
    let mut i: usize = 0;
    while i < v.len()
        invariant
            0 <= i <= v@.len(),
            forall|p: int, q: int| 0 <= p < q < v@.len() && q < i ==> #[trigger] v@[p] != #[trigger] v@[q],
        decreases v@.len() - i,
    {
        let mut j: usize = 0;
        while j < i
            invariant
                0 <= j <= i < v@.len(),
                forall|p: int| 0 <= p < j ==> v@[p] != #[trigger] v@[i as int],
            decreases i - j,
        {
            if v[j] == v[i] {
                assert(v@[j as int] == v@[i as int]);
                return false;
            }
            j = j + 1;
        }
        i = i + 1;
    }
    true
}

} // verus!
