//! Splitting a raw command line into the launcher's own name and the command
//! that is forwarded to the child.
//!
//! The raw command line is the text that the operating system hands to a new
//! process: UTF-16 code units, the program's own name or path first, a null
//! unit last and nowhere else. Nothing in it is unescaped here. The split
//! only finds two indices, and the forwarded command is the line from the
//! second index on, unit for unit, the terminating null included.

use vstd::prelude::*;
use crate::scan::{
    first_at, first_from, index_of, lemma_first_from_found, lemma_first_from_is, position_from,
};
use crate::units::{is_separator, UnitClass, NULL, QUOTE};

verus! {

/// Where a raw command line divides.
#[derive(Clone, Copy, Debug, PartialEq, Eq)]
pub struct SplitPoint {
    /// The index at which the program-name token ends: just behind the
    /// closing quote of a quoted name, at the first separator otherwise.
    pub space: usize,
    /// The index of the first unit behind the separators that follow the
    /// program name: the start of the forwarded command.
    pub command: usize,
}

/// A split point as a pair of mathematical indices.
pub ghost struct SplitAt {
    pub space: int,
    pub command: int,
}

impl View for SplitPoint {
    type V = SplitAt;

    open spec fn view(&self) -> SplitAt {
        SplitAt { space: self.space as int, command: self.command as int }
    }
}

/// Why a buffer cannot be split.
#[derive(Clone, Copy, Debug, PartialEq, Eq)]
pub enum SplitError {
    /// The buffer is no raw command line: it does not end in a null unit, or
    /// holds one before its end.
    NotTerminated,
    /// The line opens with a double quote that is never closed.
    UnterminatedQuote,
    /// The line does not open with a double quote and holds no separator.
    NoSeparator,
}

/// The line opens with a double quote.
pub open spec fn starts_quoted(line: Seq<u16>) -> bool {
    line.len() > 0 && line[0] == QUOTE
}

/// The line ends in a null unit and holds no other.
pub open spec fn is_terminated(line: Seq<u16>) -> bool {
    &&& line.len() > 0
    &&& line[line.len() - 1] == NULL
    &&& forall|k: int| 0 <= k < line.len() - 1 ==> #[trigger] line[k] != NULL
}

/// The index at which the program-name token ends.
///
/// A line that opens with a double quote has its name closed by the next
/// double quote, and the token ends just behind it. Any other line has its
/// name ended by the first separator.
pub open spec fn program_end_of(line: Seq<u16>) -> Option<int> {
    if starts_quoted(line) {
        match first_from(line, 1, UnitClass::Quote) {
            Some(close) => Some(close + 1),
            None => None,
        }
    } else {
        first_from(line, 0, UnitClass::Separator)
    }
}

/// The index of the first unit at or behind `space` that is no separator;
/// the length of the line where there is none.
pub open spec fn command_start_of(line: Seq<u16>, space: int) -> int {
    match first_from(line, space, UnitClass::Text) {
        Some(start) => start,
        None => line.len() as int,
    }
}

/// The split of a raw command line, or the reason why the buffer has none.
pub open spec fn split_of(line: Seq<u16>) -> Result<SplitAt, SplitError> {
    if !is_terminated(line) {
        Err(SplitError::NotTerminated)
    } else {
        match program_end_of(line) {
            None => Err(
                if starts_quoted(line) {
                    SplitError::UnterminatedQuote
                } else {
                    SplitError::NoSeparator
                },
            ),
            Some(space) => Ok(SplitAt { space, command: command_start_of(line, space) }),
        }
    }
}

/// The forwarded command of a raw command line: the line from the command
/// index on.
pub open spec fn forwarded_of(line: Seq<u16>) -> Result<Seq<u16>, SplitError> {
    match split_of(line) {
        Ok(at) => Ok(line.subrange(at.command, line.len() as int)),
        Err(e) => Err(e),
    }
}

/// A split, or its failure, as a mathematical value.
pub open spec fn split_view(split: Result<SplitPoint, SplitError>) -> Result<SplitAt, SplitError> {
    match split {
        Ok(point) => Ok(point@),
        Err(e) => Err(e),
    }
}

/// Forwarded units, or the failure to find them, as a mathematical value.
pub open spec fn forwarded_view(forwarded: Result<Vec<u16>, SplitError>) -> Result<
    Seq<u16>,
    SplitError,
> {
    match forwarded {
        Ok(units) => Ok(units@),
        Err(e) => Err(e),
    }
}

/// A line is terminated exactly if its first null unit is its last unit.
pub proof fn lemma_terminated_by_first_null(line: Seq<u16>)
    ensures
        is_terminated(line) <==> line.len() > 0 && first_from(line, 0, UnitClass::Null) == Some(
            line.len() - 1,
        ),
{
    lemma_first_from_found(line, 0, UnitClass::Null);
    if is_terminated(line) {
        assert(first_at(line, 0, UnitClass::Null, line.len() - 1));
        lemma_first_from_is(line, 0, UnitClass::Null, line.len() - 1);
    } else if line.len() > 0 && first_from(line, 0, UnitClass::Null) == Some(line.len() - 1) {
        assert(first_at(line, 0, UnitClass::Null, line.len() - 1));
        assert forall|k: int| 0 <= k < line.len() - 1 implies #[trigger] line[k] != NULL by {
            assert(!UnitClass::Null.holds(line[k]));
        }
    }
}

/// What a split finds, in plain terms: the program name ends inside the
/// line, only separators lie between its end and the command, and the
/// command starts inside the line with a unit that is no separator, at the
/// latest with the null unit.
pub proof fn lemma_split_bounds(line: Seq<u16>)
    ensures
        split_of(line) matches Ok(at) ==> {
            &&& 0 <= at.space <= at.command < line.len()
            &&& program_end_of(line) == Some(at.space)
            &&& !is_separator(line[at.command])
            &&& forall|k: int| at.space <= k < at.command ==> is_separator(#[trigger] line[k])
        },
{
    if split_of(line) is Ok {
        let last = line.len() - 1;
        let space = program_end_of(line)->0;
        if starts_quoted(line) {
            lemma_first_from_found(line, 1, UnitClass::Quote);
            assert(first_at(line, 1, UnitClass::Quote, space - 1));
        } else {
            lemma_first_from_found(line, 0, UnitClass::Separator);
            assert(first_at(line, 0, UnitClass::Separator, space));
        }
        assert(0 <= space <= last);
        lemma_first_from_found(line, space, UnitClass::Text);
        assert(UnitClass::Text.holds(line[last]));
        let command = command_start_of(line, space);
        assert(first_at(line, space, UnitClass::Text, command));
        assert forall|k: int| space <= k < command implies is_separator(#[trigger] line[k]) by {
            assert(!UnitClass::Text.holds(line[k]));
        }
    }
}

/// Tells whether a buffer is a raw command line: whether it ends in its one
/// null unit.
pub fn terminated(line: &[u16]) -> (yes: bool)
    ensures
        yes == is_terminated(line@),
{
    proof {
        lemma_terminated_by_first_null(line@);
    }
    let length = line.len();
    match position_from(line, 0, UnitClass::Null) {
        Some(end) => end + 1 == length,
        None => false,
    }
}

/// Finds the end of the program-name token.
pub fn program_end(line: &[u16]) -> (end: Option<usize>)
    ensures
        index_of(end) == program_end_of(line@),
{
    if line.len() > 0 && line[0] == QUOTE {
        match position_from(line, 1, UnitClass::Quote) {
            Some(close) => Some(close + 1),
            None => None,
        }
    } else {
        position_from(line, 0, UnitClass::Separator)
    }
}

/// Skips the separators at and behind `space`. Where nothing but separators
/// is left, the length of the line comes back.
pub fn command_start(line: &[u16], space: usize) -> (start: usize)
    ensures
        start == command_start_of(line@, space as int),
{
    match position_from(line, space, UnitClass::Text) {
        Some(start) => start,
        None => line.len(),
    }
}

/// Splits a raw command line.
pub fn split(line: &[u16]) -> (point: Result<SplitPoint, SplitError>)
    ensures
        split_view(point) == split_of(line@),
{
    if !terminated(line) {
        return Err(SplitError::NotTerminated);
    }
    match program_end(line) {
        None => {
            if line[0] == QUOTE {
                Err(SplitError::UnterminatedQuote)
            } else {
                Err(SplitError::NoSeparator)
            }
        },
        Some(space) => Ok(SplitPoint { space, command: command_start(line, space) }),
    }
}

/// Copies the forwarded command out of a raw command line.
///
/// The copy is owned by the caller, which may hand it to a process-creation
/// call that writes into the buffer.
pub fn forward(line: &[u16]) -> (forwarded: Result<Vec<u16>, SplitError>)
    ensures
        forwarded_view(forwarded) == forwarded_of(line@),
{
    match split(line) {
        Err(e) => Err(e),
        Ok(point) => {
            proof {
                lemma_split_bounds(line@);
            }
            let mut units: Vec<u16> = Vec::new();
            let mut i: usize = point.command;
            while i < line.len()
                invariant
                    point.command <= i <= line.len(),
                    units@ == line@.subrange(point.command as int, i as int),
                decreases line.len() - i,
            {
                units.push(line[i]);
                i = i + 1;
            }
            Ok(units)
        },
    }
}

/// Every unit of `run` is a separator.
pub open spec fn all_separators(run: Seq<u16>) -> bool {
    forall|k: int| 0 <= k < run.len() ==> is_separator(#[trigger] run[k])
}

/// A program name written between double quotes, with none inside.
pub open spec fn is_quoted_name(name: Seq<u16>) -> bool {
    &&& name.len() >= 2
    &&& name[0] == QUOTE
    &&& name[name.len() - 1] == QUOTE
    &&& forall|k: int| 1 <= k < name.len() - 1 ==> #[trigger] name[k] != QUOTE
}

/// A program name written without quotes: it does not open with one and
/// holds no separator.
pub open spec fn is_plain_name(name: Seq<u16>) -> bool {
    &&& !starts_quoted(name)
    &&& forall|k: int| 0 <= k < name.len() ==> !is_separator(#[trigger] name[k])
}

/// The program name of a line that opens with a double quote ends just behind
/// the next double quote, whatever stands between the two.
pub proof fn lemma_quoted_name_ends_behind_closing_quote(line: Seq<u16>, close: int)
    requires
        starts_quoted(line),
        1 <= close < line.len(),
        line[close] == QUOTE,
        forall|k: int| 1 <= k < close ==> #[trigger] line[k] != QUOTE,
    ensures
        program_end_of(line) == Some(close + 1),
{
    assert(first_at(line, 1, UnitClass::Quote, close));
    lemma_first_from_is(line, 1, UnitClass::Quote, close);
}

/// Between the quotes of a quoted program name any unit may be exchanged for
/// any other that is no double quote, a separator for one, and the name ends
/// where it did.
pub proof fn lemma_quoted_name_ignores_inside(line: Seq<u16>, end: int, k: int, unit: u16)
    requires
        starts_quoted(line),
        program_end_of(line) == Some(end),
        1 <= k < end - 1,
        unit != QUOTE,
    ensures
        program_end_of(line.update(k, unit)) == Some(end),
{
    lemma_first_from_found(line, 1, UnitClass::Quote);
    let close = end - 1;
    let changed = line.update(k, unit);
    assert(first_at(line, 1, UnitClass::Quote, close));
    assert forall|j: int| 1 <= j < close implies !UnitClass::Quote.holds(#[trigger] changed[j]) by {
        if j != k {
            assert(!UnitClass::Quote.holds(line[j]));
        }
    }
    lemma_quoted_name_ends_behind_closing_quote(changed, close);
}

/// The program name of a line that does not open with a double quote ends at
/// the first separator.
pub proof fn lemma_plain_name_ends_at_first_separator(line: Seq<u16>, at: int)
    requires
        !starts_quoted(line),
        0 <= at < line.len(),
        is_separator(line[at]),
        forall|k: int| 0 <= k < at ==> !is_separator(#[trigger] line[k]),
    ensures
        program_end_of(line) == Some(at),
{
    assert(first_at(line, 0, UnitClass::Separator, at));
    lemma_first_from_is(line, 0, UnitClass::Separator, at);
}

/// Any run of separators is passed over: from the end of the program name
/// on, or from anywhere else, the command starts at the first unit behind
/// the run.
pub proof fn lemma_command_starts_behind_separators(line: Seq<u16>, space: int, start: int)
    requires
        0 <= space <= start < line.len(),
        forall|k: int| space <= k < start ==> is_separator(#[trigger] line[k]),
        !is_separator(line[start]),
    ensures
        command_start_of(line, space) == start,
{
    assert(first_at(line, space, UnitClass::Text, start));
    lemma_first_from_is(line, space, UnitClass::Text, start);
}

/// The split of a raw command line whose program name ends at `space` and
/// is followed by separators up to `start`: the two indices, and the line
/// from `start` on as the forwarded command.
pub proof fn lemma_split_behind_separators(line: Seq<u16>, space: int, start: int)
    requires
        is_terminated(line),
        program_end_of(line) == Some(space),
        space <= start < line.len(),
        forall|k: int| space <= k < start ==> is_separator(#[trigger] line[k]),
        !is_separator(line[start]),
    ensures
        split_of(line) == Ok::<SplitAt, SplitError>(SplitAt { space, command: start }),
        forwarded_of(line) == Ok::<Seq<u16>, SplitError>(line.subrange(start, line.len() as int)),
{
    if starts_quoted(line) {
        lemma_first_from_found(line, 1, UnitClass::Quote);
    } else {
        lemma_first_from_found(line, 0, UnitClass::Separator);
    }
    lemma_command_starts_behind_separators(line, space, start);
}

/// A raw command line is split exactly if its program name has an end. What
/// is forwarded is then a line of its own: it ends in the null unit and
/// holds no other.
pub proof fn lemma_forwarded_is_terminated(line: Seq<u16>)
    requires
        is_terminated(line),
    ensures
        split_of(line) is Ok <==> program_end_of(line) is Some,
        forwarded_of(line) matches Ok(units) ==> is_terminated(units),
{
    if split_of(line) is Ok {
        lemma_split_bounds(line);
        let command = split_of(line)->Ok_0.command;
        let units = line.subrange(command, line.len() as int);
        assert(units[units.len() - 1] == line[line.len() - 1]);
        assert forall|k: int| 0 <= k < units.len() - 1 implies #[trigger] units[k] != NULL by {
            assert(units[k] == line[command + k]);
        }
    }
}

/// What is forwarded is trimmed already: it starts with a unit that is no
/// separator, so skipping separators once more leaves it as it is.
pub proof fn lemma_forwarded_is_trimmed(line: Seq<u16>)
    ensures
        forwarded_of(line) matches Ok(units) ==> {
            &&& units.len() > 0
            &&& !is_separator(units[0])
            &&& command_start_of(units, 0) == 0
            &&& units.subrange(command_start_of(units, 0), units.len() as int) == units
        },
{
    if forwarded_of(line) is Ok {
        lemma_split_bounds(line);
        let units = forwarded_of(line)->Ok_0;
        lemma_command_starts_behind_separators(units, 0, 0);
        assert(units.subrange(0, units.len() as int) =~= units);
    }
}

/// Splitting undoes joining. A line made of a program name, a run of
/// separators and a command that starts with no separator splits behind the
/// name, and the command comes back unit for unit. A quoted name needs no
/// separator behind it; a plain one needs at least one.
pub proof fn lemma_split_of_joined(name: Seq<u16>, run: Seq<u16>, command: Seq<u16>)
    requires
        is_quoted_name(name) || (is_plain_name(name) && run.len() > 0),
        all_separators(run),
        command.len() > 0,
        !is_separator(command[0]),
        is_terminated(name + run + command),
    ensures
        split_of(name + run + command) == Ok::<SplitAt, SplitError>(
            SplitAt { space: name.len() as int, command: (name.len() + run.len()) as int },
        ),
        forwarded_of(name + run + command) == Ok::<Seq<u16>, SplitError>(command),
{
    let line = name + run + command;
    let space = name.len() as int;
    let start = (name.len() + run.len()) as int;
    assert forall|k: int| 0 <= k < name.len() implies #[trigger] line[k] == name[k] by {}
    assert forall|k: int| space <= k < start implies is_separator(#[trigger] line[k]) by {
        assert(line[k] == run[k - space]);
    }
    assert(line[start] == command[0]);
    if is_quoted_name(name) {
        assert(starts_quoted(line));
        lemma_quoted_name_ends_behind_closing_quote(line, space - 1);
    } else {
        if name.len() == 0 {
            assert(is_separator(line[0]));
        }
        assert(!starts_quoted(line));
        assert(is_separator(line[space]));
        lemma_plain_name_ends_at_first_separator(line, space);
    }
    lemma_split_behind_separators(line, space, start);
    assert(line.subrange(start, line.len() as int) =~= command);
}

} // verus!
