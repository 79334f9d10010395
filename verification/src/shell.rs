//! What a command line makes of a line of input: which command it is, where
//! a definition splits into name and expression, and which lines of a
//! history are shown.

use vstd::prelude::*;
use crate::literal::{is_float_literal, spec_is_float_literal};
use crate::text::{Span, reads, spec_trim, trim};

verus! {

/// What a line of input asks for.
#[derive(Clone, Copy, Debug, PartialEq, Eq, Structural)]
pub enum Command {
    /// An empty line: nothing.
    Nothing,
    /// `exit`
    Exit,
    /// `help`
    Help,
    /// `clear`: clear the screen.
    ClearScreen,
    /// `history`
    ShowHistory,
    /// `clearhistory`
    ClearHistory,
    /// `vars`
    ListVariables,
    /// `let name = expression`; the span is what follows `let `.
    Define(Span),
    /// Anything else is an expression; the span is the trimmed line.
    Evaluate(Span),
}

/// Whether the text at a span begins with `let` and a blank.
pub open spec fn begins_definition(text: Seq<char>, line: Span) -> bool {
    line.end - line.start >= 4 && text.subrange(line.start as int, line.start + 4) == "let "@
}

/// The command of a line: the line is trimmed, and one of the command words
/// has to be all that is left of it.
pub open spec fn spec_command(text: Seq<char>) -> Command {
    let line = spec_trim(text, Span { start: 0, end: text.len() as usize });
    let word = line.of(text);
    if line.start >= line.end {
        Command::Nothing
    } else if word == "exit"@ {
        Command::Exit
    } else if word == "help"@ {
        Command::Help
    } else if word == "clear"@ {
        Command::ClearScreen
    } else if word == "history"@ {
        Command::ShowHistory
    } else if word == "clearhistory"@ {
        Command::ClearHistory
    } else if word == "vars"@ {
        Command::ListVariables
    } else if begins_definition(text, line) {
        Command::Define(Span { start: (line.start + 4) as usize, end: line.end })
    } else {
        Command::Evaluate(line)
    }
}

/// Reads the command of a line.
pub fn command(chars: &Vec<char>) -> (command: Command)
    ensures
        command == spec_command(chars@),
        match command {
            Command::Define(span) => span.within(chars@.len()),
            Command::Evaluate(span) => span.within(chars@.len()),
            _ => true,
        },
{
    let line = trim(chars, Span { start: 0, end: chars.len() });
    if line.start >= line.end {
        Command::Nothing
    } else if reads(chars, line, "exit") {
        Command::Exit
    } else if reads(chars, line, "help") {
        Command::Help
    } else if reads(chars, line, "clear") {
        Command::ClearScreen
    } else if reads(chars, line, "history") {
        Command::ShowHistory
    } else if reads(chars, line, "clearhistory") {
        Command::ClearHistory
    } else if reads(chars, line, "vars") {
        Command::ListVariables
    } else if line.end - line.start >= 4 && reads(
        chars,
        Span { start: line.start, end: line.start + 4 },
        "let ",
    ) {
        Command::Define(Span { start: line.start + 4, end: line.end })
    } else {
        Command::Evaluate(line)
    }
}

/// The first position from `from` on, below `to`, that holds `mark`; `to`
/// where there is none.
pub open spec fn position_of(text: Seq<char>, mark: char, from: int, to: int) -> int
    decreases to - from,
{
    if from < to && text[from] != mark {
        position_of(text, mark, from + 1, to)
    } else {
        from
    }
}

/// The mark stands at the position that is found, if it lies below `to`, and
/// nowhere before it.
pub proof fn lemma_position_of(text: Seq<char>, mark: char, from: int, to: int)
    requires
        0 <= from <= to <= text.len(),
    ensures
        from <= position_of(text, mark, from, to) <= to,
        forall|k: int| from <= k < position_of(text, mark, from, to) ==> text[k] != mark,
        position_of(text, mark, from, to) < to ==> text[position_of(text, mark, from, to)] == mark,
    decreases to - from,
{
    if from < to && text[from] != mark {
        lemma_position_of(text, mark, from + 1, to);
    }
}

/// The two sides of the first equals sign in a span, if there is one.
pub open spec fn spec_split_at_equals(text: Seq<char>, span: Span) -> Option<(Span, Span)> {
    let at = position_of(text, '=', span.start as int, span.end as int);
    if span.start <= at < span.end {
        Some(
            (
                Span { start: span.start, end: at as usize },
                Span { start: (at + 1) as usize, end: span.end },
            ),
        )
    } else {
        None
    }
}

/// Splits a span at its first equals sign.
pub fn split_at_equals(chars: &Vec<char>, span: Span) -> (sides: Option<(Span, Span)>)
    requires
        span.within(chars@.len()),
    ensures
        sides == spec_split_at_equals(chars@, span),
        sides matches Some((left, right)) ==> left.within(chars@.len()) && right.within(
            chars@.len(),
        ),
{
    proof {
        lemma_position_of(chars@, '=', span.start as int, span.end as int);
    }
    let mut at: usize = span.start;
    while at < span.end && chars[at] != '='
        invariant
            span.within(chars@.len()),
            span.start <= at <= span.end,
            position_of(chars@, '=', span.start as int, span.end as int) == position_of(
                chars@,
                '=',
                at as int,
                span.end as int,
            ),
        decreases span.end - at,
    {
        at += 1;
    }
    if at < span.end {
        Some((Span { start: span.start, end: at }, Span { start: at + 1, end: span.end }))
    } else {
        None
    }
}

/// Name and expression of a definition `name = expression`, each without
/// the white space around it.
pub open spec fn spec_definition(text: Seq<char>, span: Span) -> Option<(Span, Span)> {
    match spec_split_at_equals(text, span) {
        Some((left, right)) => Some((spec_trim(text, left), spec_trim(text, right))),
        None => None,
    }
}

/// Splits a definition into its name and its expression. There is none
/// without an equals sign.
pub fn definition(chars: &Vec<char>, span: Span) -> (parts: Option<(Span, Span)>)
    requires
        span.within(chars@.len()),
    ensures
        parts == spec_definition(chars@, span),
        parts matches Some((name, expression)) ==> name.within(chars@.len())
            && expression.within(chars@.len()),
{
    match split_at_equals(chars, span) {
        Some((left, right)) => Some((trim(chars, left), trim(chars, right))),
        None => None,
    }
}

/// Name and value of a stored line `name=value`: the line splits at its
/// first equals sign, and what follows has to be a literal.
pub open spec fn spec_stored_variable(text: Seq<char>) -> Option<(Span, Span)> {
    match spec_split_at_equals(text, Span { start: 0, end: text.len() as usize }) {
        Some((name, value)) => if spec_is_float_literal(text, value) {
            Some((name, value))
        } else {
            None
        },
        None => None,
    }
}

/// Reads a stored line `name=value`. A line without an equals sign, or with
/// a value that is no literal, holds no variable.
pub fn stored_variable(chars: &Vec<char>) -> (parts: Option<(Span, Span)>)
    ensures
        parts == spec_stored_variable(chars@),
        parts matches Some((name, value)) ==> name.within(chars@.len()) && value.within(
            chars@.len(),
        ),
{
    match split_at_equals(chars, Span { start: 0, end: chars.len() }) {
        Some((name, value)) => if is_float_literal(chars, value) {
            Some((name, value))
        } else {
            None
        },
        None => None,
    }
}

/// Where the last `count` of `total` entries begin.
pub open spec fn spec_first_shown(total: nat, count: nat) -> nat {
    if total > count {
        (total - count) as nat
    } else {
        0
    }
}

/// The index of the first of the last `count` entries of a history of
/// `total`: all of them where there are no more than `count`.
pub fn first_shown(total: usize, count: usize) -> (first: usize)
    ensures
        first == spec_first_shown(total as nat, count as nat),
        first <= total,
        total - first <= count,
{
    if total > count {
        total - count
    } else {
        0
    }
}

/// The last `count` entries of a history, in their order.
pub fn last_entries(entries: &Vec<String>, count: usize) -> (shown: Vec<String>)
    ensures
        shown@.len() == entries@.len() - spec_first_shown(entries@.len(), count as nat),
        forall|i: int|
            0 <= i < shown@.len() ==> (#[trigger] shown@[i])@ == entries@[spec_first_shown(
                entries@.len(),
                count as nat,
            ) + i]@,
{
    let first = first_shown(entries.len(), count);
    let mut shown: Vec<String> = Vec::new();
    let mut at: usize = first;
    while at < entries.len()
        invariant
            first <= at <= entries@.len(),
            shown@.len() == at - first,
            forall|i: int| 0 <= i < shown@.len() ==> (#[trigger] shown@[i])@ == entries@[first + i]@,
        decreases entries@.len() - at,
    {
        let ghost before = shown@;
        shown.push(entries[at].clone());
        proof {
            assert forall|i: int| 0 <= i < shown@.len() implies (#[trigger] shown@[i])@
                == entries@[first + i]@ by {
                if i < before.len() {
                    assert(shown@[i] == before[i]);
                }
            }
        }
        at += 1;
    }
    shown
}

} // verus!
