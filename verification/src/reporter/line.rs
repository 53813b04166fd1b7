//! The log line of a report.

use super::clock::Elapsed;
use super::state::Report;
use vstd::prelude::*;

verus! {

/// The character of the decimal digit `d`.
pub open spec fn digit(d: nat) -> char
    recommends
        d < 10,
{
    if d == 0 {
        '0'
    } else if d == 1 {
        '1'
    } else if d == 2 {
        '2'
    } else if d == 3 {
        '3'
    } else if d == 4 {
        '4'
    } else if d == 5 {
        '5'
    } else if d == 6 {
        '6'
    } else if d == 7 {
        '7'
    } else if d == 8 {
        '8'
    } else {
        '9'
    }
}

/// The number `n` in decimal digits, without leading zeros.
pub open spec fn decimal(n: nat) -> Seq<char>
    decreases n,
{
    if n < 10 {
        seq![digit(n)]
    } else {
        decimal(n / 10).push(digit(n % 10))
    }
}

/// `count` times the character `fill`.
pub open spec fn filled(fill: char, count: nat) -> Seq<char> {
    Seq::new(count, |i: int| fill)
}

/// The text at the right of a field that is `width` characters wide, with
/// `fill` in the places to its left. A text that is wider than the field is
/// left as it is.
pub open spec fn padded(text: Seq<char>, width: nat, fill: char) -> Seq<char> {
    if text.len() >= width {
        text
    } else {
        filled(fill, (width - text.len()) as nat) + text
    }
}

/// The span in seconds: the whole seconds, a point, the nanoseconds beyond
/// them in nine digits, and the unit.
pub open spec fn seconds(span: Elapsed) -> Seq<char> {
    decimal((span.nanos / 1_000_000_000) as nat) + "."@ + padded(
        decimal((span.nanos % 1_000_000_000) as nat),
        9,
        '0',
    ) + "s"@
}

/// The running count of open connections as every line gives it:
/// right-aligned in five places.
pub open spec fn aligned_count(count: u64) -> Seq<char> {
    padded(decimal(count as nat), 5, ' ')
}

/// The end of a line about a close: the time for which the connection was
/// open.
pub open spec fn connected_for_note(span: Elapsed) -> Seq<char> {
    " (connected for "@ + seconds(span) + ")"@
}

impl Report {
    /// The log line of the report about the peer whose address reads `peer`.
    ///
    /// Every line starts with a mark for the kind of event and the running
    /// count of open connections. A line about a close ends with the time
    /// for which the connection was open; one about a failure holds the
    /// rendered error before it.
    pub open spec fn spec_line(&self, peer: Seq<char>) -> Seq<char> {
        match *self {
            Report::Opened { count, .. } => {
                "🟢 "@ + aligned_count(count) + " — new connection from "@ + peer
            },
            Report::ClosedGracefully { count, connected_for, .. } => {
                "🔴 "@ + aligned_count(count) + " — connection closed from "@ + peer
                    + connected_for_note(connected_for)
            },
            Report::ClosedWithError { count, error, connected_for, .. } => {
                "🔴 "@ + aligned_count(count) + " — connection closed from "@ + peer + ": ⚠️  "@
                    + error.spec_text() + connected_for_note(connected_for)
            },
        }
    }

    /// The log line of the report about the peer whose address reads `peer`.
    pub fn line(&self, peer: &str) -> (line: String)
        ensures
            line@ == self.spec_line(peer@),
    {
        proof {
            reveal_strlit(" ");
        }
        match self {
            Report::Opened { count, .. } => {
                let mut line = String::from_str("🟢 ");
                append_padded_decimal(&mut line, *count as u128, 5, " ");
                line.append(" — new connection from ");
                line.append(peer);
                line
            },
            Report::ClosedGracefully { count, connected_for, .. } => {
                let mut line = String::from_str("🔴 ");
                append_padded_decimal(&mut line, *count as u128, 5, " ");
                line.append(" — connection closed from ");
                line.append(peer);
                line.append(" (connected for ");
                append_seconds(&mut line, connected_for);
                line.append(")");
                line
            },
            Report::ClosedWithError { count, error, connected_for, .. } => {
                let mut line = String::from_str("🔴 ");
                append_padded_decimal(&mut line, *count as u128, 5, " ");
                line.append(" — connection closed from ");
                line.append(peer);
                line.append(": ⚠️  ");
                line.append(error.to_string().as_str());
                line.append(" (connected for ");
                append_seconds(&mut line, connected_for);
                line.append(")");
                line
            },
        }
    }
}

/// The decimal digit `d` as a text of one character.
fn digit_text(d: u8) -> (text: &'static str)
    requires
        d < 10,
    ensures
        text@ == seq![digit(d as nat)],
{
    proof {
        reveal_strlit("0");
        reveal_strlit("1");
        reveal_strlit("2");
        reveal_strlit("3");
        reveal_strlit("4");
        reveal_strlit("5");
        reveal_strlit("6");
        reveal_strlit("7");
        reveal_strlit("8");
        reveal_strlit("9");
    }
    match d {
        0 => "0",
        1 => "1",
        2 => "2",
        3 => "3",
        4 => "4",
        5 => "5",
        6 => "6",
        7 => "7",
        8 => "8",
        _ => "9",
    }
}

/// Appends `n` in decimal digits.
fn append_decimal(text: &mut String, n: u128)
    ensures
        final(text)@ == old(text)@ + decimal(n as nat),
    decreases n,
{
    if n >= 10 {
        append_decimal(text, n / 10);
    }
    text.append(digit_text((n % 10) as u8));
}

/// Appends `n` in decimal digits at the right of a field of `width` places,
/// with the one character of `fill` in the places to its left.
fn append_padded_decimal(text: &mut String, n: u128, width: usize, fill: &str)
    requires
        fill@.len() == 1,
    ensures
        final(text)@ == old(text)@ + padded(decimal(n as nat), width as nat, fill@[0]),
{
    let mut digits = String::new();
    append_decimal(&mut digits, n);
    assert(digits@ =~= decimal(n as nat));
    let len = digits.as_str().unicode_len();
    let ghost before = text@;
    let mut places = len;
    assert(text@ =~= before + filled(fill@[0], 0));
    while places < width
        invariant
            len == digits@.len(),
            len <= places,
            len < width ==> places <= width,
            len >= width ==> places == len,
            fill@.len() == 1,
            text@ == before + filled(fill@[0], (places - len) as nat),
        decreases width - places,
    {
        text.append(fill);
        assert(filled(fill@[0], (places - len) as nat) + fill@ =~= filled(
            fill@[0],
            (places + 1 - len) as nat,
        ));
        places = places + 1;
    }
    let ghost padding = filled(fill@[0], (places - len) as nat);
    text.append(digits.as_str());
    assert(text@ =~= before + (padding + digits@));
}

/// Appends the span in seconds.
fn append_seconds(text: &mut String, span: &Elapsed)
    ensures
        final(text)@ == old(text)@ + seconds(*span),
{
    proof {
        reveal_strlit("0");
    }
    append_decimal(text, span.nanos / 1_000_000_000);
    text.append(".");
    append_padded_decimal(text, span.nanos % 1_000_000_000, 9, "0");
    text.append("s");
}

} // verus!
