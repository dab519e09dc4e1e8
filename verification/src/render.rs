//! Rendering of the registry's read views as text. The spec functions here
//! define, character for character, the transcript and diagnostics strings;
//! the executable registry methods are proved to produce exactly them.

use vstd::prelude::*;

use crate::model::{MessageView, ParticipantView};

verus! {

/// The decimal digit character for a value below ten.
pub open spec fn spec_digit(d: int) -> char {
    if d == 0 {
        '0'
    } else if d == 1 {
        '1'
    } else if d == 2 {
        '2'
    } else if d == 3 {
        '3'
    } else if d == 4 {
        '4'
    } else if d == 5 {
        '5'
    } else if d == 6 {
        '6'
    } else if d == 7 {
        '7'
    } else if d == 8 {
        '8'
    } else {
        '9'
    }
}

/// The decimal rendering of a non-negative integer, most significant digit
/// first, with no leading zeros (and `0` rendered as "0").
pub open spec fn dec_seq(n: nat) -> Seq<char>
    decreases n,
{
    if n < 10 {
        seq![spec_digit(n as int)]
    } else {
        dec_seq(n / 10).push(spec_digit((n % 10) as int))
    }
}

/// One transcript line: the author's name and the body, verbatim, separated
/// by ": " and closed by the "<br/>" line-break marker.
pub open spec fn message_line(m: MessageView) -> Seq<char> {
    m.author + ": "@ + m.body + "<br/>"@
}

/// The whole transcript: one line per message, in arrival order. An empty
/// history renders as the empty string.
pub open spec fn transcript_of(msgs: Seq<MessageView>) -> Seq<char>
    decreases msgs.len(),
{
    if msgs.len() == 0 {
        Seq::empty()
    } else {
        transcript_of(msgs.drop_last()) + message_line(msgs.last())
    }
}

/// One diagnostics line for a participant: identity, name and origin
/// address, space-separated, closed by the line-break marker.
pub open spec fn participant_line(p: ParticipantView) -> Seq<char> {
    dec_seq(p.id as nat) + " "@ + p.name + " "@ + p.origin + "<br/>"@
}

/// The participant lines of the diagnostics view, in registration order.
pub open spec fn participant_lines(ps: Seq<ParticipantView>) -> Seq<char>
    decreases ps.len(),
{
    if ps.len() == 0 {
        Seq::empty()
    } else {
        participant_lines(ps.drop_last()) + participant_line(ps.last())
    }
}

/// The whole diagnostics text for a registry state: a header, one line per
/// participant, the identity counter, and the count of diagnostics reads
/// completed before this one.
pub open spec fn diagnostics_text(v: crate::model::RegistryView) -> Seq<char> {
    "Connected users: <br/>"@ + participant_lines(v.participants) + "Id counter: "@ + dec_seq(
        v.next_id as nat,
    ) + " <br/>"@ + "Info counter: "@ + dec_seq(v.diagnostics_reads as nat) + " <br/>"@
}

/// The one-character string for a decimal digit.
fn digit_str(d: u32) -> (s: &'static str)
    requires
        d < 10,
    ensures
        s@ == seq![spec_digit(d as int)],
{
    proof {
        reveal_strlit("0");
        reveal_strlit("1");
        reveal_strlit("2");
        reveal_strlit("3");
        reveal_strlit("4");
        reveal_strlit("5");
        reveal_strlit("6");
        reveal_strlit("7");
        reveal_strlit("8");
        reveal_strlit("9");
    }
    let s: &'static str = match d {
        0 => "0",
        1 => "1",
        2 => "2",
        3 => "3",
        4 => "4",
        5 => "5",
        6 => "6",
        7 => "7",
        8 => "8",
        _ => "9",
    };
    proof {
        assert(s@ =~= seq![spec_digit(d as int)]);
    }
    s
}

/// Renders a counter or identity value in decimal, exactly as the
/// diagnostics text expects it.
pub fn u32_to_string(n: u32) -> (s: String)
    ensures
        s@ == dec_seq(n as nat),
    decreases n,
{
    if n < 10 {
        let mut s = String::new();
        s.append(digit_str(n));
        proof {
            assert(s@ =~= dec_seq(n as nat));
        }
        s
    } else {
        let mut s = u32_to_string(n / 10);
        s.append(digit_str(n % 10));
        proof {
            assert(s@ =~= dec_seq(n as nat));
        }
        s
    }
}

} // verus!
