//! Endpoint lists: one server to a line.

use vstd::prelude::*;
use vstd::slice::slice_subrange;
use crate::chars::chars_of;
use crate::chars::string_of;
use crate::config::DEFAULT_PORT;

verus! {

/// Where a probe connects to.
#[derive(Debug, PartialEq, Eq)]
pub struct Endpoint {
    pub host: String,
    pub port: u16,
}

impl View for Endpoint {
    type V = (Seq<char>, u16);

    /// The host and the port.
    open spec fn view(&self) -> (Seq<char>, u16) {
        (self.host@, self.port)
    }
}

/// White space as Unicode defines it.
pub open spec fn is_whitespace(c: char) -> bool {
    let u = c as u32;
    ||| 0x09 <= u <= 0x0d
    ||| u == 0x20
    ||| u == 0x85
    ||| u == 0xa0
    ||| u == 0x1680
    ||| 0x2000 <= u <= 0x200a
    ||| u == 0x2028
    ||| u == 0x2029
    ||| u == 0x202f
    ||| u == 0x205f
    ||| u == 0x3000
}

/// `text` without the white space at its start.
pub open spec fn trim_start_spec(text: Seq<char>) -> Seq<char>
    decreases text.len(),
{
    if text.len() > 0 && is_whitespace(text[0]) {
        trim_start_spec(text.drop_first())
    } else {
        text
    }
}

/// `text` without the white space at its end.
pub open spec fn trim_end_spec(text: Seq<char>) -> Seq<char>
    decreases text.len(),
{
    if text.len() > 0 && is_whitespace(text.last()) {
        trim_end_spec(text.drop_last())
    } else {
        text
    }
}

/// `text` without the white space at either end.
pub open spec fn trim_spec(text: Seq<char>) -> Seq<char> {
    trim_end_spec(trim_start_spec(text))
}

/// Whether `c` stands at `i` in `text` and nowhere before.
pub open spec fn is_first_at(text: Seq<char>, c: char, i: int) -> bool {
    &&& 0 <= i < text.len()
    &&& text[i] == c
    &&& forall|j: int| 0 <= j < i ==> text[j] != c
}

/// Where `c` first stands in `text`.
pub open spec fn first_index_of(text: Seq<char>, c: char) -> Option<int> {
    if exists|i: int| is_first_at(text, c, i) {
        Some(choose|i: int| is_first_at(text, c, i))
    } else {
        None
    }
}

/// The value of a decimal digit.
pub open spec fn digit_value(c: char) -> nat {
    (c as u32 - 0x30) as nat
}

/// Whether `c` is a decimal digit.
pub open spec fn is_digit(c: char) -> bool {
    0x30 <= c as u32 <= 0x39
}

/// The number that a run of decimal digits spells.
pub open spec fn decimal_value(digits: Seq<char>) -> nat
    decreases digits.len(),
{
    if digits.len() == 0 {
        0
    } else {
        10 * decimal_value(digits.drop_last()) + digit_value(digits.last())
    }
}

/// Whether `text` is made of decimal digits, at least one.
pub open spec fn all_digits(text: Seq<char>) -> bool {
    &&& text.len() > 0
    &&& forall|i: int| 0 <= i < text.len() ==> is_digit(#[trigger] text[i])
}

/// The number that `digits` spell, where it is a port.
pub open spec fn port_of_digits(digits: Seq<char>) -> Option<u16> {
    if all_digits(digits) && decimal_value(digits) <= 65535 {
        Some(decimal_value(digits) as u16)
    } else {
        None
    }
}

/// The port that `text` spells: decimal digits, at least one, with or without
/// a plus sign before them, and no more than 65535.
pub open spec fn parse_port_spec(text: Seq<char>) -> Option<u16> {
    if text.len() > 0 && text[0] == '+' {
        port_of_digits(text.drop_first())
    } else {
        port_of_digits(text)
    }
}

/// The endpoint that a line of an endpoint list names, if it names one: no
/// endpoint where the line is blank or a comment; else the host before the
/// first colon and the port behind it, or the whole line and the default
/// port where there is no colon. A port that cannot be read is the default port.
pub open spec fn endpoint_spec(line: Seq<char>) -> Option<(Seq<char>, u16)> {
    let entry = trim_spec(line);
    if entry.len() == 0 || entry[0] == '#' {
        None
    } else {
        match first_index_of(entry, ':') {
            Some(colon) => Some(
                (
                    entry.subrange(0, colon),
                    match parse_port_spec(entry.subrange(colon + 1, entry.len() as int)) {
                        Some(port) => port,
                        None => DEFAULT_PORT,
                    },
                ),
            ),
            None => Some((entry, DEFAULT_PORT)),
        }
    }
}

/// The endpoint of a line as a list: empty where the line names none.
pub open spec fn named_by(line: Seq<char>) -> Seq<(Seq<char>, u16)> {
    match endpoint_spec(line) {
        Some(e) => seq![e],
        None => Seq::empty(),
    }
}

/// The endpoints that an endpoint list names, line by line.
pub open spec fn endpoints_spec(text: Seq<char>) -> Seq<(Seq<char>, u16)>
    decreases text.len(),
{
    match first_index_of(text, '\n') {
        Some(end) => named_by(text.subrange(0, end)) + endpoints_spec(
            text.subrange(end + 1, text.len() as int),
        ),
        None => named_by(text),
    }
}

/// A list of endpoints as plain values.
pub open spec fn endpoints_view(list: Seq<Endpoint>) -> Seq<(Seq<char>, u16)> {
    Seq::new(list.len(), |i: int| list[i]@)
}

fn whitespace(c: char) -> (r: bool)
    ensures
        r == is_whitespace(c),
{
    let u: u32 = c as u32;
    (0x09 <= u && u <= 0x0d) || u == 0x20 || u == 0x85 || u == 0xa0 || u == 0x1680 || (0x2000 <= u
        && u <= 0x200a) || u == 0x2028 || u == 0x2029 || u == 0x202f || u == 0x205f || u == 0x3000
}

/// Finds the part of `text` between the white space at its ends.
fn trim_range(text: &[char]) -> (r: (usize, usize))
    ensures
        r.0 <= r.1 <= text.len(),
        text@.subrange(r.0 as int, r.1 as int) == trim_spec(text@),
{
    let mut start: usize = 0;
    assert(text@.subrange(0, text.len() as int) =~= text@);
    while start < text.len() && whitespace(text[start])
        invariant
            start <= text.len(),
            trim_start_spec(text@) == trim_start_spec(text@.subrange(start as int, text.len() as int)),
        decreases text.len() - start,
    {
        assert(text@.subrange(start as int, text.len() as int).drop_first() =~= text@.subrange(
            start + 1,
            text.len() as int,
        ));
        start = start + 1;
    }
    let mut end: usize = text.len();
    while end > start && whitespace(text[end - 1])
        invariant
            start <= end <= text.len(),
            trim_spec(text@) == trim_end_spec(text@.subrange(start as int, end as int)),
        decreases end,
    {
        assert(text@.subrange(start as int, end as int).drop_last() =~= text@.subrange(
            start as int,
            end - 1,
        ));
        end = end - 1;
    }
    (start, end)
}

/// Finds where `c` first stands in `text`.
fn find_first(text: &[char], c: char) -> (r: Option<usize>)
    ensures
        match first_index_of(text@, c) {
            Some(i) => r == Some(i as usize) && 0 <= i < text.len(),
            None => r is None,
        },
{
    let mut i: usize = 0;
    while i < text.len()
        invariant
            i <= text.len(),
            forall|j: int| 0 <= j < i ==> text@[j] != c,
        decreases text.len() - i,
    {
        if text[i] == c {
            proof {
                assert(is_first_at(text@, c, i as int));
                let k = choose|k: int| is_first_at(text@, c, k);
                assert(k == i);
            }
            return Some(i);
        }
        i = i + 1;
    }
    None
}

proof fn lemma_decimal_prefix(digits: Seq<char>, n: int)
    requires
        0 <= n <= digits.len(),
    ensures
        decimal_value(digits.take(n)) <= decimal_value(digits),
    decreases digits.len() - n,
{
    if n < digits.len() {
        assert(digits.take(n + 1).drop_last() =~= digits.take(n));
        lemma_decimal_prefix(digits, n + 1);
    } else {
        assert(digits.take(n) =~= digits);
    }
}

/// Reads a port.
#[verifier::loop_isolation(false)]
fn parse_port(text: &[char]) -> (r: Option<u16>)
    ensures
        r == parse_port_spec(text@),
{
    let from: usize = if text.len() > 0 && text[0] == '+' {
        1
    } else {
        0
    };
    let digits = slice_subrange(text, from, text.len());
    proof {
        if from == 1 {
            assert(digits@ =~= text@.drop_first());
        } else {
            assert(digits@ =~= text@);
        }
    }
    assert(parse_port_spec(text@) == port_of_digits(digits@));
    if digits.len() == 0 {
        return None;
    }
    let mut value: u32 = 0;
    let mut i: usize = 0;
    while i < digits.len()
        invariant
            i <= digits.len(),
            value == decimal_value(digits@.take(i as int)),
            value <= 65535,
            forall|j: int| 0 <= j < i ==> is_digit(#[trigger] digits@[j]),
        decreases digits.len() - i,
    {
        let u: u32 = digits[i] as u32;
        if u < 0x30 || u > 0x39 {
            assert(!is_digit(digits@[i as int]));
            return None;
        }
        assert(digits@.take(i + 1).drop_last() =~= digits@.take(i as int));
        let next: u32 = value * 10 + (u - 0x30);
        if next > 65535 {
            proof {
                lemma_decimal_prefix(digits@, i + 1);
            }
            return None;
        }
        value = next;
        i = i + 1;
    }
    assert(digits@.take(i as int) =~= digits@);
    Some(value as u16)
}

/// Reads one line of an endpoint list, given as characters.
fn parse_endpoint_chars(line: &[char]) -> (r: Option<Endpoint>)
    ensures
        match endpoint_spec(line@) {
            Some(e) => r matches Some(found) && found@ == e,
            None => r is None,
        },
{
    let (start, end) = trim_range(line);
    let entry = slice_subrange(line, start, end);
    if entry.len() == 0 || entry[0] == '#' {
        return None;
    }
    match find_first(entry, ':') {
        Some(colon) => {
            let port = match parse_port(slice_subrange(entry, colon + 1, entry.len())) {
                Some(p) => p,
                None => DEFAULT_PORT,
            };
            Some(Endpoint { host: string_of(slice_subrange(entry, 0, colon)), port })
        },
        None => Some(Endpoint { host: string_of(entry), port: DEFAULT_PORT }),
    }
}

/// Reads one line of an endpoint list.
pub fn parse_endpoint_line(line: &str) -> (r: Option<Endpoint>)
    ensures
        match endpoint_spec(line@) {
            Some(e) => r matches Some(found) && found@ == e,
            None => r is None,
        },
{
    let chars = chars_of(line);
    parse_endpoint_chars(chars.as_slice())
}

/// Reads an endpoint list: one endpoint to a line, blank lines and comments
/// passed over.
pub fn parse_endpoints(input: &str) -> (list: Vec<Endpoint>)
    ensures
        endpoints_view(list@) == endpoints_spec(input@),
{
    let chars = chars_of(input);
    let text = chars.as_slice();
    let mut list: Vec<Endpoint> = Vec::new();
    let mut at: usize = 0;
    let mut done = false;
    assert(text@.subrange(0, text.len() as int) =~= text@);
    assert(endpoints_view(list@) + endpoints_spec(text@) =~= endpoints_spec(text@));
    while !done
        invariant
            at <= text.len(),
            text@ == input@,
            !done ==> endpoints_spec(input@) == endpoints_view(list@) + endpoints_spec(
                text@.subrange(at as int, text.len() as int),
            ),
            done ==> endpoints_spec(input@) == endpoints_view(list@),
        decreases text.len() - at + if done { 0int } else { 1int },
    {
        let rest = slice_subrange(text, at, text.len());
        let ghost before = endpoints_view(list@);
        let line_end: usize = match find_first(rest, '\n') {
            Some(end) => end,
            None => rest.len(),
        };
        match parse_endpoint_chars(slice_subrange(rest, 0, line_end)) {
            Some(e) => {
                list.push(e);
                assert(endpoints_view(list@) =~= before + named_by(rest@.subrange(0, line_end as int)));
            },
            None => {
                assert(endpoints_view(list@) =~= before + named_by(rest@.subrange(0, line_end as int)));
            },
        }
        if line_end < rest.len() {
            assert(rest@.subrange(line_end + 1, rest.len() as int) =~= text@.subrange(
                at + line_end + 1,
                text.len() as int,
            ));
            at = at + line_end + 1;
        } else {
            assert(rest@.subrange(0, line_end as int) =~= rest@);
            done = true;
        }
    }
    list
}

} // verus!
