//! Reading a request from the bytes of a connection.
//!
//! The head of a request is a sequence of lines, each ended by CR LF: the
//! start line, the header lines, and an empty line. Each line of the head is
//! text in UTF-8. The body follows, as many bytes as the `Content-Length`
//! header announces; it is decoded leniently.

use crate::message::{
    content_length_name, Headers, HttpMethod, HttpRequest, ParseError, ParseFault, RequestModel,
};
use crate::table::{Table, TableModel};
use crate::text::{
    chars_of, decode_lossy, decode_strict, is_white_space, lossy_text, numeral_value,
    parse_decimal, strict_text, white_space,
};
use vstd::prelude::*;
use vstd::string::*;

verus! {

/// The first index at or after `from` at which `x` stands and is followed by
/// `y`, or the length of `s` if there is none.
pub open spec fn find_pair<T>(s: Seq<T>, from: int, x: T, y: T) -> int
    decreases s.len() - from,
{
    if from + 1 >= s.len() {
        s.len() as int
    } else if s[from] == x && s[from + 1] == y {
        from
    } else {
        find_pair(s, from + 1, x, y)
    }
}

/// Where the line that starts at `from` ends: at the next CR LF, or at the
/// end of the input.
pub open spec fn line_end(s: Seq<u8>, from: int) -> int {
    find_pair(s, from, 13u8, 10u8)
}

/// Where the next line starts when a line ended at `end`.
pub open spec fn next_line(s: Seq<u8>, end: int) -> int {
    if end < s.len() {
        end + 2
    } else {
        s.len() as int
    }
}

/// Where the separator of a header line stands: at the first colon that a
/// space follows, or at the length of the line if there is none.
pub open spec fn separator(line: Seq<char>) -> int {
    find_pair(line, 0, ':', ' ')
}

/// The first index at or after `from` whose character is white space
/// (`space` true) or is none (`space` false), or the length of `s`.
pub open spec fn find_space(s: Seq<char>, from: int, space: bool) -> int
    decreases s.len() - from,
{
    if from >= s.len() {
        s.len() as int
    } else if is_white_space(s[from]) == space {
        from
    } else {
        find_space(s, from + 1, space)
    }
}

/// The tokens of `s` from `from` on: the longest runs of characters that
/// are not white space.
pub open spec fn words(s: Seq<char>, from: int) -> Seq<Seq<char>>
    decreases s.len() - from,
{
    let a = find_space(s, from, false);
    if from < 0 || a >= s.len() {
        Seq::empty()
    } else {
        let b = find_space(s, a, true);
        proof {
            find_space_bounds(s, from, false);
            find_space_bounds(s, a, true);
        }
        seq![s.subrange(a, b)] + words(s, b)
    }
}

/// `find_pair` stays between `from` and the length, and finds the first
/// pair.
pub proof fn find_pair_bounds<T>(s: Seq<T>, from: int, x: T, y: T)
    requires
        0 <= from <= s.len(),
    ensures
        from <= find_pair(s, from, x, y) <= s.len(),
        find_pair(s, from, x, y) < s.len() ==> {
            &&& find_pair(s, from, x, y) + 1 < s.len()
            &&& s[find_pair(s, from, x, y)] == x
            &&& s[find_pair(s, from, x, y) + 1] == y
        },
        forall|i: int|
            from <= i < find_pair(s, from, x, y) && i + 1 < s.len() ==> !(s[i] == x && #[trigger] s[i
                + 1] == y),
    decreases s.len() - from,
{
    if from + 1 >= s.len() {
    } else if s[from] == x && s[from + 1] == y {
    } else {
        find_pair_bounds(s, from + 1, x, y);
    }
}

/// `find_space` stays between `from` and the length, stops at a character of
/// the kind it looks for, and passes only characters of the other kind.
pub proof fn find_space_bounds(s: Seq<char>, from: int, space: bool)
    requires
        0 <= from,
    ensures
        from <= s.len() ==> from <= find_space(s, from, space) <= s.len(),
        find_space(s, from, space) < s.len() ==> is_white_space(s[find_space(s, from, space)])
            == space,
        forall|i: int|
            from <= i < find_space(s, from, space) ==> is_white_space(#[trigger] s[i]) != space,
    decreases s.len() - from,
{
    if from >= s.len() {
    } else if is_white_space(s[from]) == space {
    } else {
        find_space_bounds(s, from + 1, space);
    }
}

/// The tokens of the start line: there are three, where the line is text in
/// UTF-8 and holds exactly three tokens, and none otherwise.
pub open spec fn start_tokens(s: Seq<u8>) -> Option<Seq<Seq<char>>> {
    match strict_text(s.subrange(0, line_end(s, 0))) {
        None => None,
        Some(text) => if words(text, 0).len() == 3 {
            Some(words(text, 0))
        } else {
            None
        },
    }
}

/// The name and the value of the header field that `line` holds: what
/// stands before and after the first separator, where the line is text in
/// UTF-8 and holds a separator, and nothing otherwise.
pub open spec fn header_field(line: Seq<u8>) -> Option<(Seq<char>, Seq<char>)> {
    match strict_text(line) {
        None => None,
        Some(text) => {
            let colon = separator(text);
            if colon >= text.len() {
                None
            } else {
                Some((text.subrange(0, colon), text.subrange(colon + 2, text.len() as int)))
            }
        },
    }
}

/// How reading the header lines ends.
pub enum Fields {
    /// The empty line was found at `end - 2`; `table` holds the fields.
    Done { table: TableModel<Seq<char>>, end: int },
    /// A complete line holds no header field.
    Malformed,
    /// The input ends before the empty line.
    Short,
}

/// Reads header lines from `from` on into `table`, up to the empty line. A
/// name that comes again replaces the value that it had.
pub open spec fn fields_from(s: Seq<u8>, from: int, table: TableModel<Seq<char>>) -> Fields
    decreases s.len() - from,
{
    if from < 0 || from >= s.len() {
        Fields::Short
    } else {
        let end = line_end(s, from);
        if end == from {
            Fields::Done { table, end: from + 2 }
        } else {
            match header_field(s.subrange(from, end)) {
                None => if end < s.len() {
                    Fields::Malformed
                } else {
                    Fields::Short
                },
                Some(field) => {
                    proof {
                        find_pair_bounds(s, from, 13u8, 10u8);
                    }
                    fields_from(s, next_line(s, end), table.insert(field.0, field.1))
                },
            }
        }
    }
}

/// The header fields of the input, read from the line after the start line.
pub open spec fn head_fields(s: Seq<u8>) -> Fields {
    fields_from(s, next_line(s, line_end(s, 0)), TableModel::empty())
}

/// The length of the body that the header fields announce: none announces
/// an empty body, and a value that is no number that a `usize` can hold
/// announces nothing.
pub open spec fn declared_length(headers: TableModel<Seq<char>>) -> Option<nat> {
    match headers.get(content_length_name()) {
        None => Some(0),
        Some(value) => match numeral_value(value) {
            Some(n) => if n <= usize::MAX {
                Some(n)
            } else {
                None
            },
            None => None,
        },
    }
}

/// What reading a request from `s` gives: the request and the number of
/// bytes that it takes up, or the first fault in the order start line,
/// header fields, announced length, body, method.
pub open spec fn parse(s: Seq<u8>) -> Result<(RequestModel, int), ParseFault> {
    match start_tokens(s) {
        None => Err(ParseFault::MalformedStartLine),
        Some(tokens) => match head_fields(s) {
            Fields::Done { table, end } => match declared_length(table) {
                None => Err(ParseFault::MalformedContentLength),
                Some(length) => if end + length > s.len() {
                    Err(ParseFault::TruncatedBody)
                } else {
                    match HttpMethod::of_token(tokens[0]) {
                        None => Err(ParseFault::UnknownMethod(tokens[0])),
                        Some(method) => Ok(
                            (
                                RequestModel {
                                    method,
                                    path: tokens[1],
                                    version: tokens[2],
                                    headers: table,
                                    body: lossy_text(s.subrange(end, end + length)),
                                },
                                end + length,
                            ),
                        ),
                    }
                },
            },
            _ => Err(ParseFault::MalformedHeader),
        },
    }
}

/// Whether `s` and `t` hold the same bytes before `bound`.
pub open spec fn same_before(s: Seq<u8>, t: Seq<u8>, bound: int) -> bool {
    &&& bound <= s.len()
    &&& bound <= t.len()
    &&& forall|i: int| 0 <= i < bound ==> s[i] == t[i]
}

/// A pair that is found before `bound` is found at the same place in every
/// input that holds the same bytes before `bound`.
proof fn find_pair_same(s: Seq<u8>, t: Seq<u8>, bound: int, from: int, x: u8, y: u8)
    requires
        0 <= from,
        same_before(s, t, bound),
        find_pair(s, from, x, y) + 2 <= bound,
    ensures
        find_pair(t, from, x, y) == find_pair(s, from, x, y),
    decreases s.len() - from,
{
    if from + 1 >= s.len() {
    } else if s[from] == x && s[from + 1] == y {
    } else {
        find_pair_bounds(s, from + 1, x, y);
        find_pair_same(s, t, bound, from + 1, x, y);
    }
}

/// Header fields end after the empty line that closes them, within the
/// input.
pub proof fn fields_end_in_input(s: Seq<u8>, from: int, table: TableModel<Seq<char>>)
    requires
        0 <= from,
    ensures
        fields_from(s, from, table) matches Fields::Done { end, .. } ==> from + 2 <= end
            <= s.len(),
    decreases s.len() - from,
{
    if from < s.len() {
        find_pair_bounds(s, from, 13u8, 10u8);
        let end = line_end(s, from);
        if end != from {
            match header_field(s.subrange(from, end)) {
                Some(field) => {
                    fields_end_in_input(s, next_line(s, end), table.insert(field.0, field.1));
                },
                None => {},
            }
        }
    }
}

/// Header fields whose reading is decided before `bound` read the same in
/// every input that holds the same bytes before `bound`: fields that end
/// there, and a faulty line that ends there.
proof fn fields_same(
    s: Seq<u8>,
    t: Seq<u8>,
    bound: int,
    from: int,
    table: TableModel<Seq<char>>,
)
    requires
        0 <= from,
        same_before(s, t, bound),
        match fields_from(s, from, table) {
            Fields::Done { end, .. } => end <= bound,
            Fields::Malformed => bound == s.len(),
            Fields::Short => false,
        },
    ensures
        fields_from(t, from, table) == fields_from(s, from, table),
    decreases s.len() - from,
{
    find_pair_bounds(s, from, 13u8, 10u8);
    let end = line_end(s, from);
    let line = s.subrange(from, end);
    if end == from {
        find_pair_same(s, t, bound, from, 13, 10);
    } else {
        match header_field(line) {
            None => {
                find_pair_same(s, t, bound, from, 13, 10);
                assert(t.subrange(from, end) =~= line);
            },
            Some(field) => {
                let next = next_line(s, end);
                let more = table.insert(field.0, field.1);
                assert(fields_from(s, from, table) == fields_from(s, next, more));
                assert(end < s.len());
                fields_end_in_input(s, next, more);
                fields_same(s, t, bound, next, more);
                find_pair_same(s, t, bound, from, 13, 10);
                assert(t.subrange(from, end) =~= line);
            },
        }
    }
}

/// A request takes up its head and exactly as many bytes of body as the
/// head announces: the body is those bytes, and the count is the two lengths
/// together.
pub proof fn body_is_announced_length(s: Seq<u8>)
    requires
        parse(s) is Ok,
    ensures
        head_fields(s) is Done,
        declared_length(head_fields(s)->table) is Some,
        parse(s)->Ok_0.1 == head_fields(s)->end + declared_length(head_fields(s)->table)->0,
        parse(s)->Ok_0.1 <= s.len(),
        parse(s)->Ok_0.0.body == lossy_text(s.subrange(head_fields(s)->end, parse(s)->Ok_0.1)),
{
}

/// Reading a request looks at no byte beyond those that the request takes
/// up: whatever follows them, the same request is read.
pub proof fn parse_ignores_what_follows(s: Seq<u8>, rest: Seq<u8>)
    requires
        parse(s) is Ok,
    ensures
        0 <= parse(s)->Ok_0.1 <= s.len(),
        parse(s.subrange(0, parse(s)->Ok_0.1) + rest) == parse(s),
{
    let used = parse(s)->Ok_0.1;
    let end = head_fields(s)->end;
    let first = line_end(s, 0);
    find_pair_bounds(s, 0, 13u8, 10u8);
    fields_end_in_input(s, next_line(s, first), TableModel::empty());
    let t = s.subrange(0, used) + rest;
    assert(same_before(s, t, used));
    assert(same_before(s, t, end));
    assert(first < s.len());
    find_pair_same(s, t, end, 0, 13, 10);
    fields_same(s, t, end, next_line(s, first), TableModel::empty());
    assert(t.subrange(0, first) =~= s.subrange(0, first));
    assert(t.subrange(end, used) =~= s.subrange(end, used));
}

/// What a reader has to fetch before a request can be read from the bytes
/// that it holds.
#[derive(Clone, Copy, Debug, PartialEq, Eq)]
pub enum Pending {
    /// The head is not complete: one more line.
    Line,
    /// The head is complete: this many more bytes of the body.
    Body(usize),
    /// Nothing: the request is complete, or it is faulty beyond repair.
    Nothing,
}

/// What is still to be fetched when `s` has come in.
pub open spec fn pending_after(s: Seq<u8>) -> Pending {
    if line_end(s, 0) >= s.len() {
        Pending::Line
    } else if start_tokens(s) is None {
        Pending::Nothing
    } else {
        match head_fields(s) {
            Fields::Short => Pending::Line,
            Fields::Malformed => Pending::Nothing,
            Fields::Done { table, end } => match declared_length(table) {
                None => Pending::Nothing,
                Some(length) => if end + length > s.len() {
                    Pending::Body((end + length - s.len()) as usize)
                } else {
                    Pending::Nothing
                },
            },
        }
    }
}

/// While a line is pending, the bytes at hand do not read as a request.
pub proof fn line_pending_is_no_request(s: Seq<u8>)
    requires
        pending_after(s) == Pending::Line,
    ensures
        parse(s) == Err::<(RequestModel, int), _>(ParseFault::MalformedStartLine) || parse(s)
            == Err::<(RequestModel, int), _>(ParseFault::MalformedHeader),
{
}

/// While bytes of the body are pending, the bytes at hand read as a request
/// with a truncated body, and exactly the pending bytes complete it: with
/// them nothing is pending, and the body is no longer truncated.
pub proof fn pending_body_completes(s: Seq<u8>, more: Seq<u8>)
    requires
        pending_after(s) matches Pending::Body(n) && more.len() == n,
    ensures
        parse(s) == Err::<(RequestModel, int), _>(ParseFault::TruncatedBody),
        pending_after(s + more) == Pending::Nothing,
        !(parse(s + more) matches Err(ParseFault::TruncatedBody)),
        parse(s + more) matches Ok(found) ==> found.1 == s.len() + more.len(),
{
    let t = s + more;
    let first = line_end(s, 0);
    find_pair_bounds(s, 0, 13u8, 10u8);
    assert(same_before(s, t, s.len() as int));
    find_pair_same(s, t, s.len() as int, 0, 13, 10);
    fields_end_in_input(s, next_line(s, first), TableModel::empty());
    fields_same(s, t, s.len() as int, next_line(s, first), TableModel::empty());
    assert(t.subrange(0, first) =~= s.subrange(0, first));
}

/// Once nothing is pending, the outcome is settled: whatever follows the
/// bytes at hand, they read as the same request or have the same fault.
pub proof fn nothing_pending_is_settled(s: Seq<u8>, more: Seq<u8>)
    requires
        pending_after(s) == Pending::Nothing,
    ensures
        parse(s + more) == parse(s),
        pending_after(s + more) == Pending::Nothing,
{
    let t = s + more;
    let first = line_end(s, 0);
    find_pair_bounds(s, 0, 13u8, 10u8);
    assert(same_before(s, t, s.len() as int));
    find_pair_same(s, t, s.len() as int, 0, 13, 10);
    assert(t.subrange(0, first) =~= s.subrange(0, first));
    if start_tokens(s) is Some {
        fields_end_in_input(s, next_line(s, first), TableModel::empty());
        fields_same(s, t, s.len() as int, next_line(s, first), TableModel::empty());
        match head_fields(s) {
            Fields::Done { table, end } => match declared_length(table) {
                Some(length) => {
                    assert(t.subrange(end, end + length) =~= s.subrange(end, end + length));
                },
                None => {},
            },
            _ => {},
        }
    }
}

/// Finds the first place at or after `from` where CR stands before LF.
fn scan_line_end(input: &[u8], from: usize) -> (at: usize)
    requires
        from <= input@.len(),
    ensures
        at == line_end(input@, from as int),
        from <= at <= input@.len(),
        at < input@.len() ==> at + 2 <= input@.len(),
{
    proof {
        find_pair_bounds(input@, from as int, 13u8, 10u8);
    }
    let n = input.len();
    let mut i: usize = from;
    while i < n && n - i >= 2
        invariant
            n == input@.len(),
            from <= i <= n,
            line_end(input@, from as int) == line_end(input@, i as int),
        decreases n - i,
    {
        if input[i] == 13 && input[i + 1] == 10 {
            return i;
        }
        i = i + 1;
    }
    n
}

/// Finds the separator of a header line: the first colon before a space.
fn scan_separator(line: &[char]) -> (at: usize)
    ensures
        at == separator(line@),
        at <= line@.len(),
        at < line@.len() ==> at + 2 <= line@.len(),
{
    proof {
        find_pair_bounds(line@, 0, ':', ' ');
    }
    let n = line.len();
    let mut i: usize = 0;
    while i < n && n - i >= 2
        invariant
            n == line@.len(),
            i <= n,
            separator(line@) == find_pair(line@, i as int, ':', ' '),
        decreases n - i,
    {
        if line[i] == ':' && line[i + 1] == ' ' {
            return i;
        }
        i = i + 1;
    }
    n
}

/// Finds the first character at or after `from` that is white space, or
/// that is none.
fn scan_space(line: &[char], from: usize, space: bool) -> (at: usize)
    requires
        from <= line@.len(),
    ensures
        at == find_space(line@, from as int, space),
        from <= at <= line@.len(),
{
    proof {
        find_space_bounds(line@, from as int, space);
    }
    let n = line.len();
    let mut i: usize = from;
    while i < n
        invariant
            n == line@.len(),
            from <= i <= n,
            find_space(line@, from as int, space) == find_space(line@, i as int, space),
        decreases n - i,
    {
        if white_space(line[i]) == space {
            return i;
        }
        i = i + 1;
    }
    n
}

/// The part of `input` from `from` up to `to`.
fn part(input: &[u8], from: usize, to: usize) -> (r: &[u8])
    requires
        from <= to <= input@.len(),
    ensures
        r@ == input@.subrange(from as int, to as int),
{
    &input[from..to]
}

/// The places of the tokens of `line`, each as where it starts and where it
/// ends.
fn split_words(line: &[char]) -> (r: Vec<(usize, usize)>)
    ensures
        r@.len() == words(line@, 0).len(),
        forall|i: int|
            0 <= i < r@.len() ==> {
                &&& (#[trigger] r@[i]).0 <= r@[i].1 <= line@.len()
                &&& line@.subrange(r@[i].0 as int, r@[i].1 as int) == words(line@, 0)[i]
            },
{
    let mut found: Vec<(usize, usize)> = Vec::new();
    let mut at: usize = 0;
    let n = line.len();
    loop
        invariant
            n == line@.len(),
            at <= n,
            words(line@, 0).len() == found@.len() + words(line@, at as int).len(),
            forall|i: int|
                0 <= i < found@.len() ==> {
                    &&& (#[trigger] found@[i]).0 <= found@[i].1 <= line@.len()
                    &&& line@.subrange(found@[i].0 as int, found@[i].1 as int) == words(
                        line@,
                        0,
                    )[i]
                },
            forall|i: int|
                0 <= i < words(line@, at as int).len() ==> words(line@, 0)[found@.len() + i]
                    == #[trigger] words(line@, at as int)[i],
        ensures
            found@.len() == words(line@, 0).len(),
            forall|i: int|
                0 <= i < found@.len() ==> {
                    &&& (#[trigger] found@[i]).0 <= found@[i].1 <= line@.len()
                    &&& line@.subrange(found@[i].0 as int, found@[i].1 as int) == words(
                        line@,
                        0,
                    )[i]
                },
        decreases n - at,
    {
        let a = scan_space(line, at, false);
        if a >= n {
            break ;
        }
        let b = scan_space(line, a, true);
        proof {
            find_space_bounds(line@, a as int, true);
            let rest = words(line@, at as int);
            let tail = words(line@, b as int);
            assert(rest == seq![line@.subrange(a as int, b as int)] + tail);
            assert(rest[0] == line@.subrange(a as int, b as int));
            assert forall|i: int| 0 <= i < tail.len() implies words(line@, 0)[found@.len() + 1
                + i] == #[trigger] tail[i] by {
                assert(rest[i + 1] == tail[i]);
            }
        }
        found.push((a, b));
        at = b;
    }
    found
}

/// The start line as it was read: its three tokens, where the line ends,
/// and where the line after it starts.
struct StartLine {
    method: String,
    path: String,
    version: String,
    end: usize,
    next: usize,
}

/// Reads the start line of `input`.
fn parse_start(input: &[u8]) -> (r: Result<StartLine, ParseError>)
    ensures
        match r {
            Ok(start) => {
                &&& start_tokens(input@) == Some(seq![start.method@, start.path@, start.version@])
                &&& start.end == line_end(input@, 0)
                &&& start.next == next_line(input@, start.end as int)
                &&& start.end <= start.next <= input@.len()
            },
            Err(e) => start_tokens(input@) is None && e@ == ParseFault::MalformedStartLine,
        },
{
    let end = scan_line_end(input, 0);
    let text = match decode_strict(part(input, 0, end)) {
        Some(text) => text,
        None => { return Err(ParseError::MalformedStartLine); },
    };
    let chars = chars_of(text);
    let found = split_words(chars.as_slice());
    if found.len() != 3 {
        return Err(ParseError::MalformedStartLine);
    }
    let method = text.substring_char(found[0].0, found[0].1).to_owned();
    let path = text.substring_char(found[1].0, found[1].1).to_owned();
    let version = text.substring_char(found[2].0, found[2].1).to_owned();
    let next = if end < input.len() {
        end + 2
    } else {
        input.len()
    };
    assert(words(text@, 0) =~= seq![method@, path@, version@]);
    Ok(StartLine { method, path, version, end, next })
}

/// Reads the header field that `line` holds.
fn parse_field(line: &[u8]) -> (r: Option<(String, String)>)
    ensures
        match r {
            Some(field) => header_field(line@) == Some((field.0@, field.1@)),
            None => header_field(line@) is None,
        },
{
    let text = match decode_strict(line) {
        Some(text) => text,
        None => { return None; },
    };
    let chars = chars_of(text);
    let colon = scan_separator(chars.as_slice());
    if colon >= chars.len() {
        return None;
    }
    let name = text.substring_char(0, colon).to_owned();
    let value = text.substring_char(colon + 2, chars.len()).to_owned();
    Some((name, value))
}

/// How reading the header lines ended.
enum FieldsRead {
    Done(Headers, usize),
    Malformed,
    Short,
}

/// Reads the header lines of `input` from `from` on.
fn parse_headers(input: &[u8], from: usize) -> (r: FieldsRead)
    requires
        from <= input@.len(),
    ensures
        match r {
            FieldsRead::Done(headers, end) => fields_from(
                input@,
                from as int,
                TableModel::empty(),
            ) == (Fields::Done { table: headers@, end: end as int }) && from + 2 <= end
                <= input@.len(),
            FieldsRead::Malformed => fields_from(input@, from as int, TableModel::empty())
                == Fields::Malformed,
            FieldsRead::Short => fields_from(input@, from as int, TableModel::empty())
                == Fields::Short,
        },
{
    let n = input.len();
    let mut headers: Headers = Table::new();
    let mut at: usize = from;
    loop
        invariant
            n == input@.len(),
            from <= at <= n,
            fields_from(input@, from as int, TableModel::empty()) == fields_from(
                input@,
                at as int,
                headers@,
            ),
        decreases n - at,
    {
        if at >= n {
            return FieldsRead::Short;
        }
        let end = scan_line_end(input, at);
        if end == at {
            return FieldsRead::Done(headers, at + 2);
        }
        let (name, value) = match parse_field(part(input, at, end)) {
            Some(field) => field,
            None => {
                if end < n {
                    return FieldsRead::Malformed;
                } else {
                    return FieldsRead::Short;
                }
            },
        };
        headers.insert(name, value);
        at = if end < n {
            end + 2
        } else {
            n
        };
    }
}

/// The length of the body that `headers` announce.
fn body_length(headers: &Headers) -> (r: Option<usize>)
    ensures
        match r {
            Some(n) => declared_length(headers@) == Some(n as nat),
            None => declared_length(headers@) is None,
        },
{
    match headers.get("Content-Length") {
        None => Some(0),
        Some(value) => parse_decimal(value.as_str()),
    }
}

/// Takes the `length` bytes of the body from `input` at `from`.
fn parse_body(input: &[u8], from: usize, length: usize) -> (r: Result<&[u8], ParseError>)
    requires
        from <= input@.len(),
    ensures
        match r {
            Ok(body) => from + length <= input@.len() && body@ == input@.subrange(
                from as int,
                from + length,
            ),
            Err(e) => from + length > input@.len() && e@ == ParseFault::TruncatedBody,
        },
{
    if length > input.len() - from {
        Err(ParseError::TruncatedBody)
    } else {
        Ok(part(input, from, from + length))
    }
}

impl HttpRequest {
    /// Reads one request from the start of `input`. Gives the request and
    /// the number of bytes that it takes up: the head and exactly as many
    /// bytes of body as the head announces. What follows them is not looked
    /// at. The head has to be text in UTF-8; the body is decoded leniently.
    pub fn from_bytes(input: &[u8]) -> (r: Result<(HttpRequest, usize), ParseError>)
        ensures
            match r {
                Ok((request, used)) => parse(input@) == Ok::<_, ParseFault>(
                    (request@, used as int),
                ),
                Err(e) => parse(input@) == Err::<(RequestModel, int), _>(e@),
            },
    {
        let start = match parse_start(input) {
            Ok(start) => start,
            Err(e) => { return Err(e); },
        };
        let (headers, end) = match parse_headers(input, start.next) {
            FieldsRead::Done(headers, end) => (headers, end),
            _ => { return Err(ParseError::MalformedHeader); },
        };
        let length = match body_length(&headers) {
            Some(length) => length,
            None => { return Err(ParseError::MalformedContentLength); },
        };
        let body = match parse_body(input, end, length) {
            Ok(body) => body,
            Err(e) => { return Err(e); },
        };
        let total = input.len();
        assert(end + length <= total);
        let used = end + length;
        let method = match HttpMethod::from_str(start.method.as_str()) {
            Ok(method) => method,
            Err(e) => { return Err(e); },
        };
        let request = HttpRequest::new(
            method,
            start.path,
            start.version,
            headers,
            decode_lossy(body),
        );
        Ok((request, used))
    }
}

/// What is still to be fetched before a request can be read from `input`.
pub fn pending(input: &[u8]) -> (r: Pending)
    ensures
        r == pending_after(input@),
{
    let end = scan_line_end(input, 0);
    if end >= input.len() {
        return Pending::Line;
    }
    let start = match parse_start(input) {
        Ok(start) => start,
        Err(_) => { return Pending::Nothing; },
    };
    match parse_headers(input, start.next) {
        FieldsRead::Short => Pending::Line,
        FieldsRead::Malformed => Pending::Nothing,
        FieldsRead::Done(headers, end) => match body_length(&headers) {
            None => Pending::Nothing,
            Some(length) => if length > input.len() - end {
                Pending::Body(length - (input.len() - end))
            } else {
                Pending::Nothing
            },
        },
    }
}

} // verus!
