//! What the kernel's process file system says of sockets and processes.

use vstd::prelude::*;

use crate::io_error::IoError;
use crate::text;
use crate::text::{chars_of, split_pieces, string_of};

verus! {

// ---------------------------------------------------------------------------
// Text
// ---------------------------------------------------------------------------
/// The characters with Unicode's `White_Space` property.
pub open spec fn is_white_space(c: char) -> bool {
    ||| '\u{9}' <= c <= '\u{d}'
    ||| c == '\u{20}'
    ||| c == '\u{85}'
    ||| c == '\u{a0}'
    ||| c == '\u{1680}'
    ||| '\u{2000}' <= c <= '\u{200a}'
    ||| c == '\u{2028}'
    ||| c == '\u{2029}'
    ||| c == '\u{202f}'
    ||| c == '\u{205f}'
    ||| c == '\u{3000}'
}

fn white_space(c: char) -> (r: bool)
    ensures
        r == is_white_space(c),
{
    ('\u{9}' <= c && c <= '\u{d}') || c == '\u{20}' || c == '\u{85}' || c == '\u{a0}' || c
        == '\u{1680}' || ('\u{2000}' <= c && c <= '\u{200a}') || c == '\u{2028}' || c
        == '\u{2029}' || c == '\u{202f}' || c == '\u{205f}' || c == '\u{3000}'
}

/// The text with a plain space in place of each white space character.
pub open spec fn spaced(s: Seq<char>) -> Seq<char> {
    s.map_values(|c: char| if is_white_space(c) { ' ' } else { c })
}

/// The pieces that are not empty.
pub open spec fn non_empty(pieces: Seq<Seq<char>>) -> Seq<Seq<char>>
    decreases pieces.len(),
{
    if pieces.len() == 0 {
        Seq::empty()
    } else if pieces.last().len() == 0 {
        non_empty(pieces.drop_last())
    } else {
        non_empty(pieces.drop_last()).push(pieces.last())
    }
}

/// The words of a text, which white space separates.
pub open spec fn words(s: Seq<char>) -> Seq<Seq<char>> {
    non_empty(text::split_terminated(spaced(s), ' '))
}

/// The text without white space at either end.
pub open spec fn trimmed(s: Seq<char>) -> Seq<char>
    decreases s.len(),
{
    if s.len() == 0 {
        s
    } else if is_white_space(s[0]) {
        trimmed(s.skip(1))
    } else if is_white_space(s.last()) {
        trimmed(s.drop_last())
    } else {
        s
    }
}

pub open spec fn ends_with(s: Seq<char>, end: Seq<char>) -> bool {
    s.len() >= end.len() && s.skip(s.len() - end.len()) == end
}

/// Whether one text stands somewhere in another.
pub open spec fn contains_text(s: Seq<char>, part: Seq<char>) -> bool {
    exists|i: int| 0 <= i <= s.len() - part.len() && #[trigger] stands_at(s, i, part)
}

pub open spec fn stands_at(s: Seq<char>, i: int, part: Seq<char>) -> bool {
    s.subrange(i, i + part.len()) == part
}

/// The words of a text.
pub fn words_of(s: &str) -> (r: Vec<String>)
    ensures
        text::views(r@) == words(s@),
{
    let chars = chars_of(s);
    let mut plain: Vec<char> = Vec::new();
    for i in 0..chars.len()
        invariant
            chars@ == s@,
            plain@ == spaced(s@.take(i as int)),
    {
        let c = if white_space(chars[i]) {
            ' '
        } else {
            chars[i]
        };
        plain.push(c);
        assert(spaced(s@.take(i + 1)) =~= spaced(s@.take(i as int)).push(c));
    }
    assert(s@.take(s@.len() as int) == s@);
    let line = string_of(&plain);
    let pieces = split_pieces(line.as_str(), ' ');
    let ghost all = text::views(pieces@);
    let mut out: Vec<String> = Vec::new();
    assert(text::views(out@) =~= non_empty(all.take(0)));
    for i in 0..pieces.len()
        invariant
            all == text::views(pieces@),
            text::views(out@) == non_empty(all.take(i as int)),
    {
        let ghost held = text::views(out@);
        assert(all.take(i + 1).drop_last() =~= all.take(i as int));
        assert(all.take(i + 1).last() == pieces@[i as int]@);
        if !pieces[i].as_str().is_empty() {
            let word = pieces[i].clone();
            out.push(word);
            assert(text::views(out@) =~= held.push(pieces@[i as int]@));
        }
    }
    assert(all.take(all.len() as int) == all);
    out
}

/// The text without white space at either end.
pub fn trim(s: &str) -> (r: String)
    ensures
        r@ == trimmed(s@),
{
    let chars = chars_of(s);
    let mut start: usize = 0;
    let mut end: usize = chars.len();
    assert(chars@.subrange(0, chars@.len() as int) == chars@);
    while start < end && white_space(chars[start])
        invariant
            chars@ == s@,
            start <= end == chars.len(),
            trimmed(chars@.subrange(start as int, end as int)) == trimmed(s@),
        decreases end - start,
    {
        assert(chars@.subrange(start as int, end as int).skip(1) =~= chars@.subrange(
            start + 1,
            end as int,
        ));
        start = start + 1;
    }
    while start < end && white_space(chars[end - 1])
        invariant
            chars@ == s@,
            start <= end <= chars.len(),
            start < end ==> !is_white_space(chars@[start as int]),
            trimmed(chars@.subrange(start as int, end as int)) == trimmed(s@),
        decreases end - start,
    {
        assert(chars@.subrange(start as int, end as int).drop_last() =~= chars@.subrange(
            start as int,
            end - 1,
        ));
        end = end - 1;
    }
    let mut kept: Vec<char> = Vec::new();
    for i in start..end
        invariant
            start <= i <= end <= chars.len(),
            kept@ == chars@.subrange(start as int, i as int),
    {
        kept.push(chars[i]);
        assert(chars@.subrange(start as int, i + 1) =~= chars@.subrange(
            start as int,
            i as int,
        ).push(chars@[i as int]));
    }
    string_of(&kept)
}

/// Whether one run of characters stands at a place of another.
fn stands(s: &Vec<char>, at: usize, part: &Vec<char>) -> (r: bool)
    requires
        at + part@.len() <= s@.len(),
    ensures
        r == stands_at(s@, at as int, part@),
{
    let ghost piece = s@.subrange(at as int, at + part@.len());
    for i in 0..part.len()
        invariant
            at + part.len() <= s.len(),
            piece == s@.subrange(at as int, at + part@.len()),
            forall|k: int| 0 <= k < i ==> #[trigger] piece[k] == part@[k],
    {
        if s[at + i] != part[i] {
            assert(piece[i as int] != part@[i as int]);
            return false;
        }
    }
    assert(piece =~= part@);
    true
}

/// Whether one text stands somewhere in another.
pub fn has_text(s: &str, part: &str) -> (r: bool)
    ensures
        r == contains_text(s@, part@),
{
    let whole = chars_of(s);
    let wanted = chars_of(part);
    if wanted.len() > whole.len() {
        return false;
    }
    let last = whole.len() - wanted.len();
    let mut i: usize = 0;
    while i <= last
        invariant
            whole@ == s@,
            wanted@ == part@,
            last == whole.len() - wanted.len(),
            i <= last + 1,
            forall|k: int| 0 <= k < i ==> !stands_at(s@, k, part@),
        decreases last + 1 - i,
    {
        if stands(&whole, i, &wanted) {
            return true;
        }
        if i == last {
            return false;
        }
        i = i + 1;
    }
    false
}

/// Whether one text ends with another.
pub fn text_ends_with(s: &str, end: &str) -> (r: bool)
    ensures
        r == ends_with(s@, end@),
{
    let whole = chars_of(s);
    let wanted = chars_of(end);
    if wanted.len() > whole.len() {
        return false;
    }
    let at = whole.len() - wanted.len();
    assert(s@.skip(at as int) =~= s@.subrange(at as int, at + end@.len()));
    stands(&whole, at, &wanted)
}

// ---------------------------------------------------------------------------
// Socket tables
// ---------------------------------------------------------------------------
/// An upper-case hexadecimal digit.
pub open spec fn hex_digit(d: nat) -> char {
    if d < 10 {
        (48 + d) as char
    } else {
        (55 + d) as char
    }
}

fn hex_char(d: u16) -> (r: char)
    requires
        d < 16,
    ensures
        r == hex_digit(d as nat),
{
    if d < 10 {
        (48u8 + d as u8) as char
    } else {
        (55u8 + d as u8) as char
    }
}

/// What the local address of a socket at this port ends with: a colon and four hexadecimal digits.
pub open spec fn port_suffix(port: u16) -> Seq<char> {
    seq![
        ':',
        hex_digit((port / 4096) as nat),
        hex_digit((port / 256 % 16) as nat),
        hex_digit((port / 16 % 16) as nat),
        hex_digit((port % 16) as nat),
    ]
}

/// The suffix for a port.
pub fn port_needle(port: u16) -> (r: String)
    ensures
        r@ == port_suffix(port),
{
    let mut out = String::new();
    out.push(':');
    out.push(hex_char(port / 4096));
    out.push(hex_char(port / 256 % 16));
    out.push(hex_char(port / 16 % 16));
    out.push(hex_char(port % 16));
    assert(out@ =~= port_suffix(port));
    out
}

/// Different ports have different suffixes.
pub proof fn port_suffixes_differ(a: u16, b: u16)
    requires
        port_suffix(a) == port_suffix(b),
    ensures
        a == b,
{
    let x = port_suffix(a);
    let y = port_suffix(b);
    assert(a / 4096 == b / 4096) by {
        assert(x[1] == y[1]);
        hex_digits_differ((a / 4096) as nat, (b / 4096) as nat);
    }
    assert(a / 256 % 16 == b / 256 % 16) by {
        assert(x[2] == y[2]);
        hex_digits_differ((a / 256 % 16) as nat, (b / 256 % 16) as nat);
    }
    assert(a / 16 % 16 == b / 16 % 16) by {
        assert(x[3] == y[3]);
        hex_digits_differ((a / 16 % 16) as nat, (b / 16 % 16) as nat);
    }
    assert(a % 16 == b % 16) by {
        assert(x[4] == y[4]);
        hex_digits_differ((a % 16) as nat, (b % 16) as nat);
    }
    assert(a == b) by (bit_vector)
        requires
            a / 4096 == b / 4096,
            a / 256 % 16 == b / 256 % 16,
            a / 16 % 16 == b / 16 % 16,
            a % 16 == b % 16,
    ;
}

proof fn hex_digits_differ(d: nat, e: nat)
    requires
        d < 16,
        e < 16,
        hex_digit(d) == hex_digit(e),
    ensures
        d == e,
{
}

/// Whether a line's second word, which is the local address, has the suffix.
pub open spec fn line_has_port(line: Seq<char>, needle: Seq<char>) -> bool {
    words(line).len() > 1 && ends_with(words(line)[1], needle)
}

/// Whether a table lists the port, in any line but the heading.
pub open spec fn lists_port(content: Seq<char>, needle: Seq<char>) -> bool {
    let lines = text::split_terminated(content, '\n');
    exists|i: int| 1 <= i < lines.len() && line_has_port(#[trigger] lines[i], needle)
}

/// Whether a socket table lists a port.
pub fn table_has_port(content: &str, needle: &str) -> (r: bool)
    ensures
        r == lists_port(content@, needle@),
{
    let lines = split_pieces(content, '\n');
    let ghost views = text::views(lines@);
    let mut i: usize = 1;
    while i < lines.len()
        invariant
            views == text::views(lines@),
            views == text::split_terminated(content@, '\n'),
            1 <= i,
            i <= lines.len() || lines.len() == 0,
            forall|k: int| 1 <= k < i ==> !line_has_port(#[trigger] views[k], needle@),
        decreases lines.len() - i,
    {
        let parts = words_of(lines[i].as_str());
        assert(views[i as int] == lines@[i as int]@);
        if parts.len() > 1 {
            assert(text::views(parts@)[1] == parts@[1]@);
            if text_ends_with(parts[1].as_str(), needle) {
                assert(line_has_port(views[i as int], needle@));
                return true;
            }
        }
        i = i + 1;
    }
    false
}

/// Whether a table that could be read lists the port. A table that is not there lists none.
pub open spec fn read_lists_port(
    read: Result<Option<String>, IoError>,
    port: u16,
) -> Result<bool, IoError> {
    match read {
        Ok(Some(content)) => Ok(lists_port(content@, port_suffix(port))),
        Ok(None) => Ok(false),
        Err(e) => Err(e),
    }
}

/// Whether either of two tables lists the port. A table that could not be read decides only where
/// none before it lists the port.
pub open spec fn either_lists_port(
    first: Result<Option<String>, IoError>,
    second: Result<Option<String>, IoError>,
    port: u16,
) -> Result<bool, IoError> {
    match read_lists_port(first, port) {
        Ok(true) => Ok(true),
        Err(e) => Err(e),
        Ok(false) => read_lists_port(second, port),
    }
}

/// Looks a port up in a table as it was read.
fn read_has_port(read: Result<Option<String>, IoError>, port: u16) -> (r: Result<bool, IoError>)
    ensures
        r == read_lists_port(read, port),
{
    match read {
        Ok(Some(content)) => Ok(
            table_has_port(content.as_str(), port_needle(port).as_str()),
        ),
        Ok(None) => Ok(false),
        Err(e) => Err(e),
    }
}

/// Looks a port up in two tables.
pub fn tables_have_port(
    first: Result<Option<String>, IoError>,
    second: Result<Option<String>, IoError>,
    port: u16,
) -> (r: Result<bool, IoError>)
    ensures
        r == either_lists_port(first, second, port),
{
    match read_has_port(first, port) {
        Ok(found) => if found {
            Ok(true)
        } else {
            read_has_port(second, port)
        },
        Err(e) => Err(e),
    }
}

// ---------------------------------------------------------------------------
// Tables as they are written
// ---------------------------------------------------------------------------
/// Whether no white space occurs.
pub open spec fn plain(s: Seq<char>) -> bool {
    forall|i: int| 0 <= i < s.len() ==> !is_white_space(#[trigger] s[i])
}

/// A line of a table: its fields, each with a space behind it. Empty fields are padding.
pub open spec fn line_of(fields: Seq<Seq<char>>) -> Seq<char> {
    text::terminate_all(fields, ' ')
}

/// A table: a heading and lines.
pub open spec fn table_of(heading: Seq<char>, rows: Seq<Seq<Seq<char>>>) -> Seq<char> {
    text::terminate_all(
        seq![heading] + rows.map_values(|fields: Seq<Seq<char>>| line_of(fields)),
        '\n',
    )
}

/// The words of a line are its fields.
pub proof fn words_are_the_fields(fields: Seq<Seq<char>>)
    requires
        forall|i: int| 0 <= i < fields.len() ==> plain(#[trigger] fields[i]),
    ensures
        words(line_of(fields)) == non_empty(fields),
{
    line_has_only_spaces(fields);
    let line = line_of(fields);
    assert(spaced(line) =~= line) by {
        assert forall|k: int| 0 <= k < line.len() implies spaced(line)[k] == line[k] by {
            assert(line[k] == ' ' || !is_white_space(line[k]));
        }
    }
    assert forall|i: int| 0 <= i < fields.len() implies !(#[trigger] fields[i]).contains(' ') by {
        assert(plain(fields[i]));
    }
    text::split_terminated_inverts_terminate(fields, ' ');
}

proof fn line_has_only_spaces(fields: Seq<Seq<char>>)
    requires
        forall|i: int| 0 <= i < fields.len() ==> plain(#[trigger] fields[i]),
    ensures
        forall|k: int|
            0 <= k < line_of(fields).len() ==> (#[trigger] line_of(fields)[k] == ' '
                || !is_white_space(line_of(fields)[k])),
    decreases fields.len(),
{
    if fields.len() > 0 {
        let front = fields.drop_last();
        assert forall|i: int| 0 <= i < front.len() implies plain(#[trigger] front[i]) by {
            assert(front[i] == fields[i]);
        }
        line_has_only_spaces(front);
        let last = fields.last();
        assert(plain(fields[fields.len() - 1]));
        let line = line_of(fields);
        let before = line_of(front);
        assert forall|k: int| 0 <= k < line.len() implies (#[trigger] line[k] == ' '
            || !is_white_space(line[k])) by {
            if k < before.len() {
                assert(line[k] == before[k]);
            } else if k < before.len() + last.len() {
                assert(line[k] == last[k - before.len()]);
            }
        }
    }
}

/// An address tells its own port and no other.
pub proof fn address_tells_its_port(address: Seq<char>, bound: u16, asked: u16)
    ensures
        ends_with(address + port_suffix(bound), port_suffix(asked)) == (bound == asked),
{
    let whole = address + port_suffix(bound);
    assert(whole.skip(whole.len() - 5) =~= port_suffix(bound));
    if port_suffix(bound) == port_suffix(asked) {
        port_suffixes_differ(bound, asked);
    }
}

/// Reading a table finds what was written into it: a port is listed exactly when the second field of
/// some line ends with its suffix.
pub proof fn written_table_reads_back(
    heading: Seq<char>,
    rows: Seq<Seq<Seq<char>>>,
    needle: Seq<char>,
)
    requires
        !heading.contains('\n'),
        forall|i: int, k: int|
            0 <= i < rows.len() && 0 <= k < rows[i].len() ==> plain(#[trigger] rows[i][k]),
    ensures
        lists_port(table_of(heading, rows), needle) <==> exists|i: int|
            0 <= i < rows.len() && non_empty(#[trigger] rows[i]).len() > 1 && ends_with(
                non_empty(rows[i])[1],
                needle,
            ),
{
    let pieces = seq![heading] + rows.map_values(|fields: Seq<Seq<char>>| line_of(fields));
    assert forall|i: int| 0 <= i < pieces.len() implies !(#[trigger] pieces[i]).contains(
        '\n',
    ) by {
        if i > 0 {
            let row = rows[i - 1];
            assert forall|k: int| 0 <= k < row.len() implies plain(#[trigger] row[k]) by {
                assert(plain(rows[i - 1][k]));
            }
            line_has_only_spaces(row);
            assert(pieces[i] == line_of(row));
            if pieces[i].contains('\n') {
                let k = choose|k: int| 0 <= k < pieces[i].len() && pieces[i][k] == '\n';
                assert(line_of(row)[k] == ' ' || !is_white_space(line_of(row)[k]));
            }
        }
    }
    text::split_terminated_inverts_terminate(pieces, '\n');
    assert forall|i: int| 0 <= i < rows.len() implies line_has_port(
        #[trigger] pieces[i + 1],
        needle,
    ) == (non_empty(rows[i]).len() > 1 && ends_with(non_empty(rows[i])[1], needle)) by {
        let row = rows[i];
        assert forall|k: int| 0 <= k < row.len() implies plain(#[trigger] row[k]) by {
            assert(plain(rows[i][k]));
        }
        assert(pieces[i + 1] == line_of(row));
        words_are_the_fields(row);
    }
    if lists_port(table_of(heading, rows), needle) {
        let i = choose|i: int|
            1 <= i < pieces.len() && line_has_port(#[trigger] pieces[i], needle);
        assert(pieces[(i - 1) + 1] == pieces[i]);
        assert(non_empty(rows[i - 1]).len() > 1);
    }
    if exists|i: int|
        0 <= i < rows.len() && non_empty(#[trigger] rows[i]).len() > 1 && ends_with(
            non_empty(rows[i])[1],
            needle,
        ) {
        let i = choose|i: int|
            0 <= i < rows.len() && non_empty(#[trigger] rows[i]).len() > 1 && ends_with(
                non_empty(rows[i])[1],
                needle,
            );
        assert(line_has_port(pieces[i + 1], needle));
    }
}

/// The newline behind a name is trimmed, and nothing else.
pub proof fn newline_is_trimmed(name: Seq<char>)
    requires
        name.len() > 0,
        !is_white_space(name[0]),
        !is_white_space(name.last()),
    ensures
        trimmed(name.push('\n')) == name,
        trimmed(name) == name,
{
    let line = name.push('\n');
    assert(line[0] == name[0]);
    assert(line.drop_last() =~= name);
    reveal_with_fuel(trimmed, 2);
}

/// What counts as white space, by the numbers of the characters.
pub proof fn white_space_is_told_by_number(c: char)
    ensures
        is_white_space(c) <==> {
            let n = c as int;
            ||| 0x9 <= n <= 0xd
            ||| n == 0x20
            ||| n == 0x85
            ||| n == 0xa0
            ||| n == 0x1680
            ||| 0x2000 <= n <= 0x200a
            ||| n == 0x2028
            ||| n == 0x2029
            ||| n == 0x202f
            ||| n == 0x205f
            ||| n == 0x3000
        },
{
}

/// Any white space separates words as a space does: two texts that differ only in which white space
/// stands somewhere have the same words.
pub proof fn any_white_space_separates(s: Seq<char>, t: Seq<char>)
    requires
        s.len() == t.len(),
        forall|i: int|
            0 <= i < s.len() ==> #[trigger] s[i] == t[i] || (is_white_space(s[i])
                && is_white_space(t[i])),
    ensures
        words(s) == words(t),
        spaced(s).len() == s.len(),
        forall|i: int|
            0 <= i < s.len() ==> #[trigger] spaced(s)[i] == if is_white_space(s[i]) {
                ' '
            } else {
                s[i]
            },
{
    assert forall|i: int| 0 <= i < s.len() implies spaced(s)[i] == spaced(t)[i] by {
        assert(s[i] == t[i] || (is_white_space(s[i]) && is_white_space(t[i])));
    }
    assert(spaced(s) =~= spaced(t));
}

/// The pieces that are not empty, of some pieces followed by others, are those of the first followed
/// by those of the others; a single piece counts exactly if it is not empty.
pub proof fn only_empty_pieces_are_left_out(
    first: Seq<Seq<char>>,
    others: Seq<Seq<char>>,
    piece: Seq<char>,
)
    ensures
        non_empty(first + others) == non_empty(first) + non_empty(others),
        non_empty(Seq::empty()).len() == 0,
        piece.len() > 0 ==> non_empty(seq![piece]) == seq![piece],
        piece.len() == 0 ==> non_empty(seq![piece]).len() == 0,
    decreases others.len(),
{
    let one = seq![piece];
    assert(one.drop_last() =~= Seq::<Seq<char>>::empty());
    reveal_with_fuel(non_empty, 2);
    if piece.len() > 0 {
        assert(non_empty(one) =~= one);
    }
    if others.len() == 0 {
        assert(first + others =~= first);
        assert(non_empty(first) + non_empty(others) =~= non_empty(first));
    } else {
        let all = first + others;
        assert(all.drop_last() =~= first + others.drop_last());
        only_empty_pieces_are_left_out(first, others.drop_last(), piece);
        assert(non_empty(all) =~= non_empty(first) + non_empty(others));
    }
}

/// What is trimmed is white space at the two ends, all of it and nothing else: the text is some white
/// space, what is left, and some white space, and what is left neither begins nor ends with any.
pub proof fn only_outer_white_space_is_trimmed(s: Seq<char>) -> (cut: (Seq<char>, Seq<char>))
    ensures
        s == cut.0 + trimmed(s) + cut.1,
        forall|i: int| 0 <= i < cut.0.len() ==> is_white_space(#[trigger] cut.0[i]),
        forall|i: int| 0 <= i < cut.1.len() ==> is_white_space(#[trigger] cut.1[i]),
        trimmed(s).len() > 0 ==> !is_white_space(trimmed(s)[0]) && !is_white_space(
            trimmed(s).last(),
        ),
    decreases s.len(),
{
    let nothing = Seq::<char>::empty();
    if s.len() == 0 {
        assert(s =~= nothing + trimmed(s) + nothing);
        (nothing, nothing)
    } else if is_white_space(s[0]) {
        let cut = only_outer_white_space_is_trimmed(s.skip(1));
        let wider = (seq![s[0]] + cut.0, cut.1);
        assert(s =~= seq![s[0]] + s.skip(1));
        assert(s =~= wider.0 + trimmed(s) + wider.1);
        wider
    } else if is_white_space(s.last()) {
        let cut = only_outer_white_space_is_trimmed(s.drop_last());
        let wider = (cut.0, cut.1.push(s.last()));
        assert(s =~= s.drop_last().push(s.last()));
        assert(s =~= wider.0 + trimmed(s) + wider.1);
        wider
    } else {
        assert(s =~= nothing + trimmed(s) + nothing);
        (nothing, nothing)
    }
}

/// One text ends with another, and holds it, wherever it is some text followed by it, and some
/// followed by it and by some more; and it does so nowhere else.
pub proof fn texts_are_found_where_they_stand(
    s: Seq<char>,
    before: Seq<char>,
    part: Seq<char>,
    after: Seq<char>,
)
    ensures
        ends_with(before + part, part),
        contains_text(before + part + after, part),
        ends_with(s, part) ==> exists|front: Seq<char>| s == #[trigger] (front + part),
        contains_text(s, part) ==> exists|front: Seq<char>, back: Seq<char>|
            s == #[trigger] (front + part + back),
{
    let end = before + part;
    assert(end.skip(end.len() - part.len()) =~= part);
    let whole = before + part + after;
    let at = before.len() as int;
    assert(whole.subrange(at, at + part.len()) =~= part);
    assert(stands_at(whole, at, part));
    if ends_with(s, part) {
        let front = s.take(s.len() - part.len());
        assert(s =~= front + part) by {
            assert(s.skip(s.len() - part.len()) == part);
            assert(s =~= front + s.skip(s.len() - part.len()));
        }
    }
    if contains_text(s, part) {
        let i = choose|i: int| 0 <= i <= s.len() - part.len() && #[trigger] stands_at(s, i, part);
        let front = s.take(i);
        let back = s.skip(i + part.len());
        assert(s.subrange(i, i + part.len()) == part);
        assert(s =~= front + s.subrange(i, i + part.len()) + back);
        assert(s == front + part + back);
    }
}

/// The value of an upper-case hexadecimal digit.
pub open spec fn digit_value(c: char) -> int {
    if c <= '9' {
        c as int - 48
    } else {
        c as int - 55
    }
}

/// The suffix of a port is a colon and four digits, from `0` to `9` and from `A` to `F`, that stand
/// for it, the most significant first.
pub proof fn suffix_tells_the_port(port: u16)
    ensures
        ({
            let s = port_suffix(port);
            &&& s.len() == 5
            &&& s[0] == ':'
            &&& port == digit_value(s[1]) * 4096 + digit_value(s[2]) * 256 + digit_value(s[3]) * 16
                + digit_value(s[4])
            &&& forall|i: int|
                1 <= i < 5 ==> ('0' <= #[trigger] s[i] <= '9' || 'A' <= s[i] <= 'F')
        }),
{
    assert(port == port / 4096 * 4096 + port / 256 % 16 * 256 + port / 16 % 16 * 16 + port % 16)
        by (bit_vector);
}

/// A table that lists a port does so in a line behind the first, as the end of the second word; one
/// that does not has no such line.
pub proof fn port_is_listed_in_a_line(content: Seq<char>, needle: Seq<char>)
    ensures
        lists_port(content, needle) <==> exists|i: int|
            {
                let line = #[trigger] text::split_terminated(content, '\n')[i];
                &&& 1 <= i < text::split_terminated(content, '\n').len()
                &&& words(line).len() >= 2
                &&& ends_with(words(line)[1], needle)
            },
{
    let lines = text::split_terminated(content, '\n');
    if lists_port(content, needle) {
        let i = choose|i: int| 1 <= i < lines.len() && line_has_port(#[trigger] lines[i], needle);
        assert(words(lines[i]).len() >= 2);
    }
    if exists|i: int|
        {
            let line = #[trigger] lines[i];
            &&& 1 <= i < lines.len()
            &&& words(line).len() >= 2
            &&& ends_with(words(line)[1], needle)
        } {
        let i = choose|i: int|
            {
                let line = #[trigger] lines[i];
                &&& 1 <= i < lines.len()
                &&& words(line).len() >= 2
                &&& ends_with(words(line)[1], needle)
            };
        assert(line_has_port(lines[i], needle));
    }
}

/// How two tables decide: the port is bound if the first lists it, whatever the second is; where the
/// first could not be read, that is the answer; otherwise the second decides alone. A table that is
/// not there lists nothing.
pub proof fn second_table_decides_where_the_first_is_silent(
    first: Result<Option<String>, IoError>,
    second: Result<Option<String>, IoError>,
    port: u16,
)
    ensures
        first matches Ok(Some(content)) && lists_port(content@, port_suffix(port))
            ==> either_lists_port(first, second, port) == Ok::<bool, IoError>(true),
        first matches Err(e) ==> either_lists_port(first, second, port) == Err::<bool, IoError>(e),
        first matches Ok(read) && (read is None || !lists_port(read->0@, port_suffix(port))) ==> {
            match second {
                Ok(Some(content)) => either_lists_port(first, second, port) == Ok::<bool, IoError>(
                    lists_port(content@, port_suffix(port)),
                ),
                Ok(None) => either_lists_port(first, second, port) == Ok::<bool, IoError>(false),
                Err(e) => either_lists_port(first, second, port) == Err::<bool, IoError>(e),
            }
        },
{
}

} // verus!
