//! Characters, decimal numbers and separated text.

use vstd::prelude::*;

verus! {

/// Appends one character, as `String::push` documents.
pub assume_specification[ String::push ](s: &mut String, c: char)
    ensures
        final(s)@ == old(s)@.push(c),
;

/// The characters of each string.
pub open spec fn views(v: Seq<String>) -> Seq<Seq<char>> {
    v.map_values(|s: String| s@)
}

/// The characters of a string, in order.
pub fn chars_of(s: &str) -> (r: Vec<char>)
    ensures
        r@ == s@,
{
    let mut out: Vec<char> = Vec::new();
    for c in it: s.chars()
        invariant
            out@ == s@.take(it.index() as int),
            it.seq() == s@,
    {
        out.push(c);
    }
    out
}

/// A string made of the given characters.
pub fn string_of(chars: &Vec<char>) -> (r: String)
    ensures
        r@ == chars@,
{
    let mut out = String::new();
    for i in 0..chars.len()
        invariant
            out@ == chars@.take(i as int),
    {
        out.push(chars[i]);
    }
    assert(chars@.take(chars@.len() as int) == chars@);
    out
}

/// Whether the two strings hold the same characters.
pub fn same_text(a: &str, b: &str) -> (r: bool)
    ensures
        r == (a@ == b@),
{
    let x = a.to_owned();
    let y = b.to_owned();
    x == y
}

/// One text behind another.
pub fn joined(before: &str, after: &str) -> (r: String)
    ensures
        r@ == before@ + after@,
{
    let mut out = before.to_owned();
    out.append(after);
    out
}

// ---------------------------------------------------------------------------
// Decimal numbers
// ---------------------------------------------------------------------------
/// The character that stands for a digit below ten.
pub open spec fn digit_char(d: nat) -> char {
    (48 + d) as char
}

pub open spec fn is_digit(c: char) -> bool {
    '0' <= c <= '9'
}

pub open spec fn digit_of(c: char) -> nat {
    (c as int - 48) as nat
}

/// The decimal digits of a number, most significant first, without leading zeros.
pub open spec fn decimal(n: nat) -> Seq<char>
    decreases n,
{
    if n < 10 {
        seq![digit_char(n)]
    } else {
        decimal(n / 10).push(digit_char(n % 10))
    }
}

/// Whether the text is made of digits alone.
pub open spec fn all_digits(s: Seq<char>) -> bool {
    forall|i: int| 0 <= i < s.len() ==> is_digit(#[trigger] s[i])
}

/// The number that a run of digits denotes.
pub open spec fn decimal_value(s: Seq<char>) -> nat
    decreases s.len(),
{
    if s.len() == 0 {
        0
    } else {
        decimal_value(s.drop_last()) * 10 + digit_of(s.last())
    }
}

/// The text behind one leading plus sign, which counts as a sign only when something follows it.
pub open spec fn without_plus(s: Seq<char>) -> Seq<char> {
    if s.len() > 1 && s[0] == '+' {
        s.skip(1)
    } else {
        s
    }
}

/// Reading an unsigned integer of at most `max`: an optional plus sign and at least one digit.
pub open spec fn unsigned_value(s: Seq<char>, max: nat) -> Option<nat> {
    let digits = without_plus(s);
    if digits.len() > 0 && all_digits(digits) && decimal_value(digits) <= max {
        Some(decimal_value(digits))
    } else {
        None
    }
}

/// Printing a number gives digits, at least one, that read back as the number.
pub proof fn decimal_reads_back(n: nat)
    ensures
        decimal(n).len() > 0,
        all_digits(decimal(n)),
        decimal_value(decimal(n)) == n,
    decreases n,
{
    if n < 10 {
        assert(decimal(n).drop_last() == Seq::<char>::empty());
        assert(decimal_value(Seq::<char>::empty()) == 0);
    } else {
        decimal_reads_back(n / 10);
        let s = decimal(n);
        assert(s.drop_last() == decimal(n / 10));
    }
}

/// Every number up to `max` is read back from its decimal digits.
pub proof fn unsigned_reads_decimal(n: nat, max: nat)
    requires
        n <= max,
    ensures
        unsigned_value(decimal(n), max) == Some(n),
{
    decimal_reads_back(n);
    assert(is_digit(decimal(n)[0]));
}

proof fn decimal_value_grows(s: Seq<char>, i: int)
    requires
        0 <= i <= s.len(),
    ensures
        decimal_value(s.take(i)) <= decimal_value(s),
    decreases s.len() - i,
{
    if i < s.len() {
        decimal_value_grows(s, i + 1);
        assert(s.take(i + 1).drop_last() == s.take(i));
    } else {
        assert(s.take(i) == s);
    }
}

/// Appends the decimal digits of a number.
pub fn push_decimal(out: &mut String, n: u64)
    ensures
        final(out)@ == old(out)@ + decimal(n as nat),
    decreases n,
{
    if n >= 10 {
        push_decimal(out, n / 10);
    }
    let d: u8 = (n % 10) as u8;
    out.push((48u8 + d) as char);
}

/// Reads an unsigned integer of at most `max`.
pub fn parse_unsigned(s: &str, max: u64) -> (r: Option<u64>)
    ensures
        r is Some <==> unsigned_value(s@, max as nat) is Some,
        r matches Some(n) ==> unsigned_value(s@, max as nat) == Some(n as nat),
{
    let chars = chars_of(s);
    let start: usize = if chars.len() > 1 && chars[0] == '+' { 1 } else { 0 };
    let ghost digits = without_plus(s@);
    if chars.len() == start {
        return None;
    }
    let mut value: u64 = 0;
    let mut i: usize = start;
    while i < chars.len()
        invariant
            start <= i <= chars.len(),
            chars@.len() == start + digits.len(),
            forall|k: int| 0 <= k < digits.len() ==> #[trigger] digits[k] == chars@[start + k],
            digits == without_plus(s@),
            value <= max,
            value == decimal_value(digits.take(i - start)),
            forall|k: int| 0 <= k < i - start ==> is_digit(#[trigger] digits[k]),
        decreases chars.len() - i,
    {
        let c = chars[i];
        assert(digits[i - start] == c);
        if c < '0' || c > '9' {
            return None;
        }
        let d: u64 = c as u64 - 48;
        assert(digits.take(i - start + 1).drop_last() == digits.take(i - start));
        proof {
            decimal_value_grows(digits, i - start + 1);
        }
        if value > max / 10 || d > max - value * 10 {
            return None;
        }
        value = value * 10 + d;
        i = i + 1;
    }
    assert(digits.take(digits.len() as int) == digits);
    Some(value)
}

// ---------------------------------------------------------------------------
// Hexadecimal digits
// ---------------------------------------------------------------------------
/// A lower-case hexadecimal digit.
pub open spec fn hex_digit(d: nat) -> char {
    if d < 10 {
        (48 + d) as char
    } else {
        (87 + d) as char
    }
}

/// The lower-case hexadecimal digit of a number below sixteen.
pub fn hex_char(d: u8) -> (r: char)
    requires
        d < 16,
    ensures
        r == hex_digit(d as nat),
{
    if d < 10 {
        (48u8 + d) as char
    } else {
        (87u8 + d) as char
    }
}

// ---------------------------------------------------------------------------
// Separated text
// ---------------------------------------------------------------------------
/// The pieces between the separators; always one more than there are separators.
pub open spec fn split_on(s: Seq<char>, sep: char) -> Seq<Seq<char>>
    decreases s.len(),
{
    if s.len() == 0 {
        seq![Seq::<char>::empty()]
    } else {
        let before = split_on(s.drop_last(), sep);
        if s.last() == sep {
            before.push(Seq::<char>::empty())
        } else {
            before.drop_last().push(before.last().push(s.last()))
        }
    }
}

/// The pieces of a text in which each piece may be closed by the separator: an empty piece behind
/// the last separator does not count.
pub open spec fn split_terminated(s: Seq<char>, sep: char) -> Seq<Seq<char>> {
    let pieces = split_on(s, sep);
    if pieces.last().len() == 0 {
        pieces.drop_last()
    } else {
        pieces
    }
}

/// The pieces, each closed by the separator.
pub open spec fn terminate_all(pieces: Seq<Seq<char>>, sep: char) -> Seq<char>
    decreases pieces.len(),
{
    if pieces.len() == 0 {
        Seq::<char>::empty()
    } else {
        terminate_all(pieces.drop_last(), sep) + pieces.last().push(sep)
    }
}

/// Whether none of the pieces holds the separator.
pub open spec fn free_of(pieces: Seq<Seq<char>>, sep: char) -> bool {
    forall|i: int| 0 <= i < pieces.len() ==> !(#[trigger] pieces[i]).contains(sep)
}

proof fn split_on_is_never_empty(s: Seq<char>, sep: char)
    ensures
        split_on(s, sep).len() > 0,
    decreases s.len(),
{
    if s.len() > 0 {
        split_on_is_never_empty(s.drop_last(), sep);
    }
}

/// No piece of a split text holds the separator.
pub proof fn split_on_is_free_of_separator(s: Seq<char>, sep: char)
    ensures
        split_on(s, sep).len() > 0,
        free_of(split_on(s, sep), sep),
    decreases s.len(),
{
    if s.len() > 0 {
        let before = split_on(s.drop_last(), sep);
        let now = split_on(s, sep);
        split_on_is_free_of_separator(s.drop_last(), sep);
        assert forall|i: int| 0 <= i < now.len() implies !(#[trigger] now[i]).contains(sep) by {
            if i < before.len() - 1 {
                assert(now[i] == before[i]);
            } else if s.last() == sep && i == before.len() - 1 {
                assert(now[i] == before[i]);
            } else if s.last() != sep {
                assert(!before[i].contains(sep));
                if now[i].contains(sep) {
                    let k = choose|k: int| 0 <= k < now[i].len() && now[i][k] == sep;
                    assert(before[i][k] == sep);
                }
            }
        }
    }
}

/// Text without the separator extends the last piece and nothing else.
proof fn split_on_plain_suffix(s: Seq<char>, t: Seq<char>, sep: char)
    requires
        !t.contains(sep),
    ensures
        split_on(s + t, sep) == split_on(s, sep).drop_last().push(split_on(s, sep).last() + t),
    decreases t.len(),
{
    split_on_is_never_empty(s, sep);
    let pieces = split_on(s, sep);
    if t.len() == 0 {
        assert(s + t == s);
        assert(pieces.last() + t == pieces.last());
        assert(pieces.drop_last().push(pieces.last()) == pieces);
    } else {
        let u = t.drop_last();
        assert(!u.contains(sep)) by {
            if u.contains(sep) {
                let k = choose|k: int| 0 <= k < u.len() && u[k] == sep;
                assert(t[k] == sep);
            }
        }
        split_on_plain_suffix(s, u, sep);
        assert((s + t).drop_last() == s + u);
        assert(t[t.len() - 1] == t.last());
        assert((s + t).last() == t.last());
        let before = split_on(s + u, sep);
        assert(before.drop_last() == pieces.drop_last());
        assert(before.last().push(t.last()) == pieces.last() + t);
    }
}

/// Splitting text whose pieces are each closed by the separator gives the pieces back, with an
/// empty one behind them.
proof fn split_on_terminated(pieces: Seq<Seq<char>>, sep: char)
    requires
        free_of(pieces, sep),
    ensures
        split_on(terminate_all(pieces, sep), sep) == pieces.push(Seq::<char>::empty()),
    decreases pieces.len(),
{
    if pieces.len() == 0 {
        assert(split_on(Seq::<char>::empty(), sep) == pieces.push(Seq::<char>::empty()));
    } else {
        let front = pieces.drop_last();
        let last = pieces.last();
        assert forall|i: int| 0 <= i < front.len() implies !(#[trigger] front[i]).contains(
            sep,
        ) by {
            assert(front[i] == pieces[i]);
        }
        split_on_terminated(front, sep);
        let head = terminate_all(front, sep);
        assert(!pieces[pieces.len() - 1].contains(sep));
        split_on_plain_suffix(head, last, sep);
        let body = head + last;
        let whole = terminate_all(pieces, sep);
        assert(whole == body.push(sep));
        assert(whole.drop_last() == body);
        assert(split_on(head, sep).drop_last() == front);
        assert(Seq::<char>::empty() + last == last);
        assert(front.push(last) == pieces);
    }
}

/// Text whose pieces are each closed by the separator splits into exactly those pieces.
pub proof fn split_terminated_inverts_terminate(pieces: Seq<Seq<char>>, sep: char)
    requires
        free_of(pieces, sep),
    ensures
        split_terminated(terminate_all(pieces, sep), sep) == pieces,
{
    split_on_terminated(pieces, sep);
    assert(pieces.push(Seq::<char>::empty()).drop_last() == pieces);
}

/// Splits text in which each piece may be closed by the separator.
pub fn split_pieces(s: &str, sep: char) -> (r: Vec<String>)
    ensures
        views(r@) == split_terminated(s@, sep),
{
    let mut pieces: Vec<String> = Vec::new();
    let mut current = String::new();
    let chars = chars_of(s);
    assert(s@.take(0) == Seq::<char>::empty());
    assert(views(pieces@).push(current@) == split_on(s@.take(0), sep));
    for i in 0..chars.len()
        invariant
            chars@ == s@,
            views(pieces@).push(current@) == split_on(s@.take(i as int), sep),
    {
        let c = chars[i];
        let ghost before = split_on(s@.take(i as int), sep);
        assert(s@.take(i + 1).drop_last() == s@.take(i as int));
        assert(before.drop_last() == views(pieces@));
        assert(before.last() == current@);
        if c == sep {
            let ghost held = views(pieces@);
            let ghost piece = current@;
            pieces.push(current);
            current = String::new();
            assert(views(pieces@) == held.push(piece));
        } else {
            current.push(c);
        }
    }
    assert(s@.take(s@.len() as int) == s@);
    assert(split_on(s@, sep).last() == current@);
    assert(split_on(s@, sep).drop_last() == views(pieces@));
    if !current.as_str().is_empty() {
        let ghost held = views(pieces@);
        let ghost piece = current@;
        pieces.push(current);
        assert(views(pieces@) == held.push(piece));
    }
    pieces
}

/// Numbers are written in base ten: a number below ten is its digit, and another digit behind a
/// number that is not zero is ten times the number and the digit.
pub proof fn numbers_are_written_in_base_ten(n: nat, d: nat)
    requires
        d < 10,
    ensures
        decimal(d).len() == 1 && decimal(d)[0] as int == '0' as int + d,
        n > 0 ==> decimal(n * 10 + d) == decimal(n) + decimal(d),
        n > 0 ==> decimal(n)[0] != '0',
    decreases n,
{
    assert((n * 10 + d) / 10 == n && (n * 10 + d) % 10 == d);
    if n > 0 {
        assert(decimal(n * 10 + d) =~= decimal(n) + decimal(d));
        if n >= 10 {
            numbers_are_written_in_base_ten(n / 10, n % 10);
            decimal_reads_back(n / 10);
            assert(decimal(n)[0] == decimal(n / 10)[0]);
        }
    }
}

/// Digits are read in base ten, one more digit weighing one.
pub proof fn digits_are_read_in_base_ten(s: Seq<char>, c: char)
    ensures
        decimal_value(Seq::<char>::empty()) == 0,
        is_digit(c) <==> 48 <= c as int <= 57,
        is_digit(c) ==> decimal_value(s.push(c)) == decimal_value(s) * 10 + (c as int - 48),
{
    assert(s.push(c).drop_last() == s);
}

/// What is read as a number: digits alone, at least one, whose value is no more than the most there
/// may be; one plus sign in front of them changes nothing, and anything else is no number.
pub proof fn numbers_are_digits_within_range(s: Seq<char>, max: nat)
    ensures
        s.len() == 0 ==> unsigned_value(s, max) is None,
        unsigned_value(seq!['+'], max) is None,
        s.len() > 0 && (forall|i: int| 0 <= i < s.len() ==> '0' <= #[trigger] s[i] <= '9') ==> (
        unsigned_value(s, max) == if decimal_value(s) <= max {
            Some(decimal_value(s))
        } else {
            None
        }),
        s.len() > 0 && s[0] != '+' ==> unsigned_value(seq!['+'] + s, max) == unsigned_value(s, max),
        unsigned_value(s, max) matches Some(n) ==> n <= max && forall|i: int|
            1 <= i < s.len() ==> '0' <= #[trigger] s[i] <= '9',
        unsigned_value(s, max) is Some && s[0] != '+' ==> '0' <= s[0] <= '9',
{
    let signed = seq!['+'] + s;
    assert(signed.skip(1) =~= s);
    if s.len() > 0 && s[0] != '+' {
        assert(signed[0] == '+');
        assert(without_plus(signed) == s);
        assert(without_plus(s) == s);
    }
    if s.len() > 0 && (forall|i: int| 0 <= i < s.len() ==> '0' <= #[trigger] s[i] <= '9') {
        assert(s[0] != '+');
    }
    if unsigned_value(s, max) is Some {
        let digits = without_plus(s);
        assert forall|i: int| 1 <= i < s.len() implies '0' <= #[trigger] s[i] <= '9' by {
            if digits.len() == s.len() {
                assert(is_digit(digits[i]));
            } else {
                assert(digits[i - 1] == s[i]);
                assert(is_digit(digits[i - 1]));
            }
        }
        if s[0] != '+' {
            assert(is_digit(digits[0]));
        }
    }
}

/// Hexadecimal digits go from 0 to 9 and on from a to f, in lower case.
pub proof fn hexadecimal_digits_go_up(d: nat, e: nat)
    requires
        d < e < 16,
    ensures
        hex_digit(0) == '0',
        hex_digit(9) == '9',
        hex_digit(10) == 'a',
        hex_digit(15) == 'f',
        hex_digit(d) < hex_digit(e),
{
}

/// The number that hexadecimal digits denote.
pub open spec fn hex_value(s: Seq<char>) -> nat
    decreases s.len(),
{
    if s.len() == 0 {
        0
    } else {
        let c = s.last() as int;
        hex_value(s.drop_last()) * 16 + (if c < 58 {
            c - 48
        } else {
            c - 87
        }) as nat
    }
}

/// Pieces closed by the separator stand one behind the other.
pub proof fn terminated_pieces_follow_each_other(
    a: Seq<Seq<char>>,
    b: Seq<Seq<char>>,
    piece: Seq<char>,
    sep: char,
)
    ensures
        terminate_all(seq![piece], sep) == piece + seq![sep],
        terminate_all(a + b, sep) == terminate_all(a, sep) + terminate_all(b, sep),
    decreases b.len(),
{
    assert(seq![piece].drop_last() =~= Seq::<Seq<char>>::empty());
    assert(terminate_all(Seq::<Seq<char>>::empty(), sep) == Seq::<char>::empty());
    assert(terminate_all(seq![piece], sep) =~= piece + seq![sep]);
    if b.len() == 0 {
        assert(a + b =~= a);
        assert(terminate_all(a, sep) + terminate_all(b, sep) =~= terminate_all(a, sep));
    } else {
        terminated_pieces_follow_each_other(a, b.drop_last(), piece, sep);
        assert((a + b).drop_last() =~= a + b.drop_last());
        assert(terminate_all(a + b, sep) =~= terminate_all(a, sep) + terminate_all(b, sep));
    }
}

/// Nothing is lost in splitting: the pieces with the separators between them are the text.
pub proof fn pieces_make_up_the_text(s: Seq<char>, sep: char)
    ensures
        terminate_all(split_on(s, sep), sep) == s.push(sep),
    decreases s.len(),
{
    split_on_is_never_empty(s, sep);
    if s.len() == 0 {
        terminated_pieces_follow_each_other(
            Seq::<Seq<char>>::empty(),
            Seq::<Seq<char>>::empty(),
            Seq::<char>::empty(),
            sep,
        );
        assert(terminate_all(split_on(s, sep), sep) =~= s.push(sep));
    } else {
        let front = s.drop_last();
        let before = split_on(front, sep);
        split_on_is_never_empty(front, sep);
        pieces_make_up_the_text(front, sep);
        let head = terminate_all(before.drop_last(), sep);
        assert(head + before.last().push(sep) == front.push(sep));
        if s.last() == sep {
            assert(split_on(s, sep).drop_last() =~= before);
            assert(terminate_all(split_on(s, sep), sep) =~= s.push(sep));
        } else {
            let now = split_on(s, sep);
            assert(now.drop_last() =~= before.drop_last());
            assert((head + before.last()).push(sep) =~= front.push(sep));
            assert((head + before.last()) =~= front) by {
                assert((head + before.last()).push(sep).drop_last() =~= head + before.last());
                assert(front.push(sep).drop_last() =~= front);
            }
            assert(terminate_all(now, sep) =~= (head + before.last()).push(s.last()).push(sep));
            assert(front.push(s.last()) =~= s);
        }
    }
}

/// Text whose last piece is not closed splits into that piece too, unless it is empty.
pub proof fn open_last_piece_counts(pieces: Seq<Seq<char>>, last: Seq<char>, sep: char)
    requires
        free_of(pieces, sep),
        !last.contains(sep),
    ensures
        split_terminated(terminate_all(pieces, sep) + last, sep) == if last.len() > 0 {
            pieces.push(last)
        } else {
            pieces
        },
{
    let closed = terminate_all(pieces, sep);
    split_on_terminated(pieces, sep);
    split_on_plain_suffix(closed, last, sep);
    assert(split_on(closed, sep).drop_last() =~= pieces);
    assert(Seq::<char>::empty() + last =~= last);
    assert(pieces.push(last).drop_last() =~= pieces);
}

/// A list of strings is known by the text of each in its place.
pub proof fn strings_are_seen_as_they_are(v: Seq<String>, i: int)
    ensures
        views(v).len() == v.len(),
        0 <= i < v.len() ==> views(v)[i] == v[i]@,
{
}

} // verus!
