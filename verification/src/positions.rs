//! The positions file: one FEN position per line, with blank lines and
//! `#` comments skipped.

use vstd::prelude::*;
use crate::fen::{fen_error_message, fen_squares, parse_fen, FenError};
use crate::text::{chars_of, char_seqs, decimal, decimal_string, split_chars_on, split_on, string_of};

verus! {

/// What `char::is_whitespace` accepts: the characters with the Unicode
/// `White_Space` property.
pub open spec fn is_unicode_space(c: char) -> bool {
    let v = c as u32;
    (9 <= v <= 13) || v == 32 || v == 0x85 || v == 0xA0 || v == 0x1680 || (0x2000 <= v <= 0x200A)
        || v == 0x2028 || v == 0x2029 || v == 0x202F || v == 0x205F || v == 0x3000
}

/// `s` without its leading whitespace.
pub open spec fn trim_start(s: Seq<char>) -> Seq<char>
    decreases s.len(),
{
    if s.len() > 0 && is_unicode_space(s[0]) {
        trim_start(s.drop_first())
    } else {
        s
    }
}

/// `s` without its trailing whitespace.
pub open spec fn trim_end(s: Seq<char>) -> Seq<char>
    decreases s.len(),
{
    if s.len() > 0 && is_unicode_space(s.last()) {
        trim_end(s.drop_last())
    } else {
        s
    }
}

/// `s` without whitespace at either end, as `str::trim` gives it.
pub open spec fn trimmed(s: Seq<char>) -> Seq<char> {
    trim_end(trim_start(s))
}

/// The lines of a text, as `str::lines` gives them up to a trailing `\r`
/// (which trimming removes): the pieces between line feeds, where a final
/// line feed starts no further line.
pub open spec fn file_lines(s: Seq<char>) -> Seq<Seq<char>> {
    let pieces = split_on(s, '\n');
    if pieces.last().len() == 0 {
        pieces.drop_last()
    } else {
        pieces
    }
}

/// A trimmed line that holds a position: not blank, and not a `#` comment.
pub open spec fn holds_position(t: Seq<char>) -> bool {
    t.len() > 0 && t[0] != '#'
}

/// The positions on the given lines, trimmed, in order; or the number of
/// the first line (counting from 1) whose position is not valid FEN, with
/// the reason.
pub open spec fn collect_positions(lines: Seq<Seq<char>>) -> Result<Seq<Seq<char>>, (nat, FenError)>
    decreases lines.len(),
{
    if lines.len() == 0 {
        Ok(Seq::empty())
    } else {
        match collect_positions(lines.drop_last()) {
            Err(x) => Err(x),
            Ok(positions) => {
                let t = trimmed(lines.last());
                if !holds_position(t) {
                    Ok(positions)
                } else {
                    match fen_squares(t) {
                        Err(e) => Err((lines.len(), e)),
                        Ok(_) => Ok(positions.push(t)),
                    }
                }
            },
        }
    }
}

/// The message when a file holds no position.
pub open spec fn no_positions_message() -> &'static str {
    "No FEN positions found. Add one six-field FEN per line."
}

/// The positions of a positions file, or the message that refuses it.
pub open spec fn position_file(s: Seq<char>) -> Result<Seq<Seq<char>>, Seq<char>> {
    match collect_positions(file_lines(s)) {
        Err((n, e)) => Err("Line "@ + decimal(n) + ": "@ + fen_error_message(e)@),
        Ok(positions) => if positions.len() == 0 {
            Err(no_positions_message()@)
        } else {
            Ok(positions)
        },
    }
}

/// The contents of each string.
pub open spec fn string_seqs(v: Seq<String>) -> Seq<Seq<char>> {
    Seq::new(v.len(), |i: int| v[i]@)
}

proof fn lemma_collect_error_stays(lines: Seq<Seq<char>>, n: int)
    requires
        0 <= n <= lines.len(),
        collect_positions(lines.take(n)) is Err,
    ensures
        collect_positions(lines) == collect_positions(lines.take(n)),
    decreases lines.len(),
{
    if n == lines.len() {
        assert(lines.take(n) =~= lines);
    } else {
        assert(lines.drop_last().take(n) =~= lines.take(n));
        lemma_collect_error_stays(lines.drop_last(), n);
    }
}

/// Every position that a positions file yields is a valid FEN text.
pub proof fn lemma_collected_positions_are_valid(lines: Seq<Seq<char>>)
    ensures
        collect_positions(lines) matches Ok(positions) ==> forall|i: int|
            0 <= i < positions.len() ==> #[trigger] fen_squares(positions[i]) is Ok,
    decreases lines.len(),
{
    if lines.len() > 0 {
        lemma_collected_positions_are_valid(lines.drop_last());
    }
}

/// Whether `c` is whitespace to `char::is_whitespace`.
fn is_space(c: char) -> (r: bool)
    ensures
        r == is_unicode_space(c),
{
    let v = c as u32;
    (9 <= v && v <= 13) || v == 32 || v == 0x85 || v == 0xA0 || v == 0x1680 || (0x2000 <= v && v
        <= 0x200A) || v == 0x2028 || v == 0x2029 || v == 0x202F || v == 0x205F || v == 0x3000
}

/// The bounds of `v` without whitespace at either end.
fn trim_bounds(v: &Vec<char>) -> (r: (usize, usize))
    ensures
        r.0 <= r.1 <= v.len(),
        v@.subrange(r.0 as int, r.1 as int) == trimmed(v@),
{
    let len = v.len();
    let mut a: usize = 0;
    assert(v@.subrange(0, len as int) =~= v@);
    while a < len && is_space(v[a])
        invariant
            a <= len == v.len(),
            trim_start(v@) == trim_start(v@.subrange(a as int, len as int)),
        decreases len - a,
    {
        assert(v@.subrange(a as int, len as int).drop_first() =~= v@.subrange(a + 1, len as int));
        a += 1;
    }
    let ghost front = v@.subrange(a as int, len as int);
    assert(trim_start(v@) == front);
    let mut b: usize = len;
    while b > a && is_space(v[b - 1])
        invariant
            a <= b <= len == v.len(),
            front == v@.subrange(a as int, len as int),
            trim_end(front) == trim_end(v@.subrange(a as int, b as int)),
        decreases b - a,
    {
        assert(v@.subrange(a as int, b as int).drop_last() =~= v@.subrange(a as int, b - 1));
        b -= 1;
    }
    (a, b)
}

/// A copy of `v[from..to]`.
fn chars_between(v: &Vec<char>, from: usize, to: usize) -> (r: Vec<char>)
    requires
        from <= to <= v.len(),
    ensures
        r@ == v@.subrange(from as int, to as int),
{
    let mut r: Vec<char> = Vec::new();
    let mut i = from;
    while i < to
        invariant
            from <= i <= to <= v.len(),
            r@ == v@.subrange(from as int, i as int),
        decreases to - i,
    {
        r.push(v[i]);
        i += 1;
    }
    r
}

/// Reads a positions file: every line that is not blank and not a `#`
/// comment must hold one six-field FEN position, and at least one must.
pub fn parse_position_file(contents: &str) -> (res: Result<Vec<String>, String>)
    ensures
        match position_file(contents@) {
            Ok(positions) => res matches Ok(v) && string_seqs(v@) == positions,
            Err(message) => res matches Err(m) && m@ == message,
        },
        res matches Ok(v) ==> v.len() > 0 && forall|i: int|
            0 <= i < v.len() ==> #[trigger] fen_squares(v[i]@) is Ok,
{
    let chars = chars_of(contents);
    let pieces = split_chars_on(&chars, '\n');
    let count = pieces.len();
    let line_count: usize = if pieces[count - 1].len() == 0 {
        count - 1
    } else {
        count
    };
    let ghost lines = file_lines(contents@);
    assert(lines =~= char_seqs(pieces@).take(line_count as int));
    let mut positions: Vec<String> = Vec::new();
    let mut k: usize = 0;
    assert(lines.take(0) =~= Seq::<Seq<char>>::empty());
    assert(string_seqs(positions@) =~= Seq::<Seq<char>>::empty());
    while k < line_count
        invariant
            line_count <= pieces.len(),
            lines == file_lines(contents@),
            lines == char_seqs(pieces@).take(line_count as int),
            k <= line_count,
            collect_positions(lines.take(k as int)) == Ok::<Seq<Seq<char>>, (nat, FenError)>(
                string_seqs(positions@),
            ),
        decreases line_count - k,
    {
        assert(lines.take(k + 1).drop_last() =~= lines.take(k as int));
        assert(lines.take(k + 1).last() == pieces@[k as int]@);
        let line = &pieces[k];
        let (a, b) = trim_bounds(line);
        let ghost t = trimmed(line@);
        assert(t == line@.subrange(a as int, b as int));
        if a < b && line[a] != '#' {
            assert(holds_position(t));
            let fen = chars_between(line, a, b);
            match parse_fen(&fen) {
                Err(e) => {
                    proof {
                        lemma_collect_error_stays(lines, k + 1);
                    }
                    let mut message = String::from_str("Line ");
                    message.append(decimal_string(k + 1).as_str());
                    message.append(": ");
                    message.append(e.message());
                    return Err(message);
                },
                Ok(_) => {
                    assert(fen@ == t);
                    assert(fen_squares(t) is Ok);
                    let ghost before = string_seqs(positions@);
                    let position = string_of(line, a, b);
                    positions.push(position);
                    assert(string_seqs(positions@) =~= before.push(t));
                    assert(collect_positions(lines.take(k + 1)) == Ok::<
                        Seq<Seq<char>>,
                        (nat, FenError),
                    >(before.push(t)));
                },
            }
        } else {
            assert(!holds_position(t));
        }
        k += 1;
    }
    assert(lines.take(line_count as int) =~= lines);
    proof {
        lemma_collected_positions_are_valid(lines);
    }
    if positions.len() == 0 {
        return Err(String::from_str("No FEN positions found. Add one six-field FEN per line."));
    }
    assert forall|i: int| 0 <= i < positions.len() implies #[trigger] fen_squares(
        positions@[i]@,
    ) is Ok by {
        assert(string_seqs(positions@)[i] == positions@[i]@);
    }
    Ok(positions)
}


proof fn lemma_trim_start_skips_spaces(ws: Seq<char>, l: Seq<char>)
    requires
        forall|i: int| 0 <= i < ws.len() ==> is_unicode_space(#[trigger] ws[i]),
    ensures
        trim_start(ws + l) == trim_start(l),
    decreases ws.len(),
{
    if ws.len() == 0 {
        assert(ws + l =~= l);
    } else {
        assert((ws + l).drop_first() =~= ws.drop_first() + l);
        lemma_trim_start_skips_spaces(ws.drop_first(), l);
    }
}

proof fn lemma_trim_end_keeps_first(s: Seq<char>)
    requires
        s.len() > 0,
        !is_unicode_space(s[0]),
    ensures
        trim_end(s).len() > 0,
        trim_end(s)[0] == s[0],
    decreases s.len(),
{
    if is_unicode_space(s.last()) {
        lemma_trim_end_keeps_first(s.drop_last());
    }
}

/// Whitespace at the start of a line never matters: a line reads the same
/// (as a position, a comment or a blank) with or without it.
pub proof fn lemma_leading_space_ignored(lines: Seq<Seq<char>>, ws: Seq<char>, l: Seq<char>)
    requires
        forall|i: int| 0 <= i < ws.len() ==> is_unicode_space(#[trigger] ws[i]),
    ensures
        collect_positions(lines.push(ws + l)) == collect_positions(lines.push(l)),
{
    lemma_trim_start_skips_spaces(ws, l);
    assert(lines.push(ws + l).drop_last() =~= lines);
    assert(lines.push(l).drop_last() =~= lines);
}

/// A comment line, a `#` after any leading whitespace, adds nothing: the
/// positions, and the first bad line, are those of the other lines.
pub proof fn lemma_comment_line_skipped(lines: Seq<Seq<char>>, ws: Seq<char>, rest: Seq<char>)
    requires
        forall|i: int| 0 <= i < ws.len() ==> is_unicode_space(#[trigger] ws[i]),
    ensures
        collect_positions(lines.push(ws + seq!['#'] + rest)) == collect_positions(lines),
{
    let c = seq!['#'] + rest;
    assert(ws + seq!['#'] + rest =~= ws + c);
    lemma_trim_start_skips_spaces(ws, c);
    assert(!is_unicode_space('#'));
    assert(trim_start(c) == c);
    lemma_trim_end_keeps_first(c);
    assert(lines.push(ws + c).drop_last() =~= lines);
}

/// A blank line, nothing but whitespace, adds nothing.
pub proof fn lemma_blank_line_skipped(lines: Seq<Seq<char>>, ws: Seq<char>)
    requires
        forall|i: int| 0 <= i < ws.len() ==> is_unicode_space(#[trigger] ws[i]),
    ensures
        collect_positions(lines.push(ws)) == collect_positions(lines),
{
    lemma_trim_start_skips_spaces(ws, Seq::empty());
    assert(ws + Seq::<char>::empty() =~= ws);
    assert(lines.push(ws).drop_last() =~= lines);
}

} // verus!
