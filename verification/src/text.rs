//! Text as messages and listings need it: its lines, its size, its order.

use vstd::prelude::*;
use vstd::string::StringExecFns;
use vstd::utf8::encode_utf8;

verus! {

/// Whether Unicode counts a character as white space (its `White_Space`
/// property).
pub open spec fn is_white_space(c: char) -> bool {
    ||| '\u{9}' <= c <= '\u{d}'
    ||| c == ' '
    ||| c == '\u{85}'
    ||| c == '\u{a0}'
    ||| c == '\u{1680}'
    ||| '\u{2000}' <= c <= '\u{200a}'
    ||| c == '\u{2028}'
    ||| c == '\u{2029}'
    ||| c == '\u{202f}'
    ||| c == '\u{205f}'
    ||| c == '\u{3000}'
}

/// Whether a text holds nothing but white space.
pub open spec fn is_blank(text: Seq<char>) -> bool {
    forall|i: int| 0 <= i < text.len() ==> is_white_space(#[trigger] text[i])
}

/// Whether `part` is `text` without its leading and trailing white space.
pub open spec fn is_trimmed(text: Seq<char>, part: Seq<char>) -> bool {
    exists|from: int, to: int|
        {
            &&& 0 <= from <= to <= text.len()
            &&& part == #[trigger] text.subrange(from, to)
            &&& is_blank(text.subrange(0, from))
            &&& is_blank(text.subrange(to, text.len() as int))
            &&& from < to ==> !is_white_space(text[from]) && !is_white_space(text[to - 1])
        }
}

/// Specifies [`str::trim`]: what is left is the text without its leading and
/// trailing white space.
pub assume_specification<'a>[ str::trim ](text: &'a str) -> (part: &'a str)
    ensures
        is_trimmed(text@, part@),
;

/// Specifies [`String::push`]: the character is added at the end.
pub assume_specification[ String::push ](text: &mut String, c: char)
    ensures
        final(text)@ == old(text)@.push(c),
;

/// What is left after trimming is empty exactly if there was only white space.
pub proof fn lemma_trimmed_empty_iff_blank(text: Seq<char>, part: Seq<char>)
    requires
        is_trimmed(text, part),
    ensures
        part.len() == 0 <==> is_blank(text),
{
    let (from, to) = choose|from: int, to: int|
        {
            &&& 0 <= from <= to <= text.len()
            &&& part == #[trigger] text.subrange(from, to)
            &&& is_blank(text.subrange(0, from))
            &&& is_blank(text.subrange(to, text.len() as int))
            &&& from < to ==> !is_white_space(text[from]) && !is_white_space(text[to - 1])
        };
    if part.len() == 0 {
        assert forall|i: int| 0 <= i < text.len() implies is_white_space(#[trigger] text[i]) by {
            if i < from {
                assert(text.subrange(0, from)[i] == text[i]);
            } else {
                assert(text.subrange(to, text.len() as int)[i - to] == text[i]);
            }
        }
    }
}

/// How far a text goes before its first line feed.
pub open spec fn first_line_len(text: Seq<char>) -> nat
    decreases text.len(),
{
    if text.len() == 0 || text[0] == '\n' {
        0
    } else {
        1 + first_line_len(text.drop_first())
    }
}

/// A line without the carriage return that ends it, if one does.
pub open spec fn without_carriage_return(line: Seq<char>) -> Seq<char> {
    if line.len() > 0 && line.last() == '\r' {
        line.drop_last()
    } else {
        line
    }
}

/// The lines of a text. A line ends at a line feed, or at a carriage return
/// and a line feed, which are not part of it; what follows the last line feed
/// is a line if there is anything.
pub open spec fn text_lines(text: Seq<char>) -> Seq<Seq<char>>
    decreases text.len(),
{
    let len = first_line_len(text);
    if text.len() == 0 {
        Seq::empty()
    } else if len >= text.len() {
        seq![text]
    } else {
        seq![without_carriage_return(text.take(len as int))] + text_lines(text.skip(len + 1int))
    }
}

proof fn lemma_first_line_len(line: Seq<char>, rest: Seq<char>)
    requires
        !line.contains('\n'),
        rest.len() == 0 || rest[0] == '\n',
    ensures
        first_line_len(line + rest) == line.len(),
    decreases line.len(),
{
    if line.len() == 0 {
        assert(line + rest =~= rest);
    } else {
        assert(line.contains(line[0]));
        assert((line + rest).drop_first() =~= line.drop_first() + rest);
        assert forall|c: char| line.drop_first().contains(c) implies line.contains(c) by {
            let i = choose|i: int| 0 <= i < line.drop_first().len() && line.drop_first()[i] == c;
            assert(line[i + 1] == c);
        }
        lemma_first_line_len(line.drop_first(), rest);
    }
}

proof fn lemma_last_line(line: Seq<char>)
    requires
        !line.contains('\n'),
    ensures
        text_lines(line) == if line.len() == 0 {
            Seq::empty()
        } else {
            seq![line]
        },
{
    lemma_first_line_len(line, Seq::empty());
    assert(line + Seq::<char>::empty() =~= line);
}

proof fn lemma_next_line(line: Seq<char>, rest: Seq<char>)
    requires
        !line.contains('\n'),
    ensures
        text_lines(line + (seq!['\n'] + rest)) == seq![without_carriage_return(line)] + text_lines(
            rest,
        ),
{
    let text = line + (seq!['\n'] + rest);
    lemma_first_line_len(line, seq!['\n'] + rest);
    assert(text.take(line.len() as int) =~= line);
    assert(text.skip(line.len() + 1int) =~= rest);
}

/// A text without line feeds is one line, unless it is empty.
pub proof fn lemma_single_line(text: Seq<char>)
    requires
        !text.contains('\n'),
        text.len() > 0,
    ensures
        text_lines(text) == seq![text],
{
    lemma_last_line(text);
}

proof fn lemma_first_line_has_no_line_feed(text: Seq<char>)
    ensures
        first_line_len(text) <= text.len(),
        forall|i: int| 0 <= i < first_line_len(text) ==> (#[trigger] text[i]) != '\n',
    decreases text.len(),
{
    if text.len() > 0 && text[0] != '\n' {
        lemma_first_line_has_no_line_feed(text.drop_first());
        assert forall|i: int| 0 <= i < first_line_len(text) implies (#[trigger] text[i])
            != '\n' by {
            if i > 0 {
                assert(text.drop_first()[i - 1] == text[i]);
            }
        }
    }
}

/// The lines of a line are that line, or none if it is empty.
pub proof fn lemma_line_of_lines(text: Seq<char>, at: int)
    requires
        0 <= at < text_lines(text).len(),
    ensures
        text_lines(text_lines(text)[at]) == if text_lines(text)[at].len() == 0 {
            Seq::empty()
        } else {
            seq![text_lines(text)[at]]
        },
    decreases text.len(),
{
    let len = first_line_len(text);
    lemma_first_line_has_no_line_feed(text);
    if len >= text.len() {
        assert(!text.contains('\n'));
        lemma_last_line(text);
    } else if at == 0 {
        let line = without_carriage_return(text.take(len as int));
        assert(text_lines(text)[0] == line);
        assert forall|i: int| 0 <= i < line.len() implies (#[trigger] line[i]) != '\n' by {
            assert(line[i] == text[i]);
        }
        assert(!line.contains('\n'));
        lemma_last_line(line);
    } else {
        let rest = text.skip(len + 1int);
        assert(text_lines(text)[at] == text_lines(rest)[at - 1]);
        lemma_line_of_lines(rest, at - 1);
    }
}

/// The texts of a list of strings.
pub open spec fn texts(strings: Seq<String>) -> Seq<Seq<char>> {
    strings.map_values(|s: String| s@)
}

/// Splits a text into its lines.
pub fn lines(text: &str) -> (lines: Vec<String>)
    ensures
        texts(lines@) == text_lines(text@),
        lines@.len() == text_lines(text@).len(),
        forall|i: int| 0 <= i < lines@.len() ==> (#[trigger] lines@[i])@ == text_lines(text@)[i],
{
    let mut lines: Vec<String> = Vec::new();
    let mut line = String::new();
    // A carriage return that belongs to the line unless a line feed follows.
    let mut held_return = false;
    proof {
        assert(Seq::<char>::empty() + text@ =~= text@);
        assert(texts(lines@) + text_lines(text@) =~= text_lines(text@));
        assert(text@.skip(0) =~= text@);
    }
    for c in it: text.chars()
        invariant
            it.seq() == text@,
            !line@.contains('\n'),
            !held_return ==> line@.len() == 0 || line@.last() != '\r',
            texts(lines@) + text_lines(
                (if held_return {
                    line@.push('\r')
                } else {
                    line@
                }) + text@.skip(it.index()),
            ) == text_lines(text@),
    {
        let ghost so_far = if held_return {
            line@.push('\r')
        } else {
            line@
        };
        let ghost rest = text@.skip(it.index() + 1);
        proof {
            assert(text@.skip(it.index()) =~= seq![c] + rest);
            assert(!so_far.contains('\n'));
        }
        if c == '\n' {
            proof {
                lemma_next_line(so_far, rest);
                assert(line@.push('\r').drop_last() =~= line@);
                assert(without_carriage_return(so_far) == line@);
                assert(Seq::<char>::empty() + rest =~= rest);
                assert(texts(lines@) + (seq![line@] + text_lines(rest)) =~= texts(
                    lines@,
                ).push(line@) + text_lines(rest));
                assert(texts(lines@.push(line)) =~= texts(lines@).push(line@));
            }
            lines.push(line);
            line = String::new();
            held_return = false;
        } else {
            if held_return {
                line.push('\r');
                held_return = false;
            }
            proof {
                assert(line@ =~= so_far);
                assert(so_far + (seq![c] + rest) =~= so_far.push(c) + rest);
            }
            if c == '\r' {
                held_return = true;
            } else {
                line.push(c);
            }
        }
    }
    if held_return {
        line.push('\r');
    }
    proof {
        assert(text@.skip(text@.len() as int) =~= Seq::<char>::empty());
        assert(line@ + Seq::<char>::empty() =~= line@);
        assert(!line@.contains('\n'));
        lemma_last_line(line@);
    }
    if !line.as_str().is_empty() {
        proof {
            assert(texts(lines@.push(line)) =~= texts(lines@).push(line@));
        }
        lines.push(line);
    }
    proof {
        assert forall|i: int| 0 <= i < lines@.len() implies (#[trigger] lines@[i])@ == text_lines(
            text@,
        )[i] by {
            assert(texts(lines@)[i] == lines@[i]@);
        }
    }
    lines
}

/// The decimal digit of a value below ten.
pub open spec fn decimal_digit(value: int) -> char {
    seq!['0', '1', '2', '3', '4', '5', '6', '7', '8', '9'][value]
}

/// A number written in decimal.
pub open spec fn decimal(value: nat) -> Seq<char>
    decreases value,
{
    if value < 10 {
        seq![decimal_digit(value as int)]
    } else {
        decimal(value / 10).push(decimal_digit((value % 10) as int))
    }
}

fn digit_char(value: usize) -> (digit: char)
    requires
        value < 10,
    ensures
        digit == decimal_digit(value as int),
{
    match value {
        0 => '0',
        1 => '1',
        2 => '2',
        3 => '3',
        4 => '4',
        5 => '5',
        6 => '6',
        7 => '7',
        8 => '8',
        _ => '9',
    }
}

/// Writes a number in decimal.
pub fn decimal_text(value: usize) -> (text: String)
    ensures
        text@ == decimal(value as nat),
    decreases value,
{
    let mut text = if value < 10 {
        String::new()
    } else {
        decimal_text(value / 10)
    };
    text.push(digit_char(value % 10));
    text
}

/// One text after another.
pub fn joined(first: &str, second: &str) -> (text: String)
    ensures
        text@ == first@ + second@,
{
    let mut text = first.to_owned();
    text.append(second);
    text
}

/// How many bytes a text takes in UTF-8.
pub open spec fn byte_len(text: Seq<char>) -> nat {
    encode_utf8(text).len()
}

/// The approximate number of tokens of a text: one for every four bytes that
/// it has begun.
pub open spec fn approx_tokens(text: Seq<char>) -> nat {
    (byte_len(text) + 3) / 4
}

/// Estimates how many tokens a text takes.
pub fn approx_token_count(text: &str) -> (count: usize)
    ensures
        count == approx_tokens(text@),
{
    let len: usize = text.as_bytes().len();
    if len % 4 == 0 {
        len / 4
    } else {
        len / 4 + 1
    }
}

/// The bytes of two texts, one after the other, are the bytes of both.
pub proof fn lemma_byte_len_of_both(first: Seq<char>, second: Seq<char>)
    ensures
        byte_len(first + second) == byte_len(first) + byte_len(second),
    decreases first.len(),
{
    if first.len() == 0 {
        assert(first + second =~= second);
    } else {
        assert((first + second).drop_first() =~= first.drop_first() + second);
        lemma_byte_len_of_both(first.drop_first(), second);
    }
}

/// Whether the bytes `a` come before `b`, or are `b`, in lexicographic order.
pub open spec fn bytes_in_order(a: Seq<u8>, b: Seq<u8>) -> bool
    decreases a.len(),
{
    a.len() == 0 || b.len() > 0 && (a[0] < b[0] || a[0] == b[0] && bytes_in_order(
        a.drop_first(),
        b.drop_first(),
    ))
}

/// Whether `a` does not come after `b` in the order of texts, which is the
/// lexicographic order of their bytes.
pub open spec fn in_order(a: Seq<char>, b: Seq<char>) -> bool {
    bytes_in_order(encode_utf8(a), encode_utf8(b))
}

/// Tells whether `a` does not come after `b`.
pub fn texts_in_order(a: &str, b: &str) -> (ordered: bool)
    ensures
        ordered == in_order(a@, b@),
{
    let a: &[u8] = a.as_bytes();
    let b: &[u8] = b.as_bytes();
    let mut i: usize = 0;
    proof {
        assert(a@.skip(0) =~= a@);
        assert(b@.skip(0) =~= b@);
    }
    while i < a.len() && i < b.len() && a[i] == b[i]
        invariant
            i <= a@.len(),
            i <= b@.len(),
            bytes_in_order(a@, b@) == bytes_in_order(a@.skip(i as int), b@.skip(i as int)),
        decreases a@.len() - i,
    {
        proof {
            assert(a@.skip(i as int).drop_first() =~= a@.skip(i + 1));
            assert(b@.skip(i as int).drop_first() =~= b@.skip(i + 1));
        }
        i = i + 1;
    }
    i >= a.len() || (i < b.len() && a[i] < b[i])
}

proof fn lemma_bytes_order_total(a: Seq<u8>, b: Seq<u8>)
    ensures
        bytes_in_order(a, b) || bytes_in_order(b, a),
        bytes_in_order(a, b) && bytes_in_order(b, a) ==> a == b,
    decreases a.len(),
{
    if a.len() > 0 && b.len() > 0 {
        lemma_bytes_order_total(a.drop_first(), b.drop_first());
        if a[0] == b[0] && a.drop_first() == b.drop_first() {
            assert(a =~= seq![a[0]] + a.drop_first());
            assert(b =~= seq![b[0]] + b.drop_first());
        }
    } else if a.len() == 0 && b.len() == 0 {
        assert(a =~= b);
    }
}

proof fn lemma_bytes_order_transitive(a: Seq<u8>, b: Seq<u8>, c: Seq<u8>)
    requires
        bytes_in_order(a, b),
        bytes_in_order(b, c),
    ensures
        bytes_in_order(a, c),
    decreases a.len(),
{
    if a.len() > 0 && a[0] == b[0] && b[0] == c[0] {
        lemma_bytes_order_transitive(a.drop_first(), b.drop_first(), c.drop_first());
    }
}

/// Of two texts one does not come after the other, and only equal texts do so
/// both ways.
pub proof fn lemma_order_total(a: Seq<char>, b: Seq<char>)
    ensures
        in_order(a, b) || in_order(b, a),
        in_order(a, b) && in_order(b, a) ==> a == b,
{
    lemma_bytes_order_total(encode_utf8(a), encode_utf8(b));
    vstd::utf8::encode_utf8_decode_utf8(a);
    vstd::utf8::encode_utf8_decode_utf8(b);
}

/// The order of texts is transitive.
pub proof fn lemma_order_transitive(a: Seq<char>, b: Seq<char>, c: Seq<char>)
    requires
        in_order(a, b),
        in_order(b, c),
    ensures
        in_order(a, c),
{
    lemma_bytes_order_transitive(encode_utf8(a), encode_utf8(b), encode_utf8(c));
}

/// A line feed ends a line and is no part of it.
pub proof fn line_feed_ends_a_line(line: Seq<char>, rest: Seq<char>)
    requires
        !line.contains('\n'),
        line.len() > 0 ==> line.last() != '\r',
    ensures
        text_lines(line + seq!['\n'] + rest) == seq![line] + text_lines(rest),
{
    lemma_next_line(line, rest);
    assert(line + seq!['\n'] + rest =~= line + (seq!['\n'] + rest));
}

/// A carriage return and a line feed end a line together, and neither is part
/// of it.
pub proof fn carriage_return_and_line_feed_end_a_line(line: Seq<char>, rest: Seq<char>)
    requires
        !line.contains('\n'),
    ensures
        text_lines(line + seq!['\r', '\n'] + rest) == seq![line] + text_lines(rest),
{
    let whole = line.push('\r');
    assert forall|i: int| 0 <= i < whole.len() implies (#[trigger] whole[i]) != '\n' by {
        if i < line.len() {
            assert(line.contains(line[i]));
        }
    }
    assert(!whole.contains('\n'));
    lemma_next_line(whole, rest);
    assert(whole.drop_last() =~= line);
    assert(line + seq!['\r', '\n'] + rest =~= whole + (seq!['\n'] + rest));
}

/// What no line feed ends is a line too, unless it is empty, and keeps a
/// carriage return at its end.
pub proof fn text_without_line_feed_is_one_line(text: Seq<char>)
    requires
        !text.contains('\n'),
    ensures
        text.len() > 0 ==> text_lines(text) == seq![text],
        text.len() == 0 ==> text_lines(text).len() == 0,
{
    lemma_last_line(text);
}

/// A number below ten is written as one digit, and every other one as the
/// number of its tens followed by its last digit.
pub proof fn decimal_is_positional(tens: nat, ones: nat)
    requires
        ones < 10,
    ensures
        decimal(ones) == seq![(48 + ones) as char],
        tens > 0 ==> decimal(10 * tens + ones) == decimal(tens).push((48 + ones) as char),
{
    assert(decimal_digit(ones as int) == (48 + ones) as char) by {
        assert(ones == 0 || ones == 1 || ones == 2 || ones == 3 || ones == 4 || ones == 5 || ones
            == 6 || ones == 7 || ones == 8 || ones == 9);
    }
    assert((10 * tens + ones) / 10 == tens && (10 * tens + ones) % 10 == ones);
}

/// The approximate number of tokens is the least with four bytes for each of
/// them.
pub proof fn tokens_hold_four_bytes(text: Seq<char>)
    ensures
        encode_utf8(text).len() <= 4 * approx_tokens(text) < encode_utf8(text).len() + 4,
{
}

proof fn lemma_common_bytes(common: Seq<u8>, a: Seq<u8>, b: Seq<u8>)
    ensures
        bytes_in_order(common + a, common + b) == bytes_in_order(a, b),
    decreases common.len(),
{
    if common.len() == 0 {
        assert(common + a =~= a);
        assert(common + b =~= b);
    } else {
        assert((common + a).drop_first() =~= common.drop_first() + a);
        assert((common + b).drop_first() =~= common.drop_first() + b);
        lemma_common_bytes(common.drop_first(), a, b);
    }
}

/// Where the bytes of two texts first differ, the smaller byte comes first.
pub proof fn first_difference_decides_the_order(
    a: Seq<char>,
    b: Seq<char>,
    common: Seq<u8>,
    x: u8,
    y: u8,
    rest_a: Seq<u8>,
    rest_b: Seq<u8>,
)
    requires
        encode_utf8(a) == common + seq![x] + rest_a,
        encode_utf8(b) == common + seq![y] + rest_b,
        x < y,
    ensures
        in_order(a, b),
        !in_order(b, a),
{
    assert(common + seq![x] + rest_a =~= common + (seq![x] + rest_a));
    assert(common + seq![y] + rest_b =~= common + (seq![y] + rest_b));
    lemma_common_bytes(common, seq![x] + rest_a, seq![y] + rest_b);
    lemma_common_bytes(common, seq![y] + rest_b, seq![x] + rest_a);
}

/// A text comes before every longer one that begins with it.
pub proof fn beginning_comes_first(a: Seq<char>, b: Seq<char>, rest: Seq<u8>)
    requires
        encode_utf8(b) == encode_utf8(a) + rest,
        rest.len() > 0,
    ensures
        in_order(a, b),
        !in_order(b, a),
{
    let bytes = encode_utf8(a);
    assert(bytes + Seq::<u8>::empty() =~= bytes);
    lemma_common_bytes(bytes, Seq::empty(), rest);
    lemma_common_bytes(bytes, rest, Seq::empty());
}

} // verus!
