//! The identifiers of sessions.

use vstd::arithmetic::div_mod::lemma_div_denominator;
use vstd::arithmetic::power::{lemma_pow0, lemma_pow1, lemma_pow_adds, lemma_pow_positive, pow};
use vstd::prelude::*;
use vstd::utf8::encode_utf8;

use crate::text::{first_difference_decides_the_order, in_order, lemma_order_total};

verus! {

/// The stable identifier of a session: the 128 bits of a UUID.
#[derive(Clone, Copy, Debug, PartialEq, Eq, Hash, Structural)]
pub struct ThreadId {
    pub value: u128,
}

/// A text that is no UUID.
#[derive(Clone, Copy, Debug, PartialEq, Eq, Structural)]
pub struct InvalidThreadId {}

/// The lower-case hexadecimal digit of a value below sixteen.
pub open spec fn hex_digit(value: int) -> char {
    seq!['0', '1', '2', '3', '4', '5', '6', '7', '8', '9', 'a', 'b', 'c', 'd', 'e', 'f'][value]
}

/// The value of the hexadecimal digit of `value` that counts sixteens to the
/// power `place`.
pub open spec fn hex_place(value: u128, place: nat) -> int {
    (value as int / pow(16, place)) % 16
}

/// Whether a UUID has a hyphen at this position.
pub open spec fn is_hyphen_at(position: int) -> bool {
    position == 8 || position == 13 || position == 18 || position == 23
}

/// The power of sixteen that the digit at this position of a UUID counts.
pub open spec fn place_at(position: int) -> nat {
    (31 - (position - if position < 8 {
        0int
    } else if position < 13 {
        1
    } else if position < 18 {
        2
    } else if position < 23 {
        3
    } else {
        4
    })) as nat
}

/// A UUID written out: thirty-two lower-case hexadecimal digits, the most
/// significant first, in groups of 8, 4, 4, 4 and 12 joined by hyphens.
pub open spec fn hyphenated(value: u128) -> Seq<char> {
    Seq::new(
        36,
        |position: int|
            if is_hyphen_at(position) {
                '-'
            } else {
                hex_digit(hex_place(value, place_at(position)))
            },
    )
}

/// The value of a hexadecimal digit, in upper or lower case.
pub open spec fn hex_value(c: char) -> Option<int> {
    if '0' <= c <= '9' {
        Some(c as int - '0' as int)
    } else if 'a' <= c <= 'f' {
        Some(c as int - 'a' as int + 10)
    } else if 'A' <= c <= 'F' {
        Some(c as int - 'A' as int + 10)
    } else {
        None
    }
}

/// The number that hexadecimal digits stand for, the most significant first.
pub open spec fn hex_number(digits: Seq<char>) -> int
    decreases digits.len(),
{
    if digits.len() == 0 {
        0
    } else {
        16 * hex_number(digits.drop_last()) + hex_value(digits.last())->0
    }
}

/// Where the digits of a hyphenated UUID stand, counted without the hyphens.
pub open spec fn position_of(digit: int) -> int {
    digit + if digit < 8 {
        0int
    } else if digit < 12 {
        1
    } else if digit < 16 {
        2
    } else if digit < 20 {
        3
    } else {
        4
    }
}

/// What stands at the places of the digits in a text of thirty-six characters,
/// if it has the hyphens of a UUID.
pub open spec fn without_hyphens(text: Seq<char>) -> Option<Seq<char>> {
    if text[8] == '-' && text[13] == '-' && text[18] == '-' && text[23] == '-' {
        Some(Seq::new(32, |digit: int| text[position_of(digit)]))
    } else {
        None
    }
}

/// Whether a text begins with `urn:uuid:`, in upper or lower case.
pub open spec fn has_urn_prefix(text: Seq<char>) -> bool {
    let prefix = seq!['u', 'r', 'n', ':', 'u', 'u', 'i', 'd', ':'];
    forall|i: int|
        0 <= i < prefix.len() ==> ((#[trigger] text[i]) == prefix[i] || 'a' <= prefix[i] <= 'z'
            && text[i] as int + 32 == prefix[i] as int)
}

/// What stands at the places of the digits in a text that has the shape of a
/// UUID: the digits alone, or hyphenated, as they are, in braces or as a URN.
pub open spec fn uuid_digits(text: Seq<char>) -> Option<Seq<char>> {
    if text.len() == 32 {
        Some(text)
    } else if text.len() == 36 {
        without_hyphens(text)
    } else if text.len() == 38 && text[0] == '{' && text[37] == '}' {
        without_hyphens(text.subrange(1, 37))
    } else if text.len() == 45 && has_urn_prefix(text) {
        without_hyphens(text.subrange(9, 45))
    } else {
        None
    }
}

/// The number that a text stands for, if it is a UUID.
pub open spec fn uuid_value(text: Seq<char>) -> Option<u128> {
    match uuid_digits(text) {
        Some(digits) if forall|i: int|
            0 <= i < digits.len() ==> hex_value(#[trigger] digits[i]) is Some => Some(
            hex_number(digits) as u128,
        ),
        _ => None,
    }
}

/// Calls [`uuid::Uuid::parse_str`], which never panics. The contract says which
/// texts it accepts (thirty-two hexadecimal digits of either case, alone or
/// with hyphens behind the eighth, twelfth, sixteenth and twentieth of them,
/// and the latter also in braces or behind `urn:uuid:` in either case), and
/// that it reads the number which those digits write.
#[verifier::external_body]
fn parse_uuid(text: &str) -> (value: Option<u128>)
    ensures
        value == uuid_value(text@),
{
    match uuid::Uuid::parse_str(text) {
        Ok(uuid) => Some(uuid.as_u128()),
        Err(_) => None,
    }
}

/// Calls [`uuid::Uuid::from_u128`] and the `Display` of the result. The
/// contract says that it writes the hyphenated form.
#[verifier::external_body]
fn format_uuid(value: u128) -> (text: String)
    ensures
        text@ == hyphenated(value),
{
    uuid::Uuid::from_u128(value).to_string()
}

impl ThreadId {
    /// The identifier that a text stands for, if it is a UUID.
    pub open spec fn parsed(text: Seq<char>) -> Option<ThreadId> {
        match uuid_value(text) {
            Some(value) => Some(ThreadId { value }),
            None => None,
        }
    }

    /// The identifier written out.
    pub open spec fn text(self) -> Seq<char> {
        hyphenated(self.value)
    }

    /// The identifier with these bits.
    pub fn from_u128(value: u128) -> (id: ThreadId)
        ensures
            id.value == value,
    {
        ThreadId { value }
    }

    /// Reads an identifier.
    pub fn from_string(text: &str) -> (id: Result<ThreadId, InvalidThreadId>)
        ensures
            id is Ok <==> ThreadId::parsed(text@) is Some,
            id matches Ok(id) ==> ThreadId::parsed(text@) == Some(id),
            id is Ok <==> uuid_value(text@) is Some,
            id matches Ok(id) ==> uuid_value(text@) == Some(id.value),
    {
        match parse_uuid(text) {
            Some(value) => Ok(ThreadId { value }),
            None => Err(InvalidThreadId {  }),
        }
    }

    /// Writes an identifier out. Reading the text gives the identifier back.
    pub fn to_string(&self) -> (text: String)
        ensures
            text@ == self.text(),
            ThreadId::parsed(text@) == Some(*self),
            text@ == hyphenated(self.value),
    {
        proof {
            identifier_reads_back(*self);
        }
        format_uuid(self.value)
    }
}

/// Dividing out one more digit and putting it back.
proof fn lemma_place_splits(value: u128, place: nat)
    ensures
        value as int / pow(16, place) == 16 * (value as int / pow(16, place + 1)) + hex_place(
            value,
            place,
        ),
{
    lemma_pow_positive(16, place);
    lemma_pow1(16);
    lemma_pow_adds(16, place, 1);
    lemma_div_denominator(value as int, pow(16, place), 16);
}

proof fn lemma_highest_place(value: u128)
    ensures
        value as int / pow(16, 32) == 0,
{
    assert(pow(16, 32) == 0x1_0000_0000_0000_0000_0000_0000_0000_0000int) by {
        lemma_pow1(16);
        lemma_pow_adds(16, 1, 1);
        assert(pow(16, 2) == 16 * 16);
        lemma_pow_adds(16, 2, 2);
        assert(pow(16, 4) == 0x100 * 0x100);
        lemma_pow_adds(16, 4, 4);
        assert(pow(16, 8) == 0x1_0000 * 0x1_0000);
        lemma_pow_adds(16, 8, 8);
        assert(pow(16, 16) == 0x1_0000_0000 * 0x1_0000_0000);
        lemma_pow_adds(16, 16, 16);
        assert(pow(16, 32) == 0x1_0000_0000_0000_0000int * 0x1_0000_0000_0000_0000int);
    }
}

proof fn lemma_hex_digit_value(value: int)
    requires
        0 <= value < 16,
    ensures
        hex_value(hex_digit(value)) == Some(value),
{
}

/// The first digits of a number stand for what is left of it without the others.
proof fn lemma_first_digits(value: u128, digits: Seq<char>, len: int)
    requires
        0 <= len <= 32,
        digits.len() == 32,
        forall|i: int|
            0 <= i < 32 ==> (#[trigger] digits[i]) == hex_digit(hex_place(value, (31 - i) as nat)),
    ensures
        hex_number(digits.take(len)) == value as int / pow(16, (32 - len) as nat),
    decreases len,
{
    if len == 0 {
        lemma_highest_place(value);
    } else {
        let place = (32 - len) as nat;
        lemma_first_digits(value, digits, len - 1);
        assert(digits.take(len).drop_last() =~= digits.take(len - 1));
        assert(digits.take(len).last() == digits[len - 1]);
        assert(digits[len - 1] == hex_digit(hex_place(value, place)));
        lemma_hex_digit_value(hex_place(value, place));
        lemma_place_splits(value, place);
        assert((32 - (len - 1)) as nat == place + 1);
    }
}

/// An identifier that was written out reads back as itself.
pub proof fn identifier_reads_back(id: ThreadId)
    ensures
        ThreadId::parsed(id.text()) == Some(id),
{
    let text = id.text();
    let digits = Seq::new(32, |digit: int| text[position_of(digit)]);
    assert(uuid_digits(text) == Some(digits));
    assert forall|i: int| 0 <= i < 32 implies (#[trigger] digits[i]) == hex_digit(
        hex_place(id.value, (31 - i) as nat),
    ) by {
        let position = position_of(i);
        assert(place_at(position) == 31 - i && !is_hyphen_at(position));
        assert(text[position] == hex_digit(hex_place(id.value, place_at(position))));
    }
    assert forall|i: int| 0 <= i < digits.len() implies hex_value(#[trigger] digits[i]) is Some by {
        lemma_hex_digit_value(hex_place(id.value, (31 - i) as nat));
    }
    lemma_first_digits(id.value, digits, 32);
    assert(digits.take(32) =~= digits);
    lemma_pow0(16);
}

/// Different identifiers are written differently.
pub proof fn different_ids_have_different_texts(a: ThreadId, b: ThreadId)
    requires
        a.text() == b.text(),
    ensures
        a == b,
{
    identifier_reads_back(a);
    identifier_reads_back(b);
}

/// A character that writes the same hexadecimal digit, or the same character.
pub open spec fn same_but_for_case(c: char, lower: char) -> bool {
    c == lower || 'a' <= lower <= 'f' && c as int + 32 == lower as int
}

/// An identifier is written as thirty-six characters: hyphens behind the first
/// eight digits and then behind each four, and lower-case digits everywhere
/// else.
pub proof fn identifier_text_shape(id: ThreadId)
    ensures
        id.text().len() == 36,
        forall|i: int|
            0 <= i < 36 ==> if i == 8 || i == 13 || i == 18 || i == 23 {
                (#[trigger] id.text()[i]) == '-'
            } else {
                '0' <= id.text()[i] <= '9' || 'a' <= id.text()[i] <= 'f'
            },
{
}

proof fn lemma_same_digits_same_number(a: Seq<char>, b: Seq<char>)
    requires
        a.len() == b.len(),
        forall|i: int| 0 <= i < a.len() ==> hex_value(#[trigger] a[i]) == hex_value(b[i]),
    ensures
        hex_number(a) == hex_number(b),
    decreases a.len(),
{
    if a.len() > 0 {
        assert(hex_value(a[a.len() - 1]) == hex_value(b[b.len() - 1]));
        lemma_same_digits_same_number(a.drop_last(), b.drop_last());
    }
}

/// Upper-case digits mean the same as lower-case ones.
pub proof fn case_of_digits_does_not_matter(id: ThreadId, text: Seq<char>)
    requires
        text.len() == 36,
        forall|i: int| 0 <= i < 36 ==> same_but_for_case(#[trigger] text[i], id.text()[i]),
    ensures
        ThreadId::parsed(text) == Some(id),
{
    let lower = id.text();
    identifier_reads_back(id);
    identifier_text_shape(id);
    assert(same_but_for_case(text[8], lower[8]) && same_but_for_case(text[13], lower[13])
        && same_but_for_case(text[18], lower[18]) && same_but_for_case(text[23], lower[23]));
    let (a, b) = (uuid_digits(text)->0, uuid_digits(lower)->0);
    assert forall|i: int| 0 <= i < 32 implies hex_value(#[trigger] a[i]) == hex_value(b[i]) by {
        let position = position_of(i);
        assert(a[i] == text[position] && b[i] == lower[position]);
        assert(same_but_for_case(text[position], lower[position]));
    }
    lemma_same_digits_same_number(a, b);
    assert(hex_value(b[0]) is Some);
    assert forall|i: int| 0 <= i < a.len() implies hex_value(#[trigger] a[i]) is Some by {
        assert(hex_value(b[i]) is Some);
    }
}

/// An identifier can also be written without hyphens, in braces or as a URN.
pub proof fn identifier_reads_back_from_every_form(id: ThreadId)
    ensures
        ThreadId::parsed(
            id.text().take(8) + id.text().subrange(9, 13) + id.text().subrange(14, 18)
                + id.text().subrange(19, 23) + id.text().subrange(24, 36),
        ) == Some(id),
        ThreadId::parsed(seq!['{'] + id.text() + seq!['}']) == Some(id),
        ThreadId::parsed(seq!['u', 'r', 'n', ':', 'u', 'u', 'i', 'd', ':'] + id.text()) == Some(id),
{
    let text = id.text();
    identifier_reads_back(id);
    let digits = uuid_digits(text)->0;
    let bare = text.take(8) + text.subrange(9, 13) + text.subrange(14, 18) + text.subrange(19, 23)
        + text.subrange(24, 36);
    assert(bare =~= digits);
    let braced = seq!['{'] + text + seq!['}'];
    assert(braced.subrange(1, 37) =~= text);
    let urn = seq!['u', 'r', 'n', ':', 'u', 'u', 'i', 'd', ':'] + text;
    assert(urn.subrange(9, 45) =~= text);
    assert(has_urn_prefix(urn));
}

/// What can be read as an identifier has the length of one of the forms, and
/// in the hyphenated form nothing but digits and the hyphens at their places.
pub proof fn other_texts_are_no_identifiers(text: Seq<char>)
    requires
        ThreadId::parsed(text) is Some,
    ensures
        text.len() == 32 || text.len() == 36 || text.len() == 38 || text.len() == 45,
        text.len() == 36 ==> forall|i: int|
            0 <= i < 36 ==> if i == 8 || i == 13 || i == 18 || i == 23 {
                (#[trigger] text[i]) == '-'
            } else {
                '0' <= text[i] <= '9' || 'a' <= text[i] <= 'f' || 'A' <= text[i] <= 'F'
            },
{
    if text.len() == 36 {
        let digits = uuid_digits(text)->0;
        assert forall|i: int| 0 <= i < 36 implies if i == 8 || i == 13 || i == 18 || i == 23 {
            (#[trigger] text[i]) == '-'
        } else {
            '0' <= text[i] <= '9' || 'a' <= text[i] <= 'f' || 'A' <= text[i] <= 'F'
        } by {
            if !(i == 8 || i == 13 || i == 18 || i == 23) {
                let digit = 31 - place_at(i);
                assert(position_of(digit) == i);
                assert(digits[digit] == text[i]);
                assert(hex_value(digits[digit]) is Some);
            }
        }
    }
}

/// The digits of an identifier, the most significant first.
spec fn digits_of(id: ThreadId) -> Seq<char> {
    Seq::new(32, |i: int| hex_digit(hex_place(id.value, (31 - i) as nat)))
}

proof fn lemma_digit_at(id: ThreadId, position: int) -> (digit: int)
    requires
        0 <= position < 36,
        !is_hyphen_at(position),
    ensures
        digit == 31 - place_at(position),
        0 <= digit < 32,
        position_of(digit) == position,
        id.text()[position] == digits_of(id)[digit],
{
    31 - place_at(position)
}

/// Where two identifiers first differ in writing, the smaller one has the
/// smaller digit.
proof fn lemma_first_difference(a: ThreadId, b: ThreadId, at: int)
    requires
        0 <= at < 36,
        forall|i: int| 0 <= i < at ==> (#[trigger] a.text()[i]) == b.text()[i],
        (a.text()[at] as int) < b.text()[at] as int,
    ensures
        a.value < b.value,
        in_order(a.text(), b.text()),
        !in_order(b.text(), a.text()),
{
    assert(!is_hyphen_at(at));
    let digit = lemma_digit_at(a, at);
    let _ = lemma_digit_at(b, at);
    let (da, db) = (digits_of(a), digits_of(b));
    let place = (31 - digit) as nat;
    assert forall|i: int| 0 <= i < digit implies da[i] == db[i] by {
        let position = position_of(i);
        assert(!is_hyphen_at(position) && 0 <= position < at);
        let _ = lemma_digit_at(a, position);
        let _ = lemma_digit_at(b, position);
        assert(a.text()[position] == b.text()[position]);
    }
    lemma_first_digits(a.value, da, digit);
    lemma_first_digits(b.value, db, digit);
    assert(da.take(digit) =~= db.take(digit));
    lemma_place_splits(a.value, place);
    lemma_place_splits(b.value, place);
    assert((32 - digit) as nat == place + 1);
    let (x, y) = (hex_place(a.value, place), hex_place(b.value, place));
    lemma_hex_digit_value(x);
    lemma_hex_digit_value(y);
    assert(x < y);
    lemma_pow_positive(16, place);
    if a.value >= b.value {
        vstd::arithmetic::div_mod::lemma_div_is_ordered(
            b.value as int,
            a.value as int,
            pow(16, place),
        );
    }
    let (ta, tb) = (a.text(), b.text());
    vstd::utf8::is_ascii_chars_encode_utf8(ta);
    vstd::utf8::is_ascii_chars_encode_utf8(tb);
    let (ea, eb) = (encode_utf8(ta), encode_utf8(tb));
    assert(ea.take(at) =~= eb.take(at));
    assert(ea =~= ea.take(at) + seq![ea[at]] + ea.skip(at + 1));
    assert(eb =~= ea.take(at) + seq![eb[at]] + eb.skip(at + 1));
    first_difference_decides_the_order(
        ta,
        tb,
        ea.take(at),
        ea[at],
        eb[at],
        ea.skip(at + 1),
        eb.skip(at + 1),
    );
}

proof fn lemma_find_difference(a: Seq<char>, b: Seq<char>, from: int) -> (at: int)
    requires
        a.len() == b.len(),
        0 <= from <= a.len(),
        forall|i: int| 0 <= i < from ==> (#[trigger] a[i]) == b[i],
        a != b,
    ensures
        0 <= at < a.len(),
        forall|i: int| 0 <= i < at ==> (#[trigger] a[i]) == b[i],
        a[at] != b[at],
    decreases a.len() - from,
{
    if from == a.len() {
        assert(a =~= b);
        from
    } else if a[from] == b[from] {
        lemma_find_difference(a, b, from + 1)
    } else {
        from
    }
}

/// The texts of identifiers are ordered like their numbers.
pub proof fn texts_are_ordered_like_identifiers(a: ThreadId, b: ThreadId)
    ensures
        in_order(a.text(), b.text()) <==> a.value <= b.value,
{
    if a.text() == b.text() {
        different_ids_have_different_texts(a, b);
        lemma_order_total(a.text(), b.text());
    } else {
        let at = lemma_find_difference(a.text(), b.text(), 0);
        if (a.text()[at] as int) < b.text()[at] as int {
            lemma_first_difference(a, b, at);
        } else {
            lemma_first_difference(b, a, at);
        }
    }
}

} // verus!
