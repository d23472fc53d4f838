//! What command texts stand for.

use crate::light::command_text::{
    ascii, byte_text, command_bytes, field_bytes, fields, format_command, hex_byte, hex_value,
    is_separator, joined_bytes, law_ascii_is_read_whole, law_separated_text_reads_back,
    lemma_joined_bytes, lemma_scan_joined, pair, reads_whole_characters, scan, separated_text,
    splits_character, splits_command, splits_field, splits_pair, utf8_length, utf8_width,
    without_prefix,
};
use crate::light::protocol::{parse_command, LightProtocolError};
use vstd::prelude::*;

verus! {

/// What comes of reading the text of a command.
pub type Reading = Result<Vec<u8>, LightProtocolError>;

/// Whether `c` is the hexadecimal digit, of either case, with this value.
pub open spec fn is_digit(c: char, value: int) -> bool {
    ||| 0 <= value < 10 && c as int == 48 + value
    ||| 10 <= value < 16 && (c as int == 55 + value || c as int == 87 + value)
}

/// Whether `c` is a tab, a line feed, a form feed, a carriage return, a space, a comma or a
/// hyphen.
pub open spec fn parts_fields(c: char) -> bool {
    c as int == 9 || c as int == 10 || c as int == 12 || c as int == 13 || c as int == 32
        || c as int == 44 || c as int == 45
}

/// Whether `text` is one field: not empty, with nothing that parts fields.
pub open spec fn one_field(text: Seq<char>) -> bool {
    &&& text.len() > 0
    &&& forall|i: int| 0 <= i < text.len() ==> !parts_fields(#[trigger] text[i])
}

/// Whether nothing in `text` belongs to a field.
pub open spec fn no_field(text: Seq<char>) -> bool {
    forall|i: int| 0 <= i < text.len() ==> parts_fields(#[trigger] text[i])
}

/// Whether `text` starts with `0x` or `0X`.
pub open spec fn marked(text: Seq<char>) -> bool {
    text.len() >= 2 && text[0] == '0' && (text[1] == 'x' || text[1] == 'X')
}

/// Whether two characters are written for the byte: two digits, or a plus sign and one digit.
pub open spec fn writes(first: char, second: char, byte: u8) -> bool {
    ||| is_digit(first, byte as int / 16) && is_digit(second, byte as int % 16)
    ||| first == '+' && byte < 16 && is_digit(second, byte as int)
}

/// Whether `result` refuses `text`.
pub open spec fn refuses(result: Reading, text: Seq<char>) -> bool {
    result matches Err(error) && (error matches LightProtocolError::InvalidCommand(command)
        && command@ == text)
}

proof fn lemma_digit(c: char, value: int)
    ensures
        is_digit(c, value) <==> 0 <= value < 16 && hex_value(c) == Some(value as nat),
{
}

proof fn lemma_writes(first: char, second: char, byte: u8)
    ensures
        writes(first, second, byte) <==> hex_byte(seq![first, second]) == Some(byte),
{
    let high = (byte / 16) as int;
    let low = (byte % 16) as int;
    lemma_digit(first, high);
    lemma_digit(second, low);
    lemma_digit(second, byte as int);
    assert(byte == 16 * high + low);
    if hex_byte(seq![first, second]) == Some(byte) {
        let l = hex_value(second)->0;
        assert(hex_value(second) is Some && l < 16);
        if hex_value(first) is Some {
            let h = hex_value(first)->0;
            assert(h < 16);
            assert(byte == 16 * h + l);
            assert(high == h && low == l) by (nonlinear_arith)
                requires
                    16 * high + low == 16 * h + l,
                    0 <= low < 16,
                    0 <= l < 16,
            ;
        }
    }
}

proof fn lemma_separators(c: char)
    ensures
        parts_fields(c) == is_separator(c),
{
}

proof fn lemma_scan_field(text: Seq<char>)
    requires
        forall|i: int| 0 <= i < text.len() ==> !parts_fields(#[trigger] text[i]),
    ensures
        scan(text) == (Seq::<Seq<char>>::empty(), text),
    decreases text.len(),
{
    if text.len() > 0 {
        let init = text.drop_last();
        assert forall|i: int| 0 <= i < init.len() implies !parts_fields(#[trigger] init[i]) by {
            assert(init[i] == text[i]);
        }
        lemma_scan_field(init);
        lemma_separators(text[text.len() - 1]);
        assert(init.push(text.last()) =~= text);
    }
}

proof fn lemma_scan_nothing(text: Seq<char>)
    requires
        no_field(text),
    ensures
        scan(text) == (Seq::<Seq<char>>::empty(), Seq::<char>::empty()),
    decreases text.len(),
{
    if text.len() > 0 {
        let init = text.drop_last();
        assert forall|i: int| 0 <= i < init.len() implies parts_fields(#[trigger] init[i]) by {
            assert(init[i] == text[i]);
        }
        lemma_scan_nothing(init);
        lemma_separators(text[text.len() - 1]);
    }
}

proof fn lemma_fields_are_there(text: Seq<char>)
    requires
        !no_field(text),
    ensures
        fields(text).len() > 0,
    decreases text.len(),
{
    let k = choose|k: int| 0 <= k < text.len() && !parts_fields(#[trigger] text[k]);
    let init = text.drop_last();
    lemma_separators(text[text.len() - 1]);
    if k < init.len() {
        assert(!parts_fields(init[k]));
        lemma_fields_are_there(init);
    }
}

proof fn lemma_one_field(text: Seq<char>)
    requires
        one_field(text),
    ensures
        command_bytes(text) == field_bytes(text),
{
    lemma_scan_field(text);
    let rows = fields(text);
    assert(rows =~= seq![text]);
    assert(rows.drop_last() =~= Seq::<Seq<char>>::empty());
    assert(rows[0] == text);
    if field_bytes(text) is Some {
        assert(joined_bytes(rows) =~= field_bytes(text)->0) by {
            assert(joined_bytes(rows.drop_last()) =~= Seq::<u8>::empty());
        }
    }
}

/// A text with nothing in it but separators, or nothing at all, is refused.
pub proof fn law_nothing_is_no_command(text: &str, result: Reading)
    requires
        call_ensures(parse_command, (text,), result),
        no_field(text@),
    ensures
        refuses(result, text@),
{
    lemma_scan_nothing(text@);
}

/// A field of one character is read as its value where it is a hexadecimal digit, and refused
/// where it is not.
pub proof fn law_single_digit(text: &str, result: Reading)
    requires
        call_ensures(parse_command, (text,), result),
        one_field(text@),
        text@.len() == 1,
    ensures
        forall|value: int| #[trigger]
            is_digit(text@[0], value) ==> result is Ok && result->Ok_0@ == seq![value as u8],
        (forall|value: int| !#[trigger] is_digit(text@[0], value)) ==> refuses(result, text@),
{
    lemma_one_field(text@);
    assert forall|value: int| #[trigger] is_digit(text@[0], value) implies result is Ok
        && result->Ok_0@ == seq![value as u8] by {
        lemma_digit(text@[0], value);
    }
    if forall|value: int| !#[trigger] is_digit(text@[0], value) {
        if hex_value(text@[0]) is Some {
            let value = hex_value(text@[0])->0 as int;
            lemma_digit(text@[0], value);
            assert(is_digit(text@[0], value));
        }
    }
}

/// A field of two or more characters without a mark is read two characters at a time: where each
/// two are written for a byte, those bytes are the command.
pub proof fn law_pairs_of_characters(text: &str, bytes: Seq<u8>, result: Reading)
    requires
        call_ensures(parse_command, (text,), result),
        one_field(text@),
        !marked(text@),
        bytes.len() > 0,
        text@.len() == 2 * bytes.len(),
        forall|i: int|
            0 <= i < bytes.len() ==> writes(text@[2 * i], text@[2 * i + 1], #[trigger] bytes[i]),
    ensures
        result is Ok,
        result->Ok_0@ == bytes,
{
    let digits = text@;
    lemma_one_field(digits);
    assert forall|i: int| 0 <= i < bytes.len() implies hex_byte(#[trigger] pair(digits, i)) == Some(
        bytes[i],
    ) by {
        lemma_writes(digits[2 * i], digits[2 * i + 1], bytes[i]);
        assert(pair(digits, i) =~= seq![digits[2 * i], digits[2 * i + 1]]);
    }
    if bytes.len() == 1 {
        assert(pair(digits, 0) =~= digits);
        assert(hex_byte(pair(digits, 0)) == Some(bytes[0]));
        assert(seq![bytes[0]] =~= bytes);
    } else {
        assert(field_bytes(digits)->0 =~= bytes);
    }
}

/// A field of two or more characters without a mark is refused where two characters that are read
/// together are written for no byte, and where one character is left over.
pub proof fn law_bad_pairs_are_refused(text: &str, i: int, result: Reading)
    requires
        call_ensures(parse_command, (text,), result),
        one_field(text@),
        !marked(text@),
        text@.len() >= 2,
        text@.len() % 2 == 1 || (0 <= 2 * i < text@.len() - 1 && forall|byte: u8|
            !#[trigger] writes(text@[2 * i], text@[2 * i + 1], byte)),
    ensures
        refuses(result, text@),
{
    let digits = text@;
    lemma_one_field(digits);
    if digits.len() % 2 == 0 {
        assert(pair(digits, i) =~= seq![digits[2 * i], digits[2 * i + 1]]);
        if hex_byte(pair(digits, i)) is Some {
            let byte = hex_byte(pair(digits, i))->0;
            lemma_writes(digits[2 * i], digits[2 * i + 1], byte);
            assert(writes(digits[2 * i], digits[2 * i + 1], byte));
        }
        if digits.len() == 2 {
            assert(pair(digits, 0) =~= digits);
        }
    }
}

/// A mark before a field changes nothing, and a mark alone is refused.
pub proof fn law_mark_changes_nothing(text: &str, plain: &str, result: Reading, other: Reading)
    requires
        call_ensures(parse_command, (text,), result),
        call_ensures(parse_command, (plain,), other),
        marked(text@),
        plain@ == text@.skip(2),
        forall|i: int| 0 <= i < plain@.len() ==> !parts_fields(#[trigger] plain@[i]),
        !marked(plain@),
    ensures
        plain@.len() == 0 ==> refuses(result, text@),
        other is Ok ==> result is Ok && result->Ok_0@ == other->Ok_0@,
        other is Err ==> refuses(result, text@),
{
    assert forall|i: int| 0 <= i < text@.len() implies !parts_fields(#[trigger] text@[i]) by {
        if i >= 2 {
            assert(text@[i] == plain@[i - 2]);
        }
    }
    lemma_one_field(text@);
    if plain@.len() > 0 {
        lemma_one_field(plain@);
    } else {
        lemma_scan_nothing(plain@);
        assert(without_prefix(text@).len() == 0);
    }
}

/// Two texts with a separator between them: what holds no field counts for nothing, what is
/// refused alone is refused together, and two commands are read as their bytes in a row.
pub proof fn law_separated_texts(
    text: &str,
    first: &str,
    second: &str,
    separator: char,
    result: Reading,
    one: Reading,
    two: Reading,
)
    requires
        call_ensures(parse_command, (text,), result),
        call_ensures(parse_command, (first,), one),
        call_ensures(parse_command, (second,), two),
        parts_fields(separator),
        text@ == first@.push(separator) + second@,
    ensures
        one is Ok && two is Ok ==> result is Ok && result->Ok_0@ == one->Ok_0@ + two->Ok_0@,
        no_field(first@) && two is Ok ==> result is Ok && result->Ok_0@ == two->Ok_0@,
        no_field(second@) && one is Ok ==> result is Ok && result->Ok_0@ == one->Ok_0@,
        !no_field(first@) && one is Err ==> refuses(result, text@),
        !no_field(second@) && two is Err ==> refuses(result, text@),
        one is Err && two is Err ==> refuses(result, text@),
{
    lemma_separators(separator);
    lemma_scan_joined(first@, separator, second@);
    let a = fields(first@);
    let b = fields(second@);
    let rows = a + b;
    assert(fields(text@) =~= rows);
    lemma_joined_bytes(a, b);
    assert forall|i: int| 0 <= i < a.len() implies rows[i] == #[trigger] a[i] by {}
    assert forall|i: int| 0 <= i < b.len() implies rows[a.len() + i] == #[trigger] b[i] by {}
    assert forall|i: int| 0 <= i < rows.len() implies #[trigger] rows[i] == (if i < a.len() {
        a[i]
    } else {
        b[i - a.len()]
    }) by {}
    if no_field(first@) {
        lemma_scan_nothing(first@);
        assert(a.len() == 0);
        assert(rows =~= b);
    } else {
        lemma_fields_are_there(first@);
    }
    if no_field(second@) {
        lemma_scan_nothing(second@);
        assert(b.len() == 0);
        assert(rows =~= a);
    } else {
        lemma_fields_are_there(second@);
    }
    if !no_field(first@) && one is Err {
        let k = choose|k: int| 0 <= k < a.len() && field_bytes(#[trigger] a[k]) is None;
        assert(field_bytes(rows[k]) is None);
    }
    if !no_field(second@) && two is Err {
        let k = choose|k: int| 0 <= k < b.len() && field_bytes(#[trigger] b[k]) is None;
        assert(field_bytes(rows[a.len() + k]) is None);
    }
}

/// Whether a text holds ASCII characters alone.
pub open spec fn plain(text: Seq<char>) -> bool {
    forall|i: int| 0 <= i < text.len() ==> (#[trigger] text[i] as int) < 128
}

/// Texts of ASCII characters can be read.
pub proof fn law_plain_texts_can_be_read(text: &str, readable: bool)
    requires
        call_ensures(reads_whole_characters, (text,), readable),
        plain(text@),
    ensures
        readable,
        call_requires(parse_command, (text,)),
{
    assert(ascii(text@));
    law_ascii_is_read_whole(text@);
}

/// What is found readable can be read.
pub proof fn law_readable_texts_can_be_read(text: &str, readable: bool)
    requires
        call_ensures(reads_whole_characters, (text,), readable),
        readable,
    ensures
        call_requires(parse_command, (text,)),
{
}

/// A command is printed as two digits for each byte, upper-case, with single spaces between them.
pub proof fn law_print_of_a_command(command: &[u8], text: String)
    requires
        call_ensures(format_command, (command,), text),
    ensures
        command@.len() == 0 ==> text@.len() == 0,
        command@.len() > 0 ==> text@.len() == 3 * command@.len() - 1,
        forall|i: int|
            0 <= i < command@.len() ==> {
                &&& is_digit(text@[3 * i], #[trigger] command@[i] as int / 16)
                &&& is_digit(text@[3 * i + 1], command@[i] as int % 16)
                &&& text@[3 * i] as int <= 70
                &&& text@[3 * i + 1] as int <= 70
                &&& i > 0 ==> text@[3 * i - 1] == ' '
            },
{
    lemma_print(command@);
}

proof fn lemma_print(bytes: Seq<u8>)
    ensures
        bytes.len() == 0 ==> separated_text(bytes, ' ').len() == 0,
        bytes.len() > 0 ==> separated_text(bytes, ' ').len() == 3 * bytes.len() - 1,
        forall|i: int|
            0 <= i < bytes.len() ==> {
                &&& is_digit(separated_text(bytes, ' ')[3 * i], #[trigger] bytes[i] as int / 16)
                &&& is_digit(separated_text(bytes, ' ')[3 * i + 1], bytes[i] as int % 16)
                &&& separated_text(bytes, ' ')[3 * i] as int <= 70
                &&& separated_text(bytes, ' ')[3 * i + 1] as int <= 70
                &&& i > 0 ==> separated_text(bytes, ' ')[3 * i - 1] == ' '
            },
    decreases bytes.len(),
{
    if bytes.len() > 0 {
        let init = bytes.drop_last();
        let last = bytes.len() - 1;
        lemma_print(init);
        let text = separated_text(bytes, ' ');
        let before = separated_text(init, ' ');
        assert(byte_text(bytes[last]).len() == 2);
        assert forall|i: int| 0 <= i < bytes.len() implies {
            &&& is_digit(text[3 * i], #[trigger] bytes[i] as int / 16)
            &&& is_digit(text[3 * i + 1], bytes[i] as int % 16)
            &&& text[3 * i] as int <= 70
            &&& text[3 * i + 1] as int <= 70
            &&& i > 0 ==> text[3 * i - 1] == ' '
        } by {
            if i < last {
                assert(init[i] == bytes[i]);
                assert(text[3 * i] == before[3 * i]);
                assert(text[3 * i + 1] == before[3 * i + 1]);
            } else {
                assert(text[3 * i] == byte_text(bytes[last])[0]);
                assert(text[3 * i + 1] == byte_text(bytes[last])[1]);
            }
        }
    }
}

/// A command that was printed is read back as it was.
pub proof fn law_printed_commands_read_back(
    command: &[u8],
    printed: String,
    text: &str,
    result: Reading,
)
    requires
        call_ensures(format_command, (command,), printed),
        call_ensures(parse_command, (text,), result),
        text@ == printed@,
        command@.len() > 0,
    ensures
        result is Ok,
        result->Ok_0@ == command@,
        call_requires(parse_command, (text,)),
{
    law_separated_text_reads_back(command@, ' ');
}

/// The number of bytes that a character takes in UTF-8.
pub open spec fn size_of_char(c: char) -> int {
    if (c as int) < 128 {
        1
    } else if (c as int) < 2048 {
        2
    } else if (c as int) < 65536 {
        3
    } else {
        4
    }
}

/// The number of bytes that a text takes in UTF-8.
pub open spec fn size_of_text(text: Seq<char>) -> int
    decreases text.len(),
{
    if text.len() == 0 {
        0
    } else {
        size_of_text(text.drop_first()) + size_of_char(text[0])
    }
}

proof fn lemma_utf8_concat(a: Seq<char>, b: Seq<char>)
    ensures
        utf8_length(a + b) == utf8_length(a) + utf8_length(b),
    decreases b.len(),
{
    if b.len() == 0 {
        assert(a + b =~= a);
    } else {
        lemma_utf8_concat(a, b.drop_last());
        assert((a + b).drop_last() =~= a + b.drop_last());
    }
}

proof fn lemma_utf8_first(text: Seq<char>)
    requires
        text.len() > 0,
    ensures
        utf8_length(text) == utf8_width(text[0]) + utf8_length(text.drop_first()),
{
    reveal_with_fuel(utf8_length, 2);
    let first = seq![text[0]];
    assert(first.drop_last() =~= Seq::<char>::empty());
    lemma_utf8_concat(first, text.drop_first());
    assert(first + text.drop_first() =~= text);
}

proof fn lemma_size(text: Seq<char>)
    ensures
        size_of_text(text) == utf8_length(text),
        size_of_text(text) >= text.len(),
    decreases text.len(),
{
    if text.len() > 0 {
        lemma_size(text.drop_first());
        lemma_utf8_first(text);
    }
}

proof fn lemma_split_field(text: Seq<char>)
    requires
        one_field(text),
    ensures
        splits_command(text) == splits_character(without_prefix(text)),
{
    lemma_scan_field(text);
    let rows = fields(text);
    assert(rows =~= seq![text]);
    if splits_command(text) {
        let i = choose|i: int| #[trigger] splits_field(rows, i);
        assert(i == 0);
    }
    if splits_character(without_prefix(text)) {
        assert(splits_field(rows, 0));
    }
}

/// A field without a mark whose size is odd, or two at most, can always be read. Of any other, the
/// first two bytes must not end inside a character; where they are read and are no byte of a
/// command, nothing more is read.
pub proof fn law_first_two_bytes(text: &str, readable: bool)
    requires
        call_ensures(reads_whole_characters, (text,), readable),
        one_field(text@),
        !marked(text@),
    ensures
        size_of_text(text@) <= 2 || size_of_text(text@) % 2 == 1 ==> readable,
        size_of_text(text@) > 2 && size_of_text(text@) % 2 == 0 ==> {
            let first = size_of_char(text@[0]);
            &&& first == 2 ==> readable
            &&& first > 2 ==> !readable
            &&& first == 1 && text@.len() > 1 && size_of_char(text@[1]) > 1 ==> !readable
            &&& first == 1 && text@.len() > 1 && size_of_char(text@[1]) == 1 && (forall|byte: u8|
                !#[trigger] writes(text@[0], text@[1], byte)) ==> readable
        },
{
    let digits = text@;
    lemma_split_field(digits);
    lemma_size(digits);
    let first = size_of_char(digits[0]);
    if digits.len() > 1 {
        assert(pair(digits, 0) =~= seq![digits[0], digits[1]]);
    }
    if first == 2 {
        assert forall|k: int| !#[trigger] splits_pair(digits, k) by {
            if k > 0 && digits.len() > 1 {
                assert(hex_byte(pair(digits, 0)) is None);
            }
        }
    }
    if first > 2 {
        assert(splits_pair(digits, 0));
    }
    if first == 1 && digits.len() > 1 && size_of_char(digits[1]) > 1 {
        assert(splits_pair(digits, 0));
    }
    if first == 1 && digits.len() > 1 && size_of_char(digits[1]) == 1 && (forall|byte: u8|
        !#[trigger] writes(digits[0], digits[1], byte)) {
        if hex_byte(pair(digits, 0)) is Some {
            let byte = hex_byte(pair(digits, 0))->0;
            lemma_writes(digits[0], digits[1], byte);
            assert(writes(digits[0], digits[1], byte));
        }
        assert forall|k: int| !#[trigger] splits_pair(digits, k) by {
            if k > 0 {
                assert(hex_byte(pair(digits, 0)) is None);
            }
        }
    }
}

/// Two characters that are written for a byte do not matter for whether what follows them can be
/// read.
pub proof fn law_bytes_before_do_not_matter(
    text: &str,
    rest: &str,
    byte: u8,
    readable: bool,
    rest_readable: bool,
)
    requires
        call_ensures(reads_whole_characters, (text,), readable),
        call_ensures(reads_whole_characters, (rest,), rest_readable),
        one_field(text@),
        !marked(text@),
        text@.len() > 2,
        rest@ == text@.skip(2),
        writes(text@[0], text@[1], byte),
    ensures
        !marked(rest@) ==> readable == rest_readable,
        marked(rest@) ==> readable,
{
    let digits = text@;
    let later = rest@;
    lemma_split_field(digits);
    assert forall|i: int| 0 <= i < later.len() implies !parts_fields(#[trigger] later[i]) by {
        assert(later[i] == digits[i + 2]);
    }
    lemma_split_field(later);
    lemma_writes(digits[0], digits[1], byte);
    assert(pair(digits, 0) =~= seq![digits[0], digits[1]]);
    lemma_utf8_first(digits);
    lemma_utf8_first(digits.drop_first());
    assert(digits.drop_first().drop_first() =~= later);
    assert(utf8_length(digits) == 2 + utf8_length(later));
    lemma_size(later);
    assert forall|j: int| 0 <= j && 2 * j + 2 <= later.len() implies #[trigger] pair(later, j)
        == pair(digits, j + 1) by {
        assert(pair(later, j) =~= pair(digits, j + 1));
    }
    assert(!splits_pair(digits, 0));
    assert forall|k: int| #[trigger] splits_pair(digits, k) implies splits_pair(later, k - 1) by {
        assert(k >= 1);
        assert(later[2 * (k - 1)] == digits[2 * k]);
        assert forall|j: int| 0 <= j < k - 1 implies hex_byte(
            #[trigger] pair(later, j),
        ) is Some by {
            assert(hex_byte(pair(digits, j + 1)) is Some);
        }
    }
    assert forall|k: int| #[trigger] splits_pair(later, k) implies splits_pair(digits, k + 1) by {
        assert(later[2 * k] == digits[2 * (k + 1)]);
        assert forall|j: int| 0 <= j < k + 1 implies hex_byte(
            #[trigger] pair(digits, j),
        ) is Some by {
            if j > 0 {
                assert(hex_byte(pair(later, j - 1)) is Some);
            }
        }
    }
    if utf8_length(later) == 2 {
        assert forall|k: int| !#[trigger] splits_pair(later, k) by {
            if splits_pair(later, k) {
                lemma_utf8_first(later);
                if later.len() > 1 {
                    lemma_size(later.drop_first());
                    lemma_utf8_first(later.drop_first());
                    lemma_size(later.drop_first().drop_first());
                }
            }
        }
    }
    if marked(later) {
        assert forall|k: int| !#[trigger] splits_pair(later, k) by {
            if k > 0 {
                assert(pair(later, 0) =~= seq![later[0], later[1]]);
                assert(hex_byte(pair(later, 0)) is None);
            }
        }
    }
}

/// A mark does not matter for whether the field after it can be read.
pub proof fn law_marks_do_not_matter(
    text: &str,
    plain: &str,
    readable: bool,
    plain_readable: bool,
)
    requires
        call_ensures(reads_whole_characters, (text,), readable),
        call_ensures(reads_whole_characters, (plain,), plain_readable),
        marked(text@),
        plain@ == text@.skip(2),
        forall|i: int| 0 <= i < plain@.len() ==> !parts_fields(#[trigger] plain@[i]),
        !marked(plain@),
    ensures
        readable == plain_readable,
{
    assert forall|i: int| 0 <= i < text@.len() implies !parts_fields(#[trigger] text@[i]) by {
        if i >= 2 {
            assert(text@[i] == plain@[i - 2]);
        }
    }
    lemma_split_field(text@);
    if plain@.len() > 0 {
        lemma_split_field(plain@);
    } else {
        lemma_scan_nothing(plain@);
        assert forall|i: int| !#[trigger] splits_field(fields(plain@), i) by {}
        assert(utf8_length(without_prefix(text@)) == 0);
    }
}

/// What comes after a separator matters where all before it is a command or nothing, and does not
/// where something before it is refused.
pub proof fn law_fields_are_read_in_order(
    text: &str,
    first: &str,
    second: &str,
    separator: char,
    one: Reading,
    readable: (bool, bool, bool),
)
    requires
        call_ensures(reads_whole_characters, (text,), readable.0),
        call_ensures(reads_whole_characters, (first,), readable.1),
        call_ensures(reads_whole_characters, (second,), readable.2),
        call_ensures(parse_command, (first,), one),
        parts_fields(separator),
        text@ == first@.push(separator) + second@,
    ensures
        one is Ok || no_field(first@) ==> readable.0 == (readable.1 && readable.2),
        one is Err && !no_field(first@) ==> readable.0 == readable.1,
{
    lemma_separators(separator);
    lemma_scan_joined(first@, separator, second@);
    let a = fields(first@);
    let b = fields(second@);
    let rows = a + b;
    assert(fields(text@) =~= rows);
    if no_field(first@) {
        lemma_scan_nothing(first@);
        assert(a.len() == 0);
    } else {
        lemma_fields_are_there(first@);
    }
    assert forall|i: int| 0 <= i < a.len() implies rows[i] == #[trigger] a[i] by {}
    assert forall|i: int| 0 <= i < b.len() implies rows[a.len() + i] == #[trigger] b[i] by {}
    assert forall|i: int| i < a.len() implies #[trigger] splits_field(rows, i) == splits_field(
        a,
        i,
    ) by {
        assert forall|j: int| 0 <= j < i && i < a.len() implies rows[j] == a[j] by {}
        if splits_field(rows, i) {
            assert forall|j: int| 0 <= j < i implies field_bytes(#[trigger] a[j]) is Some by {
                assert(field_bytes(rows[j]) is Some);
            }
            assert(splits_field(a, i));
        }
        if splits_field(a, i) {
            assert forall|j: int| 0 <= j < i implies field_bytes(#[trigger] rows[j]) is Some by {
                assert(field_bytes(a[j]) is Some);
            }
        }
    }
    assert forall|i: int| #[trigger] splits_field(a, i) implies splits_field(rows, i) by {}
    let all_bytes = forall|j: int| 0 <= j < a.len() ==> field_bytes(#[trigger] a[j]) is Some;
    assert((one is Ok || no_field(first@)) ==> all_bytes);
    assert(one is Err && !no_field(first@) ==> !all_bytes);
    if all_bytes {
        assert forall|i: int| #[trigger] splits_field(b, i) implies splits_field(
            rows,
            a.len() + i,
        ) by {
            assert forall|j: int| 0 <= j < a.len() + i implies field_bytes(
                #[trigger] rows[j],
            ) is Some by {
                if j < a.len() {
                    assert(field_bytes(a[j]) is Some);
                } else {
                    assert(field_bytes(b[j - a.len()]) is Some);
                }
            }
        }
        assert forall|i: int| i >= a.len() && #[trigger] splits_field(rows, i) implies splits_field(
            b,
            i - a.len(),
        ) by {
            assert forall|j: int| 0 <= j < i - a.len() implies field_bytes(
                #[trigger] b[j],
            ) is Some by {
                assert(field_bytes(rows[a.len() + j]) is Some);
            }
        }
    } else {
        let bad = choose|j: int| 0 <= j < a.len() && field_bytes(#[trigger] a[j]) is None;
        assert forall|i: int| #[trigger] splits_field(rows, i) implies i < a.len() by {
            if i >= a.len() {
                assert(field_bytes(rows[bad]) is Some);
            }
        }
    }
}

} // verus!
