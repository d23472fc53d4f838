//! Commands written as hexadecimal text.
//!
//! A command is written as fields separated by white space, commas or hyphens. A field may start
//! with `0x` or `0X`; it holds one byte, or a run of bytes with two digits each.

use crate::text::chars_of;
use vstd::prelude::*;

verus! {

/// The value of a hexadecimal digit, of either case.
pub open spec fn hex_value(c: char) -> Option<nat> {
    if '0' <= c <= '9' {
        Some((c as int - '0' as int) as nat)
    } else if 'a' <= c <= 'f' {
        Some((c as int - 'a' as int + 10) as nat)
    } else if 'A' <= c <= 'F' {
        Some((c as int - 'A' as int + 10) as nat)
    } else {
        None
    }
}

/// The byte that at most two characters stand for: one digit, two digits, or a plus sign and a
/// digit.
pub open spec fn hex_byte(digits: Seq<char>) -> Option<u8> {
    if digits.len() == 1 {
        match hex_value(digits[0]) {
            Some(low) => Some(low as u8),
            None => None,
        }
    } else if digits.len() == 2 {
        match (hex_value(digits[0]), hex_value(digits[1])) {
            (Some(high), Some(low)) => Some((16 * high + low) as u8),
            (None, Some(low)) => if digits[0] == '+' {
                Some(low as u8)
            } else {
                None
            },
            _ => None,
        }
    } else {
        None
    }
}

/// ASCII white space, a comma or a hyphen.
pub open spec fn is_separator(c: char) -> bool {
    c == ' ' || c == '\t' || c == '\n' || c == '\x0C' || c == '\r' || c == ',' || c == '-'
}

/// The fields that separators have closed in `text`, and the field that is open at its end.
pub open spec fn scan(text: Seq<char>) -> (Seq<Seq<char>>, Seq<char>)
    decreases text.len(),
{
    if text.len() == 0 {
        (Seq::empty(), Seq::empty())
    } else {
        let (closed, open) = scan(text.drop_last());
        if !is_separator(text.last()) {
            (closed, open.push(text.last()))
        } else if open.len() == 0 {
            (closed, open)
        } else {
            (closed.push(open), Seq::empty())
        }
    }
}

/// The non-empty fields of `text`: its maximal runs of characters that are no separators.
pub open spec fn fields(text: Seq<char>) -> Seq<Seq<char>> {
    let (closed, open) = scan(text);
    if open.len() == 0 {
        closed
    } else {
        closed.push(open)
    }
}

/// A field without its `0x` or `0X`.
pub open spec fn without_prefix(field: Seq<char>) -> Seq<char> {
    if field.len() >= 2 && field[0] == '0' && (field[1] == 'x' || field[1] == 'X') {
        field.skip(2)
    } else {
        field
    }
}

/// The `j`th pair of digits.
pub open spec fn pair(digits: Seq<char>, j: int) -> Seq<char> {
    digits.subrange(2 * j, 2 * j + 2)
}

/// The bytes a field stands for, if it stands for any.
pub open spec fn field_bytes(field: Seq<char>) -> Option<Seq<u8>> {
    let digits = without_prefix(field);
    if digits.len() <= 2 {
        match hex_byte(digits) {
            Some(byte) => Some(seq![byte]),
            None => None,
        }
    } else if digits.len() % 2 == 0 && forall|j: int|
        0 <= j < digits.len() / 2 ==> hex_byte(#[trigger] pair(digits, j)) is Some {
        Some(Seq::new(digits.len() / 2, |j: int| hex_byte(pair(digits, j))->0))
    } else {
        None
    }
}

/// The bytes of all fields in a row.
pub open spec fn joined_bytes(fields: Seq<Seq<char>>) -> Seq<u8>
    decreases fields.len(),
{
    if fields.len() == 0 {
        Seq::empty()
    } else {
        joined_bytes(fields.drop_last()) + field_bytes(fields.last())->0
    }
}

/// The bytes that the text of a command stands for: each field must stand for bytes, and there
/// must be a field.
pub open spec fn command_bytes(text: Seq<char>) -> Option<Seq<u8>> {
    if fields(text).len() > 0 && forall|i: int|
        0 <= i < fields(text).len() ==> field_bytes(#[trigger] fields(text)[i]) is Some {
        Some(joined_bytes(fields(text)))
    } else {
        None
    }
}

/// The number of bytes of a character in UTF-8.
pub open spec fn utf8_width(c: char) -> nat {
    if (c as int) < 0x80 {
        1
    } else if (c as int) < 0x800 {
        2
    } else if (c as int) < 0x10000 {
        3
    } else {
        4
    }
}

/// The number of bytes of `text` in UTF-8.
pub open spec fn utf8_length(text: Seq<char>) -> nat
    decreases text.len(),
{
    if text.len() == 0 {
        0
    } else {
        utf8_length(text.drop_last()) + utf8_width(text.last())
    }
}

/// Whether reading `digits` two bytes of UTF-8 at a time, as long as each pair is a byte in
/// hexadecimal, comes to a pair that ends inside a character.
pub open spec fn splits_character(digits: Seq<char>) -> bool {
    &&& utf8_length(digits) > 2
    &&& utf8_length(digits) % 2 == 0
    &&& exists|k: int| #[trigger] splits_pair(digits, k)
}

/// Whether the pairs before the `k`th are bytes in hexadecimal and the `k`th ends inside a
/// character.
pub open spec fn splits_pair(digits: Seq<char>, k: int) -> bool {
    &&& 0 <= k
    &&& 2 * k < digits.len()
    &&& forall|j: int| 0 <= j < k ==> hex_byte(#[trigger] pair(digits, j)) is Some
    &&& utf8_width(digits[2 * k]) > 2 || (utf8_width(digits[2 * k]) == 1 && 2 * k + 1 < digits.len()
        && utf8_width(digits[2 * k + 1]) > 1)
}

/// Whether reading the fields of `text` in order, as long as they stand for bytes, comes to a
/// field that cannot be cut into pairs of bytes without splitting a character.
pub open spec fn splits_command(text: Seq<char>) -> bool {
    exists|i: int| #[trigger] splits_field(fields(text), i)
}

/// Whether the fields before the `i`th stand for bytes and the `i`th splits a character.
pub open spec fn splits_field(fields: Seq<Seq<char>>, i: int) -> bool {
    &&& 0 <= i < fields.len()
    &&& forall|j: int| 0 <= j < i ==> field_bytes(#[trigger] fields[j]) is Some
    &&& splits_character(without_prefix(fields[i]))
}

/// The upper-case hexadecimal digit `d`, for `d` below sixteen.
pub open spec fn hex_digit(d: nat) -> char {
    seq!['0', '1', '2', '3', '4', '5', '6', '7', '8', '9', 'A', 'B', 'C', 'D', 'E', 'F'][d as int]
}

/// A byte as two upper-case hexadecimal digits.
pub open spec fn byte_text(byte: u8) -> Seq<char> {
    seq![hex_digit((byte / 16) as nat), hex_digit((byte % 16) as nat)]
}

/// The bytes as two digits each, with `separator` between any two of them.
pub open spec fn separated_text(bytes: Seq<u8>, separator: char) -> Seq<char>
    decreases bytes.len(),
{
    if bytes.len() == 0 {
        Seq::empty()
    } else if bytes.len() == 1 {
        byte_text(bytes[0])
    } else {
        separated_text(bytes.drop_last(), separator).push(separator) + byte_text(bytes.last())
    }
}

/// The bytes as two digits each, with nothing between them.
pub open spec fn run_text(bytes: Seq<u8>) -> Seq<char>
    decreases bytes.len(),
{
    if bytes.len() == 0 {
        Seq::empty()
    } else {
        run_text(bytes.drop_last()) + byte_text(bytes.last())
    }
}

/// The contents of each field.
pub open spec fn char_rows(rows: Seq<Vec<char>>) -> Seq<Seq<char>> {
    rows.map_values(|row: Vec<char>| row@)
}

fn digit_value(c: char) -> (value: Option<u8>)
    ensures
        value is Some == hex_value(c) is Some,
        value is Some ==> value->0 == hex_value(c)->0 && value->0 < 16,
{
    if '0' <= c && c <= '9' {
        Some((c as u32 - '0' as u32) as u8)
    } else if 'a' <= c && c <= 'f' {
        Some((c as u32 - 'a' as u32 + 10) as u8)
    } else if 'A' <= c && c <= 'F' {
        Some((c as u32 - 'A' as u32 + 10) as u8)
    } else {
        None
    }
}

fn pair_byte(first: char, second: char) -> (byte: Option<u8>)
    ensures
        byte == hex_byte(seq![first, second]),
{
    match (digit_value(first), digit_value(second)) {
        (Some(high), Some(low)) => Some(16 * high + low),
        (None, Some(low)) => if first == '+' {
            Some(low)
        } else {
            None
        },
        _ => None,
    }
}

fn separates(c: char) -> (separates: bool)
    ensures
        separates == is_separator(c),
{
    c == ' ' || c == '\t' || c == '\n' || c == '\x0C' || c == '\r' || c == ',' || c == '-'
}

fn split_fields(text: &str) -> (rows: Vec<Vec<char>>)
    ensures
        char_rows(rows@) == fields(text@),
{
    let chars = chars_of(text);
    let mut closed: Vec<Vec<char>> = Vec::new();
    let mut open: Vec<char> = Vec::new();
    let mut i: usize = 0;
    assert(chars@.take(0) =~= Seq::<char>::empty());
    assert(char_rows(closed@) =~= Seq::<Seq<char>>::empty());
    while i < chars.len()
        invariant
            i <= chars.len(),
            scan(chars@.take(i as int)) == (char_rows(closed@), open@),
        decreases chars.len() - i,
    {
        let c = chars[i];
        let ghost before = char_rows(closed@);
        assert(chars@.take(i + 1).drop_last() =~= chars@.take(i as int));
        if !separates(c) {
            open.push(c);
        } else if open.len() > 0 {
            let ghost row = open@;
            closed.push(open);
            open = Vec::new();
            assert(char_rows(closed@) =~= before.push(row));
        }
        i += 1;
    }
    assert(chars@.take(chars@.len() as int) =~= chars@);
    if open.len() > 0 {
        let ghost before = char_rows(closed@);
        let ghost row = open@;
        closed.push(open);
        assert(char_rows(closed@) =~= before.push(row));
    }
    closed
}

fn prefix_length(field: &Vec<char>) -> (start: usize)
    ensures
        start <= field.len(),
        without_prefix(field@) == field@.skip(start as int),
{
    if field.len() >= 2 && field[0] == '0' && (field[1] == 'x' || field[1] == 'X') {
        2
    } else {
        assert(field@.skip(0) =~= field@);
        0
    }
}

fn parse_field(field: &Vec<char>) -> (bytes: Option<Vec<u8>>)
    ensures
        match bytes {
            Some(bytes) => field_bytes(field@) == Some(bytes@),
            None => field_bytes(field@) is None,
        },
{
    let start = prefix_length(field);
    let ghost digits = without_prefix(field@);
    let count = field.len() - start;
    let mut bytes: Vec<u8> = Vec::new();
    if count == 0 {
        return None;
    }
    if count == 1 {
        return match digit_value(field[start]) {
            Some(low) => {
                bytes.push(low);
                assert(bytes@ =~= seq![hex_byte(digits)->0]);
                Some(bytes)
            },
            None => None,
        };
    }
    if count == 2 {
        assert(digits =~= seq![field@[start as int], field@[start + 1]]);
        return match pair_byte(field[start], field[start + 1]) {
            Some(byte) => {
                bytes.push(byte);
                assert(bytes@ =~= seq![byte]);
                Some(bytes)
            },
            None => None,
        };
    }
    if count % 2 != 0 {
        return None;
    }
    let mut j: usize = 0;
    while j < count / 2
        invariant
            start <= field.len(),
            count == field.len() - start,
            digits == field@.skip(start as int),
            digits == without_prefix(field@),
            count > 2,
            count % 2 == 0,
            j <= count / 2,
            bytes.len() == j,
            forall|m: int|
                0 <= m < j ==> hex_byte(#[trigger] pair(digits, m)) == Some(bytes@[m]),
        decreases count / 2 - j,
    {
        let at = start + 2 * j;
        assert(pair(digits, j as int) =~= seq![field@[at as int], field@[at + 1]]);
        match pair_byte(field[at], field[at + 1]) {
            Some(byte) => bytes.push(byte),
            None => {
                assert(hex_byte(pair(digits, j as int)) is None);
                return None;
            },
        }
        j += 1;
    }
    assert(field_bytes(field@)->0 =~= bytes@);
    Some(bytes)
}

fn width(c: char) -> (width: u8)
    ensures
        width == utf8_width(c),
{
    let code = c as u32;
    if code < 0x80 {
        1
    } else if code < 0x800 {
        2
    } else if code < 0x10000 {
        3
    } else {
        4
    }
}

fn field_splits_character(field: &Vec<char>) -> (splits: bool)
    ensures
        splits == splits_character(without_prefix(field@)),
{
    let start = prefix_length(field);
    let ghost digits = without_prefix(field@);
    let count = field.len() - start;
    // The length in bytes, as far as two, and whether it is odd.
    let mut small: u8 = 0;
    let mut odd = false;
    let mut i: usize = 0;
    assert(digits.take(0) =~= Seq::<char>::empty());
    while i < count
        invariant
            start <= field.len(),
            count == field.len() - start,
            digits == field@.skip(start as int),
            i <= count,
            small <= 7,
            small == utf8_length(digits.take(i as int)) || (small > 2 && utf8_length(
                digits.take(i as int),
            ) > 2),
            odd == (utf8_length(digits.take(i as int)) % 2 == 1),
        decreases count - i,
    {
        let w = width(field[start + i]);
        assert(digits.take(i + 1).drop_last() =~= digits.take(i as int));
        if w % 2 == 1 {
            odd = !odd;
        }
        if small <= 2 {
            small = small + w;
        }
        i += 1;
    }
    assert(digits.take(count as int) =~= digits);
    if small <= 2 || odd {
        return false;
    }
    let mut k: usize = 0;
    while k < count - count / 2
        invariant
            start <= field.len(),
            count == field.len() - start,
            digits == field@.skip(start as int),
            k <= count - count / 2,
            utf8_length(digits) > 2,
            utf8_length(digits) % 2 == 0,
            digits == without_prefix(field@),
            forall|j: int|
                0 <= j < k && 2 * j + 1 < count ==> hex_byte(#[trigger] pair(digits, j)) is Some,
            forall|j: int| 0 <= j < k ==> !#[trigger] splits_pair(digits, j),
        decreases count - k,
    {
        let at = start + 2 * k;
        let first = width(field[at]);
        if first > 2 || (first == 1 && at + 1 < field.len() && width(field[at + 1]) > 1) {
            assert(splits_pair(digits, k as int));
            return true;
        }
        assert(!splits_pair(digits, k as int));
        if at + 1 < field.len() {
            assert(pair(digits, k as int) =~= seq![field@[at as int], field@[at + 1]]);
            if pair_byte(field[at], field[at + 1]).is_none() {
                assert forall|m: int| !#[trigger] splits_pair(digits, m) by {
                    if m > k {
                        assert(hex_byte(pair(digits, k as int)) is None);
                    }
                }
                return false;
            }
        }
        k += 1;
    }
    assert forall|m: int| !#[trigger] splits_pair(digits, m) by {}
    false
}

/// Whether the fields of `command` can be read without splitting a character.
pub fn reads_whole_characters(command: &str) -> (whole: bool)
    ensures
        whole == !splits_command(command@),
{
    let rows = split_fields(command);
    let ghost parts = fields(command@);
    let mut i: usize = 0;
    while i < rows.len()
        invariant
            parts == fields(command@),
            char_rows(rows@) == parts,
            i <= rows.len(),
            forall|j: int| 0 <= j < i ==> field_bytes(#[trigger] parts[j]) is Some,
            forall|j: int| 0 <= j < i ==> !#[trigger] splits_field(parts, j),
        decreases rows.len() - i,
    {
        assert(parts[i as int] == rows@[i as int]@);
        if field_splits_character(&rows[i]) {
            assert(splits_field(parts, i as int));
            return false;
        }
        assert(!splits_field(parts, i as int));
        if parse_field(&rows[i]).is_none() {
            assert forall|m: int| !#[trigger] splits_field(parts, m) by {
                if m > i {
                    assert(field_bytes(parts[i as int]) is None);
                }
            }
            return true;
        }
        i += 1;
    }
    assert forall|m: int| !#[trigger] splits_field(parts, m) by {}
    true
}

/// The bytes that `command` stands for, if it stands for any.
pub(crate) fn read_command(command: &str) -> (bytes: Option<Vec<u8>>)
    ensures
        match bytes {
            Some(bytes) => command_bytes(command@) == Some(bytes@),
            None => command_bytes(command@) is None,
        },
{
    let rows = split_fields(command);
    let ghost parts = fields(command@);
    let mut bytes: Vec<u8> = Vec::new();
    let mut i: usize = 0;
    assert(parts.take(0) =~= Seq::<Seq<char>>::empty());
    if rows.len() == 0 {
        return None;
    }
    while i < rows.len()
        invariant
            parts == fields(command@),
            char_rows(rows@) == parts,
            i <= rows.len(),
            forall|j: int| 0 <= j < i ==> field_bytes(#[trigger] parts[j]) is Some,
            bytes@ == joined_bytes(parts.take(i as int)),
        decreases rows.len() - i,
    {
        assert(parts[i as int] == rows@[i as int]@);
        assert(parts.take(i + 1).drop_last() =~= parts.take(i as int));
        match parse_field(&rows[i]) {
            Some(mut field) => bytes.append(&mut field),
            None => {
                assert(field_bytes(parts[i as int]) is None);
                return None;
            },
        }
        i += 1;
    }
    assert(parts.take(parts.len() as int) =~= parts);
    Some(bytes)
}

fn hex_digit_char(d: u8) -> (c: char)
    requires
        d < 16,
    ensures
        c == hex_digit(d as nat),
{
    match d {
        0 => '0',
        1 => '1',
        2 => '2',
        3 => '3',
        4 => '4',
        5 => '5',
        6 => '6',
        7 => '7',
        8 => '8',
        9 => '9',
        10 => 'A',
        11 => 'B',
        12 => 'C',
        13 => 'D',
        14 => 'E',
        _ => 'F',
    }
}

/// The bytes of a command as upper-case hexadecimal, separated by single spaces.
pub fn format_command(command: &[u8]) -> (text: String)
    ensures
        text@ == separated_text(command@, ' '),
{
    let mut text = String::new();
    let mut i: usize = 0;
    assert(command@.take(0) =~= Seq::<u8>::empty());
    while i < command.len()
        invariant
            i <= command.len(),
            text@ == separated_text(command@.take(i as int), ' '),
        decreases command.len() - i,
    {
        let byte = command[i];
        let ghost before = text@;
        assert(command@.take(i + 1).drop_last() =~= command@.take(i as int));
        if i > 0 {
            text.push(' ');
        }
        text.push(hex_digit_char(byte / 16));
        text.push(hex_digit_char(byte % 16));
        assert(text@ =~= separated_text(command@.take(i + 1), ' '));
        i += 1;
    }
    assert(command@.take(command@.len() as int) =~= command@);
    text
}

proof fn lemma_byte_text(byte: u8)
    ensures
        hex_byte(byte_text(byte)) == Some(byte),
        without_prefix(byte_text(byte)) == byte_text(byte),
        field_bytes(byte_text(byte)) == Some(seq![byte]),
        forall|i: int| 0 <= i < 2 ==> !is_separator(#[trigger] byte_text(byte)[i]),
        forall|i: int| 0 <= i < 2 ==> utf8_width(#[trigger] byte_text(byte)[i]) == 1,
        forall|i: int|
            0 <= i < 2 ==> byte_text(byte)[i] != 'x' && #[trigger] byte_text(byte)[i] != 'X',
{
    lemma_hex_digit((byte / 16) as nat);
    lemma_hex_digit((byte % 16) as nat);
}

proof fn lemma_hex_digit(d: nat)
    requires
        d < 16,
    ensures
        hex_value(hex_digit(d)) == Some(d),
        !is_separator(hex_digit(d)),
        utf8_width(hex_digit(d)) == 1,
        hex_digit(d) != 'x',
        hex_digit(d) != 'X',
{
}

spec fn byte_rows(bytes: Seq<u8>) -> Seq<Seq<char>> {
    bytes.map_values(|byte: u8| byte_text(byte))
}

proof fn lemma_scan_byte(text: Seq<char>, byte: u8)
    ensures
        scan(text + byte_text(byte)) == (scan(text).0, scan(text).1 + byte_text(byte)),
{
    lemma_byte_text(byte);
    let digits = byte_text(byte);
    let one = text.push(digits[0]);
    assert(one.drop_last() =~= text);
    assert(scan(one) == (scan(text).0, scan(text).1.push(digits[0])));
    assert(text + digits =~= one.push(digits[1]));
    assert(one.push(digits[1]).drop_last() =~= one);
    assert(scan(text).1.push(digits[0]).push(digits[1]) =~= scan(text).1 + digits);
}

proof fn lemma_scan_separated(bytes: Seq<u8>, separator: char)
    requires
        bytes.len() > 0,
        is_separator(separator),
    ensures
        scan(separated_text(bytes, separator)) == (
            byte_rows(bytes.drop_last()),
            byte_text(bytes.last()),
        ),
    decreases bytes.len(),
{
    let empty = Seq::<char>::empty();
    if bytes.len() == 1 {
        lemma_scan_byte(empty, bytes[0]);
        assert(empty + byte_text(bytes[0]) =~= byte_text(bytes[0]));
        assert(byte_rows(bytes.drop_last()) =~= Seq::<Seq<char>>::empty());
    } else {
        let init = bytes.drop_last();
        let text = separated_text(init, separator);
        lemma_scan_separated(init, separator);
        let closed = text.push(separator);
        assert(closed.drop_last() =~= text);
        assert(byte_rows(init) =~= byte_rows(init.drop_last()).push(byte_text(init.last())));
        lemma_scan_byte(closed, bytes.last());
        assert(empty + byte_text(bytes.last()) =~= byte_text(bytes.last()));
    }
}

proof fn lemma_joined_rows(bytes: Seq<u8>)
    ensures
        joined_bytes(byte_rows(bytes)) == bytes,
    decreases bytes.len(),
{
    if bytes.len() > 0 {
        let init = bytes.drop_last();
        lemma_joined_rows(init);
        lemma_byte_text(bytes.last());
        assert(byte_rows(bytes).drop_last() =~= byte_rows(init));
        assert(byte_rows(bytes).last() == byte_text(bytes.last()));
        assert(init + seq![bytes.last()] =~= bytes);
    }
}

/// Bytes written as two digits each, with any separator between them, read back as themselves.
pub proof fn law_separated_text_reads_back(bytes: Seq<u8>, separator: char)
    requires
        bytes.len() > 0,
        is_separator(separator),
    ensures
        command_bytes(separated_text(bytes, separator)) == Some(bytes),
        !splits_command(separated_text(bytes, separator)),
{
    let text = separated_text(bytes, separator);
    lemma_scan_separated(bytes, separator);
    let rows = byte_rows(bytes);
    assert(byte_rows(bytes.drop_last()).push(byte_text(bytes.last())) =~= rows);
    assert(fields(text) == rows);
    assert forall|i: int| 0 <= i < rows.len() implies field_bytes(#[trigger] rows[i]) is Some by {
        lemma_byte_text(bytes[i]);
    }
    lemma_joined_rows(bytes);
    assert forall|i: int| !#[trigger] splits_field(rows, i) by {
        if 0 <= i < rows.len() {
            lemma_byte_text(bytes[i]);
            assert forall|k: int| !#[trigger] splits_pair(rows[i], k) by {}
        }
    }
}

proof fn lemma_run(bytes: Seq<u8>)
    ensures
        run_text(bytes).len() == 2 * bytes.len(),
        scan(run_text(bytes)) == (Seq::<Seq<char>>::empty(), run_text(bytes)),
        forall|i: int|
            0 <= i < bytes.len() ==> #[trigger] pair(run_text(bytes), i) == byte_text(bytes[i]),
        forall|i: int|
            0 <= i < run_text(bytes).len() ==> utf8_width(#[trigger] run_text(bytes)[i]) == 1,
        bytes.len() > 0 ==> run_text(bytes)[1] != 'x' && run_text(bytes)[1] != 'X',
    decreases bytes.len(),
{
    if bytes.len() > 0 {
        let init = bytes.drop_last();
        let text = run_text(init);
        lemma_run(init);
        lemma_scan_byte(text, bytes.last());
        lemma_byte_text(bytes.last());
        assert forall|i: int| 0 <= i < bytes.len() implies #[trigger] pair(run_text(bytes), i)
            == byte_text(bytes[i]) by {
            if i < init.len() {
                assert(pair(run_text(bytes), i) =~= pair(text, i));
            } else {
                assert(pair(run_text(bytes), i) =~= byte_text(bytes.last()));
            }
        }
    }
}

proof fn lemma_run_field(bytes: Seq<u8>)
    requires
        bytes.len() > 0,
    ensures
        field_bytes(run_text(bytes)) == Some(bytes),
{
    let text = run_text(bytes);
    lemma_run(bytes);
    assert forall|i: int| 0 <= i < bytes.len() implies hex_byte(#[trigger] pair(text, i)) == Some(
        bytes[i],
    ) by {
        lemma_byte_text(bytes[i]);
    }
    if bytes.len() == 1 {
        assert(pair(text, 0) =~= text);
        assert(seq![bytes[0]] =~= bytes);
    } else {
        assert(field_bytes(text)->0 =~= bytes);
    }
}

/// Bytes written as two digits each, in one run, read back as themselves.
pub proof fn law_run_reads_back(bytes: Seq<u8>)
    requires
        bytes.len() > 0,
    ensures
        command_bytes(run_text(bytes)) == Some(bytes),
        !splits_command(run_text(bytes)),
{
    let text = run_text(bytes);
    lemma_run(bytes);
    lemma_run_field(bytes);
    let rows = fields(text);
    assert(rows =~= seq![text]);
    assert(rows.drop_last() =~= Seq::<Seq<char>>::empty());
    assert(joined_bytes(rows) =~= bytes) by {
        assert(joined_bytes(rows.drop_last()) =~= Seq::<u8>::empty());
    }
    assert forall|i: int| !#[trigger] splits_field(rows, i) by {
        if i == 0 {
            assert forall|k: int| !#[trigger] splits_pair(text, k) by {}
        }
    }
}

pub(crate) proof fn lemma_scan_joined(first: Seq<char>, separator: char, second: Seq<char>)
    requires
        is_separator(separator),
    ensures
        scan(first.push(separator) + second) == (fields(first) + scan(second).0, scan(second).1),
    decreases second.len(),
{
    let start = first.push(separator);
    if second.len() == 0 {
        assert(start + second =~= start);
        assert(start.drop_last() =~= first);
        assert(fields(first) + scan(second).0 =~= fields(first));
    } else {
        let init = second.drop_last();
        lemma_scan_joined(first, separator, init);
        assert((start + second).drop_last() =~= start + init);
        assert((start + second).last() == second.last());
        let (closed, open) = scan(init);
        assert((fields(first) + closed).push(open) =~= fields(first) + closed.push(open));
    }
}

pub(crate) proof fn lemma_joined_bytes(first: Seq<Seq<char>>, second: Seq<Seq<char>>)
    ensures
        joined_bytes(first + second) == joined_bytes(first) + joined_bytes(second),
    decreases second.len(),
{
    if second.len() == 0 {
        assert(first + second =~= first);
        assert(joined_bytes(first) + joined_bytes(second) =~= joined_bytes(first));
    } else {
        lemma_joined_bytes(first, second.drop_last());
        assert((first + second).drop_last() =~= first + second.drop_last());
        assert(joined_bytes(first + second) =~= joined_bytes(first) + joined_bytes(second));
    }
}

/// Two commands written one after the other, with a separator between them, read as the bytes of
/// both in a row.
pub proof fn law_joined_commands_read_in_a_row(
    first: Seq<char>,
    separator: char,
    second: Seq<char>,
)
    requires
        is_separator(separator),
        command_bytes(first) is Some,
        command_bytes(second) is Some,
    ensures
        command_bytes(first.push(separator) + second) == Some(
            command_bytes(first)->0 + command_bytes(second)->0,
        ),
{
    let text = first.push(separator) + second;
    let rows = fields(first) + fields(second);
    lemma_scan_joined(first, separator, second);
    assert(fields(text) =~= rows);
    assert forall|i: int| 0 <= i < rows.len() implies field_bytes(#[trigger] rows[i]) is Some by {
        if i < fields(first).len() {
            assert(rows[i] == fields(first)[i]);
        } else {
            assert(rows[i] == fields(second)[i - fields(first).len()]);
        }
    }
    lemma_joined_bytes(fields(first), fields(second));
}

/// Whether a text holds ASCII characters only.
pub open spec fn ascii(text: Seq<char>) -> bool {
    forall|i: int| 0 <= i < text.len() ==> (#[trigger] text[i] as int) < 0x80
}

proof fn lemma_scan_ascii(text: Seq<char>)
    requires
        ascii(text),
    ensures
        forall|f: int| 0 <= f < scan(text).0.len() ==> ascii(#[trigger] scan(text).0[f]),
        ascii(scan(text).1),
    decreases text.len(),
{
    if text.len() > 0 {
        let init = text.drop_last();
        assert(ascii(init)) by {
            assert forall|i: int|
                0 <= i < init.len() implies (#[trigger] init[i] as int) < 0x80 by {
                assert(init[i] == text[i]);
            }
        }
        lemma_scan_ascii(init);
        assert((text[text.len() - 1] as int) < 0x80);
    }
}

/// A text of ASCII characters can always be read without splitting a character.
pub proof fn law_ascii_is_read_whole(text: Seq<char>)
    requires
        ascii(text),
    ensures
        !splits_command(text),
{
    lemma_scan_ascii(text);
    let rows = fields(text);
    assert forall|f: int| !#[trigger] splits_field(rows, f) by {
        if 0 <= f < rows.len() {
            assert(ascii(rows[f]));
            let digits = without_prefix(rows[f]);
            assert forall|i: int| 0 <= i < digits.len() implies utf8_width(#[trigger] digits[i])
                == 1 by {
                let skipped = rows[f].len() - digits.len();
                assert(digits[i] == rows[f][i + skipped]);
            }
            assert forall|k: int| !#[trigger] splits_pair(digits, k) by {}
        }
    }
}

} // verus!
