//! Hexadecimal: bytes to digits, and digits back to bytes.

use super::chars::{chars_of, is_white_space, is_whitespace, text_from_utf8, utf8_failure_text};
use super::text_operation::{
    text_result, ErrorModel, ResultModel, TextOperation, TextOperationError, TextOperationResult,
};
use vstd::prelude::*;
use vstd::string::StringExecFns;
use vstd::utf8::{decode_utf8, encode_utf8, valid_utf8};

verus! {

/// The lower-case hexadecimal digit that stands for `n`, for `n` below sixteen.
pub open spec fn hex_digit(n: int) -> char {
    if n == 0 {
        '0'
    } else if n == 1 {
        '1'
    } else if n == 2 {
        '2'
    } else if n == 3 {
        '3'
    } else if n == 4 {
        '4'
    } else if n == 5 {
        '5'
    } else if n == 6 {
        '6'
    } else if n == 7 {
        '7'
    } else if n == 8 {
        '8'
    } else if n == 9 {
        '9'
    } else if n == 10 {
        'a'
    } else if n == 11 {
        'b'
    } else if n == 12 {
        'c'
    } else if n == 13 {
        'd'
    } else if n == 14 {
        'e'
    } else {
        'f'
    }
}

/// The two digits of one byte, the high one first.
pub open spec fn hex_pair(b: u8) -> Seq<char> {
    seq![hex_digit(b as int / 16), hex_digit(b as int % 16)]
}

/// The short form: two digits for each byte, with nothing between them.
pub open spec fn hex_text(bytes: Seq<u8>) -> Seq<char> {
    Seq::new(
        2 * bytes.len(),
        |i: int|
            if i % 2 == 0 {
                hex_digit(bytes[i / 2] as int / 16)
            } else {
                hex_digit(bytes[i / 2] as int % 16)
            },
    )
}

/// The long form: `0x` and two digits for each byte, with one space between
/// two bytes.
pub open spec fn long_hex_text(bytes: Seq<u8>) -> Seq<char>
    decreases bytes.len(),
{
    if bytes.len() == 0 {
        Seq::empty()
    } else if bytes.len() == 1 {
        seq!['0', 'x'] + hex_pair(bytes[0])
    } else {
        long_hex_text(bytes.drop_last()) + seq![' ', '0', 'x'] + hex_pair(bytes.last())
    }
}

fn hex_digit_str(n: u8) -> (s: &'static str)
    requires
        n < 16,
    ensures
        s@ =~= seq![hex_digit(n as int)],
{
    proof {
        reveal_strlit("0");
        reveal_strlit("1");
        reveal_strlit("2");
        reveal_strlit("3");
        reveal_strlit("4");
        reveal_strlit("5");
        reveal_strlit("6");
        reveal_strlit("7");
        reveal_strlit("8");
        reveal_strlit("9");
        reveal_strlit("a");
        reveal_strlit("b");
        reveal_strlit("c");
        reveal_strlit("d");
        reveal_strlit("e");
        reveal_strlit("f");
    }
    match n {
        0 => "0",
        1 => "1",
        2 => "2",
        3 => "3",
        4 => "4",
        5 => "5",
        6 => "6",
        7 => "7",
        8 => "8",
        9 => "9",
        10 => "a",
        11 => "b",
        12 => "c",
        13 => "d",
        14 => "e",
        _ => "f",
    }
}

/// The short form of `bytes`.
pub fn hex_string(bytes: &[u8]) -> (s: String)
    ensures
        s@ == hex_text(bytes@),
{
    let mut s = String::new();
    let mut i: usize = 0;
    while i < bytes.len()
        invariant
            i <= bytes.len(),
            s@ == hex_text(bytes@.take(i as int)),
        decreases bytes.len() - i,
    {
        let b = bytes[i];
        s.append(hex_digit_str(b / 16));
        s.append(hex_digit_str(b % 16));
        assert(s@ =~= hex_text(bytes@.take(i + 1)));
        i += 1;
    }
    assert(bytes@.take(i as int) =~= bytes@);
    s
}

/// The long form of `bytes`.
pub fn long_hex_string(bytes: &[u8]) -> (s: String)
    ensures
        s@ == long_hex_text(bytes@),
{
    let mut s = String::new();
    let mut i: usize = 0;
    while i < bytes.len()
        invariant
            i <= bytes.len(),
            s@ == long_hex_text(bytes@.take(i as int)),
        decreases bytes.len() - i,
    {
        let b = bytes[i];
        proof {
            reveal_strlit("0x");
            reveal_strlit(" 0x");
            assert(bytes@.take(i + 1).drop_last() =~= bytes@.take(i as int));
        }
        if i == 0 {
            s.append("0x");
        } else {
            s.append(" 0x");
        }
        s.append(hex_digit_str(b / 16));
        s.append(hex_digit_str(b % 16));
        assert(s@ =~= long_hex_text(bytes@.take(i + 1)));
        i += 1;
    }
    assert(bytes@.take(i as int) =~= bytes@);
    s
}

/// The number that a hexadecimal digit of either case stands for.
pub open spec fn hex_value(c: char) -> Option<int> {
    if '0' <= c <= '9' {
        Some(c as u32 - '0' as u32)
    } else if 'a' <= c <= 'f' {
        Some(c as u32 - 'a' as u32 + 10)
    } else if 'A' <= c <= 'F' {
        Some(c as u32 - 'A' as u32 + 10)
    } else {
        None
    }
}

/// The byte that two characters spell in base sixteen: two digits, or a plus
/// sign and one digit. `None` where they spell none.
pub open spec fn pair_value(first: char, second: char) -> Option<u8> {
    match hex_value(second) {
        Some(low) => match hex_value(first) {
            Some(high) => Some((16 * high + low) as u8),
            None => if first == '+' {
                Some(low as u8)
            } else {
                None
            },
        },
        None => None,
    }
}

/// The bytes that one group of characters gives. A group of fewer than two
/// or more than four characters gives none; one of two or three gives the
/// byte of its first two; one of four that starts with `0x` gives the byte of
/// its last two, and any other of four gives two bytes. `None` where a pair
/// that is read spells no byte.
pub open spec fn group_bytes(group: Seq<char>) -> Option<Seq<u8>> {
    if group.len() < 2 || group.len() > 4 {
        Some(Seq::empty())
    } else if group.len() < 4 {
        match pair_value(group[0], group[1]) {
            Some(b) => Some(seq![b]),
            None => None,
        }
    } else if group[0] == '0' && group[1] == 'x' {
        match pair_value(group[2], group[3]) {
            Some(b) => Some(seq![b]),
            None => None,
        }
    } else {
        match pair_value(group[0], group[1]) {
            Some(b1) => match pair_value(group[2], group[3]) {
                Some(b2) => Some(seq![b1, b2]),
                None => None,
            },
            None => None,
        }
    }
}

/// The description of a pair that spells no byte.
pub open spec fn invalid_digit_text() -> Seq<char> {
    "invalid digit found in string"@
}

/// The characters that a stream of hexadecimal text may hold.
pub open spec fn in_hex_alphabet(c: char) -> bool {
    hex_value(c) is Some || c == 'x'
}

/// Whether a group is handed on as soon as it has grown to this: at four
/// characters, or at two unless the second is an `x`.
pub open spec fn group_is_full(group: Seq<char>) -> bool {
    group.len() == 4 || (group.len() == 2 && group[1] != 'x')
}

/// `bytes` in front of what `outcome` holds, where it holds bytes.
pub open spec fn after_bytes(bytes: Seq<u8>, outcome: Result<Seq<u8>, ErrorModel>) -> Result<
    Seq<u8>,
    ErrorModel,
> {
    match outcome {
        Ok(more) => Ok(bytes + more),
        Err(e) => Err(e),
    }
}

/// What a group gives when it is handed on.
pub open spec fn flushed(group: Seq<char>) -> Result<Seq<u8>, ErrorModel> {
    match group_bytes(group) {
        Some(bytes) => Ok(bytes),
        None => Err(ErrorModel::InvalidInputError(invalid_digit_text())),
    }
}

/// The bytes that the characters `rest` give, read from left to right, when
/// `group` is what has been gathered before them and `offset` is the place of
/// the first of them. Reading stops at the first character outside the
/// alphabet, with its offset, and at the first group that spells no byte.
/// What is left in the group at the end is handed on as it is.
pub open spec fn decode_groups(rest: Seq<char>, group: Seq<char>, offset: nat) -> Result<
    Seq<u8>,
    ErrorModel,
>
    decreases rest.len(),
{
    if rest.len() == 0 {
        flushed(group)
    } else if !in_hex_alphabet(rest[0]) {
        Err(ErrorModel::InvalidInputAtOffset(offset))
    } else {
        let grown = group.push(rest[0]);
        if group_is_full(grown) {
            match flushed(grown) {
                Ok(bytes) => after_bytes(
                    bytes,
                    decode_groups(rest.drop_first(), Seq::empty(), offset + 1),
                ),
                Err(e) => Err(e),
            }
        } else {
            decode_groups(rest.drop_first(), grown, offset + 1)
        }
    }
}

/// `text` without its white space.
pub open spec fn without_white_space(text: Seq<char>) -> Seq<char>
    decreases text.len(),
{
    if text.len() == 0 {
        text
    } else if is_white_space(text.last()) {
        without_white_space(text.drop_last())
    } else {
        without_white_space(text.drop_last()).push(text.last())
    }
}

/// The text that hexadecimal input stands for: white space is dropped, the
/// rest is read in groups, and the bytes are taken as UTF-8.
pub open spec fn hex_decoded(input: Seq<char>) -> Result<ResultModel, ErrorModel> {
    match decode_groups(without_white_space(input), Seq::empty(), 0) {
        Ok(bytes) => if valid_utf8(bytes) {
            Ok(text_result(decode_utf8(bytes)))
        } else {
            Err(ErrorModel::InvalidInputError(utf8_failure_text(bytes)))
        },
        Err(e) => Err(e),
    }
}

fn digit_value(c: char) -> (v: Option<u8>)
    ensures
        match v {
            Some(n) => hex_value(c) == Some(n as int),
            None => hex_value(c) is None,
        },
{
    if '0' <= c && c <= '9' {
        Some((c as u32 - '0' as u32) as u8)
    } else if 'a' <= c && c <= 'f' {
        Some((c as u32 - 'a' as u32 + 10) as u8)
    } else if 'A' <= c && c <= 'F' {
        Some((c as u32 - 'A' as u32 + 10) as u8)
    } else {
        None
    }
}

/// The byte that two characters spell in base sixteen.
pub fn parse_pair(first: char, second: char) -> (byte: Option<u8>)
    ensures
        byte == pair_value(first, second),
{
    match digit_value(second) {
        Some(low) => match digit_value(first) {
            Some(high) => Some(16 * high + low),
            None => if first == '+' {
                Some(low)
            } else {
                None
            },
        },
        None => None,
    }
}

fn invalid_digit() -> (e: TextOperationError)
    ensures
        e@ == ErrorModel::InvalidInputError(invalid_digit_text()),
{
    TextOperationError::InvalidInputError("invalid digit found in string".to_owned())
}

/// The bytes of one group of characters.
pub fn parse_bytes(chars: &Vec<char>) -> (outcome: Result<Vec<u8>, TextOperationError>)
    ensures
        match outcome {
            Ok(bytes) => flushed(chars@) == Ok::<Seq<u8>, ErrorModel>(bytes@),
            Err(e) => flushed(chars@) == Err::<Seq<u8>, ErrorModel>(e@),
        },
{
    let mut bytes: Vec<u8> = Vec::new();
    if chars.len() < 2 || chars.len() > 4 {
        assert(bytes@ =~= Seq::empty());
        Ok(bytes)
    } else if chars.len() < 4 {
        match parse_pair(chars[0], chars[1]) {
            Some(b) => {
                bytes.push(b);
                assert(bytes@ =~= seq![b]);
                Ok(bytes)
            },
            None => Err(invalid_digit()),
        }
    } else if chars[0] == '0' && chars[1] == 'x' {
        match parse_pair(chars[2], chars[3]) {
            Some(b) => {
                bytes.push(b);
                assert(bytes@ =~= seq![b]);
                Ok(bytes)
            },
            None => Err(invalid_digit()),
        }
    } else {
        match parse_pair(chars[0], chars[1]) {
            Some(b1) => match parse_pair(chars[2], chars[3]) {
                Some(b2) => {
                    bytes.push(b1);
                    bytes.push(b2);
                    assert(bytes@ =~= seq![b1, b2]);
                    Ok(bytes)
                },
                None => Err(invalid_digit()),
            },
            None => Err(invalid_digit()),
        }
    }
}

/// The characters of `chars` that are no white space, in order.
pub fn strip_whitespace(chars: &Vec<char>) -> (kept: Vec<char>)
    ensures
        kept@ == without_white_space(chars@),
{
    let mut kept: Vec<char> = Vec::new();
    let mut i: usize = 0;
    while i < chars.len()
        invariant
            i <= chars.len(),
            kept@ == without_white_space(chars@.take(i as int)),
        decreases chars.len() - i,
    {
        let c = chars[i];
        proof {
            assert(chars@.take(i + 1).drop_last() =~= chars@.take(i as int));
        }
        if !is_whitespace(c) {
            kept.push(c);
        }
        i += 1;
    }
    assert(chars@.take(i as int) =~= chars@);
    kept
}

/// The bytes that a stream of hexadecimal characters gives.
pub fn decode_hex_stream(chars: &Vec<char>) -> (outcome: Result<Vec<u8>, TextOperationError>)
    ensures
        match outcome {
            Ok(bytes) => decode_groups(chars@, Seq::empty(), 0) == Ok::<Seq<u8>, ErrorModel>(
                bytes@,
            ),
            Err(e) => decode_groups(chars@, Seq::empty(), 0) == Err::<Seq<u8>, ErrorModel>(e@),
        },
{
    let mut group: Vec<char> = Vec::new();
    let mut bytes: Vec<u8> = Vec::new();
    let mut i: usize = 0;
    assert(chars@.skip(0) =~= chars@);
    assert(bytes@ + Seq::<u8>::empty() =~= Seq::<u8>::empty());
    while i < chars.len()
        invariant
            i <= chars.len(),
            group@.len() < 4,
            decode_groups(chars@, Seq::empty(), 0) == after_bytes(
                bytes@,
                decode_groups(chars@.skip(i as int), group@, i as nat),
            ),
        decreases chars.len() - i,
    {
        let value = chars[i];
        let ghost rest = chars@.skip(i as int);
        let ghost before = bytes@;
        proof {
            assert(rest[0] == value);
            assert(rest.drop_first() =~= chars@.skip(i + 1));
        }
        if digit_value(value).is_none() && value != 'x' {
            return Err(TextOperationError::InvalidInputAtOffset(i));
        }
        group.push(value);
        if group.len() == 4 || (group.len() == 2 && group[1] != 'x') {
            match parse_bytes(&group) {
                Ok(mut parsed) => {
                    let ghost tail = decode_groups(chars@.skip(i + 1), Seq::empty(), (i + 1) as nat);
                    let ghost added = parsed@;
                    bytes.append(&mut parsed);
                    group.clear();
                    proof {
                        assert(group@ =~= Seq::empty());
                        match tail {
                            Ok(more) => {
                                assert(before + (added + more) =~= bytes@ + more);
                            },
                            Err(_) => {},
                        }
                    }
                },
                Err(e) => {
                    return Err(e);
                },
            }
        }
        i += 1;
    }
    assert(chars@.skip(i as int).len() == 0);
    if group.len() > 0 {
        match parse_bytes(&group) {
            Ok(mut parsed) => {
                bytes.append(&mut parsed);
            },
            Err(e) => {
                return Err(e);
            },
        }
    } else {
        assert(bytes@ + Seq::<u8>::empty() =~= bytes@);
    }
    Ok(bytes)
}

/// Writes the UTF-8 bytes of a text as hexadecimal digits, two for each
/// byte.
pub struct OperationToHex {}

impl TextOperation for OperationToHex {
    open spec fn id_view(&self) -> Seq<char> {
        "TO_HEX"@
    }

    open spec fn name_view(&self) -> Seq<char> {
        "UTF-8 to Hexadecimal"@
    }

    open spec fn converted(&self, input: Seq<char>) -> Result<ResultModel, ErrorModel> {
        Ok(text_result(hex_text(encode_utf8(input))))
    }

    fn get_id(&self) -> (id: &'static str) {
        "TO_HEX"
    }

    fn get_name(&self) -> (name: &'static str) {
        "UTF-8 to Hexadecimal"
    }

    fn convert(&self, input: &str) -> (outcome: Result<TextOperationResult, TextOperationError>) {
        let hex_string = hex_string(input.as_bytes());
        Ok(TextOperationResult::with_string(hex_string))
    }
}

/// Writes the UTF-8 bytes of a text as `0x` and two hexadecimal digits each,
/// with spaces between them.
pub struct OperationToLongHex {}

impl TextOperation for OperationToLongHex {
    open spec fn id_view(&self) -> Seq<char> {
        "TO_LONG_HEX"@
    }

    open spec fn name_view(&self) -> Seq<char> {
        "UTF-8 to Hexadecimal Long"@
    }

    open spec fn converted(&self, input: Seq<char>) -> Result<ResultModel, ErrorModel> {
        Ok(text_result(long_hex_text(encode_utf8(input))))
    }

    fn get_id(&self) -> (id: &'static str) {
        "TO_LONG_HEX"
    }

    fn get_name(&self) -> (name: &'static str) {
        "UTF-8 to Hexadecimal Long"
    }

    fn convert(&self, input: &str) -> (outcome: Result<TextOperationResult, TextOperationError>) {
        let hex_string = long_hex_string(input.as_bytes());
        Ok(TextOperationResult::with_string(hex_string))
    }
}

/// Reads hexadecimal digits, bare or with `0x` in front, as the UTF-8 bytes
/// of a text.
pub struct OperationFromHex {}

impl TextOperation for OperationFromHex {
    open spec fn id_view(&self) -> Seq<char> {
        "FROM_HEX"@
    }

    open spec fn name_view(&self) -> Seq<char> {
        "Hexadecimal to UTF-8"@
    }

    open spec fn converted(&self, input: Seq<char>) -> Result<ResultModel, ErrorModel> {
        hex_decoded(input)
    }

    fn get_id(&self) -> (id: &'static str) {
        "FROM_HEX"
    }

    fn get_name(&self) -> (name: &'static str) {
        "Hexadecimal to UTF-8"
    }

    fn convert(&self, input: &str) -> (outcome: Result<TextOperationResult, TextOperationError>) {
        let chars = chars_of(input);
        let kept = strip_whitespace(&chars);
        match decode_hex_stream(&kept) {
            Ok(bytes) => match text_from_utf8(bytes) {
                Ok(value) => Ok(TextOperationResult::with_string(value)),
                Err(description) => Err(TextOperationError::InvalidInputError(description)),
            },
            Err(e) => Err(e),
        }
    }
}

/// A digit of the short form stands for the number it was written for.
pub proof fn lemma_hex_digit_value(n: int)
    requires
        0 <= n < 16,
    ensures
        hex_value(hex_digit(n)) == Some(n),
        in_hex_alphabet(hex_digit(n)),
        hex_digit(n) != 'x',
        !is_white_space(hex_digit(n)),
{
}

/// The short form holds no white space.
pub proof fn lemma_hex_text_has_no_white_space(bytes: Seq<u8>)
    ensures
        without_white_space(hex_text(bytes)) == hex_text(bytes),
{
    let text = hex_text(bytes);
    assert(text.take(text.len() as int) =~= text);
    lemma_digits_have_no_white_space(text, bytes);
}

proof fn lemma_digits_have_no_white_space(text: Seq<char>, bytes: Seq<u8>)
    requires
        text.len() <= hex_text(bytes).len(),
        text == hex_text(bytes).take(text.len() as int),
    ensures
        without_white_space(text) == text,
    decreases text.len(),
{
    if text.len() > 0 {
        let i = text.len() - 1;
        let b = bytes[i / 2];
        lemma_hex_digit_value(b as int / 16);
        lemma_hex_digit_value(b as int % 16);
        assert(text.last() == hex_text(bytes)[i]);
        assert(text.drop_last() =~= hex_text(bytes).take(i));
        lemma_digits_have_no_white_space(text.drop_last(), bytes);
        assert(text.drop_last().push(text.last()) =~= text);
    }
}

/// Reading the short form of `bytes` in groups gives `bytes` back.
pub proof fn lemma_decode_groups_of_hex_text(bytes: Seq<u8>, offset: nat)
    ensures
        decode_groups(hex_text(bytes), Seq::empty(), offset) == Ok::<Seq<u8>, ErrorModel>(bytes),
    decreases bytes.len(),
{
    let text = hex_text(bytes);
    if bytes.len() == 0 {
        assert(text.len() == 0);
        assert(bytes =~= Seq::empty());
    } else {
        let b = bytes[0];
        let high = hex_digit(b as int / 16);
        let low = hex_digit(b as int % 16);
        lemma_hex_digit_value(b as int / 16);
        lemma_hex_digit_value(b as int % 16);
        assert(text[0] == high);
        assert(text[1] == low);
        let one = Seq::<char>::empty().push(high);
        let two = one.push(low);
        let rest = text.drop_first();
        assert(rest[0] == low);
        assert(!group_is_full(one));
        assert(group_is_full(two));
        assert(pair_value(high, low) == Some(b));
        assert(flushed(two) == Ok::<Seq<u8>, ErrorModel>(seq![b]));
        assert(rest.drop_first() =~= hex_text(bytes.drop_first()));
        lemma_decode_groups_of_hex_text(bytes.drop_first(), offset + 2);
        assert(seq![b] + bytes.drop_first() =~= bytes);
        assert(decode_groups(rest, one, offset + 1) == Ok::<Seq<u8>, ErrorModel>(bytes));
    }
}

/// A digit left over at the end is dropped: the short form of `bytes` with
/// one more digit behind it still gives `bytes`.
pub proof fn lemma_dangling_digit_is_dropped(bytes: Seq<u8>, digit: char, offset: nat)
    requires
        hex_value(digit) is Some,
    ensures
        decode_groups(hex_text(bytes).push(digit), Seq::empty(), offset) == Ok::<
            Seq<u8>,
            ErrorModel,
        >(bytes),
    decreases bytes.len(),
{
    let text = hex_text(bytes).push(digit);
    if bytes.len() == 0 {
        let one = Seq::<char>::empty().push(digit);
        assert(text[0] == digit);
        assert(!group_is_full(one));
        assert(text.drop_first().len() == 0);
        assert(flushed(one) == Ok::<Seq<u8>, ErrorModel>(Seq::empty()));
        assert(decode_groups(text.drop_first(), one, offset + 1) == Ok::<Seq<u8>, ErrorModel>(
            Seq::empty(),
        ));
        assert(bytes =~= Seq::empty());
    } else {
        let b = bytes[0];
        let high = hex_digit(b as int / 16);
        let low = hex_digit(b as int % 16);
        lemma_hex_digit_value(b as int / 16);
        lemma_hex_digit_value(b as int % 16);
        assert(text[0] == high);
        assert(text[1] == low);
        let one = Seq::<char>::empty().push(high);
        let two = one.push(low);
        let rest = text.drop_first();
        assert(rest[0] == low);
        assert(!group_is_full(one));
        assert(group_is_full(two));
        assert(pair_value(high, low) == Some(b));
        assert(flushed(two) == Ok::<Seq<u8>, ErrorModel>(seq![b]));
        assert(rest.drop_first() =~= hex_text(bytes.drop_first()).push(digit));
        lemma_dangling_digit_is_dropped(bytes.drop_first(), digit, offset + 2);
        assert(seq![b] + bytes.drop_first() =~= bytes);
        assert(decode_groups(rest, one, offset + 1) == Ok::<Seq<u8>, ErrorModel>(bytes));
    }
}

/// Whether every group that is handed on while the characters `rest` are
/// read spells its bytes, when `group` is what has been gathered before
/// them. What is left in the group at the end is not asked about.
pub open spec fn groups_spell_bytes(rest: Seq<char>, group: Seq<char>) -> bool
    decreases rest.len(),
{
    if rest.len() == 0 {
        true
    } else {
        let grown = group.push(rest[0]);
        if group_is_full(grown) {
            group_bytes(grown) is Some && groups_spell_bytes(rest.drop_first(), Seq::empty())
        } else {
            groups_spell_bytes(rest.drop_first(), grown)
        }
    }
}

/// Reading stops at the first character outside the alphabet, with its
/// offset, where every group that is handed on before it spells its bytes.
pub proof fn lemma_offset_of_first_bad_character(
    rest: Seq<char>,
    group: Seq<char>,
    offset: nat,
    i: int,
)
    requires
        0 <= i < rest.len(),
        forall|j: int| 0 <= j < i ==> in_hex_alphabet(#[trigger] rest[j]),
        !in_hex_alphabet(rest[i]),
        groups_spell_bytes(rest.take(i), group),
    ensures
        decode_groups(rest, group, offset) == Err::<Seq<u8>, ErrorModel>(
            ErrorModel::InvalidInputAtOffset((offset + i) as nat),
        ),
    decreases rest.len(),
{
    if i > 0 {
        let grown = group.push(rest[0]);
        let tail = rest.drop_first();
        assert(in_hex_alphabet(rest[0]));
        assert(forall|j: int| 0 <= j < i - 1 ==> in_hex_alphabet(#[trigger] tail[j])) by {
            assert(forall|j: int| 0 <= j < i - 1 ==> tail[j] == rest[j + 1]);
        }
        assert(tail[i - 1] == rest[i]);
        assert(rest.take(i)[0] == rest[0]);
        assert(rest.take(i).drop_first() =~= tail.take(i - 1));
        if group_is_full(grown) {
            lemma_offset_of_first_bad_character(tail, Seq::empty(), offset + 1, i - 1);
        } else {
            lemma_offset_of_first_bad_character(tail, grown, offset + 1, i - 1);
        }
    }
}

/// Where a group that is handed on before the end spells no byte, reading
/// stops there with a description, and with no offset.
pub proof fn lemma_bad_group_is_described(rest: Seq<char>, group: Seq<char>, offset: nat)
    requires
        forall|j: int| 0 <= j < rest.len() ==> in_hex_alphabet(#[trigger] rest[j]),
        !groups_spell_bytes(rest, group),
    ensures
        decode_groups(rest, group, offset) == Err::<Seq<u8>, ErrorModel>(
            ErrorModel::InvalidInputError(invalid_digit_text()),
        ),
    decreases rest.len(),
{
    if rest.len() > 0 {
        let grown = group.push(rest[0]);
        let tail = rest.drop_first();
        assert(in_hex_alphabet(rest[0]));
        assert(forall|j: int| 0 <= j < tail.len() ==> in_hex_alphabet(#[trigger] tail[j])) by {
            assert(forall|j: int| 0 <= j < tail.len() ==> tail[j] == rest[j + 1]);
        }
        if group_is_full(grown) {
            if group_bytes(grown) is Some {
                lemma_bad_group_is_described(tail, Seq::empty(), offset + 1);
            }
        } else {
            lemma_bad_group_is_described(tail, grown, offset + 1);
        }
    }
}

/// A character outside the alphabet is refused with its offset among the
/// characters that are no white space, where it is the first such character
/// and every group that is handed on before it spells its bytes.
pub proof fn lemma_hex_decode_rejects_at_offset(input: Seq<char>, i: int)
    requires
        0 <= i < without_white_space(input).len(),
        forall|j: int| 0 <= j < i ==> in_hex_alphabet(#[trigger] without_white_space(input)[j]),
        !in_hex_alphabet(without_white_space(input)[i]),
        groups_spell_bytes(without_white_space(input).take(i), Seq::empty()),
    ensures
        (OperationFromHex {}).converted(input) == Err::<ResultModel, ErrorModel>(
            ErrorModel::InvalidInputAtOffset(i as nat),
        ),
{
    lemma_offset_of_first_bad_character(without_white_space(input), Seq::empty(), 0, i);
}

/// White space carries no meaning: two inputs that differ in their white
/// space alone decode alike.
pub proof fn lemma_hex_decode_ignores_white_space(first: Seq<char>, second: Seq<char>)
    requires
        without_white_space(first) == without_white_space(second),
    ensures
        (OperationFromHex {}).converted(first) == (OperationFromHex {}).converted(second),
{
}

/// The long form without its spaces: `0x` and two digits for each byte.
pub open spec fn prefixed_hex_text(bytes: Seq<u8>) -> Seq<char> {
    Seq::new(
        4 * bytes.len(),
        |i: int|
            if i % 4 == 0 {
                '0'
            } else if i % 4 == 1 {
                'x'
            } else if i % 4 == 2 {
                hex_digit(bytes[i / 4] as int / 16)
            } else {
                hex_digit(bytes[i / 4] as int % 16)
            },
    )
}

/// Dropping white space from a text with one more character behind it.
pub proof fn lemma_without_white_space_push(text: Seq<char>, c: char)
    ensures
        without_white_space(text.push(c)) == if is_white_space(c) {
            without_white_space(text)
        } else {
            without_white_space(text).push(c)
        },
{
    assert(text.push(c).drop_last() =~= text);
}

/// The long form holds white space between its bytes and nowhere else.
pub proof fn lemma_long_hex_text_without_white_space(bytes: Seq<u8>)
    ensures
        without_white_space(long_hex_text(bytes)) == prefixed_hex_text(bytes),
    decreases bytes.len(),
{
    if bytes.len() == 0 {
        assert(prefixed_hex_text(bytes) =~= Seq::empty());
    } else {
        let b = bytes.last();
        let high = hex_digit(b as int / 16);
        let low = hex_digit(b as int % 16);
        lemma_hex_digit_value(b as int / 16);
        lemma_hex_digit_value(b as int % 16);
        let empty = Seq::<char>::empty();
        let before = if bytes.len() == 1 {
            empty
        } else {
            long_hex_text(bytes.drop_last())
        };
        let spaced = if bytes.len() == 1 {
            empty
        } else {
            long_hex_text(bytes.drop_last()).push(' ')
        };
        if bytes.len() > 1 {
            lemma_long_hex_text_without_white_space(bytes.drop_last());
            lemma_without_white_space_push(before, ' ');
        } else {
            assert(prefixed_hex_text(bytes.drop_last()) =~= empty);
        }
        assert(without_white_space(spaced) == prefixed_hex_text(bytes.drop_last()));
        lemma_without_white_space_push(spaced, '0');
        lemma_without_white_space_push(spaced.push('0'), 'x');
        lemma_without_white_space_push(spaced.push('0').push('x'), high);
        lemma_without_white_space_push(spaced.push('0').push('x').push(high), low);
        assert(long_hex_text(bytes) =~= spaced.push('0').push('x').push(high).push(low));
        assert(prefixed_hex_text(bytes) =~= prefixed_hex_text(bytes.drop_last()).push('0').push(
            'x',
        ).push(high).push(low));
    }
}

/// Reading the long form of `bytes` without its spaces gives `bytes` back.
pub proof fn lemma_decode_groups_of_prefixed_hex_text(bytes: Seq<u8>, offset: nat)
    ensures
        decode_groups(prefixed_hex_text(bytes), Seq::empty(), offset) == Ok::<
            Seq<u8>,
            ErrorModel,
        >(bytes),
    decreases bytes.len(),
{
    let text = prefixed_hex_text(bytes);
    if bytes.len() == 0 {
        assert(text.len() == 0);
        assert(bytes =~= Seq::empty());
    } else {
        let b = bytes[0];
        let high = hex_digit(b as int / 16);
        let low = hex_digit(b as int % 16);
        lemma_hex_digit_value(b as int / 16);
        lemma_hex_digit_value(b as int % 16);
        let one = Seq::<char>::empty().push('0');
        let two = one.push('x');
        let three = two.push(high);
        let four = three.push(low);
        let rest1 = text.drop_first();
        let rest2 = rest1.drop_first();
        let rest3 = rest2.drop_first();
        let rest4 = rest3.drop_first();
        assert(text[0] == '0' && text[1] == 'x' && text[2] == high && text[3] == low);
        assert(rest1[0] == 'x' && rest2[0] == high && rest3[0] == low);
        assert(in_hex_alphabet('0') && in_hex_alphabet('x'));
        assert(!group_is_full(one) && !group_is_full(two) && !group_is_full(three));
        assert(group_is_full(four));
        assert(pair_value(high, low) == Some(b));
        assert(flushed(four) == Ok::<Seq<u8>, ErrorModel>(seq![b]));
        assert(rest4 =~= prefixed_hex_text(bytes.drop_first()));
        lemma_decode_groups_of_prefixed_hex_text(bytes.drop_first(), offset + 4);
        assert(seq![b] + bytes.drop_first() =~= bytes);
        assert(decode_groups(rest3, three, offset + 3) == Ok::<Seq<u8>, ErrorModel>(bytes));
        assert(decode_groups(rest2, two, offset + 2) == Ok::<Seq<u8>, ErrorModel>(bytes));
        assert(decode_groups(rest1, one, offset + 1) == Ok::<Seq<u8>, ErrorModel>(bytes));
    }
}

/// Decoding what the long form encodes gives the text back, as for the short
/// form.
pub proof fn lemma_long_hex_round_trip(text: Seq<char>)
    ensures
        (OperationToLongHex {}).converted(text) == Ok::<ResultModel, ErrorModel>(
            text_result(long_hex_text(encode_utf8(text))),
        ),
        (OperationFromHex {}).converted(long_hex_text(encode_utf8(text))) == Ok::<
            ResultModel,
            ErrorModel,
        >(text_result(text)),
{
    let bytes = encode_utf8(text);
    lemma_long_hex_text_without_white_space(bytes);
    lemma_decode_groups_of_prefixed_hex_text(bytes, 0);
    vstd::utf8::encode_utf8_valid_utf8(text);
    vstd::utf8::encode_utf8_decode_utf8(text);
}

/// Decoding what the short form encodes gives the text back: for every text,
/// the hexadecimal digits of its UTF-8 bytes decode to that text.
pub proof fn lemma_hex_round_trip(text: Seq<char>)
    ensures
        (OperationToHex {}).converted(text) == Ok::<ResultModel, ErrorModel>(
            text_result(hex_text(encode_utf8(text))),
        ),
        (OperationFromHex {}).converted(hex_text(encode_utf8(text))) == Ok::<
            ResultModel,
            ErrorModel,
        >(text_result(text)),
{
    let bytes = encode_utf8(text);
    lemma_hex_text_has_no_white_space(bytes);
    lemma_decode_groups_of_hex_text(bytes, 0);
    vstd::utf8::encode_utf8_valid_utf8(text);
    vstd::utf8::encode_utf8_decode_utf8(text);
}

/// The same for bytes: the short form of any bytes that are valid UTF-8
/// decodes to the text that those bytes encode.
pub proof fn lemma_hex_round_trip_bytes(bytes: Seq<u8>)
    requires
        valid_utf8(bytes),
    ensures
        hex_decoded(hex_text(bytes)) == Ok::<ResultModel, ErrorModel>(
            text_result(decode_utf8(bytes)),
        ),
{
    lemma_hex_text_has_no_white_space(bytes);
    lemma_decode_groups_of_hex_text(bytes, 0);
}

} // verus!
