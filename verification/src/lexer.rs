//! The pieces that Glass source text is made of: blanks and comments, names,
//! integers, number and string literals.
//!
//! Each piece is stated as a function on the bytes of the text and an
//! offset, and read by a function on a `CodeReader` that is proved to follow
//! it.

use vstd::prelude::*;
use byte_string::ByteString;
use crate::bytes::{as_bytes, bytes_of, new_byte_string};
use crate::parser::ParseError;
use crate::reader::CodeReader;

verus! {

/// Blank, tab, line feed, form feed or carriage return.
pub open spec fn is_space(c: u8) -> bool {
    c == ' ' as u8 || c == '\t' as u8 || c == '\n' as u8 || c == 12 || c == '\r' as u8
}

/// A decimal digit.
pub open spec fn is_digit(c: u8) -> bool {
    '0' as u8 <= c <= '9' as u8
}

/// An upper-case letter.
pub open spec fn is_upper(c: u8) -> bool {
    'A' as u8 <= c <= 'Z' as u8
}

/// A lower-case letter.
pub open spec fn is_lower(c: u8) -> bool {
    'a' as u8 <= c <= 'z' as u8
}

/// A letter.
pub open spec fn is_alpha(c: u8) -> bool {
    is_upper(c) || is_lower(c)
}

/// The offset of the first byte at or after `at` that is neither blank nor
/// inside a comment, or the length of the text if there is none. A comment
/// runs from one single quote to the next; `in_comment` tells whether `at`
/// lies inside one.
pub open spec fn skip(src: Seq<u8>, at: nat, in_comment: bool) -> nat
    decreases src.len() - at,
{
    if at >= src.len() {
        src.len()
    } else if in_comment {
        skip(src, at + 1, src[at as int] != '\'' as u8)
    } else if src[at as int] == '\'' as u8 {
        skip(src, at + 1, true)
    } else if is_space(src[at as int]) {
        skip(src, at + 1, false)
    } else {
        at
    }
}

/// The offset of the first `stop` at or after `from`, or the length of the
/// text if there is none.
pub open spec fn find(src: Seq<u8>, from: nat, stop: u8) -> nat
    decreases src.len() - from,
{
    if from >= src.len() {
        src.len()
    } else if src[from as int] == stop {
        from
    } else {
        find(src, from + 1, stop)
    }
}

/// A name written out in parentheses: letters, digits and underscores, the
/// first no digit.
pub open spec fn is_valid_name(name: Seq<u8>) -> bool {
    &&& name.len() > 0
    &&& !is_digit(name[0])
    &&& forall|i: int| 0 <= i < name.len() ==> name[i] == '_' as u8 || is_alpha(#[trigger] name[i]) || is_digit(name[i])
}

/// The number that the first `count` bytes spell in decimal, as far as they
/// are digits and it stays within a byte. The first byte that breaks either
/// rule decides the error.
pub open spec fn integer_prefix(text: Seq<u8>, count: nat) -> Result<nat, ParseError>
    decreases count,
{
    if count == 0 {
        Ok(0)
    } else {
        match integer_prefix(text, (count - 1) as nat) {
            Err(error) => Err(error),
            Ok(value) => {
                let c = text[count - 1];
                if !is_digit(c) {
                    Err(ParseError::InvalidInteger)
                } else if value * 10 + (c - '0' as u8) > 255 {
                    Err(ParseError::IndexTooBig)
                } else {
                    Ok((value * 10 + (c - '0' as u8)) as nat)
                }
            },
        }
    }
}

/// The stack depth that the text between two parentheses spells.
pub open spec fn integer_of(text: Seq<u8>) -> Result<u8, ParseError> {
    if text.len() == 0 {
        Err(ParseError::InvalidNumber)
    } else {
        match integer_prefix(text, text.len()) {
            Err(error) => Err(error),
            Ok(value) => Ok(value as u8),
        }
    }
}

/// The name that begins at or after `at`, behind blanks and comments, and
/// the offset behind it: one letter, or a valid name in parentheses.
pub open spec fn name_at(src: Seq<u8>, at: nat) -> Option<(Seq<u8>, nat)> {
    let start = skip(src, at, false);
    if start >= src.len() {
        None
    } else if is_alpha(src[start as int]) {
        Some((seq![src[start as int]], start + 1))
    } else if src[start as int] == '(' as u8 {
        let close = find(src, start + 1, ')' as u8);
        let name = src.subrange(start + 1 as int, close as int);
        if close < src.len() && is_valid_name(name) {
            Some((name, close + 1))
        } else {
            None
        }
    } else {
        None
    }
}

/// The offset behind the digits that begin at `from`.
pub open spec fn digits_end(text: Seq<u8>, from: nat) -> nat
    decreases text.len() - from,
{
    if from < text.len() && is_digit(text[from as int]) {
        digits_end(text, from + 1)
    } else {
        from
    }
}

/// Whether `text` is `word`, in upper or lower case. `word` is in lower
/// case.
pub open spec fn is_word(text: Seq<u8>, word: Seq<u8>) -> bool {
    &&& text.len() == word.len()
    &&& forall|i: int| 0 <= i < word.len() ==> #[trigger] text[i] == word[i] || text[i] + 32 == word[i]
}

/// The words for the numbers that no digits spell.
pub open spec fn is_special_number(text: Seq<u8>) -> bool {
    ||| is_word(text, seq!['i' as u8, 'n' as u8, 'f' as u8])
    ||| is_word(text, seq!['i' as u8, 'n' as u8, 'f' as u8, 'i' as u8, 'n' as u8, 'i' as u8, 't' as u8, 'y' as u8])
    ||| is_word(text, seq!['n' as u8, 'a' as u8, 'n' as u8])
}

/// Whether `text` from `from` on is an exponent: `e` or `E`, a sign or
/// none, and digits to the end of the text.
pub open spec fn is_exponent(text: Seq<u8>, from: nat) -> bool {
    let digits = if from + 1 < text.len() && (text[from + 1 as int] == '+' as u8 || text[from + 1 as int] == '-' as u8) {
        from + 2
    } else {
        from + 1
    };
    &&& from < text.len()
    &&& (text[from as int] == 'e' as u8 || text[from as int] == 'E' as u8)
    &&& digits < text.len()
    &&& digits_end(text, digits) == text.len()
}

/// Whether `text` from `from` on is a decimal number: digits with at most
/// one point among them, at least one digit, and an exponent or none.
pub open spec fn is_decimal(text: Seq<u8>, from: nat) -> bool {
    let whole_end = digits_end(text, from);
    let pointed = whole_end < text.len() && text[whole_end as int] == '.' as u8;
    let end = if pointed {
        digits_end(text, whole_end + 1)
    } else {
        whole_end
    };
    let count = if pointed {
        end - from - 1
    } else {
        end - from
    };
    &&& count > 0
    &&& (end == text.len() || is_exponent(text, end))
}

/// Whether `text` is a number literal: a sign or none, then a decimal
/// number or one of the words `inf`, `infinity` and `nan`.
pub open spec fn is_number_literal(text: Seq<u8>) -> bool {
    let from: nat = if text.len() > 0 && (text[0] == '+' as u8 || text[0] == '-' as u8) {
        1
    } else {
        0
    };
    is_special_number(text.skip(from as int)) || is_decimal(text, from)
}

/// The byte that stands behind a backslash in a string literal: `n` is a
/// line feed, any other byte is itself.
pub open spec fn escaped(c: u8) -> u8 {
    if c == 'n' as u8 {
        '\n' as u8
    } else {
        c
    }
}

/// The bytes of the string literal whose text begins at `at`, behind its
/// opening quote, added to `read`, and the offset behind its closing quote.
/// None if the text ends first.
pub open spec fn string_at(src: Seq<u8>, at: nat, read: Seq<u8>) -> Option<(Seq<u8>, nat)>
    decreases src.len() - at,
{
    if at >= src.len() {
        None
    } else if src[at as int] == '"' as u8 {
        Some((read, at + 1))
    } else if src[at as int] == '\\' as u8 {
        if at + 1 >= src.len() {
            None
        } else {
            string_at(src, at + 2, read.push(escaped(src[at + 1 as int])))
        }
    } else {
        string_at(src, at + 1, read.push(src[at as int]))
    }
}

/// Skips blanks and comments. Tells whether there is a byte left to read.
pub fn skip_whitespace(reader: &mut CodeReader) -> (found: bool)
    requires
        old(reader).wf(),
    ensures
        final(reader).wf(),
        final(reader).code == old(reader).code,
        final(reader).at == skip(old(reader).code@, old(reader).at as nat, false),
        final(reader).at >= old(reader).at,
        found == (final(reader).at < final(reader).code.len()),
{
    let mut in_comment: bool = false;
    loop
        invariant
            reader.wf(),
            reader.code == old(reader).code,
            reader.at >= old(reader).at,
            skip(reader.code@, old(reader).at as nat, false) == skip(
                reader.code@,
                reader.at as nat,
                in_comment,
            ),
        decreases reader.code.len() - reader.at,
    {
        match reader.peek() {
            None => {
                return false;
            },
            Some(c) => {
                if in_comment {
                    reader.next();
                    in_comment = c != '\'' as u8;
                } else if c == '\'' as u8 {
                    reader.next();
                    in_comment = true;
                } else if c == ' ' as u8 || c == '\t' as u8 || c == '\n' as u8 || c == 12 || c == '\r' as u8 {
                    reader.next();
                } else {
                    return true;
                }
            },
        }
    }
}

/// Reads up to and with the next `stop`, and gives the bytes before it.
/// None if the text ends first.
pub fn read_until(reader: &mut CodeReader, stop: u8) -> (read: Option<Vec<u8>>)
    requires
        old(reader).wf(),
    ensures
        final(reader).wf(),
        final(reader).code == old(reader).code,
        final(reader).at >= old(reader).at,
        ({
            let end = find(old(reader).code@, old(reader).at as nat, stop);
            if end < old(reader).code.len() {
                &&& read is Some
                &&& read->Some_0@ == old(reader).code@.subrange(old(reader).at as int, end as int)
                &&& final(reader).at == end + 1
            } else {
                read is None
            }
        }),
{
    let mut bytes: Vec<u8> = Vec::new();
    loop
        invariant
            reader.wf(),
            reader.code == old(reader).code,
            old(reader).at <= reader.at,
            find(reader.code@, old(reader).at as nat, stop) == find(reader.code@, reader.at as nat, stop),
            bytes@ == reader.code@.subrange(old(reader).at as int, reader.at as int),
        decreases reader.code.len() - reader.at,
    {
        match reader.next() {
            None => {
                return None;
            },
            Some((c, _)) => {
                if c == stop {
                    return Some(bytes);
                }
                bytes.push(c);
                assert(bytes@ =~= reader.code@.subrange(old(reader).at as int, reader.at as int));
            },
        }
    }
}

/// Whether the bytes are a name that may stand in parentheses.
pub fn valid_name(name: &ByteString) -> (valid: bool)
    ensures
        valid == is_valid_name(bytes_of(*name)),
{
    let bytes: &Vec<u8> = as_bytes(name);
    if bytes.len() == 0 {
        return false;
    }
    if bytes[0] >= '0' as u8 && bytes[0] <= '9' as u8 {
        return false;
    }
    let mut i: usize = 0;
    while i < bytes.len()
        invariant
            i <= bytes.len(),
            bytes@ == bytes_of(*name),
            forall|j: int| 0 <= j < i ==> bytes[j] == '_' as u8 || is_alpha(#[trigger] bytes[j]) || is_digit(bytes[j]),
        decreases bytes.len() - i,
    {
        let c: u8 = bytes[i];
        let letter: bool = (c >= 'A' as u8 && c <= 'Z' as u8) || (c >= 'a' as u8 && c <= 'z' as u8);
        if c != '_' as u8 && !letter && !(c >= '0' as u8 && c <= '9' as u8) {
            assert(!is_alpha(bytes[i as int]));
            return false;
        }
        i += 1;
    }
    true
}

/// The stack depth that the bytes spell: a decimal number from 0 to 255.
pub fn get_integer(int_str: &ByteString) -> (r: Result<u8, ParseError>)
    ensures
        r == integer_of(bytes_of(*int_str)),
{
    let bytes: &Vec<u8> = as_bytes(int_str);
    if bytes.len() == 0 {
        return Err(ParseError::InvalidNumber);
    }
    let mut integer: usize = 0;
    let mut i: usize = 0;
    while i < bytes.len()
        invariant
            i <= bytes.len(),
            bytes.len() > 0,
            bytes@ == bytes_of(*int_str),
            integer <= 255,
            integer_prefix(bytes@, i as nat) == Ok::<nat, ParseError>(integer as nat),
        decreases bytes.len() - i,
    {
        let c: u8 = bytes[i];
        if !(c >= '0' as u8 && c <= '9' as u8) {
            proof {
                assert(integer_prefix(bytes@, (i + 1) as nat) == Err::<nat, ParseError>(
                    ParseError::InvalidInteger,
                ));
                lemma_integer_error(bytes@, (i + 1) as nat, bytes.len() as nat);
            }
            return Err(ParseError::InvalidInteger);
        }
        integer = integer * 10 + (c - '0' as u8) as usize;
        if integer > 255 {
            proof {
                assert(integer_prefix(bytes@, (i + 1) as nat) == Err::<nat, ParseError>(
                    ParseError::IndexTooBig,
                ));
                lemma_integer_error(bytes@, (i + 1) as nat, bytes.len() as nat);
            }
            return Err(ParseError::IndexTooBig);
        }
        i += 1;
    }
    Ok(integer as u8)
}

/// An error in a prefix is the error of every longer prefix.
proof fn lemma_integer_error(text: Seq<u8>, count: nat, longer: nat)
    requires
        count <= longer,
        integer_prefix(text, count) is Err,
    ensures
        integer_prefix(text, longer) == integer_prefix(text, count),
    decreases longer,
{
    if count < longer {
        lemma_integer_error(text, count, (longer - 1) as nat);
    }
}

/// Reads a name: one letter, or a valid name in parentheses.
pub fn parse_name(reader: &mut CodeReader) -> (name: Option<ByteString>)
    requires
        old(reader).wf(),
    ensures
        final(reader).wf(),
        final(reader).code == old(reader).code,
        final(reader).at >= old(reader).at,
        match name_at(old(reader).code@, old(reader).at as nat) {
            Some((bytes, next)) => name is Some && bytes_of(name->Some_0) == bytes && final(reader).at
                == next,
            None => name is None,
        },
{
    if !skip_whitespace(reader) {
        return None;
    }
    let first: u8 = match reader.peek() {
        Some(c) => c,
        None => {
            return None;
        },
    };
    if (first >= 'A' as u8 && first <= 'Z' as u8) || (first >= 'a' as u8 && first <= 'z' as u8) {
        reader.next();
        let mut one: Vec<u8> = Vec::new();
        one.push(first);
        assert(one@ =~= seq![first]);
        Some(new_byte_string(one))
    } else if first == '(' as u8 {
        reader.next();
        match read_until(reader, ')' as u8) {
            None => None,
            Some(bytes) => {
                let name: ByteString = new_byte_string(bytes);
                if valid_name(&name) {
                    Some(name)
                } else {
                    None
                }
            },
        }
    } else {
        None
    }
}

/// Whether the bytes from `from` on are `word`, in upper or lower case.
fn matches_word(text: &Vec<u8>, from: usize, word: &Vec<u8>) -> (same: bool)
    requires
        from <= text.len(),
    ensures
        same == is_word(text@.skip(from as int), word@),
{
    if text.len() - from != word.len() {
        return false;
    }
    let mut i: usize = 0;
    while i < word.len()
        invariant
            i <= word.len(),
            from <= text.len(),
            text.len() - from == word.len(),
            forall|j: int| 0 <= j < i ==> #[trigger] text@.skip(from as int)[j] == word[j] || text@.skip(
                from as int,
            )[j] + 32 == word[j],
        decreases word.len() - i,
    {
        let c: u8 = text[from + i];
        if !(c == word[i] || (c <= 223 && c + 32 == word[i])) {
            assert(text@.skip(from as int)[i as int] == c);
            return false;
        }
        i += 1;
    }
    true
}

/// The offset behind the digits that begin at `from`.
fn skip_digits(text: &Vec<u8>, from: usize) -> (end: usize)
    requires
        from <= text.len(),
    ensures
        end == digits_end(text@, from as nat),
        from <= end <= text.len(),
{
    let mut end: usize = from;
    while end < text.len() && text[end] >= '0' as u8 && text[end] <= '9' as u8
        invariant
            from <= end <= text.len(),
            digits_end(text@, from as nat) == digits_end(text@, end as nat),
        decreases text.len() - end,
    {
        end += 1;
    }
    end
}

/// Whether the bytes are a number literal.
pub fn valid_number(text: &Vec<u8>) -> (valid: bool)
    ensures
        valid == is_number_literal(text@),
{
    let from: usize = if text.len() > 0 && (text[0] == '+' as u8 || text[0] == '-' as u8) {
        1
    } else {
        0
    };
    let inf: Vec<u8> = vec!['i' as u8, 'n' as u8, 'f' as u8];
    let infinity: Vec<u8> = vec!['i' as u8, 'n' as u8, 'f' as u8, 'i' as u8, 'n' as u8, 'i' as u8, 't' as u8, 'y' as u8];
    let nan: Vec<u8> = vec!['n' as u8, 'a' as u8, 'n' as u8];
    assert(inf@ =~= seq!['i' as u8, 'n' as u8, 'f' as u8]);
    assert(infinity@ =~= seq!['i' as u8, 'n' as u8, 'f' as u8, 'i' as u8, 'n' as u8, 'i' as u8, 't' as u8, 'y' as u8]);
    assert(nan@ =~= seq!['n' as u8, 'a' as u8, 'n' as u8]);
    if matches_word(text, from, &inf) || matches_word(text, from, &infinity) || matches_word(
        text,
        from,
        &nan,
    ) {
        return true;
    }
    let whole_end: usize = skip_digits(text, from);
    let pointed: bool = whole_end < text.len() && text[whole_end] == '.' as u8;
    let end: usize = if pointed {
        skip_digits(text, whole_end + 1)
    } else {
        whole_end
    };
    let count: usize = if pointed {
        end - from - 1
    } else {
        end - from
    };
    if count == 0 {
        return false;
    }
    if end == text.len() {
        return true;
    }
    if text[end] != 'e' as u8 && text[end] != 'E' as u8 {
        return false;
    }
    let digits: usize = if end + 1 < text.len() && (text[end + 1] == '+' as u8 || text[end + 1] == '-' as u8) {
        end + 2
    } else {
        end + 1
    };
    digits < text.len() && skip_digits(text, digits) == text.len()
}

/// Reads a string literal behind its opening quote. None if the text ends
/// before the closing quote.
pub fn read_string(reader: &mut CodeReader) -> (read: Option<Vec<u8>>)
    requires
        old(reader).wf(),
    ensures
        final(reader).wf(),
        final(reader).code == old(reader).code,
        final(reader).at >= old(reader).at,
        match string_at(old(reader).code@, old(reader).at as nat, Seq::empty()) {
            Some((bytes, next)) => read is Some && read->Some_0@ == bytes && final(reader).at == next,
            None => read is None,
        },
{
    let mut bytes: Vec<u8> = Vec::new();
    loop
        invariant
            reader.wf(),
            reader.code == old(reader).code,
            reader.at >= old(reader).at,
            string_at(reader.code@, old(reader).at as nat, Seq::empty()) == string_at(
                reader.code@,
                reader.at as nat,
                bytes@,
            ),
        decreases reader.code.len() - reader.at,
    {
        match reader.next() {
            None => {
                return None;
            },
            Some((c, _)) => {
                if c == '"' as u8 {
                    return Some(bytes);
                } else if c == '\\' as u8 {
                    match reader.next() {
                        None => {
                            return None;
                        },
                        Some((escape, _)) => {
                            if escape == 'n' as u8 {
                                bytes.push('\n' as u8);
                            } else {
                                bytes.push(escape);
                            }
                        },
                    }
                } else {
                    bytes.push(c);
                }
            },
        }
    }
}

} // verus!
