//! The custom ids of buttons.

use crate::text::{chars_of, find, spec_find, CharClass};
use vstd::prelude::*;
use vstd::slice::slice_subrange;
use vstd::string::{StrSliceExecFns, StringExecFns};

verus! {

/// What a button of a message asks for: the id of the data that the button belongs to, and the
/// action to take on it.
#[derive(Debug)]
pub struct MessageComponentIntent {
    /// The 12 bytes of the id.
    pub id: Vec<u8>,
    /// The action, if the button names one.
    pub action: Option<String>,
}

/// Why the custom id of a button could not be read.
#[derive(Clone, Copy, Debug, PartialEq, Eq, Structural)]
pub enum CustomIDParseError {
    /// The id is not written as 24 hexadecimal digits.
    MalformedID,
}

/// The value of a hexadecimal digit, upper or lower case.
pub open spec fn hex_value(c: char) -> Option<u8> {
    if '0' <= c <= '9' {
        Some((c as u32 - '0' as u32) as u8)
    } else if 'a' <= c <= 'f' {
        Some((c as u32 - 'a' as u32 + 10) as u8)
    } else if 'A' <= c <= 'F' {
        Some((c as u32 - 'A' as u32 + 10) as u8)
    } else {
        None
    }
}

/// The 12 bytes that `text` names, if it is made of 24 hexadecimal digits: two digits for each
/// byte, the high half first.
pub open spec fn spec_object_id(text: Seq<char>) -> Option<Seq<u8>> {
    if text.len() == 24 && forall|i: int| 0 <= i < 24 ==> hex_value(#[trigger] text[i]) is Some {
        Some(
            Seq::new(
                12,
                |i: int| (hex_value(text[2 * i])->0 * 16 + hex_value(text[2 * i + 1])->0) as u8,
            ),
        )
    } else {
        None
    }
}

/// What the custom id `text` asks for: the part before the first colon is the id, the part
/// after it the action; without a colon all of it is the id and there is no action.
pub open spec fn spec_intent(text: Seq<char>) -> Option<(Seq<u8>, Option<Seq<char>>)> {
    let colon = spec_find(text, CharClass::Is(':'));
    match spec_object_id(text.take(colon)) {
        Some(id) => Some(
            (
                id,
                if colon < text.len() {
                    Some(text.skip(colon + 1))
                } else {
                    None
                },
            ),
        ),
        None => None,
    }
}

/// The value of a hexadecimal digit.
fn digit_value(c: char) -> (value: Option<u8>)
    ensures
        value == hex_value(c),
        value matches Some(v) ==> v < 16,
{
    let code = c as u32;
    if '0' <= c && c <= '9' {
        Some((code - '0' as u32) as u8)
    } else if 'a' <= c && c <= 'f' {
        Some((code - 'a' as u32 + 10) as u8)
    } else if 'A' <= c && c <= 'F' {
        Some((code - 'A' as u32 + 10) as u8)
    } else {
        None
    }
}

/// Reads the 12 bytes of an id from its 24 hexadecimal digits.
pub fn parse_object_id(text: &[char]) -> (id: Option<Vec<u8>>)
    ensures
        match id {
            Some(bytes) => spec_object_id(text@) == Some(bytes@),
            None => spec_object_id(text@) is None,
        },
{
    if text.len() != 24 {
        return None;
    }
    let mut bytes: Vec<u8> = Vec::new();
    let mut i: usize = 0;
    while i < 12
        invariant
            i <= 12,
            text@.len() == 24,
            bytes@.len() == i,
            forall|j: int| 0 <= j < 2 * i ==> hex_value(#[trigger] text@[j]) is Some,
            forall|j: int|
                0 <= j < i ==> #[trigger] bytes@[j] == (hex_value(text@[2 * j])->0 * 16
                    + hex_value(text@[2 * j + 1])->0) as u8,
        decreases 12 - i,
    {
        let high = digit_value(text[2 * i]);
        let low = digit_value(text[2 * i + 1]);
        match (high, low) {
            (Some(high), Some(low)) => {
                bytes.push(high * 16 + low);
            },
            _ => {
                return None;
            },
        }
        i += 1;
    }
    assert(bytes@ =~= spec_object_id(text@)->0);
    Some(bytes)
}

impl MessageComponentIntent {
    /// Reads the custom id of a button: the id in 24 hexadecimal digits, then, if the button
    /// names an action, a colon and the action.
    pub fn try_from(value: &str) -> (res: Result<MessageComponentIntent, CustomIDParseError>)
        ensures
            match res {
                Ok(intent) => spec_intent(value@) == Some(
                    (
                        intent.id@,
                        match intent.action {
                            Some(action) => Some(action@),
                            None => None,
                        },
                    ),
                ),
                Err(_) => spec_intent(value@) is None,
            },
    {
        let chars = chars_of(value);
        let colon = find(chars.as_slice(), CharClass::Is(':'));
        let head = slice_subrange(chars.as_slice(), 0, colon);
        assert(head@ =~= value@.take(colon as int));
        let id = match parse_object_id(head) {
            Some(id) => id,
            None => {
                return Err(CustomIDParseError::MalformedID);
            },
        };
        let action = if colon < chars.len() {
            Some(String::from_str(value.substring_char(colon + 1, chars.len())))
        } else {
            None
        };
        Ok(MessageComponentIntent { id, action })
    }
}

} // verus!
