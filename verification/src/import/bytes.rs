//! The text of an export file from its bytes: UTF-16 (little-endian, with its
//! byte-order mark) or UTF-8.
use vstd::prelude::*;
use vstd::utf8::{decode_utf8, valid_utf8};

use crate::error::DbCommandError;
use crate::text::{chars_of, concat, string_of};

verus! {

/// The text that `String::from_utf16_lossy` makes of UTF-16 code units
/// (unpaired surrogates become U+FFFD).
pub uninterp spec fn utf16_lossy_text(units: Seq<u16>) -> Seq<char>;

/// The text of the error that `String::from_utf8` reports for bytes that are
/// not UTF-8.
pub uninterp spec fn utf8_error_text(bytes: Seq<u8>) -> Seq<char>;

/// Calls `String::from_utf16_lossy`: its text is the name above applied to the units.
#[verifier::external_body]
fn utf16_lossy(units: &[u16]) -> (r: String)
    ensures
        r@ == utf16_lossy_text(units@),
{
    String::from_utf16_lossy(units)
}

/// Calls `String::from_utf8` on a copy of `bytes`: it succeeds exactly on valid
/// UTF-8, with the decoded text; otherwise it gives its error's text, which the
/// name above stands for.
#[verifier::external_body]
fn utf8_text(bytes: &[u8]) -> (r: Result<String, String>)
    ensures
        r is Ok <==> valid_utf8(bytes@),
        r matches Ok(s) ==> s@ == decode_utf8(bytes@),
        r matches Err(e) ==> e@ == utf8_error_text(bytes@),
{
    match String::from_utf8(bytes.to_vec()) {
        Ok(s) => Ok(s),
        Err(e) => Err(e.to_string()),
    }
}

/// The little-endian 16-bit units of `t` (two bytes each, low byte first).
pub open spec fn le_units(t: Seq<u8>) -> Seq<u16> {
    Seq::new((t.len() / 2) as nat, |i: int| (t[2 * i] + 256 * t[2 * i + 1]) as u16)
}

/// The file starts with the UTF-16 little-endian byte-order mark.
pub open spec fn has_utf16_le_mark(bytes: Seq<u8>) -> bool {
    bytes.len() >= 2 && bytes[0] == 0xFF && bytes[1] == 0xFE
}

/// The message for UTF-16 bytes that do not pair up.
pub open spec fn odd_utf16_message() -> Seq<char> {
    "UTF-16 file has odd byte length after BOM."@
}

/// The message for bytes that are not UTF-8, before the decoder's own words.
pub open spec fn not_utf8_prefix() -> Seq<char> {
    "File is not valid UTF-8 (try re-exporting as UTF-8 CSV/IIF): "@
}

/// The text of an export file: after a UTF-16 little-endian byte-order mark, its
/// units decoded (refused when the bytes after the mark do not pair up);
/// otherwise the bytes as UTF-8, refused with the decoder's message when they are not.
pub fn decode_import_bytes(bytes: &[u8]) -> (r: Result<String, DbCommandError>)
    ensures
        has_utf16_le_mark(bytes@) && (bytes@.len() - 2) % 2 != 0 ==> (r matches Err(
            DbCommandError::Validation { message },
        ) && message@ == odd_utf16_message()),
        has_utf16_le_mark(bytes@) && (bytes@.len() - 2) % 2 == 0 ==> (r matches Ok(s) && s@
            == utf16_lossy_text(le_units(bytes@.skip(2)))),
        !has_utf16_le_mark(bytes@) && valid_utf8(bytes@) ==> (r matches Ok(s) && s@ == decode_utf8(
            bytes@,
        )),
        !has_utf16_le_mark(bytes@) && !valid_utf8(bytes@) ==> (r matches Err(
            DbCommandError::Validation { message },
        ) && message@ == not_utf8_prefix() + utf8_error_text(bytes@)),
{
    if bytes.len() >= 2 && bytes[0] == 0xFF && bytes[1] == 0xFE {
        let n = bytes.len() - 2;
        if n % 2 != 0 {
            return Err(
                DbCommandError::Validation {
                    message: "UTF-16 file has odd byte length after BOM.".to_owned(),
                },
            );
        }
        let ghost tail = bytes@.skip(2);
        let mut units: Vec<u16> = Vec::new();
        let mut i: usize = 0;
        while i < n / 2
            invariant
                n == bytes@.len() - 2,
                n % 2 == 0,
                tail == bytes@.skip(2),
                i <= n / 2,
                units@ == le_units(tail).take(i as int),
            decreases n / 2 - i,
        {
            let lo = bytes[2 + 2 * i] as u16;
            let hi = bytes[2 + 2 * i + 1] as u16;
            let u: u16 = lo + hi * 256;
            proof {
                assert(tail[2 * i] == bytes@[2 + 2 * i]);
                assert(tail[2 * i + 1] == bytes@[2 + 2 * i + 1]);
                assert(le_units(tail)[i as int] == u);
            }
            units.push(u);
            assert(units@ =~= le_units(tail).take(i + 1));
            i = i + 1;
        }
        assert(le_units(tail).take((n / 2) as int) =~= le_units(tail));
        return Ok(utf16_lossy(&units));
    }
    match utf8_text(bytes) {
        Ok(s) => Ok(s),
        Err(e) => {
            let msg = concat(
                &chars_of("File is not valid UTF-8 (try re-exporting as UTF-8 CSV/IIF): "),
                &chars_of(e.as_str()),
            );
            Err(DbCommandError::Validation { message: string_of(&msg) })
        },
    }
}

} // verus!
