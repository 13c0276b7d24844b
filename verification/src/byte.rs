//! Byte classes used by the HTTP parsers.

use vstd::prelude::*;

verus! {

/// A visible 7-bit byte: `0x21` through `0x7E`.
pub open spec fn spec_is_visible_7bit(b: u8) -> bool {
    0x21 <= b && b <= 0x7E
}

/// An ASCII decimal digit.
pub open spec fn spec_is_digit(b: u8) -> bool {
    0x30 <= b && b <= 0x39
}

/// An upper-case ASCII letter.
pub open spec fn spec_is_upper(b: u8) -> bool {
    0x41 <= b && b <= 0x5A
}

/// An ASCII hexadecimal digit (either case).
pub open spec fn spec_is_hex(b: u8) -> bool {
    spec_is_digit(b) || (0x41 <= b && b <= 0x46) || (0x61 <= b && b <= 0x66)
}

/// The numeric value of a hexadecimal digit.
pub open spec fn spec_hex_value(b: u8) -> u8 {
    if spec_is_digit(b) {
        (b - 0x30) as u8
    } else if 0x41 <= b && b <= 0x46 {
        (b - 0x37) as u8
    } else {
        (b - 0x57) as u8
    }
}

/// HTTP separators (RFC 2616, section 2.2).
pub open spec fn spec_is_separator(b: u8) -> bool {
    b == 0x28 || b == 0x29 || b == 0x3C || b == 0x3E || b == 0x40 || b == 0x2C || b == 0x3B
        || b == 0x3A || b == 0x5C || b == 0x22 || b == 0x2F || b == 0x5B || b == 0x5D
        || b == 0x3F || b == 0x3D || b == 0x7B || b == 0x7D || b == 0x20 || b == 0x09
}

/// An HTTP token byte: a 7-bit byte that is neither a control byte nor a separator.
pub open spec fn spec_is_token(b: u8) -> bool {
    spec_is_visible_7bit(b) && !spec_is_separator(b)
}

/// A byte allowed in a non-quoted header field: tab, space, the visible 7-bit bytes except
/// `"`, `:`, `<`, `>`, `?`, `@`, `[`, `\`, `]`, `{`, `}`, and every byte from `0x80` up.
pub open spec fn spec_is_header_field(b: u8) -> bool {
    b == 0x09 || b == 0x20 || b >= 0x80 || (spec_is_visible_7bit(b) && !(b == 0x22 || b == 0x3A
        || b == 0x3C || b == 0x3E || b == 0x3F || b == 0x40 || b == 0x5B || b == 0x5C || b
        == 0x5D || b == 0x7B || b == 0x7D))
}

/// A byte allowed in a quoted header field: tab, space, the visible 7-bit bytes except `"` and
/// `\`, and every byte from `0x80` up.
pub open spec fn spec_is_quoted_header_field(b: u8) -> bool {
    b == 0x09 || b == 0x20 || b >= 0x80 || (spec_is_visible_7bit(b) && b != 0x22 && b != 0x5C)
}

/// A byte that separates or introduces an escape in URL encoded data: `%`, `&`, `+`, `;`, `=`.
pub open spec fn spec_is_url_encoded_separator(b: u8) -> bool {
    b == 0x25 || b == 0x26 || b == 0x2B || b == 0x3B || b == 0x3D
}

/// Indicates that a byte is allowed in non-quoted header field.
pub fn is_header_field(byte: u8) -> (r: bool)
    ensures
        r == spec_is_header_field(byte),
{
    byte == 0x09 || byte == 0x20 || byte >= 0x80 || (0x21 <= byte && byte <= 0x7E && !(byte
        == 0x22 || byte == 0x3A || byte == 0x3C || byte == 0x3E || byte == 0x3F || byte == 0x40
        || byte == 0x5B || byte == 0x5C || byte == 0x5D || byte == 0x7B || byte == 0x7D))
}

/// Indicates that a byte is allowed in a quoted header field.
///
/// This excludes `"` and `\`, so that a collection loop will break.
pub fn is_quoted_header_field(byte: u8) -> (r: bool)
    ensures
        r == spec_is_quoted_header_field(byte),
{
    byte == 0x09 || byte == 0x20 || byte >= 0x80 || (0x21 <= byte && byte <= 0x7E && byte != 0x22
        && byte != 0x5C)
}

/// Indicates that a byte is a HTTP token.
pub fn is_token(byte: u8) -> (r: bool)
    ensures
        r == spec_is_token(byte),
{
    0x21 <= byte && byte <= 0x7E && !(byte == 0x28 || byte == 0x29 || byte == 0x3C || byte == 0x3E
        || byte == 0x40 || byte == 0x2C || byte == 0x3B || byte == 0x3A || byte == 0x5C || byte
        == 0x22 || byte == 0x2F || byte == 0x5B || byte == 0x5D || byte == 0x3F || byte == 0x3D
        || byte == 0x7B || byte == 0x7D || byte == 0x20 || byte == 0x09)
}

/// Indicates that a byte is a URL encoded separator.
pub fn is_url_encoded_separator(byte: u8) -> (r: bool)
    ensures
        r == spec_is_url_encoded_separator(byte),
{
    byte == 0x25 || byte == 0x26 || byte == 0x2B || byte == 0x3B || byte == 0x3D
}

/// Indicates that a byte is visible 7-bit.
pub fn is_visible_7bit(byte: u8) -> (r: bool)
    ensures
        r == spec_is_visible_7bit(byte),
{
    0x21 <= byte && byte <= 0x7E
}

/// Indicates that a byte is an ASCII decimal digit.
pub fn is_digit(byte: u8) -> (r: bool)
    ensures
        r == spec_is_digit(byte),
{
    0x30 <= byte && byte <= 0x39
}

/// Indicates that a byte is an upper-case ASCII letter.
pub fn is_upper(byte: u8) -> (r: bool)
    ensures
        r == spec_is_upper(byte),
{
    0x41 <= byte && byte <= 0x5A
}

/// Indicates that a byte is a hexadecimal digit.
pub fn is_hex(byte: u8) -> (r: bool)
    ensures
        r == spec_is_hex(byte),
{
    (0x30 <= byte && byte <= 0x39) || (0x41 <= byte && byte <= 0x46) || (0x61 <= byte && byte
        <= 0x66)
}

/// Convert a hexadecimal digit to its numeric value.
pub fn hex_to_byte(byte: u8) -> (r: u8)
    requires
        spec_is_hex(byte),
    ensures
        r == spec_hex_value(byte),
        r < 16,
{
    if 0x30 <= byte && byte <= 0x39 {
        byte - 0x30
    } else if 0x41 <= byte && byte <= 0x46 {
        byte - 0x37
    } else {
        byte - 0x57
    }
}

} // verus!
