use vstd::prelude::*;

verus! {

/// `hex::FromHexError`, carried through unread.
#[verifier::external_type_specification]
#[verifier::external_body]
pub struct ExFromHexError(hex::FromHexError);

/// An opaque RGB colour.
#[derive(Clone, Copy, Debug)]
pub struct Color(pub [u8; 3]);

/// Whether `c` is a hexadecimal digit, in either case.
pub open spec fn is_hex_digit(c: char) -> bool {
    ('0' <= c && c <= '9') || ('a' <= c && c <= 'f') || ('A' <= c && c <= 'F')
}

/// The value of a hexadecimal digit.
pub open spec fn hex_digit_value(c: char) -> int {
    if '0' <= c && c <= '9' {
        c as int - '0' as int
    } else if 'a' <= c && c <= 'f' {
        c as int - 'a' as int + 10
    } else {
        c as int - 'A' as int + 10
    }
}

/// Six hexadecimal digits.
pub open spec fn is_hex_color(s: Seq<char>) -> bool {
    s.len() == 6 && forall|i: int| 0 <= i < 6 ==> is_hex_digit(#[trigger] s[i])
}

/// The three bytes that six hexadecimal digits spell, two digits a byte.
pub open spec fn hex_color_bytes(s: Seq<char>) -> Seq<u8> {
    Seq::new(
        3,
        |i: int| (16 * hex_digit_value(s[2 * i]) + hex_digit_value(s[2 * i + 1])) as u8,
    )
}

/// A text without its leading `#` characters.
pub open spec fn without_hashes(s: Seq<char>) -> Seq<char>
    decreases s.len(),
{
    if s.len() > 0 && s[0] == '#' {
        without_hashes(s.drop_first())
    } else {
        s
    }
}

/// Relies on `str::trim_start_matches` with `'#'`: drops every leading `#`.
#[verifier::external_body]
fn strip_hashes(s: &str) -> (r: &str)
    ensures
        r@ == without_hashes(s@),
{
    s.trim_start_matches('#')
}

/// Relies on `hex::FromHex` for `[u8; 3]`: six hexadecimal digits of
/// either case decode two to a byte; any other text is an error.
#[verifier::external_body]
fn decode_hex3(s: &str) -> (r: Result<[u8; 3], hex::FromHexError>)
    ensures
        r is Ok <==> is_hex_color(s@),
        r matches Ok(b) ==> b@ == hex_color_bytes(s@),
{
    hex::FromHex::from_hex(s)
}

impl Color {
    /// Reads a colour written as six hexadecimal digits, with or without
    /// leading `#`.
    pub fn from_hex_text(s: &str) -> (r: Result<Color, hex::FromHexError>)
        ensures
            r is Ok <==> is_hex_color(without_hashes(s@)),
            r matches Ok(c) ==> c.0@ == hex_color_bytes(without_hashes(s@)),
    {
        match decode_hex3(strip_hashes(s)) {
            Ok(b) => Ok(Color(b)),
            Err(e) => Err(e),
        }
    }

    /// The colour as RGBA channels, fully opaque.
    pub fn rgba(&self) -> (r: [u8; 4])
        ensures
            r@ == self.0@.push(255u8),
    {
        let r = [self.0[0], self.0[1], self.0[2], 255u8];
        assert(r@ =~= self.0@.push(255u8));
        r
    }

    /// The colour's RGB channels.
    pub fn rgb(&self) -> (r: [u8; 3])
        ensures
            r == self.0,
    {
        self.0
    }
}

impl std::str::FromStr for Color {
    type Err = hex::FromHexError;

    fn from_str(s: &str) -> Result<Self, hex::FromHexError> {
        Color::from_hex_text(s)
    }
}

} // verus!
