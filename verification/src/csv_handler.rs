//! Records of the register map table.

use vstd::prelude::*;
use vstd::string::StrSliceExecFns;

verus! {

/// One row of the register map: page address, register name, access mode
/// and value as the table gives them, and a value to write that the table
/// does not hold.
#[derive(Debug, Clone)]
pub struct RegisterRecord {
    pub page_addr: String,
    pub register: String,
    pub r_w: String,
    pub value: String,
    pub w_value: Option<String>,
}

/// A page address that is no number.
#[derive(Debug, Clone, PartialEq, Eq)]
pub struct PageAddrError {
    /// The text that did not parse.
    pub page_addr: String,
}

/// What `u32::from_str_radix` makes of a text in a radix: the number, or
/// nothing where it refuses the text.
pub uninterp spec fn parsed_u32(text: Seq<char>, radix: u32) -> Option<u32>;

/// Parses with `u32::from_str_radix`.
///
/// Trusted: the result is named, not described; all that is claimed is that
/// it depends on the text and the radix alone. The radix must lie between 2
/// and 36, outside of which the function panics.
#[verifier::external_body]
fn parse_u32(text: &str, radix: u32) -> (value: Option<u32>)
    requires
        2 <= radix <= 36,
    ensures
        value == parsed_u32(text@, radix),
{
    u32::from_str_radix(text, radix).ok()
}

/// Whether a text starts with `0x` or `0X`.
pub open spec fn has_hex_prefix(text: Seq<char>) -> bool {
    text.len() >= 2 && text[0] == '0' && (text[1] == 'x' || text[1] == 'X')
}

/// The digits of a page address: what follows a hexadecimal prefix, or all
/// of it.
pub open spec fn page_addr_digits(text: Seq<char>) -> Seq<char> {
    if has_hex_prefix(text) {
        text.subrange(2, text.len() as int)
    } else {
        text
    }
}

/// The radix of a page address: 16 with a hexadecimal prefix, else 10.
pub open spec fn page_addr_radix(text: Seq<char>) -> u32 {
    if has_hex_prefix(text) {
        16
    } else {
        10
    }
}

/// The number a page address stands for, or the refusal, given what parsing
/// its digits came to.
pub fn page_addr_result(parsed: Option<u32>, page_addr: &String) -> (result: Result<
    u32,
    PageAddrError,
>)
    ensures
        match parsed {
            Some(value) => result == Ok::<u32, PageAddrError>(value),
            None => result matches Err(error) && error.page_addr@ == page_addr@,
        },
{
    match parsed {
        Some(value) => Ok(value),
        None => Err(PageAddrError { page_addr: page_addr.clone() }),
    }
}

impl RegisterRecord {
    /// A record as read from the table, with no value to write.
    pub fn new(page_addr: String, register: String, r_w: String, value: String) -> (record: Self)
        ensures
            record.page_addr == page_addr,
            record.register == register,
            record.r_w == r_w,
            record.value == value,
            record.w_value is None,
    {
        Self { page_addr, register, r_w, value, w_value: None }
    }

    /// Sets or clears the value to write.
    pub fn set_w_value(&mut self, w_value: Option<String>)
        ensures
            final(self).w_value == w_value,
            final(self).page_addr == old(self).page_addr,
            final(self).register == old(self).register,
            final(self).r_w == old(self).r_w,
            final(self).value == old(self).value,
    {
        self.w_value = w_value;
    }

    /// Where the digits of the page address start, and their radix: after a
    /// `0x` or `0X` in radix 16, else at the start in radix 10.
    pub fn page_addr_format(&self) -> (format: (usize, u32))
        ensures
            format.0 == (if has_hex_prefix(self.page_addr@) {
                2usize
            } else {
                0usize
            }),
            format.1 == page_addr_radix(self.page_addr@),
    {
        let text = self.page_addr.as_str();
        if text.unicode_len() >= 2 && text.get_char(0) == '0' && (text.get_char(1) == 'x'
            || text.get_char(1) == 'X') {
            (2, 16)
        } else {
            (0, 10)
        }
    }

    /// The page address as a number: hexadecimal after `0x` or `0X`, decimal
    /// otherwise.
    pub fn get_page_addr_value(&self) -> (result: Result<u32, PageAddrError>)
        ensures
            match parsed_u32(page_addr_digits(self.page_addr@), page_addr_radix(self.page_addr@)) {
                Some(value) => result == Ok::<u32, PageAddrError>(value),
                None => result matches Err(error) && error.page_addr@ == self.page_addr@,
            },
    {
        let text = self.page_addr.as_str();
        let (start, radix) = self.page_addr_format();
        let digits = text.substring_char(start, text.unicode_len());
        assert(digits@ =~= page_addr_digits(self.page_addr@));
        page_addr_result(parse_u32(digits, radix), &self.page_addr)
    }
}

} // verus!
