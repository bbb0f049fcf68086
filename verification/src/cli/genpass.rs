//! The values of the password command.

use crate::process::gen_pass::{is_password, process_genpass};
use vstd::prelude::*;
use vstd::utf8::encode_utf8;

verus! {

/// What a password is made of.
#[derive(Clone, Copy, Debug, PartialEq, Eq)]
pub struct GenPassOpts {
    /// The number of characters asked for.
    pub length: u8,
    /// Whether capital letters are wanted.
    pub uppercase: bool,
    /// Whether small letters are wanted.
    pub lowercase: bool,
    /// Whether digits are wanted.
    pub number: bool,
    /// Whether signs are wanted.
    pub symbol: bool,
}

impl Default for GenPassOpts {
    /// Sixteen characters of all four classes.
    fn default() -> (opts: Self)
        ensures
            opts.length == 16,
            opts.uppercase,
            opts.lowercase,
            opts.number,
            opts.symbol,
    {
        GenPassOpts { length: 16, uppercase: true, lowercase: true, number: true, symbol: true }
    }
}

impl GenPassOpts {
    /// A random password of this make.
    pub fn password(&self) -> (password: String)
        ensures
            is_password(
                encode_utf8(password@),
                self.length,
                self.uppercase,
                self.lowercase,
                self.number,
                self.symbol,
            ),
    {
        process_genpass(self.length, self.uppercase, self.lowercase, self.number, self.symbol)
    }
}

} // verus!
