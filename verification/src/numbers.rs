//! How numbers are written for the reader: the separators of the locale,
//! and the grouping of digits that the `locale` crate does with them.

use vstd::prelude::*;

verus! {

/// The punctuation that a locale writes numbers with.
#[derive(Clone, Debug, PartialEq, Eq)]
pub struct Numeric {
    /// What stands between the whole part of a number and its fraction.
    pub decimal_sep: String,
    /// What stands between groups of three digits.
    pub thousands_sep: String,
}

/// The text that `locale` writes for a whole number with the given
/// separator between its groups of digits.
pub uninterp spec fn grouped(thousands_sep: Seq<char>, number: nat) -> Seq<char>;

/// The number of bytes that a text takes.
pub open spec fn byte_length(text: Seq<char>) -> nat {
    vstd::utf8::encode_utf8(text).len()
}

/// Calls `locale::Numeric::format_int` on a `locale::Numeric` made with
/// `locale::Numeric::new` from the two separators. The contract claims only
/// that the text is the one named `grouped`: a function of the thousands
/// separator and the number alone, as the crate's source shows.
#[verifier::external_body]
pub(crate) fn format_int(numeric: &Numeric, number: u64) -> (text: String)
    ensures
        text@ == grouped(numeric.thousands_sep@, number as nat),
{
    ::locale::Numeric::new(&numeric.decimal_sep, &numeric.thousands_sep).format_int(number)
}

/// Calls `locale::Numeric::english` and takes over its two fields. The
/// contract states what the crate's source gives: a point for decimals and
/// a comma between thousands.
#[verifier::external_body]
pub(crate) fn english_numeric() -> (numeric: Numeric)
    ensures
        numeric.decimal_sep@ == "."@,
        numeric.thousands_sep@ == ","@,
{
    let english = ::locale::Numeric::english();
    Numeric { decimal_sep: english.decimal_sep, thousands_sep: english.thousands_sep }
}

} // verus!
