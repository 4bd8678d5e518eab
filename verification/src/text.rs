//! The single choke point for turning file-system strings into display strings.
//!
//! The interface renders precomposed (NFC) Vietnamese correctly and decomposed
//! (NFD) Vietnamese badly, and macOS hands back NFD file names, so every
//! string that reaches the interface passes through here.
use crate::pathops::{file_name, file_name_of};
use unicode_normalization::UnicodeNormalization;
use vstd::prelude::*;

verus! {

/// Unicode Normalization Form C of a string, as `unicode-normalization`
/// computes it.
pub uninterp spec fn nfc_form(s: Seq<char>) -> Seq<char>;

/// Normalize to NFC (`UnicodeNormalization::nfc`). Its result depends on the
/// characters alone and is named; being a normalization form, normalizing it
/// again changes nothing.
#[verifier::external_body]
pub fn nfc(s: &str) -> (r: String)
    ensures
        r@ == nfc_form(s@),
        nfc_form(r@) == r@,
{
    s.nfc().collect()
}

/// `dunce::simplified`: on Windows a `\\?\` verbatim prefix is dropped when that
/// is safe; elsewhere the path is returned as it is. Which happens depends on
/// the platform, so only the two possible shapes of the result are stated.
#[verifier::external_body]
fn simplified(p: &str) -> (r: String)
    ensures
        r@ == p@ || (p@.len() >= 4 && r@ == p@.skip(4)),
{
    dunce::simplified(std::path::Path::new(p)).to_string_lossy().into_owned()
}

/// A path as we show it to the user: NFC, and never a `\\?\` verbatim prefix.
pub fn display_path(p: &str) -> (r: String)
    ensures
        r@ == nfc_form(p@) || (p@.len() >= 4 && r@ == nfc_form(p@.skip(4))),
{
    let s = simplified(p);
    nfc(s.as_str())
}

/// Just the file name, for list rows; the whole path when it has none.
pub fn display_file_name(p: &str) -> (r: String)
    ensures
        file_name(p@) is Some ==> r@ == nfc_form(file_name(p@).unwrap()),
        file_name(p@) is None ==> (r@ == nfc_form(p@) || (p@.len() >= 4 && r@ == nfc_form(
            p@.skip(4),
        ))),
{
    match file_name_of(p) {
        Some(n) => nfc(n.as_str()),
        None => display_path(p),
    }
}

} // verus!
