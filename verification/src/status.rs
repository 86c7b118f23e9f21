//! The reason phrase that stands on a recording's status line.
//!
//! The phrase is the one that came with the response. Where none came, or
//! where the one that came could not stand on a line, it is the standard
//! phrase for the code, as the `http` crate lists it.

use vstd::prelude::*;
use vstd::slice::slice_to_vec;
use crate::scan::{crlf, crlf_bytes, find, lemma_first_occurrence, single_line};

verus! {

/// The phrase that `http::StatusCode::canonical_reason` gives for `code`,
/// as bytes; nothing where `code` is no status code for
/// `http::StatusCode::from_u16`, or where the crate lists no phrase for it.
pub uninterp spec fn canonical_reason(code: u16) -> Option<Seq<u8>>;

/// Calls `http::StatusCode::from_u16` and, on the status code it gives,
/// `http::StatusCode::canonical_reason`, both through `hyper`. The claim is
/// only that the outcome depends on `code` alone: the same code has the same
/// phrase, or none, whenever it is asked for.
#[verifier::external_body]
fn lookup_reason(code: u16) -> (phrase: Option<Vec<u8>>)
    ensures
        match phrase {
            Some(p) => canonical_reason(code) == Some(p@),
            None => canonical_reason(code) is None,
        },
{
    match hyper::StatusCode::from_u16(code) {
        Ok(status) => match status.canonical_reason() {
            Some(p) => Some(p.as_bytes().to_vec()),
            None => None,
        },
        Err(_) => None,
    }
}

/// The reason that is written for a phrase that was found or not: the
/// phrase, if there is one and it holds no CR LF; else nothing.
pub open spec fn spec_reason_from(found: Option<Seq<u8>>) -> Seq<u8> {
    match found {
        Some(p) => if single_line(p) {
            p
        } else {
            Seq::empty()
        },
        None => Seq::empty(),
    }
}

/// A phrase that may be there, as plain bytes.
pub open spec fn phrase_view(phrase: Option<Vec<u8>>) -> Option<Seq<u8>> {
    match phrase {
        Some(p) => Some(p@),
        None => None,
    }
}

/// Chooses the reason to write from what the table gave. A phrase that
/// could not stand on one line is left out, so that the status line stays
/// one line whatever the table holds.
pub fn reason_from(found: Option<Vec<u8>>) -> (reason: Vec<u8>)
    ensures
        reason@ == spec_reason_from(phrase_view(found)),
        single_line(reason@),
{
    proof {
        lemma_first_occurrence(Seq::<u8>::empty(), crlf());
    }
    match found {
        Some(p) => {
            if is_single_line(p.as_slice()) {
                p
            } else {
                Vec::new()
            }
        },
        None => Vec::new(),
    }
}

/// Whatever the code, its standard reason is one line.
pub proof fn lemma_reason_is_single_line(found: Option<Seq<u8>>)
    ensures
        single_line(spec_reason_from(found)),
{
    lemma_first_occurrence(Seq::<u8>::empty(), crlf());
}

/// The reason that is written beside a code: the phrase that came with the
/// response, if one came and it holds no CR LF; else the reason that the
/// table's phrase for the code gives.
pub open spec fn spec_choose_reason(given: Option<Seq<u8>>, found: Option<Seq<u8>>) -> Seq<u8> {
    match given {
        Some(p) => if single_line(p) {
            p
        } else {
            spec_reason_from(found)
        },
        None => spec_reason_from(found),
    }
}

/// The reason that is written beside `code` for a response that came with
/// the phrase `given`, or with none.
pub open spec fn spec_reason_for(given: Option<Seq<u8>>, code: u16) -> Seq<u8> {
    spec_choose_reason(given, canonical_reason(code))
}

/// Whether the bytes hold no CR LF.
pub fn is_single_line(bytes: &[u8]) -> (single: bool)
    ensures
        single == single_line(bytes@),
{
    let terminator = crlf_bytes();
    proof {
        lemma_first_occurrence(bytes@, crlf());
    }
    find(bytes, terminator.as_slice()).is_none()
}

/// Chooses the reason to write from the phrase that came and from what the
/// table gave for the code.
pub fn choose_reason(given: Option<&[u8]>, found: Option<Vec<u8>>) -> (reason: Vec<u8>)
    ensures
        reason@ == spec_choose_reason(
            match given {
                Some(p) => Some(p@),
                None => None,
            },
            phrase_view(found),
        ),
        single_line(reason@),
{
    match given {
        Some(p) => {
            if is_single_line(p) {
                slice_to_vec(p)
            } else {
                reason_from(found)
            }
        },
        None => reason_from(found),
    }
}

/// The reason to write beside `code` for a response that came with the
/// phrase `given`, or with none.
pub fn reason_for(given: Option<&[u8]>, code: u16) -> (reason: Vec<u8>)
    ensures
        reason@ == spec_reason_for(
            match given {
                Some(p) => Some(p@),
                None => None,
            },
            code,
        ),
        single_line(reason@),
{
    let found = lookup_reason(code);
    assert(phrase_view(found) == canonical_reason(code));
    choose_reason(given, found)
}

/// Whatever came and whatever the code, the reason written is one line.
pub proof fn lemma_chosen_reason_is_single_line(given: Option<Seq<u8>>, found: Option<Seq<u8>>)
    ensures
        single_line(spec_choose_reason(given, found)),
{
    lemma_reason_is_single_line(found);
}

} // verus!
