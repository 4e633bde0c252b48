//! The work on one block: what the node tool's answers mean, and what the
//! block's coinbase reads as.
use vstd::prelude::*;
use crate::coinbase::{coinbase_of, coinbase_text, decode_coinbase, get_coinbase_data, lossy_text, utf8_lossy};
use crate::json::{Json, json_document, parse_json};

verus! {

/// Why one block could not be read. Each carries the diagnostic text.
#[derive(Debug, PartialEq, Eq)]
pub enum BlockError {
    /// The hash lookup reported failure.
    Resolution(String),
    /// The block fetch reported failure.
    Fetch(String),
    /// The fetched block is not JSON.
    Parse(String),
    /// The coinbase field is not well-formed hexadecimal.
    HexDecode(String),
}

/// A text without its leading and trailing whitespace.
pub uninterp spec fn trimmed(s: Seq<char>) -> Seq<char>;

/// Relies on str::trim: the text without leading and trailing whitespace,
/// which depends on the text alone.
#[verifier::external_body]
fn trim_text(s: &str) -> (r: String)
    ensures
        r@ == trimmed(s@),
{
    s.trim().to_string()
}

/// The block identifier that a hash lookup answered: its output as text,
/// trimmed, when it succeeded; its diagnostic output otherwise.
pub fn get_block_hash(success: bool, stdout: &[u8], stderr: &[u8]) -> (r: Result<String, BlockError>)
    ensures
        match r {
            Ok(hash) => success && hash@ == trimmed(utf8_lossy(stdout@)),
            Err(BlockError::Resolution(m)) => !success && m@ == utf8_lossy(stderr@),
            Err(_) => false,
        },
{
    if !success {
        return Err(BlockError::Resolution(lossy_text(stderr)));
    }
    let text = lossy_text(stdout);
    Ok(trim_text(text.as_str()))
}

/// The block record that a block fetch answered: its output read as JSON
/// when it succeeded; its diagnostic output otherwise.
pub fn get_block_data(success: bool, stdout: &[u8], stderr: &[u8]) -> (r: Result<Json, BlockError>)
    ensures
        match r {
            Ok(doc) => success && json_document(stdout@) == Some(doc),
            Err(BlockError::Fetch(m)) => !success && m@ == utf8_lossy(stderr@),
            Err(BlockError::Parse(_)) => success && json_document(stdout@) is None,
            Err(_) => false,
        },
{
    if !success {
        return Err(BlockError::Fetch(lossy_text(stderr)));
    }
    match parse_json(stdout) {
        Ok(doc) => Ok(doc),
        Err(e) => Err(BlockError::Parse(e)),
    }
}

/// What a fetched block yields: the text of its coinbase, nothing where it
/// has none, or an error where the coinbase is not well-formed hexadecimal.
pub fn process_block(block_data: &Json) -> (r: Result<Option<String>, BlockError>)
    ensures
        match coinbase_of(*block_data) {
            None => r matches Ok(None),
            Some(payload) => match coinbase_text(payload) {
                Some(text) => r matches Ok(Some(t)) && t@ == text,
                None => r matches Err(BlockError::HexDecode(_)),
            },
        },
{
    match get_coinbase_data(block_data) {
        Some(payload) => match decode_coinbase(&payload) {
            Ok(text) => Ok(Some(text)),
            Err(e) => Err(BlockError::HexDecode(e)),
        },
        None => Ok(None),
    }
}

} // verus!
