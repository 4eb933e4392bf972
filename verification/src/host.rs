//! Values of the ledger host as plain values.
//!
//! The host hands out addresses and strings as handles into its own memory.
//! The pool works on their text.  The three functions at the end of this
//! file bring the bytes behind a handle and turn bytes into text: Verus takes
//! their bodies as they are and believes their contracts.  What the pool
//! does with the text is proved for every text.

use crate::identity::Identity;
use vstd::prelude::*;
use vstd::utf8::{decode_utf8, valid_utf8};

verus! {

/// An address of the host, `soroban_sdk::Address`: opaque to Verus.
#[verifier::external_type_specification]
#[verifier::external_body]
pub struct ExHostAddress(soroban_sdk::Address);

/// A string of the host, `soroban_sdk::String`: opaque to Verus.
#[verifier::external_type_specification]
#[verifier::external_body]
pub struct ExHostString(soroban_sdk::String);

/// The identity that the host address `address` stands for: the text of its
/// strkey.
pub fn identity_of(address: &soroban_sdk::Address) -> (identity: Identity)
    ensures
        identity@ == decode_utf8(address_strkey(*address)),
{
    let strkey = strkey(address);
    Identity::new(text_of(&strkey))
}

/// The text of the host string `string`: the characters that its bytes
/// encode, where they are UTF-8.  Bytes that are no UTF-8 come out as the
/// replacement character.
pub fn text_of(string: &soroban_sdk::String) -> (text: String)
    ensures
        valid_utf8(host_string_bytes(*string)) ==> text@ == decode_utf8(
            host_string_bytes(*string),
        ),
{
    let bytes = bytes_of(string);
    utf8_lossy(&bytes)
}

/// The bytes that a host string holds.
pub uninterp spec fn host_string_bytes(string: soroban_sdk::String) -> Seq<u8>;

/// The strkey of a host address, as bytes: the result of
/// `soroban_sdk::Address::to_string`.
pub uninterp spec fn address_strkey(address: soroban_sdk::Address) -> Seq<u8>;

/// Calls `soroban_sdk::Address::to_string`, which has the host convert the
/// address to its strkey.  Claimed: the host string that comes back holds
/// the strkey of the address, which depends on the address alone; and its
/// bytes are UTF-8, as the host makes them from a `String`.
#[verifier::external_body]
fn strkey(address: &soroban_sdk::Address) -> (strkey: soroban_sdk::String)
    ensures
        host_string_bytes(strkey) == address_strkey(*address),
        valid_utf8(host_string_bytes(strkey)),
{
    address.to_string()
}

/// Copies a host string, by `soroban_sdk::String::len` and
/// `soroban_sdk::String::copy_into_slice`.  Claimed: the bytes that come
/// back are those that the host string holds.
#[verifier::external_body]
fn bytes_of(string: &soroban_sdk::String) -> (bytes: Vec<u8>)
    ensures
        bytes@ == host_string_bytes(*string),
{
    let mut bytes = vec![0u8; string.len() as usize];
    string.copy_into_slice(&mut bytes);
    bytes
}

/// Calls `String::from_utf8_lossy` of std.  Claimed: bytes that are UTF-8
/// come back as the text that they encode.  Of other bytes nothing is
/// claimed: std puts the replacement character for what is no UTF-8.
#[verifier::external_body]
fn utf8_lossy(bytes: &Vec<u8>) -> (text: String)
    ensures
        valid_utf8(bytes@) ==> text@ == decode_utf8(bytes@),
{
    String::from_utf8_lossy(bytes).into_owned()
}

} // verus!
