use crate::errors::errors::Result;
use crate::utils::formating_types::{joined_hex, push_joined_hex};
use vstd::prelude::*;

verus! {

/// Formats a MAC address as six pairs of upper-case hexadecimal digits
/// between colons. Formatting into a string cannot fail.
pub fn mac_to_string(mac: &[u8; 6]) -> (res: Result<String>)
    ensures
        res is Ok,
        res->Ok_0@ == joined_hex(mac@, ':'),
{
    let mut s = String::new();
    push_joined_hex(&mut s, mac, ':');
    Ok(s)
}

} // verus!
