use vstd::prelude::*;

verus! {

/// Number of payload bytes: the length of the payload if there is one, else 0.
pub open spec fn spec_payload_len(payload: Option<Vec<u8>>) -> nat {
    match payload {
        Some(p) => p@.len(),
        None => 0,
    }
}

/// The bytes of an optional payload; an absent payload is the empty sequence.
pub open spec fn spec_payload_bytes(payload: Option<Vec<u8>>) -> Seq<u8> {
    match payload {
        Some(p) => p@,
        None => Seq::empty(),
    }
}

/// An optional payload as a mathematical value: present or absent, and its
/// bytes. Two payloads with the same view are interchangeable.
pub open spec fn payload_view(payload: Option<Vec<u8>>) -> Option<Seq<u8>> {
    match payload {
        Some(p) => Some(p@),
        None => None,
    }
}

/// Length of the payload if it is present, otherwise 0.
pub fn payload_len(payload: &Option<Vec<u8>>) -> (len: usize)
    ensures
        len == spec_payload_len(*payload),
{
    match payload {
        Some(p) => p.len(),
        None => 0,
    }
}

} // verus!
