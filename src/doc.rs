//! The replicated document, held as a `yrs::Doc`.
//!
//! This library only reads the document: it asks it for the update that a
//! peer at a given state vector lacks, which is also the whole document when
//! that state vector is empty. What those bytes hold is the document's
//! business and is not stated here. Integrating updates is done by the
//! caller, where a failure of the document on a hostile update can be
//! contained, and reported back to the session (see
//! `Session::integrated`).
use crate::frame::{lemma_parse_varuint_bound, parse_varuint, pow128, read_varuint};
use vstd::prelude::*;
use yrs::updates::decoder::Decode;
use yrs::{Doc, ReadTxn, StateVector, Transact};

verus! {

#[verifier::external_type_specification]
#[verifier::external_body]
pub struct ExDoc(Doc);

/// Whether `b` decodes as a `yrs` state vector (v1 encoding).
pub uninterp spec fn state_vector_decodes(b: Seq<u8>) -> bool;

/// Whether the entry count that opens `sv` fits in the bytes after it:
/// every entry takes at least two bytes. The document sizes its table by
/// that count before reading the entries, so a larger count is refused here.
pub open spec fn state_vector_plausible(sv: Seq<u8>) -> bool {
    match parse_varuint(sv, 5) {
        Some((n, c)) => 2 * n <= sv.len() - c,
        None => false,
    }
}

/// Checks `state_vector_plausible`.
pub fn check_state_vector(sv: &[u8]) -> (r: bool)
    ensures
        r == state_vector_plausible(sv@),
{
    assert(sv@.subrange(0, sv@.len() as int) =~= sv@);
    proof {
        lemma_parse_varuint_bound(sv@, 5);
        assert(pow128(5) == 34359738368) by {
            reveal_with_fuel(pow128, 6);
        }
    }
    match read_varuint(sv, 0, 5) {
        Some((n, e)) => {
            let room: usize = sv.len() - e;
            assert((2 * (n as int) <= room as int) == ((n as int) <= (room / 2) as int)) by (nonlinear_arith);
            n <= (room / 2) as u64
        },
        None => false,
    }
}

/// Relies on `yrs::StateVector::decode_v1`, `yrs::Transact::try_transact`
/// and `yrs::ReadTxn::encode_state_as_update_v1`: the update that a peer at
/// state vector `sv` lacks. `None` when `sv` does not decode, or when the
/// document is in the middle of a write.
#[verifier::external_body]
pub(crate) fn encode_diff(doc: &Doc, sv: &[u8]) -> (r: Option<Vec<u8>>)
    ensures
        r is Some ==> state_vector_decodes(sv@),
{
    match StateVector::decode_v1(sv) {
        Ok(v) => match doc.try_transact() {
            Ok(txn) => Some(txn.encode_state_as_update_v1(&v)),
            Err(_) => None,
        },
        Err(_) => None,
    }
}

/// The updates recorded after the document took `us` one by one, from
/// `start`.
pub open spec fn record_all(start: Set<Seq<u8>>, us: Seq<Seq<u8>>) -> Set<Seq<u8>>
    decreases us.len(),
{
    if us.len() == 0 {
        start
    } else {
        record_all(start, us.drop_last()).insert(us.last())
    }
}

proof fn lemma_record_all_union(start: Set<Seq<u8>>, us: Seq<Seq<u8>>)
    ensures
        record_all(start, us) == start.union(us.to_set()),
    decreases us.len(),
{
    if us.len() == 0 {
        assert(us.to_set() =~= Set::empty());
        assert(start.union(Set::empty()) =~= start);
    } else {
        let init = us.drop_last();
        lemma_record_all_union(start, init);
        assert(us =~= init.push(us.last()));
        assert forall|u: Seq<u8>| us.to_set().contains(u) <==> init.to_set().insert(us.last()).contains(u) by {
            if us.to_set().contains(u) {
                let i = choose|i: int| 0 <= i < us.len() && us[i] == u;
                if i < us.len() - 1 {
                    assert(init[i] == u);
                }
            }
            if init.to_set().contains(u) {
                let i = choose|i: int| 0 <= i < init.len() && init[i] == u;
                assert(us[i] == u);
            }
        }
        assert(us.to_set() =~= init.to_set().insert(us.last()));
        assert(record_all(start, us) =~= start.union(us.to_set()));
    }
}

/// Convergence of what a session records as integrated: `integrated`
/// extends `SessionModel::updates` by insertion, so the same updates taken
/// in any order, and any number of times each, leave the same record. That
/// the document itself converges is the document's own guarantee.
pub proof fn lemma_convergence(start: Set<Seq<u8>>, us1: Seq<Seq<u8>>, us2: Seq<Seq<u8>>)
    requires
        us1.to_set() == us2.to_set(),
    ensures
        record_all(start, us1) == record_all(start, us2),
{
    lemma_record_all_union(start, us1);
    lemma_record_all_union(start, us2);
}

} // verus!
