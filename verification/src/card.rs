//! What the driver reads and keeps of OpenSC's card and reader objects: the
//! receive size limits and the list of algorithms that the card supports.
use vstd::prelude::*;
use crate::errors::SC_SUCCESS;

verus! {

/// Card capability: the card supports extended length APDUs.
pub const SC_CARD_CAP_APDU_EXT: u64 = 0x0000_0001;
/// The most bytes that a short APDU can receive.
pub const SC_READER_SHORT_APDU_MAX_RECV_SIZE: usize = 256;
/// OpenSC algorithm identifier of elliptic curve keys.
pub const SC_ALGORITHM_EC: u32 = 2;

/// The reader that a card is attached to, as far as the driver reads it.
pub struct sc_reader {
    /// The reader's receive limit; 0 where it sets none.
    pub max_recv_size: usize,
}

/// An object identifier: up to 16 components, ended by `-1` where it is shorter.
#[derive(Clone, Copy)]
pub struct sc_object_id {
    pub value: [i32; 16],
}

/// An algorithm that the card supports.
#[derive(Clone, Copy)]
pub struct sc_algorithm_info {
    pub algorithm: u32,
    pub key_length: u32,
    pub flags: u32,
    /// For elliptic curve keys, the identifier of the curve's domain parameters.
    pub ec_params_id: sc_object_id,
}

/// A card, as far as the driver reads and changes it.
pub struct sc_card {
    /// The reader; `None` where the card is attached to none.
    pub reader: Option<sc_reader>,
    /// The card's receive limit; 0 where none was set.
    pub max_recv_size: usize,
    /// Capability flags (`SC_CARD_CAP_*`).
    pub caps: u64,
    /// The algorithms that the card supports, in the order they were added.
    pub algorithms: Vec<sc_algorithm_info>,
}

/// The number of bytes that may be requested from the card in one response: the
/// card's own limit (where it has none: 65536 with extended APDUs, 256 without),
/// overridden by the reader's limit where that is set and smaller than the card's
/// own; 0 where there is no reader.
pub open spec fn spec_get_max_recv_size(card: &sc_card) -> usize {
    match card.reader {
        None => 0,
        Some(reader) => {
            if reader.max_recv_size != 0 && reader.max_recv_size < card.max_recv_size {
                reader.max_recv_size
            } else if card.max_recv_size == 0 {
                if card.caps & SC_CARD_CAP_APDU_EXT != 0 { 0x1_0000 } else { SC_READER_SHORT_APDU_MAX_RECV_SIZE }
            } else {
                card.max_recv_size
            }
        },
    }
}

/// Law: where neither the reader nor the card sets a receive limit, the limit is
/// 65536 exactly when the card supports extended APDUs (capability bit 0 set), and
/// 256 otherwise, whatever the card's other capabilities.
pub proof fn lemma_max_recv_size_without_limits(card: &sc_card)
    requires
        card.reader matches Some(rd) && rd.max_recv_size == 0,
        card.max_recv_size == 0,
    ensures
        spec_get_max_recv_size(card) == (if card.caps % 2 == 1 { 0x1_0000usize } else { 256usize }),
{
    let caps = card.caps;
    assert((caps & 1u64 != 0) == (caps % 2 == 1)) by (bit_vector);
}

/// Law: the receive limit depends on the card's capabilities only through the
/// extended APDU bit: two cards that differ in other capability bits alone get the
/// same limit.
pub proof fn lemma_max_recv_size_reads_only_ext_bit(c1: &sc_card, c2: &sc_card)
    requires
        c1.reader == c2.reader,
        c1.max_recv_size == c2.max_recv_size,
        c1.caps & SC_CARD_CAP_APDU_EXT == c2.caps & SC_CARD_CAP_APDU_EXT,
    ensures
        spec_get_max_recv_size(c1) == spec_get_max_recv_size(c2),
{
}

/// Determines the receive size limit for card responses.
pub fn me_get_max_recv_size(card: &sc_card) -> (r: usize)
    ensures
        r == spec_get_max_recv_size(card),
{
    match &card.reader {
        None => 0,
        Some(card_reader) => {
            let mut max_recv_size = card.max_recv_size;

            /* initialize max_recv_size to a meaningful value */
            if max_recv_size == 0 {
                max_recv_size = if card.caps & SC_CARD_CAP_APDU_EXT != 0 { 0x1_0000 }
                                else { SC_READER_SHORT_APDU_MAX_RECV_SIZE };
            }

            /*  Override card limitations with reader limitations. */
            if card_reader.max_recv_size != 0 && card_reader.max_recv_size < card.max_recv_size {
                max_recv_size = card_reader.max_recv_size;
            }
            max_recv_size
        },
    }
}

/// Adds an algorithm to the end of the card's list.
fn me_card_add_algorithm(card: &mut sc_card, info: &sc_algorithm_info) -> (r: i32)
    ensures
        r == SC_SUCCESS,
        final(card).algorithms@ == old(card).algorithms@.push(*info),
        final(card).reader == old(card).reader,
        final(card).max_recv_size == old(card).max_recv_size,
        final(card).caps == old(card).caps,
{
    card.algorithms.push(*info);
    SC_SUCCESS
}

/// Adds a symmetric algorithm with its key length and flags to the end of the
/// card's list of algorithms.
pub fn me_card_add_symmetric_alg(card: &mut sc_card, algorithm: u32, key_length: u32, flags: u32) -> (r: i32)
    ensures
        r == SC_SUCCESS,
        final(card).algorithms@.len() == old(card).algorithms@.len() + 1,
        final(card).algorithms@.drop_last() == old(card).algorithms@,
        final(card).algorithms@.last().algorithm == algorithm,
        final(card).algorithms@.last().key_length == key_length,
        final(card).algorithms@.last().flags == flags,
        final(card).algorithms@.last().ec_params_id.value@ == Seq::new(16, |i: int| 0i32),
        final(card).reader == old(card).reader,
        final(card).max_recv_size == old(card).max_recv_size,
        final(card).caps == old(card).caps,
{
    let info = sc_algorithm_info { algorithm, key_length, flags, ec_params_id: sc_object_id { value: [0i32; 16] } };
    assert(info.ec_params_id.value@ =~= Seq::new(16, |i: int| 0i32));
    let r = me_card_add_algorithm(card, &info);
    assert(card.algorithms@.drop_last() =~= old(card).algorithms@);
    r
}

/// `a` and `b` agree on every component up to and including the first `-1` of `a`
/// (on all 16 where `a` holds no `-1`).
pub open spec fn oid_equal(a: Seq<i32>, b: Seq<i32>) -> bool {
    forall|i: int|
        0 <= i < 16 && (forall|j: int| 0 <= j < i ==> a[j] != -1) ==> #[trigger] a[i] == b[i]
}

/// Compares two object identifiers: 1 where they are equal, 0 where not.
pub fn sc_compare_oid(oid1: &sc_object_id, oid2: &sc_object_id) -> (r: i32)
    ensures
        r == (if oid_equal(oid1.value@, oid2.value@) { 1i32 } else { 0i32 }),
{
    let mut i: usize = 0;
    while i < 16
        invariant
            i <= 16,
            forall|k: int| 0 <= k < i ==> oid1.value@[k] == oid2.value@[k] && oid1.value@[k] != -1,
        decreases 16 - i,
    {
        if oid1.value[i] != oid2.value[i] {
            proof {
                assert(!(oid1.value@[i as int] == oid2.value@[i as int]));
                assert forall|j: int| 0 <= j < i implies oid1.value@[j] != -1 by {}
            }
            return 0;
        }
        if oid1.value[i] == -1 {
            proof {
                assert forall|k: int|
                    0 <= k < 16 && (forall|j: int| 0 <= j < k ==> oid1.value@[j] != -1)
                    implies #[trigger] oid1.value@[k] == oid2.value@[k] by {
                    if k > i {
                        assert(oid1.value@[i as int] != -1);
                    }
                }
            }
            return 1;
        }
        i += 1;
    }
    1
}

/// `info` is the algorithm asked for: the algorithm and key length agree, and,
/// where domain parameters are given and the algorithm is an elliptic curve one,
/// they equal the algorithm's (an entry with other domain parameters is passed over).
pub open spec fn alg_matches(info: sc_algorithm_info, algorithm: u32, key_length: u32, param: Option<&sc_object_id>) -> bool {
    &&& info.algorithm == algorithm
    &&& info.key_length == key_length
    &&& (param is Some && info.algorithm == SC_ALGORITHM_EC
        ==> oid_equal(param->Some_0.value@, info.ec_params_id.value@))
}

/// Finds the first of the card's algorithms that is the one asked for, by its index.
pub fn me_card_find_alg(card: &sc_card, algorithm: u32, key_length: u32, param: Option<&sc_object_id>) -> (r: Option<usize>)
    ensures
        match r {
            Some(i) => {
                &&& i < card.algorithms@.len()
                &&& alg_matches(card.algorithms@[i as int], algorithm, key_length, param)
                &&& forall|j: int| 0 <= j < i ==> !alg_matches(#[trigger] card.algorithms@[j], algorithm, key_length, param)
            },
            None => forall|j: int| 0 <= j < card.algorithms@.len()
                ==> !alg_matches(#[trigger] card.algorithms@[j], algorithm, key_length, param),
        },
{
    let n = card.algorithms.len();
    let mut i: usize = 0;
    while i < n
        invariant
            n == card.algorithms@.len(),
            i <= n,
            forall|j: int| 0 <= j < i ==> !alg_matches(#[trigger] card.algorithms@[j], algorithm, key_length, param),
        decreases n - i,
    {
        let info = &card.algorithms[i];
        if info.algorithm != algorithm || info.key_length != key_length {
            i += 1;
            continue;
        }
        match param {
            Some(oid) => {
                if info.algorithm == SC_ALGORITHM_EC {
                    if sc_compare_oid(oid, &info.ec_params_id) == 0 {
                        i += 1;
                        continue;
                    }
                }
            },
            None => {},
        }
        return Some(i);
    }
    None
}

/// Law: every object identifier is equal to itself.
pub proof fn lemma_oid_equal_reflexive(a: Seq<i32>)
    ensures
        oid_equal(a, a),
{
}

/// Law: an algorithm added to the card's list is found again by its algorithm and
/// key length: some entry up to and including the new one matches. For an elliptic
/// curve algorithm searched with domain parameters, those must be the new entry's.
pub proof fn lemma_added_algorithm_is_found(
    algs: Seq<sc_algorithm_info>,
    info: sc_algorithm_info,
    param: Option<&sc_object_id>,
)
    requires
        param is Some && info.algorithm == SC_ALGORITHM_EC ==> oid_equal(param->Some_0.value@, info.ec_params_id.value@),
    ensures
        exists|i: int| 0 <= i < algs.push(info).len()
            && alg_matches(#[trigger] algs.push(info)[i], info.algorithm, info.key_length, param),
{
    let i = algs.len() as int;
    assert(algs.push(info)[i] == info);
    assert(alg_matches(algs.push(info)[i], info.algorithm, info.key_length, param));
}

} // verus!
