//! The canonical order of chunks: by stable id, byte by byte, and by key among
//! chunks whose ids are the same. A set of chunks has exactly one sequence in
//! this order, so what is fed to a hash does not depend on how the set is walked.

use crate::compilation::{Chunk, ChunkByUkey, ChunkUkey};
use vstd::prelude::*;
use vstd::relations::*;
use vstd::seq_lib::*;
use vstd::string::*;
use vstd::utf8::encode_utf8;

verus! {

broadcast use {vstd::std_specs::hash::group_hash_axioms, vstd::seq_lib::group_to_multiset_ensures};

/// `a` comes no later than `b` in the lexicographic order of byte strings.
pub open spec fn bytes_le(a: Seq<u8>, b: Seq<u8>) -> bool
    decreases a.len(),
{
    if a.len() == 0 {
        true
    } else if b.len() == 0 {
        false
    } else if a[0] != b[0] {
        a[0] < b[0]
    } else {
        bytes_le(a.drop_first(), b.drop_first())
    }
}

/// The order of sort keys: no key before any key, keys among themselves by
/// their bytes.
pub open spec fn key_le(a: Option<Seq<u8>>, b: Option<Seq<u8>>) -> bool {
    match (a, b) {
        (None, _) => true,
        (Some(_), None) => false,
        (Some(x), Some(y)) => bytes_le(x, y),
    }
}

/// The sort key of the chunk `key`: the bytes of its id, or nothing where the
/// chunk is unknown or has no id.
pub open spec fn sort_key(chunks: Map<ChunkUkey, Chunk>, key: ChunkUkey) -> Option<Seq<u8>> {
    if chunks.contains_key(key) {
        match chunks[key].id {
            Some(id) => Some(encode_utf8(id@)),
            None => None,
        }
    } else {
        None
    }
}

/// `a` comes no later than `b` in the canonical order.
pub open spec fn precedes(chunks: Map<ChunkUkey, Chunk>, a: ChunkUkey, b: ChunkUkey) -> bool {
    let ka = sort_key(chunks, a);
    let kb = sort_key(chunks, b);
    if key_le(ka, kb) && key_le(kb, ka) {
        a <= b
    } else {
        key_le(ka, kb)
    }
}

/// The canonical order as a relation.
pub open spec fn chunk_order(chunks: Map<ChunkUkey, Chunk>) -> spec_fn(ChunkUkey, ChunkUkey) -> bool {
    |a: ChunkUkey, b: ChunkUkey| precedes(chunks, a, b)
}

/// `order` holds exactly the chunks of `members`, each as often as `members`
/// does, in canonical order.
pub open spec fn is_canonical(
    chunks: Map<ChunkUkey, Chunk>,
    members: Seq<ChunkUkey>,
    order: Seq<ChunkUkey>,
) -> bool {
    sorted_by(order, chunk_order(chunks)) && order.to_multiset() == members.to_multiset()
}

/// The chunks of `set` in canonical order.
pub open spec fn canonical_order(chunks: Map<ChunkUkey, Chunk>, set: Set<ChunkUkey>) -> Seq<
    ChunkUkey,
> {
    choose|order: Seq<ChunkUkey>|
        order.no_duplicates() && order.to_set() == set && sorted_by(order, chunk_order(chunks))
}

/// Every byte string comes no later than itself.
pub proof fn lemma_bytes_le_reflexive(a: Seq<u8>)
    ensures
        bytes_le(a, a),
    decreases a.len(),
{
    if a.len() > 0 {
        lemma_bytes_le_reflexive(a.drop_first());
    }
}

/// Of two byte strings one comes no later than the other.
pub proof fn lemma_bytes_le_total(a: Seq<u8>, b: Seq<u8>)
    ensures
        bytes_le(a, b) || bytes_le(b, a),
    decreases a.len(),
{
    if a.len() > 0 && b.len() > 0 && a[0] == b[0] {
        lemma_bytes_le_total(a.drop_first(), b.drop_first());
    }
}

/// The order of byte strings is transitive.
pub proof fn lemma_bytes_le_transitive(a: Seq<u8>, b: Seq<u8>, c: Seq<u8>)
    requires
        bytes_le(a, b),
        bytes_le(b, c),
    ensures
        bytes_le(a, c),
    decreases a.len(),
{
    if a.len() > 0 && b.len() > 0 && c.len() > 0 && a[0] == b[0] && b[0] == c[0] {
        lemma_bytes_le_transitive(a.drop_first(), b.drop_first(), c.drop_first());
    }
}

/// The order of sort keys is transitive.
proof fn lemma_key_le_transitive(a: Option<Seq<u8>>, b: Option<Seq<u8>>, c: Option<Seq<u8>>)
    requires
        key_le(a, b),
        key_le(b, c),
    ensures
        key_le(a, c),
{
    if a is Some && b is Some && c is Some {
        lemma_bytes_le_transitive(a->0, b->0, c->0);
    }
}

/// Of two sort keys one comes no later than the other, and each comes no
/// later than itself.
proof fn lemma_key_le_total(a: Option<Seq<u8>>, b: Option<Seq<u8>>)
    ensures
        key_le(a, b) || key_le(b, a),
        key_le(a, a),
{
    if a is Some {
        lemma_bytes_le_reflexive(a->0);
        if b is Some {
            lemma_bytes_le_total(a->0, b->0);
        }
    }
}

/// Of two chunks one precedes the other.
pub proof fn lemma_precedes_total(chunks: Map<ChunkUkey, Chunk>, a: ChunkUkey, b: ChunkUkey)
    ensures
        precedes(chunks, a, b) || precedes(chunks, b, a),
        precedes(chunks, a, a),
{
    lemma_key_le_total(sort_key(chunks, a), sort_key(chunks, b));
    lemma_key_le_total(sort_key(chunks, b), sort_key(chunks, a));
}

/// Two chunks that precede each other are one chunk.
pub proof fn lemma_precedes_antisymmetric(chunks: Map<ChunkUkey, Chunk>, a: ChunkUkey, b: ChunkUkey)
    requires
        precedes(chunks, a, b),
        precedes(chunks, b, a),
    ensures
        a == b,
{
}

/// The canonical order is transitive.
pub proof fn lemma_precedes_transitive(
    chunks: Map<ChunkUkey, Chunk>,
    a: ChunkUkey,
    b: ChunkUkey,
    c: ChunkUkey,
)
    requires
        precedes(chunks, a, b),
        precedes(chunks, b, c),
    ensures
        precedes(chunks, a, c),
{
    let ka = sort_key(chunks, a);
    let kb = sort_key(chunks, b);
    let kc = sort_key(chunks, c);
    lemma_key_le_transitive(ka, kb, kc);
    if key_le(kc, ka) {
        lemma_key_le_transitive(kc, ka, kb);
        lemma_key_le_transitive(kb, kc, ka);
    }
}

/// The canonical order is a total order of the chunk keys.
pub proof fn lemma_chunk_order_total(chunks: Map<ChunkUkey, Chunk>)
    ensures
        total_ordering(chunk_order(chunks)),
{
    let leq = chunk_order(chunks);
    assert forall|a: ChunkUkey| #[trigger] leq(a, a) by {
        lemma_precedes_total(chunks, a, a);
    }
    assert forall|a: ChunkUkey, b: ChunkUkey| #[trigger] leq(a, b) && #[trigger] leq(b, a) implies a
        == b by {
        lemma_precedes_antisymmetric(chunks, a, b);
    }
    assert forall|a: ChunkUkey, b: ChunkUkey, c: ChunkUkey| #[trigger]
        leq(a, b) && #[trigger] leq(b, c) implies leq(a, c) by {
        lemma_precedes_transitive(chunks, a, b, c);
    }
    assert forall|a: ChunkUkey, b: ChunkUkey| #[trigger] leq(a, b) || #[trigger] leq(b, a) by {
        lemma_precedes_total(chunks, a, b);
    }
}

/// However a collection of chunks is walked, its canonical order is the same:
/// two sequences that hold the same chunks equally often have one canonical
/// order between them.
pub proof fn lemma_canonical_order_ignores_iteration(
    chunks: Map<ChunkUkey, Chunk>,
    walk1: Seq<ChunkUkey>,
    walk2: Seq<ChunkUkey>,
    order1: Seq<ChunkUkey>,
    order2: Seq<ChunkUkey>,
)
    requires
        walk1.to_multiset() == walk2.to_multiset(),
        is_canonical(chunks, walk1, order1),
        is_canonical(chunks, walk2, order2),
    ensures
        order1 == order2,
{
    lemma_chunk_order_total(chunks);
    lemma_sorted_unique(order1, order2, chunk_order(chunks));
}

/// A walk of a set that meets each chunk once has the set's canonical order
/// as its own.
pub proof fn lemma_canonical_order_of_walk(
    chunks: Map<ChunkUkey, Chunk>,
    set: Set<ChunkUkey>,
    walk: Seq<ChunkUkey>,
    order: Seq<ChunkUkey>,
)
    requires
        walk.no_duplicates(),
        walk.to_set() == set,
        is_canonical(chunks, walk, order),
    ensures
        order == canonical_order(chunks, set),
        order.no_duplicates(),
        order.to_set() == set,
{
    lemma_same_multiset_same_members(walk, order);
    let chosen = canonical_order(chunks, set);
    assert(chosen.no_duplicates() && chosen.to_set() == set && sorted_by(
        chosen,
        chunk_order(chunks),
    ));
    lemma_same_members_same_multiset(chosen, order);
    lemma_chunk_order_total(chunks);
    lemma_sorted_unique(chosen, order, chunk_order(chunks));
}

/// A sequence with the multiset of a duplicate-free one is duplicate-free and
/// has the same elements.
proof fn lemma_same_multiset_same_members(a: Seq<ChunkUkey>, b: Seq<ChunkUkey>)
    requires
        a.no_duplicates(),
        a.to_multiset() == b.to_multiset(),
    ensures
        b.no_duplicates(),
        b.to_set() == a.to_set(),
{
    a.lemma_multiset_has_no_duplicates();
    b.lemma_multiset_has_no_duplicates_conv();
    assert forall|x: ChunkUkey| a.to_set().contains(x) <==> b.to_set().contains(x) by {
        assert(a.contains(x) <==> a.to_multiset().count(x) > 0);
        assert(b.contains(x) <==> b.to_multiset().count(x) > 0);
    }
    assert(b.to_set() =~= a.to_set());
}

/// Two duplicate-free sequences with the same elements have one multiset.
proof fn lemma_same_members_same_multiset(a: Seq<ChunkUkey>, b: Seq<ChunkUkey>)
    requires
        a.no_duplicates(),
        b.no_duplicates(),
        a.to_set() == b.to_set(),
    ensures
        a.to_multiset() == b.to_multiset(),
{
    a.lemma_multiset_has_no_duplicates();
    b.lemma_multiset_has_no_duplicates();
    assert forall|x: ChunkUkey| a.to_multiset().count(x) == b.to_multiset().count(x) by {
        assert(a.contains(x) <==> a.to_multiset().count(x) > 0);
        assert(b.contains(x) <==> b.to_multiset().count(x) > 0);
        assert(a.to_set().contains(x) <==> a.contains(x));
        assert(b.to_set().contains(x) <==> b.contains(x));
    }
    assert(a.to_multiset() =~= b.to_multiset());
}

/// Whether `a` comes no later than `b` in the lexicographic order.
pub fn bytes_precede(a: &[u8], b: &[u8]) -> (le: bool)
    ensures
        le == bytes_le(a@, b@),
{
    let mut i: usize = 0;
    proof {
        assert(a@.skip(0) =~= a@);
        assert(b@.skip(0) =~= b@);
    }
    while i < a.len() && i < b.len()
        invariant
            i <= a.len(),
            i <= b.len(),
            bytes_le(a@, b@) == bytes_le(a@.skip(i as int), b@.skip(i as int)),
        decreases a.len() - i,
    {
        if a[i] != b[i] {
            return a[i] < b[i];
        }
        proof {
            assert(a@.skip(i as int).drop_first() =~= a@.skip(i + 1));
            assert(b@.skip(i as int).drop_first() =~= b@.skip(i + 1));
        }
        i = i + 1;
    }
    i == a.len()
}

/// The bytes by which the chunk `key` is ordered.
fn sort_key_of<'a>(chunk_by_ukey: &'a ChunkByUkey, key: ChunkUkey) -> (bytes: Option<&'a [u8]>)
    ensures
        match bytes {
            Some(b) => sort_key(chunk_by_ukey@, key) == Some(b@),
            None => sort_key(chunk_by_ukey@, key) is None,
        },
{
    match chunk_by_ukey.get(&key) {
        Some(chunk) => match &chunk.id {
            Some(id) => Some(id.as_str().as_bytes()),
            None => None,
        },
        None => None,
    }
}

/// Whether chunk `a` comes no later than chunk `b` in the canonical order.
pub fn chunk_precedes(chunk_by_ukey: &ChunkByUkey, a: ChunkUkey, b: ChunkUkey) -> (le: bool)
    ensures
        le == precedes(chunk_by_ukey@, a, b),
{
    let ka: Option<&[u8]> = sort_key_of(chunk_by_ukey, a);
    let kb: Option<&[u8]> = sort_key_of(chunk_by_ukey, b);
    match (ka, kb) {
        (None, None) => a <= b,
        (None, Some(_)) => true,
        (Some(_), None) => false,
        (Some(x), Some(y)) => {
            let forth: bool = bytes_precede(x, y);
            let back: bool = bytes_precede(y, x);
            if forth && back {
                a <= b
            } else {
                forth
            }
        },
    }
}

/// Puts `members` into canonical order. Nothing is added and nothing is lost.
pub fn sort_chunks(chunk_by_ukey: &ChunkByUkey, members: &Vec<ChunkUkey>) -> (order: Vec<ChunkUkey>)
    ensures
        is_canonical(chunk_by_ukey@, members@, order@),
{
    let ghost chunks = chunk_by_ukey@;
    let mut order: Vec<ChunkUkey> = Vec::new();
    let mut i: usize = 0;
    proof {
        assert(members@.take(0) =~= Seq::<ChunkUkey>::empty());
    }
    while i < members.len()
        invariant
            i <= members.len(),
            chunks == chunk_by_ukey@,
            sorted_by(order@, chunk_order(chunks)),
            order@.to_multiset() == members@.take(i as int).to_multiset(),
        decreases members.len() - i,
    {
        let member: ChunkUkey = members[i];
        let mut at: usize = 0;
        while at < order.len() && chunk_precedes(chunk_by_ukey, order[at], member)
            invariant
                at <= order.len(),
                chunks == chunk_by_ukey@,
                forall|j: int| 0 <= j < at ==> precedes(chunks, #[trigger] order@[j], member),
            decreases order.len() - at,
        {
            at = at + 1;
        }
        let ghost before = order@;
        order.insert(at, member);
        proof {
            let leq = chunk_order(chunks);
            assert forall|x: int, y: int| 0 <= x < y < order@.len() implies #[trigger] leq(
                order@[x],
                order@[y],
            ) by {
                if y < at {
                    assert(leq(before[x], before[y]));
                } else if y == at {
                    assert(precedes(chunks, before[x], member));
                } else if x == at {
                    lemma_precedes_total(chunks, before[at as int], member);
                    if y - 1 > at {
                        assert(leq(before[at as int], before[y - 1]));
                        lemma_precedes_transitive(chunks, member, before[at as int], before[y - 1]);
                    }
                } else if x < at {
                    assert(leq(before[x], before[y - 1]));
                } else {
                    assert(leq(before[x - 1], before[y - 1]));
                }
            }
            assert(members@.take(i + 1) =~= members@.take(i as int).push(member));
        }
        i = i + 1;
    }
    proof {
        assert(members@.take(members@.len() as int) =~= members@);
    }
    order
}

} // verus!
