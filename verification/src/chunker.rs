//! Payloads that are longer than one message of the channel: sent as
//! numbered chunks, put together again whatever the order of arrival.

use crate::file_sharing::{byte_views, joined, lemma_joined_pieces, pieces};
use vstd::prelude::*;

verus! {

/// One piece of a payload, with what the receiver needs to place it.
#[derive(Debug, PartialEq, Eq)]
pub struct Chunk {
    /// The transfer that the piece belongs to.
    pub transfer_id: u64,
    /// The place of the piece in the payload, counted from zero.
    pub index: usize,
    /// How many pieces the payload has.
    pub total_chunks: usize,
    /// The bytes of the piece.
    pub data: Vec<u8>,
}

pub struct ChunkView {
    pub transfer_id: u64,
    pub index: nat,
    pub total_chunks: nat,
    pub data: Seq<u8>,
}

impl View for Chunk {
    type V = ChunkView;

    open spec fn view(&self) -> ChunkView {
        ChunkView {
            transfer_id: self.transfer_id,
            index: self.index as nat,
            total_chunks: self.total_chunks as nat,
            data: self.data@,
        }
    }
}

impl Clone for Chunk {
    fn clone(&self) -> (c: Chunk)
        ensures
            c@ == self@,
    {
        Chunk {
            transfer_id: self.transfer_id,
            index: self.index,
            total_chunks: self.total_chunks,
            data: self.data.clone(),
        }
    }
}

pub open spec fn chunk_views(v: Seq<Chunk>) -> Seq<ChunkView> {
    v.map_values(|c: Chunk| c@)
}

/// A transfer that is under way: one slot for each piece of the payload,
/// filled where the piece has arrived.
pub struct TransferView {
    pub transfer_id: u64,
    pub total_chunks: nat,
    pub slots: Seq<Option<Seq<u8>>>,
}

// ------------------------------------------------------------ the model

/// The chunks that a payload is sent as.
pub open spec fn split_chunks(transfer_id: u64, payload: Seq<u8>, size: nat) -> Seq<ChunkView> {
    let parts = pieces(payload, size);
    Seq::new(
        parts.len(),
        |i: int|
            ChunkView {
                transfer_id,
                index: i as nat,
                total_chunks: parts.len(),
                data: parts[i],
            },
    )
}

pub open spec fn empty_slots(total: nat) -> Seq<Option<Seq<u8>>> {
    Seq::new(total, |i: int| None)
}

/// Every piece has arrived.
pub open spec fn complete(slots: Seq<Option<Seq<u8>>>) -> bool {
    forall|i: int| 0 <= i < slots.len() ==> (#[trigger] slots[i]) is Some
}

/// The pieces in the slots, in the order of the slots.
pub open spec fn contents(slots: Seq<Option<Seq<u8>>>) -> Seq<Seq<u8>> {
    Seq::new(slots.len(), |i: int| slots[i]->0)
}

/// A chunk can be placed: its index is one of its transfer's.
pub open spec fn usable(c: ChunkView) -> bool {
    c.index < c.total_chunks
}

/// The slots with the chunk's piece in its place.
pub open spec fn filled(slots: Seq<Option<Seq<u8>>>, c: ChunkView) -> Seq<Option<Seq<u8>>> {
    if c.index < slots.len() {
        slots.update(c.index as int, Some(c.data))
    } else {
        slots
    }
}

pub open spec fn holds_transfer(ts: Seq<TransferView>, id: u64) -> bool {
    exists|j: int| 0 <= j < ts.len() && (#[trigger] ts[j]).transfer_id == id
}

/// Whether the transfer `id` stands at `j` and not before.
pub open spec fn first_at(ts: Seq<TransferView>, id: u64, j: int) -> bool {
    &&& 0 <= j < ts.len()
    &&& ts[j].transfer_id == id
    &&& forall|k: int| 0 <= k < j ==> (#[trigger] ts[k]).transfer_id != id
}

/// Where the transfer `id` stands.
pub open spec fn transfer_position(ts: Seq<TransferView>, id: u64) -> int {
    choose|j: int| first_at(ts, id, j)
}

/// What the transfers under way have in common: no two share an
/// identifier, each has as many slots as its payload has pieces, and none
/// is complete.
pub open spec fn transfers_ok(ts: Seq<TransferView>) -> bool {
    &&& forall|i: int, j: int|
        0 <= i < j < ts.len() ==> (#[trigger] ts[i]).transfer_id != (#[trigger] ts[j]).transfer_id
    &&& forall|i: int|
        0 <= i < ts.len() ==> (#[trigger] ts[i]).slots.len() == ts[i].total_chunks && !complete(
            ts[i].slots,
        )
}

/// The slots that the chunk's piece goes into: those of its transfer, or
/// empty ones where the chunk opens a transfer. There are none for a chunk
/// that cannot be placed or that disagrees with its transfer on the number
/// of pieces; such a chunk is ignored.
pub open spec fn slots_for(ts: Seq<TransferView>, c: ChunkView) -> Option<Seq<Option<Seq<u8>>>> {
    if !usable(c) {
        None
    } else if !holds_transfer(ts, c.transfer_id) {
        Some(empty_slots(c.total_chunks))
    } else if ts[transfer_position(ts, c.transfer_id)].total_chunks != c.total_chunks {
        None
    } else {
        Some(ts[transfer_position(ts, c.transfer_id)].slots)
    }
}

/// What is handed out when the chunk arrives: the payload, where the chunk
/// brings the last piece that was missing.
pub open spec fn ingest_result(ts: Seq<TransferView>, c: ChunkView) -> Option<Seq<u8>> {
    match slots_for(ts, c) {
        None => None,
        Some(slots) => if complete(filled(slots, c)) {
            Some(joined(contents(filled(slots, c))))
        } else {
            None
        },
    }
}

/// The transfers under way after the chunk has arrived. A transfer that
/// the chunk completes is no longer kept.
pub open spec fn after_ingest(ts: Seq<TransferView>, c: ChunkView) -> Seq<TransferView> {
    match slots_for(ts, c) {
        None => ts,
        Some(slots) => {
            let t = TransferView {
                transfer_id: c.transfer_id,
                total_chunks: c.total_chunks,
                slots: filled(slots, c),
            };
            if holds_transfer(ts, c.transfer_id) {
                if complete(t.slots) {
                    ts.remove(transfer_position(ts, c.transfer_id))
                } else {
                    ts.update(transfer_position(ts, c.transfer_id), t)
                }
            } else {
                if complete(t.slots) {
                    ts
                } else {
                    ts.push(t)
                }
            }
        },
    }
}

// ------------------------------------------------------------ the laws

/// The transfers under way after the chunks have arrived one by one.
pub open spec fn delivered(ts: Seq<TransferView>, cs: Seq<ChunkView>) -> Seq<TransferView>
    decreases cs.len(),
{
    if cs.len() == 0 {
        ts
    } else {
        after_ingest(delivered(ts, cs.drop_last()), cs.last())
    }
}

/// The chunks in the order in which they arrive: `order` names them by
/// their indices.
pub open spec fn arrivals(chunks: Seq<ChunkView>, order: Seq<int>) -> Seq<ChunkView> {
    Seq::new(order.len(), |k: int| chunks[order[k]])
}

/// The slots of a transfer of which the pieces named in `order` have
/// arrived.
pub open spec fn seen_slots(parts: Seq<Seq<u8>>, order: Seq<int>) -> Seq<Option<Seq<u8>>> {
    Seq::new(
        parts.len(),
        |i: int|
            if order.contains(i) {
                Some(parts[i])
            } else {
                None
            },
    )
}

/// `order` names chunks of a payload of `n` pieces, and never the chunk
/// `last`.
pub open spec fn avoids(order: Seq<int>, n: nat, last: int) -> bool {
    forall|k: int| 0 <= k < order.len() ==> 0 <= #[trigger] order[k] < n && order[k] != last
}

proof fn lemma_partial(
    ts: Seq<TransferView>,
    id: u64,
    payload: Seq<u8>,
    size: nat,
    order: Seq<int>,
    last: int,
)
    requires
        !holds_transfer(ts, id),
        0 <= last < pieces(payload, size).len(),
        avoids(order, pieces(payload, size).len(), last),
    ensures
        delivered(ts, arrivals(split_chunks(id, payload, size), order)) == if order.len() == 0 {
            ts
        } else {
            ts.push(
                TransferView {
                    transfer_id: id,
                    total_chunks: pieces(payload, size).len(),
                    slots: seen_slots(pieces(payload, size), order),
                },
            )
        },
        order.len() > 0 ==> ingest_result(
            delivered(ts, arrivals(split_chunks(id, payload, size), order.drop_last())),
            split_chunks(id, payload, size)[order.last()],
        ) is None,
    decreases order.len(),
{
    let parts = pieces(payload, size);
    let n = parts.len();
    let chunks = split_chunks(id, payload, size);
    let cs = arrivals(chunks, order);
    if order.len() > 0 {
        let before = order.drop_last();
        let x = order.last();
        let c = chunks[x];
        assert(avoids(before, n, last)) by {
            assert forall|k: int| 0 <= k < before.len() implies 0 <= #[trigger] before[k] < n
                && before[k] != last by {
                assert(before[k] == order[k]);
            }
        }
        lemma_partial(ts, id, payload, size, before, last);
        assert(cs.drop_last() =~= arrivals(chunks, before));
        assert(cs.last() == c);
        let s = delivered(ts, arrivals(chunks, before));
        let slots = seen_slots(parts, order);
        assert(slots[last] is None) by {
            if order.contains(last) {
                let k = choose|k: int| 0 <= k < order.len() && order[k] == last;
                assert(order[k] != last);
            }
        }
        assert(!complete(slots));
        assert forall|i: int| 0 <= i < n implies (order.contains(i) <==> before.contains(i) || i
            == x) by {
            if order.contains(i) {
                let k = choose|k: int| 0 <= k < order.len() && order[k] == i;
                if k < before.len() {
                    assert(before[k] == i);
                }
            }
            if before.contains(i) {
                let k = choose|k: int| 0 <= k < before.len() && before[k] == i;
                assert(order[k] == i);
            }
            if i == x {
                assert(order[order.len() - 1] == x);
            }
        }
        if before.len() == 0 {
            assert(filled(empty_slots(n), c) =~= slots);
        } else {
            let t = TransferView {
                transfer_id: id,
                total_chunks: n,
                slots: seen_slots(parts, before),
            };
            assert(s == ts.push(t));
            assert(first_at(s, id, ts.len() as int));
            lemma_position(s, id, ts.len() as int);
            assert(filled(t.slots, c) =~= slots);
            assert(s.update(ts.len() as int, TransferView { slots: slots, ..t }) =~= ts.push(
                TransferView { slots: slots, ..t },
            ));
        }
    }
}

/// Reassembly: whatever the order in which the chunks of a payload arrive,
/// and however often any of them arrives, nothing is handed out while a
/// chunk is still missing, and the chunk that brings the last missing piece
/// hands out the payload, byte for byte. The transfer is then no longer
/// kept.
pub proof fn lemma_reassembly(
    ts: Seq<TransferView>,
    id: u64,
    payload: Seq<u8>,
    size: nat,
    order: Seq<int>,
    last: int,
)
    requires
        !holds_transfer(ts, id),
        0 <= last < pieces(payload, size).len(),
        avoids(order, pieces(payload, size).len(), last),
        forall|i: int| 0 <= i < pieces(payload, size).len() && i != last ==> order.contains(i),
    ensures
        forall|k: int|
            0 <= k < order.len() ==> ingest_result(
                delivered(ts, #[trigger] arrivals(split_chunks(id, payload, size), order).take(k)),
                split_chunks(id, payload, size)[order[k]],
            ) is None,
        ingest_result(
            delivered(ts, arrivals(split_chunks(id, payload, size), order)),
            split_chunks(id, payload, size)[last],
        ) == Some(payload),
        after_ingest(
            delivered(ts, arrivals(split_chunks(id, payload, size), order)),
            split_chunks(id, payload, size)[last],
        ) == ts,
{
    let parts = pieces(payload, size);
    let n = parts.len();
    let chunks = split_chunks(id, payload, size);
    let cs = arrivals(chunks, order);
    assert forall|k: int| 0 <= k < order.len() implies ingest_result(
        delivered(ts, #[trigger] cs.take(k)),
        chunks[order[k]],
    ) is None by {
        let prefix = order.take(k + 1);
        assert(avoids(prefix, n, last)) by {
            assert forall|m: int| 0 <= m < prefix.len() implies 0 <= #[trigger] prefix[m] < n
                && prefix[m] != last by {
                assert(prefix[m] == order[m]);
            }
        }
        lemma_partial(ts, id, payload, size, prefix, last);
        assert(arrivals(chunks, prefix.drop_last()) =~= cs.take(k));
        assert(prefix.last() == order[k]);
    }
    lemma_partial(ts, id, payload, size, order, last);
    lemma_joined_pieces(payload, size);
    let c = chunks[last];
    let s = delivered(ts, cs);
    let full = Seq::new(n, |i: int| Some(parts[i]));
    assert(contents(full) =~= parts);
    if order.len() == 0 {
        assert forall|i: int| 0 <= i < n implies #[trigger] full[i] == filled(empty_slots(n), c)[i] by {
            if i != last {
                assert(order.contains(i));
            }
        }
        assert(filled(empty_slots(n), c) =~= full);
    } else {
        let t = TransferView { transfer_id: id, total_chunks: n, slots: seen_slots(parts, order) };
        assert(first_at(s, id, ts.len() as int));
        lemma_position(s, id, ts.len() as int);
        assert(filled(t.slots, c) =~= full);
        assert(s.remove(ts.len() as int) =~= ts);
    }
}

/// What the transfers under way have in common is kept by every chunk that
/// arrives.
pub proof fn lemma_transfers_ok_kept(ts: Seq<TransferView>, c: ChunkView)
    requires
        transfers_ok(ts),
    ensures
        transfers_ok(after_ingest(ts, c)),
{
    let after = after_ingest(ts, c);
    match slots_for(ts, c) {
        None => {},
        Some(slots) => {
            if holds_transfer(ts, c.transfer_id) {
                let j = transfer_position(ts, c.transfer_id);
                let w = choose|w: int| 0 <= w < ts.len() && (#[trigger] ts[w]).transfer_id
                    == c.transfer_id;
                lemma_first_exists(ts, c.transfer_id, w);
                if complete(filled(slots, c)) {
                    assert forall|a: int, b: int| 0 <= a < b < after.len() implies (
                    #[trigger] after[a]).transfer_id != (#[trigger] after[b]).transfer_id by {
                        let oa = if a < j {
                            a
                        } else {
                            a + 1
                        };
                        let ob = if b < j {
                            b
                        } else {
                            b + 1
                        };
                        assert(ts[oa].transfer_id != ts[ob].transfer_id);
                    }
                    assert forall|i: int| 0 <= i < after.len() implies (#[trigger] after[i]).slots.len()
                        == after[i].total_chunks && !complete(after[i].slots) by {
                        let oi = if i < j {
                            i
                        } else {
                            i + 1
                        };
                        assert(after[i] == ts[oi]);
                    }
                } else {
                    assert forall|a: int, b: int| 0 <= a < b < after.len() implies (
                    #[trigger] after[a]).transfer_id != (#[trigger] after[b]).transfer_id by {
                        assert(ts[a].transfer_id != ts[b].transfer_id);
                    }
                    assert forall|i: int| 0 <= i < after.len() implies (#[trigger] after[i]).slots.len()
                        == after[i].total_chunks && !complete(after[i].slots) by {
                        if i != j {
                            assert(after[i] == ts[i]);
                        }
                    }
                }
            } else {
                if !complete(filled(slots, c)) {
                    assert forall|a: int, b: int| 0 <= a < b < after.len() implies (
                    #[trigger] after[a]).transfer_id != (#[trigger] after[b]).transfer_id by {
                        if b == ts.len() {
                            assert(ts[a].transfer_id != c.transfer_id);
                        } else {
                            assert(ts[a].transfer_id != ts[b].transfer_id);
                        }
                    }
                    assert forall|i: int| 0 <= i < after.len() implies (#[trigger] after[i]).slots.len()
                        == after[i].total_chunks && !complete(after[i].slots) by {
                        if i < ts.len() {
                            assert(after[i] == ts[i]);
                        }
                    }
                }
            }
        },
    }
}

/// A transfer that is held has a first place.
pub proof fn lemma_first_exists(ts: Seq<TransferView>, id: u64, w: int)
    requires
        0 <= w < ts.len(),
        ts[w].transfer_id == id,
    ensures
        first_at(ts, id, transfer_position(ts, id)),
    decreases w,
{
    if exists|k: int| 0 <= k < w && (#[trigger] ts[k]).transfer_id == id {
        let k = choose|k: int| 0 <= k < w && (#[trigger] ts[k]).transfer_id == id;
        lemma_first_exists(ts, id, k);
    } else {
        assert(first_at(ts, id, w));
    }
}

proof fn lemma_position(ts: Seq<TransferView>, id: u64, j: int)
    requires
        first_at(ts, id, j),
    ensures
        holds_transfer(ts, id),
        transfer_position(ts, id) == j,
{
    let k = transfer_position(ts, id);
    assert(first_at(ts, id, k));
    if k < j {
        assert(ts[k].transfer_id != id);
    } else if j < k {
        assert(ts[j].transfer_id != id);
    }
}

// ------------------------------------------------------------ one transfer

/// A piece that has arrived.
#[derive(Debug)]
pub struct Piece {
    index: usize,
    data: Vec<u8>,
}

pub struct PieceView {
    pub index: nat,
    pub data: Seq<u8>,
}

impl View for Piece {
    type V = PieceView;

    closed spec fn view(&self) -> PieceView {
        PieceView { index: self.index as nat, data: self.data@ }
    }
}

pub open spec fn piece_views(v: Seq<Piece>) -> Seq<PieceView> {
    v.map_values(|p: Piece| p@)
}

/// The pieces stand in the order of their indices, no index twice, every
/// index below `total`.
pub open spec fn sorted_below(r: Seq<PieceView>, total: nat) -> bool {
    &&& forall|i: int, j: int| 0 <= i < j < r.len() ==> (#[trigger] r[i]).index < (#[trigger] r[j]).index
    &&& forall|i: int| 0 <= i < r.len() ==> (#[trigger] r[i]).index < total
}

pub open spec fn has_piece(r: Seq<PieceView>, i: int) -> bool {
    exists|j: int| 0 <= j < r.len() && (#[trigger] r[j]).index == i
}

pub open spec fn piece_at(r: Seq<PieceView>, i: int) -> Seq<u8> {
    r[choose|j: int| 0 <= j < r.len() && (#[trigger] r[j]).index == i].data
}

/// The slots that a list of arrived pieces stands for.
pub open spec fn slots_of(r: Seq<PieceView>, total: nat) -> Seq<Option<Seq<u8>>> {
    Seq::new(
        total,
        |i: int|
            if has_piece(r, i) {
                Some(piece_at(r, i))
            } else {
                None
            },
    )
}

proof fn lemma_piece_found(r: Seq<PieceView>, total: nat, j: int)
    requires
        sorted_below(r, total),
        0 <= j < r.len(),
    ensures
        has_piece(r, r[j].index as int),
        piece_at(r, r[j].index as int) == r[j].data,
        slots_of(r, total)[r[j].index as int] == Some(r[j].data),
{
    let i = r[j].index as int;
    let k = choose|k: int| 0 <= k < r.len() && (#[trigger] r[k]).index == i;
    if k < j {
        assert(r[k].index < r[j].index);
    } else if j < k {
        assert(r[j].index < r[k].index);
    }
}

proof fn lemma_bounds(r: Seq<PieceView>, total: nat, j: int)
    requires
        sorted_below(r, total),
        0 <= j < r.len(),
    ensures
        j <= r[j].index,
        r[j].index + (r.len() - j) <= total,
    decreases r.len(),
{
    if j > 0 {
        lemma_lower(r, total, j);
    }
    lemma_upper(r, total, j);
}

proof fn lemma_lower(r: Seq<PieceView>, total: nat, j: int)
    requires
        sorted_below(r, total),
        0 <= j < r.len(),
    ensures
        j <= r[j].index,
    decreases j,
{
    if j > 0 {
        lemma_lower(r, total, j - 1);
        assert(r[j - 1].index < r[j].index);
    }
}

proof fn lemma_upper(r: Seq<PieceView>, total: nat, j: int)
    requires
        sorted_below(r, total),
        0 <= j < r.len(),
    ensures
        r[j].index + (r.len() - j) <= total,
    decreases r.len() - j,
{
    if j + 1 < r.len() {
        lemma_upper(r, total, j + 1);
        assert(r[j].index < r[j + 1].index);
    }
}

/// Where every index has its piece, the `i`-th piece has index `i`.
proof fn lemma_dense(r: Seq<PieceView>, total: nat, i: int)
    requires
        sorted_below(r, total),
        complete(slots_of(r, total)),
        0 <= i < total,
    ensures
        i < r.len(),
        r[i].index == i,
    decreases i,
{
    assert(slots_of(r, total)[i] is Some);
    assert(has_piece(r, i));
    let j = choose|j: int| 0 <= j < r.len() && (#[trigger] r[j]).index == i;
    lemma_lower(r, total, j);
    if j < i {
        lemma_dense(r, total, j);
    }
}

/// All pieces have arrived exactly when there are as many as the payload
/// has, and then they are the contents of the slots.
proof fn lemma_full(r: Seq<PieceView>, total: nat)
    requires
        sorted_below(r, total),
    ensures
        r.len() <= total,
        complete(slots_of(r, total)) <==> r.len() == total,
        r.len() == total ==> contents(slots_of(r, total)) == Seq::new(
            r.len(),
            |i: int| r[i].data,
        ),
{
    if r.len() > 0 {
        lemma_bounds(r, total, 0);
    }
    if complete(slots_of(r, total)) {
        if total > 0 {
            lemma_dense(r, total, total - 1);
        }
    }
    if r.len() == total {
        assert forall|i: int| 0 <= i < total implies (#[trigger] slots_of(r, total)[i]) == Some(
            r[i].data,
        ) by {
            lemma_bounds(r, total, i);
            lemma_piece_found(r, total, i);
        }
        assert(contents(slots_of(r, total)) =~= Seq::new(r.len(), |i: int| r[i].data));
    }
}

/// Putting a piece into the list fills its slot and no other.
proof fn lemma_put(r: Seq<PieceView>, total: nat, k: int, piece: PieceView, after: Seq<PieceView>)
    requires
        sorted_below(r, total),
        piece.index < total,
        0 <= k <= r.len(),
        forall|j: int| 0 <= j < k ==> (#[trigger] r[j]).index < piece.index,
        k < r.len() ==> r[k].index >= piece.index,
        after == if k < r.len() && r[k].index == piece.index {
            r.update(k, piece)
        } else {
            r.insert(k, piece)
        },
    ensures
        sorted_below(after, total),
        slots_of(after, total) == slots_of(r, total).update(piece.index as int, Some(piece.data)),
{
    let overwrite = k < r.len() && r[k].index == piece.index;
    assert(sorted_below(after, total)) by {
        assert forall|i: int, j: int| 0 <= i < j < after.len() implies (#[trigger] after[i]).index
            < (#[trigger] after[j]).index by {
            if overwrite {
                assert(r[i].index < r[j].index);
            } else {
                let oi = if i < k {
                    i
                } else {
                    i - 1
                };
                let oj = if j < k {
                    j
                } else {
                    j - 1
                };
                if i == k {
                    assert(r[oj].index >= r[k].index || oj == k);
                } else if j == k {
                    assert(r[oi].index < piece.index);
                } else {
                    assert(r[oi].index < r[oj].index);
                }
            }
        }
    }
    let target = slots_of(r, total).update(piece.index as int, Some(piece.data));
    assert forall|i: int| 0 <= i < total implies (#[trigger] slots_of(after, total)[i])
        == target[i] by {
        if i == piece.index {
            assert(after[k] == piece);
            lemma_piece_found(after, total, k);
        } else if has_piece(r, i) {
            let j = choose|j: int| 0 <= j < r.len() && (#[trigger] r[j]).index == i;
            let nj = if overwrite || j < k {
                j
            } else {
                j + 1
            };
            assert(after[nj] == r[j]);
            lemma_piece_found(after, total, nj);
            lemma_piece_found(r, total, j);
        } else if has_piece(after, i) {
            let nj = choose|j: int| 0 <= j < after.len() && (#[trigger] after[j]).index == i;
            let j = if overwrite || nj < k {
                nj
            } else {
                nj - 1
            };
            assert(r[j] == after[nj]);
            assert(has_piece(r, i));
        }
    }
    assert(slots_of(after, total) =~= target);
}

/// A transfer that is under way.
///
/// The pieces that have arrived are kept in the order of their indices, no
/// index twice. So the transfer is complete exactly when it holds as many
/// pieces as the payload has, the payload is the pieces as they stand, and
/// a chunk that names a huge number of pieces costs no memory.
#[derive(Debug)]
pub struct ChunkedTransfer {
    transfer_id: u64,
    total_chunks: usize,
    received: Vec<Piece>,
}

impl View for ChunkedTransfer {
    type V = TransferView;

    closed spec fn view(&self) -> TransferView {
        TransferView {
            transfer_id: self.transfer_id,
            total_chunks: self.total_chunks as nat,
            slots: slots_of(piece_views(self.received@), self.total_chunks as nat),
        }
    }
}

impl ChunkedTransfer {
    #[verifier::type_invariant]
    spec fn ordered(self) -> bool {
        sorted_below(piece_views(self.received@), self.total_chunks as nat)
    }

    /// A transfer of which no piece has arrived.
    pub fn new(transfer_id: u64, total_chunks: usize) -> (t: ChunkedTransfer)
        ensures
            t@ == (TransferView {
                transfer_id,
                total_chunks: total_chunks as nat,
                slots: empty_slots(total_chunks as nat),
            }),
    {
        let t = ChunkedTransfer { transfer_id, total_chunks, received: Vec::new() };
        assert(t@.slots =~= empty_slots(total_chunks as nat));
        t
    }

    pub fn transfer_id(&self) -> (id: u64)
        ensures
            id == self@.transfer_id,
    {
        self.transfer_id
    }

    pub fn total_chunks(&self) -> (n: usize)
        ensures
            n == self@.total_chunks,
            self@.slots.len() == n,
    {
        self.total_chunks
    }

    /// Whether every piece has arrived.
    pub fn is_complete(&self) -> (b: bool)
        ensures
            b == complete(self@.slots),
    {
        proof {
            use_type_invariant(self);
            lemma_full(piece_views(self.received@), self.total_chunks as nat);
        }
        self.received.len() == self.total_chunks
    }

    /// The transfer with a piece put into its slot, in place of what the
    /// slot held.
    pub(crate) fn put(self, index: usize, data: Vec<u8>) -> (t: ChunkedTransfer)
        requires
            index < self@.total_chunks,
        ensures
            t@ == (TransferView { slots: self@.slots.update(index as int, Some(data@)), ..self@ }),
    {
        proof {
            use_type_invariant(&self);
        }
        let ghost r = piece_views(self.received@);
        let ChunkedTransfer { transfer_id, total_chunks, received } = self;
        let mut received = received;
        let mut k: usize = 0;
        while k < received.len() && received[k].index < index
            invariant
                0 <= k <= received@.len(),
                r == piece_views(received@),
                forall|j: int| 0 <= j < k ==> (#[trigger] r[j]).index < index,
            decreases received@.len() - k,
        {
            k = k + 1;
        }
        let piece = Piece { index, data };
        let ghost after = if k < r.len() && r[k as int].index == index {
            r.update(k as int, piece@)
        } else {
            r.insert(k as int, piece@)
        };
        proof {
            lemma_put(r, total_chunks as nat, k as int, piece@, after);
        }
        if k < received.len() && received[k].index == index {
            received.set(k, piece);
        } else {
            received.insert(k, piece);
        }
        assert(piece_views(received@) =~= after);
        ChunkedTransfer { transfer_id, total_chunks, received }
    }

    /// The payload of a complete transfer.
    pub(crate) fn into_payload(self) -> (payload: Vec<u8>)
        requires
            complete(self@.slots),
        ensures
            payload@ == joined(contents(self@.slots)),
    {
        proof {
            use_type_invariant(&self);
            lemma_full(piece_views(self.received@), self.total_chunks as nat);
        }
        let ghost r = piece_views(self.received@);
        let ghost parts = Seq::new(r.len(), |i: int| r[i].data);
        let mut payload: Vec<u8> = Vec::new();
        let mut i: usize = 0;
        assert(parts.skip(0) =~= parts);
        assert(payload@ + joined(parts.skip(0)) =~= joined(parts));
        while i < self.received.len()
            invariant
                0 <= i <= self.received@.len(),
                r == piece_views(self.received@),
                parts == Seq::new(r.len(), |i: int| r[i].data),
                payload@ + joined(parts.skip(i as int)) == joined(parts),
            decreases self.received@.len() - i,
        {
            let ghost before = payload@;
            let ghost rest = parts.skip(i as int);
            payload.extend_from_slice(self.received[i].data.as_slice());
            proof {
                assert(payload@ =~= before + rest[0]);
                assert(rest.skip(1) =~= parts.skip(i + 1));
                assert(payload@ + joined(parts.skip(i + 1)) =~= before + joined(rest));
            }
            i = i + 1;
        }
        assert(joined(parts.skip(i as int)) =~= Seq::<u8>::empty());
        assert(payload@ =~= joined(parts));
        payload
    }
}

// ------------------------------------------------------------ all transfers

pub open spec fn transfer_views(v: Seq<ChunkedTransfer>) -> Seq<TransferView> {
    v.map_values(|t: ChunkedTransfer| t@)
}

/// Cuts payloads into chunks and puts arriving chunks together.
#[derive(Debug)]
pub struct FileChunker {
    transfers: Vec<ChunkedTransfer>,
}

impl View for FileChunker {
    type V = Seq<TransferView>;

    closed spec fn view(&self) -> Seq<TransferView> {
        transfer_views(self.transfers@)
    }
}

impl FileChunker {
    /// A chunker with no transfer under way.
    pub fn new() -> (c: FileChunker)
        ensures
            c@ == Seq::<TransferView>::empty(),
    {
        let c = FileChunker { transfers: Vec::new() };
        assert(c@ =~= Seq::<TransferView>::empty());
        c
    }

    /// How many transfers are under way.
    pub fn pending(&self) -> (n: usize)
        ensures
            n == self@.len(),
    {
        self.transfers.len()
    }

    /// The chunks that `payload` is sent as, none longer than
    /// `max_chunk_size` bytes. `max_chunk_size` is to be chosen below the
    /// longest message that the transport takes.
    pub fn split(transfer_id: u64, payload: &[u8], max_chunk_size: usize) -> (chunks: Vec<Chunk>)
        requires
            max_chunk_size > 0,
        ensures
            chunk_views(chunks@) == split_chunks(transfer_id, payload@, max_chunk_size as nat),
    {
        let parts = crate::file_sharing::cut(payload, max_chunk_size);
        let total = parts.len();
        let ghost target = split_chunks(transfer_id, payload@, max_chunk_size as nat);
        let mut chunks: Vec<Chunk> = Vec::new();
        let mut i: usize = 0;
        while i < total
            invariant
                0 <= i <= total,
                total == parts@.len(),
                byte_views(parts@) == pieces(payload@, max_chunk_size as nat),
                target == split_chunks(transfer_id, payload@, max_chunk_size as nat),
                chunks@.len() == i,
                forall|j: int| 0 <= j < i ==> (#[trigger] chunks@[j])@ == target[j],
            decreases total - i,
        {
            let chunk = Chunk { transfer_id, index: i, total_chunks: total, data: parts[i].clone() };
            assert(chunk@ == target[i as int]) by {
                assert(byte_views(parts@)[i as int] == parts@[i as int]@);
            }
            chunks.push(chunk);
            i = i + 1;
        }
        assert(chunk_views(chunks@) =~= target);
        chunks
    }

    fn find(&self, transfer_id: u64) -> (r: Option<usize>)
        ensures
            match r {
                Some(j) => first_at(self@, transfer_id, j as int),
                None => !holds_transfer(self@, transfer_id),
            },
    {
        let mut j: usize = 0;
        while j < self.transfers.len()
            invariant
                0 <= j <= self.transfers@.len(),
                forall|k: int| 0 <= k < j ==> (#[trigger] self@[k]).transfer_id != transfer_id,
            decreases self.transfers@.len() - j,
        {
            if self.transfers[j].transfer_id() == transfer_id {
                return Some(j);
            }
            j = j + 1;
        }
        None
    }

    /// Takes a chunk that has arrived and hands out the payload where the
    /// chunk brings its last missing piece. Chunks may arrive in any order
    /// and more than once. A chunk whose index is not below its number of
    /// pieces, or whose number of pieces is not that of its transfer, is
    /// ignored.
    pub fn ingest(&mut self, chunk: Chunk) -> (r: Option<Vec<u8>>)
        ensures
            final(self)@ == after_ingest(old(self)@, chunk@),
            match r {
                Some(payload) => ingest_result(old(self)@, chunk@) == Some(payload@),
                None => ingest_result(old(self)@, chunk@) is None,
            },
    {
        let ghost ts = self@;
        let ghost c = chunk@;
        if chunk.index >= chunk.total_chunks {
            return None;
        }
        match self.find(chunk.transfer_id) {
            None => {
                let t = ChunkedTransfer::new(chunk.transfer_id, chunk.total_chunks);
                let t = t.put(chunk.index, chunk.data);
                assert(t@.slots == filled(empty_slots(c.total_chunks), c));
                if t.is_complete() {
                    Some(t.into_payload())
                } else {
                    self.transfers.push(t);
                    assert(self@ =~= ts.push(t@));
                    None
                }
            },
            Some(j) => {
                proof {
                    lemma_position(ts, chunk.transfer_id, j as int);
                }
                if self.transfers[j].total_chunks() != chunk.total_chunks {
                    return None;
                }
                let t = self.transfers.remove(j);
                assert(t@ == ts[j as int]);
                assert(self@ =~= ts.remove(j as int));
                let t = t.put(chunk.index, chunk.data);
                assert(t@.slots == filled(ts[j as int].slots, c));
                if t.is_complete() {
                    Some(t.into_payload())
                } else {
                    self.transfers.insert(j, t);
                    assert(self@ =~= ts.update(j as int, t@));
                    None
                }
            },
        }
    }

    /// Forgets every transfer under way.
    pub fn clear(&mut self)
        ensures
            final(self)@ == Seq::<TransferView>::empty(),
    {
        self.transfers.clear();
        assert(self@ =~= Seq::<TransferView>::empty());
    }
}

} // verus!
