//! What holds of every wallet.

use vstd::prelude::*;
use crate::chain::{links, BlockLink, ChainTip};
use crate::model::{
    is_selection, nullifiers_of, EventsView, NoteRef, ScanFault, SentView, WalletView,
    CONFIRMATION_DEPTH,
};

verus! {

/// A wallet that is well formed scans next the block right above its highest one.
pub proof fn lemma_next_height(w: WalletView)
    requires
        w.wf(),
    ensures
        w.blocks.len() > 0 ==> w.next_height() == w.blocks.last().height + 1,
        w.blocks.len() == 0 ==> w.next_height() == w.start,
{
    if w.blocks.len() > 0 {
        assert(w.blocks[w.blocks.len() - 1].height == w.blocks[0].height + w.blocks.len() - 1);
    }
}

/// Scanning a block that can be scanned next keeps the wallet well formed and puts
/// the block on top: the scanned heights still go up by one, without a gap.
pub proof fn lemma_scan_keeps_order(w: WalletView, e: EventsView)
    requires
        w.wf(),
        w.scan_fault(e) is None,
    ensures
        w.scanned(e).wf(),
        w.scanned(e).highest() == Some(e.height),
        e.height == w.next_height(),
        w.scanned(e).next_height() == w.next_height() + 1,
        w.scanned(e).frontier() == Some(e.tree),
{
    lemma_next_height(w);
    let s = w.scanned(e);
    assert forall|i: int| 0 <= i < s.blocks.len() implies (#[trigger] s.blocks[i]).height
        == s.blocks[0].height + i by {
        if i < w.blocks.len() {
            assert(s.blocks[i] == w.blocks[i]);
        }
        if w.blocks.len() > 0 {
            assert(s.blocks[0] == w.blocks[0]);
        }
    }
    assert forall|i: int| 0 < i < s.blocks.len() implies (#[trigger] s.blocks[i]).prev_hash
        == s.blocks[i - 1].hash by {
        if i < w.blocks.len() {
            assert(s.blocks[i] == w.blocks[i]);
        }
        assert(s.blocks[i - 1] == w.blocks[i - 1]);
    }
    if w.blocks.len() > 0 {
        assert(s.blocks[0] == w.blocks[0]);
    }
    lemma_next_height(s);
}

/// Blocks that are scanned one after another leave what was scanned before in place,
/// and the wallet well formed.
pub proof fn lemma_scan_all_extends(w: WalletView, events: Seq<EventsView>)
    requires
        w.wf(),
    ensures
        w.scanned_all(events).wf(),
        w.scanned_all(events).start == w.start,
        w.scanned_all(events).blocks.len() >= w.blocks.len(),
        w.scanned_all(events).blocks.take(w.blocks.len() as int) == w.blocks,
        w.scanned_all(events).blocks.len() <= w.blocks.len() + events.len(),
        w.scanned_all(events).next_height() >= w.next_height(),
    decreases events.len(),
{
    if events.len() == 0 {
        assert(w.blocks.take(w.blocks.len() as int) =~= w.blocks);
    } else if w.passes_by(events[0]) {
        lemma_scan_all_extends(w, events.drop_first());
    } else if w.scan_fault(events[0]) is Some {
        assert(w.blocks.take(w.blocks.len() as int) =~= w.blocks);
    } else {
        let s = w.scanned(events[0]);
        lemma_scan_keeps_order(w, events[0]);
        lemma_scan_all_extends(s, events.drop_first());
        let t = s.scanned_all(events.drop_first());
        assert(t.blocks.take(w.blocks.len() as int) =~= t.blocks.take(s.blocks.len() as int).take(
            w.blocks.len() as int,
        ));
        assert(s.blocks.take(w.blocks.len() as int) =~= w.blocks);
    }
}

/// A gap stops the scan: where the first block lies above the one to scan next,
/// nothing of the wallet changes, whatever follows in the cache.
pub proof fn lemma_gap_leaves_wallet(w: WalletView, events: Seq<EventsView>)
    requires
        events.len() > 0,
        events[0].height > w.next_height(),
    ensures
        w.scan_fault(events[0]) == Some(
            ScanFault::Gap { expected: w.next_height(), found: events[0].height },
        ),
        w.scanned_all(events) == w,
        w.first_scan_fault(events) == w.scan_fault(events[0]),
        !w.scans_all(events),
{
}

/// Taking a wallet back to a height at or above its highest one changes nothing.
pub proof fn lemma_rewind_above_is_noop(w: WalletView, height: int)
    requires
        w.wf(),
        w.blocks.len() > 0 ==> height >= w.blocks.last().height,
    ensures
        w.rewound(height) == w,
{
    assert(w.blocks.take(w.kept(height)) =~= w.blocks);
}

/// A wallet that was taken back to a height is well formed and holds exactly the
/// blocks at or below that height.
pub proof fn lemma_rewound(w: WalletView, height: int)
    requires
        w.wf(),
    ensures
        w.rewound(height).wf(),
        0 <= w.kept(height) <= w.blocks.len(),
        forall|i: int|
            0 <= i < w.blocks.len() ==> ((#[trigger] w.blocks[i]).height <= height <==> i
                < w.kept(height)),
        forall|i: int|
            0 <= i < w.rewound(height).blocks.len() ==> #[trigger] w.rewound(height).blocks[i]
                == w.blocks[i],
{
    if w.blocks.len() > 0 {
        assert(w.blocks[w.blocks.len() - 1].height == w.blocks[0].height + w.blocks.len() - 1);
    }
}

/// Taking the wallet back to the height it had before a scan undoes the scan: the
/// blocks, the frontier of the tree and everything else are as they were before.
pub proof fn lemma_rewind_undoes_scan(w: WalletView, events: Seq<EventsView>)
    requires
        w.wf(),
        w.blocks.len() > 0,
    ensures
        w.scanned_all(events).rewound(w.blocks.last().height as int) == w,
{
    let t = w.scanned_all(events);
    lemma_scan_all_extends(w, events);
    let n = w.blocks.len() as int;
    assert(t.blocks.take(n)[0] == w.blocks[0]);
    assert(t.blocks.take(n)[n - 1] == w.blocks[n - 1]);
    assert(t.blocks[0] == w.blocks[0]);
    assert(t.blocks[n - 1] == w.blocks[n - 1]);
    assert(w.blocks[n - 1].height == w.blocks[0].height + n - 1);
    assert(t.blocks[t.blocks.len() - 1].height == t.blocks[0].height + t.blocks.len() - 1);
    assert(t.kept(w.blocks.last().height as int) == n);
}

/// A wallet without blocks that scans and is then taken back below its start is
/// without blocks again.
pub proof fn lemma_rewind_below_start(w: WalletView, events: Seq<EventsView>, height: int)
    requires
        w.wf(),
        w.blocks.len() == 0,
        height < w.start,
    ensures
        w.scanned_all(events).rewound(height) == w,
{
    let t = w.scanned_all(events);
    lemma_scan_all_extends(w, events);
    assert(t.blocks.take(0) =~= w.blocks);
}

/// Scanning, going back to the height before the scan and scanning the same blocks
/// again gives the wallet that the first scan gave: the same frontier of the tree and
/// the same balances.
pub proof fn lemma_replay(w: WalletView, events: Seq<EventsView>, account: u32)
    requires
        w.wf(),
        w.blocks.len() > 0,
    ensures
        ({
            let once = w.scanned_all(events);
            let again = once.rewound(w.blocks.last().height as int).scanned_all(events);
            &&& again == once
            &&& again.frontier() == once.frontier()
            &&& again.balance(account) == once.balance(account)
            &&& again.verified_balance(account) == once.verified_balance(account)
        }),
{
    lemma_rewind_undoes_scan(w, events);
}

/// The value of two runs of notes is the sum of their values.
pub proof fn lemma_value_of_add(w: WalletView, a: Seq<NoteRef>, b: Seq<NoteRef>)
    ensures
        w.value_of(a + b) == w.value_of(a) + w.value_of(b),
        w.value_of(a) >= 0,
    decreases b.len(),
{
    lemma_value_nonnegative(w, a);
    if b.len() == 0 {
        assert(a + b =~= a);
    } else {
        assert((a + b).drop_last() =~= a + b.drop_last());
        assert((a + b).last() == b.last());
        lemma_value_of_add(w, a, b.drop_last());
    }
}

/// No run of notes has a negative value.
pub proof fn lemma_value_nonnegative(w: WalletView, a: Seq<NoteRef>)
    ensures
        w.value_of(a) >= 0,
    decreases a.len(),
{
    if a.len() > 0 {
        lemma_value_nonnegative(w, a.drop_last());
    }
}

/// The places that `block_unspent` lists are those among the first `n` of the block
/// that count.
pub proof fn lemma_block_unspent(w: WalletView, account: u32, limit: int, b: int, n: int, r: NoteRef)
    ensures
        w.block_unspent(account, limit, b, n).contains(r) <==> (r.block == b && r.index < n
            && w.counts(account, limit, r)),
    decreases n,
{
    if n > 0 {
        lemma_block_unspent(w, account, limit, b, n - 1, r);
        let last = NoteRef { block: b, index: n - 1 };
        let before = w.block_unspent(account, limit, b, n - 1);
        if w.counts(account, limit, last) {
            assert(before.push(last).contains(r) <==> (before.contains(r) || r == last)) by {
                if before.contains(r) {
                    let i = choose|i: int| 0 <= i < before.len() && before[i] == r;
                    assert(before.push(last)[i] == r);
                }
                if r == last {
                    assert(before.push(last)[before.len() as int] == r);
                }
            }
        }
    } else {
        assert(!w.block_unspent(account, limit, b, n).contains(r));
    }
}

/// The places that `unspent_upto` lists are those in the first `k` blocks that count.
pub proof fn lemma_unspent_upto(w: WalletView, account: u32, limit: int, k: int, r: NoteRef)
    requires
        k <= w.blocks.len(),
    ensures
        w.unspent_upto(account, limit, k).contains(r) <==> (r.block < k && w.counts(
            account,
            limit,
            r,
        )),
    decreases k,
{
    if k > 0 {
        lemma_unspent_upto(w, account, limit, k - 1, r);
        let n = w.blocks[k - 1].received.len() as int;
        lemma_block_unspent(w, account, limit, k - 1, n, r);
        let a = w.unspent_upto(account, limit, k - 1);
        let b = w.block_unspent(account, limit, k - 1, n);
        assert((a + b).contains(r) <==> (a.contains(r) || b.contains(r))) by {
            if a.contains(r) {
                let i = choose|i: int| 0 <= i < a.len() && a[i] == r;
                assert((a + b)[i] == r);
            }
            if b.contains(r) {
                let i = choose|i: int| 0 <= i < b.len() && b[i] == r;
                assert((a + b)[a.len() + i] == r);
            }
        }
    } else {
        assert(!w.unspent_upto(account, limit, k).contains(r));
    }
}

/// The unspent notes of an account are exactly the notes that count for it: a note
/// above the limit is left out, and so is a note that is spent.
pub proof fn lemma_unspent(w: WalletView, account: u32, limit: int, r: NoteRef)
    ensures
        w.unspent(account, limit).contains(r) <==> w.counts(account, limit, r),
{
    lemma_unspent_upto(w, account, limit, w.blocks.len() as int, r);
}

/// A note that is spent, by a scanned block or by a transaction that the wallet built,
/// is offered to no later transaction.
pub proof fn lemma_spent_is_not_offered(w: WalletView, account: u32, limit: int, r: NoteRef)
    requires
        w.has_note(r),
        w.is_spent(w.note(r).nullifier),
    ensures
        !w.unspent(account, limit).contains(r),
{
    lemma_unspent(w, account, limit, r);
}

/// A note that lies fewer than `CONFIRMATION_DEPTH` blocks below the highest scanned
/// height is no part of the verified balance.
pub proof fn lemma_shallow_note_is_unverified(w: WalletView, account: u32, r: NoteRef)
    requires
        w.has_note(r),
        w.blocks.len() > 0,
        w.blocks[r.block].height + CONFIRMATION_DEPTH > w.blocks.last().height,
    ensures
        !w.unspent(account, w.verified_limit()).contains(r),
{
    lemma_unspent(w, account, w.verified_limit(), r);
}

/// The notes among the first `n` of a block that count for a lower limit are worth no
/// more than those that count for a higher one.
pub proof fn lemma_block_value_grows(
    w: WalletView,
    account: u32,
    low: int,
    high: int,
    b: int,
    n: int,
)
    requires
        low <= high,
    ensures
        w.value_of(w.block_unspent(account, low, b, n)) <= w.value_of(
            w.block_unspent(account, high, b, n),
        ),
    decreases n,
{
    if n > 0 {
        lemma_block_value_grows(w, account, low, high, b, n - 1);
        let r = NoteRef { block: b, index: n - 1 };
        let lo = w.block_unspent(account, low, b, n - 1);
        let hi = w.block_unspent(account, high, b, n - 1);
        assert(lo.push(r).drop_last() =~= lo);
        assert(hi.push(r).drop_last() =~= hi);
    }
}

/// The notes in the first `k` blocks that count for a lower limit are worth no more
/// than those that count for a higher one.
pub proof fn lemma_value_grows(w: WalletView, account: u32, low: int, high: int, k: int)
    requires
        low <= high,
    ensures
        w.value_of(w.unspent_upto(account, low, k)) <= w.value_of(
            w.unspent_upto(account, high, k),
        ),
    decreases k,
{
    if k > 0 {
        lemma_value_grows(w, account, low, high, k - 1);
        let n = w.blocks[k - 1].received.len() as int;
        lemma_block_value_grows(w, account, low, high, k - 1, n);
        lemma_value_of_add(
            w,
            w.unspent_upto(account, low, k - 1),
            w.block_unspent(account, low, k - 1, n),
        );
        lemma_value_of_add(
            w,
            w.unspent_upto(account, high, k - 1),
            w.block_unspent(account, high, k - 1, n),
        );
    }
}

/// The verified balance of an account is at most its balance.
pub proof fn lemma_verified_at_most_balance(w: WalletView, account: u32)
    ensures
        0 <= w.verified_balance(account) <= w.balance(account),
{
    lemma_value_grows(w, account, w.verified_limit(), u32::MAX as int, w.blocks.len() as int);
    lemma_value_nonnegative(w, w.unspent(account, w.verified_limit()));
}

/// Building a transaction changes no note, no height and no hash.
pub proof fn lemma_with_sent_keeps_notes(w: WalletView, sent: SentView)
    requires
        w.wf(),
        w.blocks.len() > 0,
    ensures
        w.with_sent(sent).wf(),
        w.with_sent(sent).highest() == w.highest(),
        w.with_sent(sent).frontier() == w.frontier(),
        forall|r: NoteRef| w.with_sent(sent).has_note(r) == w.has_note(r),
        forall|r: NoteRef| w.has_note(r) ==> w.with_sent(sent).note(r) == w.note(r),
{
    let t = w.with_sent(sent);
    assert(t.blocks[0].height == w.blocks[0].height);
    assert forall|i: int| 0 <= i < t.blocks.len() implies (#[trigger] t.blocks[i]).height
        == t.blocks[0].height + i by {
        assert(t.blocks[i].height == w.blocks[i].height);
    }
    assert forall|i: int| 0 < i < t.blocks.len() implies (#[trigger] t.blocks[i]).prev_hash
        == t.blocks[i - 1].hash by {
        assert(t.blocks[i].prev_hash == w.blocks[i].prev_hash);
        assert(t.blocks[i - 1].hash == w.blocks[i - 1].hash);
    }
    assert forall|r: NoteRef| t.has_note(r) == w.has_note(r) by {
        if 0 <= r.block < w.blocks.len() {
            assert(t.blocks[r.block].received == w.blocks[r.block].received);
        }
    }
    assert forall|r: NoteRef| w.has_note(r) implies t.note(r) == w.note(r) by {
        assert(t.blocks[r.block].received == w.blocks[r.block].received);
    }
}

/// A note that a transaction of the wallet spends is spent from then on, and is
/// offered to no later transaction: no two transactions that the wallet builds one
/// after the other spend the same note.
pub proof fn lemma_no_double_spend(
    w: WalletView,
    sent: SentView,
    r: NoteRef,
    account: u32,
    limit: int,
)
    requires
        w.wf(),
        w.blocks.len() > 0,
        w.has_note(r),
        sent.spends.contains(w.note(r).nullifier),
    ensures
        w.with_sent(sent).is_spent(w.note(r).nullifier),
        !w.with_sent(sent).unspent(account, limit).contains(r),
{
    let t = w.with_sent(sent);
    lemma_with_sent_keeps_notes(w, sent);
    let last = w.blocks.len() - 1;
    let j = w.blocks[last].sent.len() as int;
    assert(t.blocks[last].sent[j] == sent);
    assert(t.blocks[last].sent[j].spends.contains(w.note(r).nullifier));
    assert(t.locked(w.note(r).nullifier));
    lemma_spent_is_not_offered(t, account, limit, r);
}

/// Every note of a selection is among the notes that the transaction built from it
/// spends.
pub proof fn lemma_selection_is_spent(w: WalletView, selected: Seq<NoteRef>, i: int)
    requires
        0 <= i < selected.len(),
    ensures
        nullifiers_of(w, selected).contains(w.note(selected[i]).nullifier),
{
    assert(nullifiers_of(w, selected)[i] == w.note(selected[i]).nullifier);
}

/// A selection holds unspent notes of the account only, and is worth what is needed.
pub proof fn lemma_selection(
    w: WalletView,
    account: u32,
    required: int,
    selected: Seq<NoteRef>,
    i: int,
)
    requires
        is_selection(w, account, required, selected),
        0 <= i < selected.len(),
    ensures
        w.counts(account, w.verified_limit(), selected[i]),
        !w.is_spent(w.note(selected[i]).nullifier),
        required <= w.value_of(selected) <= w.verified_balance(account),
{
    let offered = w.unspent(account, w.verified_limit());
    assert(offered[i] == selected[i]);
    assert(offered.contains(selected[i]));
    lemma_unspent(w, account, w.verified_limit(), selected[i]);
    let k = selected.len() as int;
    assert(offered =~= offered.take(k) + offered.skip(k));
    lemma_value_of_add(w, offered.take(k), offered.skip(k));
    lemma_value_nonnegative(w, offered.skip(k));
}

/// Where the verified balance of the account is less than what is needed, there is
/// no selection.
pub proof fn lemma_insufficient_funds(
    w: WalletView,
    account: u32,
    required: int,
    selected: Seq<NoteRef>,
)
    requires
        w.verified_balance(account) < required,
    ensures
        !is_selection(w, account, required, selected),
{
    if is_selection(w, account, required, selected) {
        let offered = w.unspent(account, w.verified_limit());
        let k = selected.len() as int;
        assert(offered =~= offered.take(k) + offered.skip(k));
        lemma_value_of_add(w, offered.take(k), offered.skip(k));
        lemma_value_nonnegative(w, offered.skip(k));
    }
}

/// In a well-formed wallet each scanned block stands one above the block before it.
pub proof fn lemma_heights_go_up_by_one(w: WalletView, i: int)
    requires
        w.wf(),
        0 < i < w.blocks.len(),
    ensures
        w.blocks[i].height == w.blocks[i - 1].height + 1,
        w.blocks[i].prev_hash == w.blocks[i - 1].hash,
{
    assert(w.blocks[i].height == w.blocks[0].height + i);
    assert(w.blocks[i - 1].height == w.blocks[0].height + i - 1);
}

/// The scan goes through exactly where no block is at fault.
pub proof fn lemma_first_scan_fault(w: WalletView, events: Seq<EventsView>)
    ensures
        w.scans_all(events) <==> w.first_scan_fault(events) is None,
    decreases events.len(),
{
    if events.len() > 0 {
        if w.passes_by(events[0]) {
            lemma_first_scan_fault(w, events.drop_first());
        } else if w.scan_fault(events[0]) is None {
            lemma_first_scan_fault(w.scanned(events[0]), events.drop_first());
        }
    }
}

/// `chain` holds what links the blocks of the events.
pub open spec fn are_links_of(chain: Seq<BlockLink>, events: Seq<EventsView>) -> bool {
    &&& chain.len() == events.len()
    &&& forall|i: int|
        0 <= i < chain.len() ==> {
            &&& (#[trigger] chain[i]).height == events[i].height
            &&& chain[i].hash@ == events[i].hash
            &&& chain[i].prev_hash@ == events[i].prev_hash
        }
}

/// Cached blocks that continue the chain from the last scanned block can all be
/// scanned: after a valid chain the scan meets neither gap nor conflict.
pub proof fn lemma_valid_chain_scans(
    w: WalletView,
    tip: ChainTip,
    chain: Seq<BlockLink>,
    events: Seq<EventsView>,
)
    requires
        w.wf(),
        w.blocks.len() > 0,
        tip.height == w.blocks.last().height,
        tip.hash matches Some(h) && h@ == w.blocks.last().hash,
        are_links_of(chain, events),
        forall|i: int| 0 <= i < chain.len() ==> links(tip, chain, i),
    ensures
        w.scans_all(events),
        w.first_scan_fault(events) is None,
    decreases events.len(),
{
    lemma_first_scan_fault(w, events);
    if events.len() > 0 {
        lemma_next_height(w);
        assert(links(tip, chain, 0));
        assert(w.scan_fault(events[0]) is None);
        lemma_scan_keeps_order(w, events[0]);
        let next = w.scanned(events[0]);
        let rest = chain.drop_first();
        let top = ChainTip { height: chain[0].height, hash: Some(chain[0].hash) };
        assert(next.blocks.last().hash == events[0].hash);
        assert forall|i: int| 0 <= i < rest.len() implies links(top, rest, i) by {
            assert(links(tip, chain, i + 1));
            assert(rest[i] == chain[i + 1]);
            if i > 0 {
                assert(rest[i - 1] == chain[i]);
            }
        }
        assert(are_links_of(rest, events.drop_first())) by {
            assert forall|i: int| 0 <= i < rest.len() implies {
                &&& (#[trigger] rest[i]).height == events.drop_first()[i].height
                &&& rest[i].hash@ == events.drop_first()[i].hash
                &&& rest[i].prev_hash@ == events.drop_first()[i].prev_hash
            } by {
                assert(rest[i] == chain[i + 1]);
            }
        }
        lemma_valid_chain_scans(next, top, rest, events.drop_first());
        lemma_first_scan_fault(next, events.drop_first());
    }
}

/// After a scan that went through, every block of the cache lies below the height to
/// scan next.
pub proof fn lemma_scanned_lie_below(w: WalletView, events: Seq<EventsView>, i: int)
    requires
        w.wf(),
        w.scans_all(events),
        0 <= i < events.len(),
    ensures
        events[i].height < w.scanned_all(events).next_height(),
    decreases events.len(),
{
    let rest = events.drop_first();
    if w.passes_by(events[0]) {
        lemma_scan_all_extends(w, rest);
        if i > 0 {
            lemma_scanned_lie_below(w, rest, i - 1);
        }
    } else {
        let next = w.scanned(events[0]);
        lemma_scan_keeps_order(w, events[0]);
        lemma_scan_all_extends(next, rest);
        if i > 0 {
            lemma_scanned_lie_below(next, rest, i - 1);
        }
    }
}

/// A scan of a cache whose blocks all lie below the height to scan next changes
/// nothing, and meets no fault.
pub proof fn lemma_scan_passes_by(w: WalletView, events: Seq<EventsView>)
    requires
        forall|i: int| 0 <= i < events.len() ==> (#[trigger] events[i]).height < w.next_height(),
    ensures
        w.scanned_all(events) == w,
        w.scans_all(events),
        w.first_scan_fault(events) is None,
    decreases events.len(),
{
    if events.len() > 0 {
        assert(w.passes_by(events[0]));
        let rest = events.drop_first();
        assert forall|i: int| 0 <= i < rest.len() implies (#[trigger] rest[i]).height
            < w.next_height() by {
            assert(rest[i] == events[i + 1]);
        }
        lemma_scan_passes_by(w, rest);
    }
}

/// Scanning is safe to repeat: a second scan of a cache that was scanned through
/// changes nothing.
pub proof fn lemma_scan_again_is_noop(w: WalletView, events: Seq<EventsView>)
    requires
        w.wf(),
        w.scans_all(events),
    ensures
        w.scanned_all(events).scanned_all(events) == w.scanned_all(events),
        w.scanned_all(events).scans_all(events),
{
    let t = w.scanned_all(events);
    assert forall|i: int| 0 <= i < events.len() implies (#[trigger] events[i]).height
        < t.next_height() by {
        lemma_scanned_lie_below(w, events, i);
    }
    lemma_scan_passes_by(t, events);
}

} // verus!
