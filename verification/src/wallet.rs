//! The wallet: what has been scanned, what was received and spent, and what was sent.

use vstd::prelude::*;
use crate::chain::{same_bytes, BlockLink, ChainTip};
use crate::error::{ArgumentError, Error};
use crate::laws::{
    lemma_rewound, lemma_scan_keeps_order, lemma_unspent, lemma_value_nonnegative,
    lemma_value_of_add, lemma_with_sent_keeps_notes,
};
use crate::memo::{decode_memo_text, memo_text_of};
use crate::model::{
    is_selection, nullifiers_of, BlockView, EventsView, NoteRef, NoteView, ScanFault, SentView, WalletView,
    CONFIRMATION_DEPTH,
};

verus! {

/// A note that the wallet received.
#[derive(Debug, PartialEq, Eq)]
pub struct ReceivedNote {
    pub account: u32,
    pub value: u64,
    pub nullifier: Vec<u8>,
    /// The text of the memo, where the memo carried one.
    pub memo: Option<String>,
}

/// A note that scanning found for one of the wallet's accounts.
#[derive(Debug, PartialEq, Eq)]
pub struct FoundNote {
    pub account: u32,
    pub value: u64,
    pub nullifier: Vec<u8>,
    /// The bytes of the memo as they were decrypted.
    pub memo: Vec<u8>,
}

/// A transaction that the wallet built.
#[derive(Debug, PartialEq, Eq)]
pub struct SentTransaction {
    pub account: u32,
    pub recipient: String,
    pub value: u64,
    pub memo: Option<Vec<u8>>,
    /// The nullifiers of the notes that the transaction spends.
    pub spends: Vec<Vec<u8>>,
}

/// A block that the wallet scanned.
#[derive(Debug, PartialEq, Eq)]
pub struct ScannedBlock {
    pub height: u32,
    pub hash: Vec<u8>,
    pub prev_hash: Vec<u8>,
    pub time: u32,
    pub tree: Vec<u8>,
    pub received: Vec<ReceivedNote>,
    pub spent: Vec<Vec<u8>>,
    pub sent: Vec<SentTransaction>,
}

/// What scanning found in one block of the cache.
#[derive(Debug, PartialEq, Eq)]
pub struct BlockEvents {
    pub height: u32,
    pub hash: Vec<u8>,
    pub prev_hash: Vec<u8>,
    pub time: u32,
    pub tree: Vec<u8>,
    pub received: Vec<FoundNote>,
    pub spent: Vec<Vec<u8>>,
}

/// The place of a note in the wallet: the index of its block among the scanned blocks
/// and its index among the notes of that block.
#[derive(Clone, Copy, Debug, PartialEq, Eq, Structural)]
pub struct NotePlace {
    pub block: usize,
    pub index: usize,
}

/// The wallet.
#[derive(Debug, PartialEq, Eq)]
pub struct Wallet {
    start: u32,
    blocks: Vec<ScannedBlock>,
}

/// The byte strings of a list.
pub open spec fn byte_strings(list: Seq<Vec<u8>>) -> Seq<Seq<u8>> {
    Seq::new(list.len(), |i: int| list[i]@)
}

impl View for ReceivedNote {
    type V = NoteView;

    open spec fn view(&self) -> NoteView {
        NoteView {
            account: self.account,
            value: self.value,
            nullifier: self.nullifier@,
            memo: match self.memo {
                Some(text) => Some(text@),
                None => None,
            },
        }
    }
}

impl View for FoundNote {
    type V = NoteView;

    open spec fn view(&self) -> NoteView {
        NoteView {
            account: self.account,
            value: self.value,
            nullifier: self.nullifier@,
            memo: memo_text_of(self.memo@),
        }
    }
}

impl View for SentTransaction {
    type V = SentView;

    open spec fn view(&self) -> SentView {
        SentView {
            account: self.account,
            recipient: self.recipient@,
            value: self.value,
            memo: match self.memo {
                Some(bytes) => Some(bytes@),
                None => None,
            },
            spends: byte_strings(self.spends@),
        }
    }
}

impl View for ScannedBlock {
    type V = BlockView;

    open spec fn view(&self) -> BlockView {
        BlockView {
            height: self.height,
            hash: self.hash@,
            prev_hash: self.prev_hash@,
            time: self.time,
            tree: self.tree@,
            received: Seq::new(self.received@.len(), |i: int| self.received@[i]@),
            spent: byte_strings(self.spent@),
            sent: Seq::new(self.sent@.len(), |i: int| self.sent@[i]@),
        }
    }
}

impl View for BlockEvents {
    type V = EventsView;

    open spec fn view(&self) -> EventsView {
        EventsView {
            height: self.height,
            hash: self.hash@,
            prev_hash: self.prev_hash@,
            time: self.time,
            tree: self.tree@,
            received: Seq::new(self.received@.len(), |i: int| self.received@[i]@),
            spent: byte_strings(self.spent@),
        }
    }
}

impl View for NotePlace {
    type V = NoteRef;

    open spec fn view(&self) -> NoteRef {
        NoteRef { block: self.block as int, index: self.index as int }
    }
}

impl View for Wallet {
    type V = WalletView;

    closed spec fn view(&self) -> WalletView {
        WalletView {
            start: self.start,
            blocks: Seq::new(self.blocks@.len(), |i: int| self.blocks@[i]@),
        }
    }
}

/// The events of a list of blocks.
pub open spec fn events_of(list: Seq<BlockEvents>) -> Seq<EventsView> {
    Seq::new(list.len(), |i: int| list[i]@)
}

/// The places of a list.
pub open spec fn places_of(list: Seq<NotePlace>) -> Seq<NoteRef> {
    Seq::new(list.len(), |i: int| list[i]@)
}

/// A copy of a byte string.
pub fn copy_bytes(bytes: &Vec<u8>) -> (copy: Vec<u8>)
    ensures
        copy@ == bytes@,
{
    let mut copy: Vec<u8> = Vec::new();
    let mut i: usize = 0;
    while i < bytes.len()
        invariant
            i <= bytes@.len(),
            copy@ == bytes@.take(i as int),
        decreases bytes@.len() - i,
    {
        copy.push(bytes[i]);
        assert(copy@ =~= bytes@.take(i + 1));
        i = i + 1;
    }
    assert(bytes@.take(i as int) =~= bytes@);
    copy
}

/// Whether a list holds a byte string.
pub fn holds_bytes(list: &Vec<Vec<u8>>, bytes: &Vec<u8>) -> (found: bool)
    ensures
        found == byte_strings(list@).contains(bytes@),
{
    let mut i: usize = 0;
    while i < list.len()
        invariant
            i <= list@.len(),
            forall|j: int| 0 <= j < i ==> byte_strings(list@)[j] != bytes@,
        decreases list@.len() - i,
    {
        if same_bytes(&list[i], bytes) {
            assert(byte_strings(list@)[i as int] == bytes@);
            return true;
        }
        i = i + 1;
    }
    false
}

impl Wallet {
    /// The wallet is well formed: its model is.
    pub open spec fn wf(&self) -> bool {
        self@.wf()
    }

    /// A wallet that has scanned nothing and begins at `start`.
    pub fn new(start: u32) -> (wallet: Wallet)
        ensures
            wallet.wf(),
            wallet@.start == start,
            wallet@.blocks.len() == 0,
    {
        Wallet { start, blocks: Vec::new() }
    }

    /// A wallet that takes one block as scanned without having seen it, and goes on
    /// from there. The block holds no notes.
    pub fn from_checkpoint(height: u32, hash: Vec<u8>, time: u32, tree: Vec<u8>) -> (wallet: Wallet)
        ensures
            wallet.wf(),
            wallet@.start == height,
            wallet@.blocks.len() == 1,
            wallet@.highest() == Some(height),
            wallet@.frontier() == Some(tree@),
            wallet@.blocks[0].hash == hash@,
            wallet@.blocks[0].prev_hash.len() == 0,
            wallet@.blocks[0].time == time,
            wallet@.blocks[0].received.len() == 0,
            wallet@.blocks[0].spent.len() == 0,
            wallet@.blocks[0].sent.len() == 0,
    {
        let block = ScannedBlock {
            height,
            hash,
            prev_hash: Vec::new(),
            time,
            tree,
            received: Vec::new(),
            spent: Vec::new(),
            sent: Vec::new(),
        };
        let mut blocks: Vec<ScannedBlock> = Vec::new();
        blocks.push(block);
        Wallet { start: height, blocks }
    }

    /// The height at which a wallet without blocks begins.
    pub fn start(&self) -> (start: u32)
        ensures
            start == self@.start,
    {
        self.start
    }

    /// The number of scanned blocks.
    pub fn len(&self) -> (n: usize)
        ensures
            n == self@.blocks.len(),
    {
        self.blocks.len()
    }

    /// The scanned block at `i`, counted from the lowest.
    pub fn block(&self, i: usize) -> (block: &ScannedBlock)
        requires
            i < self@.blocks.len(),
        ensures
            block@ == self@.blocks[i as int],
    {
        &self.blocks[i]
    }

    /// The highest scanned height.
    pub fn highest(&self) -> (h: Option<u32>)
        ensures
            h == self@.highest(),
    {
        if self.blocks.len() == 0 {
            None
        } else {
            Some(self.blocks[self.blocks.len() - 1].height)
        }
    }

    /// The height of the block to scan next.
    pub fn next_height(&self) -> (h: i64)
        ensures
            h == self@.next_height(),
    {
        match self.highest() {
            Some(h) => if h as i64 + 1 >= self.start as i64 {
                h as i64 + 1
            } else {
                self.start as i64
            },
            None => self.start as i64,
        }
    }

    /// The block that the cache has to continue: the last scanned block, with its hash,
    /// or `anchor` for a wallet that has scanned nothing.
    pub fn tip(&self, anchor: ChainTip) -> (tip: ChainTip)
        ensures
            self@.blocks.len() == 0 ==> tip == anchor,
            self@.blocks.len() > 0 ==> tip.height == self@.blocks.last().height && (
            tip.hash matches Some(h) && h@ == self@.blocks.last().hash),
    {
        let n = self.blocks.len();
        if n == 0 {
            anchor
        } else {
            assert(self.blocks@[n - 1]@ == self@.blocks.last());
            ChainTip {
                height: self.blocks[n - 1].height,
                hash: Some(copy_bytes(&self.blocks[n - 1].hash)),
            }
        }
    }

    /// The frontier of the note commitment tree as of the last scanned block.
    pub fn frontier(&self) -> (tree: Option<&Vec<u8>>)
        ensures
            match tree {
                Some(t) => self@.frontier() == Some(t@),
                None => self@.frontier() is None,
            },
    {
        if self.blocks.len() == 0 {
            None
        } else {
            Some(&self.blocks[self.blocks.len() - 1].tree)
        }
    }

    /// Whether the note of the nullifier can no longer be spent: a scanned block
    /// reveals the nullifier, or a transaction that the wallet built spends the note.
    pub fn is_spent(&self, nullifier: &Vec<u8>) -> (spent: bool)
        ensures
            spent == self@.is_spent(nullifier@),
    {
        let mut i: usize = 0;
        while i < self.blocks.len()
            invariant
                i <= self.blocks@.len(),
                forall|b: int| 0 <= b < i ==> !(#[trigger] self@.blocks[b]).spent.contains(nullifier@),
                forall|b: int, t: int|
                    0 <= b < i && 0 <= t < self@.blocks[b].sent.len() ==> !(
                    #[trigger] self@.blocks[b].sent[t]).spends.contains(nullifier@),
            decreases self.blocks@.len() - i,
        {
            let block = &self.blocks[i];
            assert(block@ == self@.blocks[i as int]);
            if holds_bytes(&block.spent, nullifier) {
                assert(self@.blocks[i as int].spent.contains(nullifier@));
                return true;
            }
            let mut t: usize = 0;
            while t < block.sent.len()
                invariant
                    t <= block.sent@.len(),
                    i < self.blocks@.len(),
                    block@ == self@.blocks[i as int],
                    forall|u: int|
                        0 <= u < t ==> !(#[trigger] self@.blocks[i as int].sent[u]).spends.contains(
                            nullifier@,
                        ),
                decreases block.sent@.len() - t,
            {
                assert(block.sent@[t as int]@ == self@.blocks[i as int].sent[t as int]);
                if holds_bytes(&block.sent[t].spends, nullifier) {
                    assert(self@.blocks[i as int].sent[t as int].spends.contains(nullifier@));
                    return true;
                }
                t = t + 1;
            }
            i = i + 1;
        }
        false
    }
}


/// `r` tells that a scan went through, or names the fault that stopped it.
pub open spec fn is_scan_result(r: Result<(), Error>, fault: Option<ScanFault>) -> bool {
    match fault {
        None => r is Ok,
        Some(ScanFault::Gap { expected, found }) => {
            &&& r matches Err(Error::ScanGap { expected: e, found: f })
            &&& e == expected
            &&& f == found
        },
        Some(ScanFault::Conflict { at }) => {
            &&& r matches Err(Error::ChainConflict { height })
            &&& height == at
        },
    }
}

/// What links the block of the events to the one before it.
pub fn link_of(events: &BlockEvents) -> (link: BlockLink)
    ensures
        link.height == events.height,
        link.hash@ == events.hash@,
        link.prev_hash@ == events.prev_hash@,
{
    BlockLink {
        height: events.height,
        hash: copy_bytes(&events.hash),
        prev_hash: copy_bytes(&events.prev_hash),
    }
}

/// The notes of the events as the wallet keeps them: the memo of each is read, and is
/// kept where it carries text.
fn kept_notes(found: &Vec<FoundNote>) -> (received: Vec<ReceivedNote>)
    ensures
        received@.len() == found@.len(),
        forall|i: int| 0 <= i < found@.len() ==> (#[trigger] received@[i])@ == found@[i]@,
{
    let mut received: Vec<ReceivedNote> = Vec::new();
    let mut i: usize = 0;
    while i < found.len()
        invariant
            i <= found@.len(),
            received@.len() == i,
            forall|j: int| 0 <= j < i ==> (#[trigger] received@[j])@ == found@[j]@,
        decreases found@.len() - i,
    {
        let note = &found[i];
        received.push(
            ReceivedNote {
                account: note.account,
                value: note.value,
                nullifier: copy_bytes(&note.nullifier),
                memo: decode_memo_text(&note.memo),
            },
        );
        i = i + 1;
    }
    received
}

impl Wallet {
    /// Scans the block of the events, if it is the one to scan next.
    ///
    /// A block at another height than the next is a gap, and a block that does not name
    /// the last scanned block as the one before it is a conflict: either way the wallet
    /// stays as it is. Otherwise the block goes on top, with its notes and nullifiers and
    /// the frontier of the tree as of its end.
    pub fn scan_block(&mut self, events: BlockEvents) -> (r: Result<(), Error>)
        requires
            old(self).wf(),
        ensures
            final(self).wf(),
            is_scan_result(r, old(self)@.scan_fault(events@)),
            old(self)@.scan_fault(events@) is Some ==> final(self)@ == old(self)@,
            old(self)@.scan_fault(events@) is None ==> final(self)@ == old(self)@.scanned(
                events@,
            ),
    {
        let next = self.next_height();
        if events.height as i64 != next {
            return Err(Error::ScanGap { expected: next, found: events.height });
        }
        let n = self.blocks.len();
        if n > 0 {
            assert(self.blocks@[n - 1]@ == self@.blocks.last());
            if !same_bytes(&events.prev_hash, &self.blocks[n - 1].hash) {
                return Err(Error::ChainConflict { height: next });
            }
        }
        let received = kept_notes(&events.received);
        let ghost e = events@;
        let block = ScannedBlock {
            height: events.height,
            hash: events.hash,
            prev_hash: events.prev_hash,
            time: events.time,
            tree: events.tree,
            received,
            spent: events.spent,
            sent: Vec::new(),
        };
        proof {
            assert(block@.received =~= e.received);
            assert(block@.sent =~= Seq::<SentView>::empty());
            lemma_scan_keeps_order(old(self)@, e);
        }
        self.blocks.push(block);
        assert(self@.blocks =~= old(self)@.scanned(e).blocks);
        Ok(())
    }

    /// Scans the cache: takes the blocks of the events in their order, passes by those
    /// that lie below the height to scan next, and stops at the first of the others
    /// that cannot be scanned in its turn. What was scanned before it stays scanned, and
    /// the wallet is as it was before that block.
    pub fn scan_blocks(&mut self, events: Vec<BlockEvents>) -> (r: Result<(), Error>)
        requires
            old(self).wf(),
        ensures
            final(self).wf(),
            final(self)@ == old(self)@.scanned_all(events_of(events@)),
            r is Ok <==> old(self)@.scans_all(events_of(events@)),
            is_scan_result(r, old(self)@.first_scan_fault(events_of(events@))),
    {
        let mut rest = events;
        while rest.len() > 0
            invariant
                self.wf(),
                self@.scanned_all(events_of(rest@)) == old(self)@.scanned_all(events_of(events@)),
                self@.scans_all(events_of(rest@)) == old(self)@.scans_all(events_of(events@)),
                self@.first_scan_fault(events_of(rest@)) == old(self)@.first_scan_fault(
                    events_of(events@),
                ),
            decreases rest@.len(),
        {
            let ghost before = events_of(rest@);
            let first = rest.remove(0);
            assert(first@ == before[0]);
            assert(events_of(rest@) =~= before.drop_first());
            if (first.height as i64) < self.next_height() {
                continue ;
            }
            match self.scan_block(first) {
                Ok(_) => {},
                Err(e) => {
                    return Err(e);
                },
            }
        }
        Ok(())
    }

    /// Takes the wallet back to `height`: the blocks above it go, and with them their
    /// notes, their nullifiers, the transactions built on them and the frontiers of the
    /// tree as of their ends. Nothing changes where no block lies above `height`.
    pub fn rewind(&mut self, height: i64)
        requires
            old(self).wf(),
        ensures
            final(self).wf(),
            final(self)@ == old(self)@.rewound(height as int),
    {
        proof {
            lemma_rewound(self@, height as int);
        }
        let n = self.blocks.len();
        if n == 0 {
            assert(self@.blocks =~= self@.rewound(height as int).blocks);
            return ;
        }
        assert(self.blocks@[0]@ == self@.blocks[0]);
        assert(self.blocks@[n - 1]@ == self@.blocks.last());
        let lowest = self.blocks[0].height as i64;
        let highest = self.blocks[n - 1].height as i64;
        let keep: usize = if height < lowest {
            0
        } else if height >= highest {
            n
        } else {
            (height - lowest + 1) as usize
        };
        self.blocks.truncate(keep);
        assert(self@.blocks =~= old(self)@.rewound(height as int).blocks);
    }

    /// The highest height at which a note counts as verified: `CONFIRMATION_DEPTH`
    /// below the highest scanned height.
    pub fn verified_limit(&self) -> (limit: i64)
        ensures
            limit == self@.verified_limit(),
    {
        match self.highest() {
            Some(h) => h as i64 - CONFIRMATION_DEPTH as i64,
            None => -1,
        }
    }

    /// The places of the unspent notes of the account that were received at or below
    /// the height `limit`, in the order in which they were scanned.
    pub fn unspent_notes(&self, account: u32, limit: i64) -> (places: Vec<NotePlace>)
        ensures
            places_of(places@) == self@.unspent(account, limit as int),
            forall|i: int| 0 <= i < places@.len() ==> self@.has_note(#[trigger] places@[i]@),
    {
        let mut places: Vec<NotePlace> = Vec::new();
        let mut b: usize = 0;
        while b < self.blocks.len()
            invariant
                b <= self.blocks@.len(),
                places_of(places@) == self@.unspent_upto(account, limit as int, b as int),
            decreases self.blocks@.len() - b,
        {
            let block = &self.blocks[b];
            assert(block@ == self@.blocks[b as int]);
            let mut n: usize = 0;
            while n < block.received.len()
                invariant
                    b < self.blocks@.len(),
                    block@ == self@.blocks[b as int],
                    n <= block.received@.len(),
                    places_of(places@) == self@.unspent_upto(account, limit as int, b as int)
                        + self@.block_unspent(account, limit as int, b as int, n as int),
                decreases block.received@.len() - n,
            {
                let note = &block.received[n];
                let ghost r = NoteRef { block: b as int, index: n as int };
                let ghost before = places_of(places@);
                assert(note@ == self@.note(r));
                assert(self@.has_note(r));
                let counts = note.account == account && block.height as i64 <= limit
                    && !self.is_spent(&note.nullifier);
                assert(counts == self@.counts(account, limit as int, r));
                if counts {
                    places.push(NotePlace { block: b, index: n });
                    assert(places_of(places@) =~= before.push(r));
                }
                assert(self@.block_unspent(account, limit as int, b as int, n + 1) == if counts {
                    self@.block_unspent(account, limit as int, b as int, n as int).push(r)
                } else {
                    self@.block_unspent(account, limit as int, b as int, n as int)
                });
                assert(places_of(places@) =~= self@.unspent_upto(account, limit as int, b as int)
                    + self@.block_unspent(account, limit as int, b as int, n + 1));
                n = n + 1;
            }
            b = b + 1;
        }
        proof {
            assert forall|i: int| 0 <= i < places@.len() implies self@.has_note(
                #[trigger] places@[i]@,
            ) by {
                assert(places_of(places@)[i] == places@[i]@);
                assert(self@.unspent(account, limit as int).contains(places@[i]@));
                lemma_unspent(self@, account, limit as int, places@[i]@);
            }
        }
        places
    }

    /// The sum of the values of the notes at the places, where it fits.
    pub fn total_value(&self, places: &Vec<NotePlace>) -> (total: Option<u64>)
        requires
            forall|i: int| 0 <= i < places@.len() ==> self@.has_note(#[trigger] places@[i]@),
        ensures
            total == (if self@.value_of(places_of(places@)) <= u64::MAX {
                Some(self@.value_of(places_of(places@)) as u64)
            } else {
                None
            }),
    {
        let ghost all = places_of(places@);
        let mut total: u64 = 0;
        let mut i: usize = 0;
        while i < places.len()
            invariant
                i <= places@.len(),
                all == places_of(places@),
                total == self@.value_of(all.take(i as int)),
                forall|j: int| 0 <= j < places@.len() ==> self@.has_note(#[trigger] places@[j]@),
            decreases places@.len() - i,
        {
            let place = places[i];
            assert(self@.has_note(places@[i as int]@));
            let note = &self.blocks[place.block].received[place.index];
            assert(self.blocks@[place.block as int]@ == self@.blocks[place.block as int]);
            assert(note@ == self@.note(place@));
            proof {
                assert(all.take(i + 1).drop_last() =~= all.take(i as int));
                assert(all.take(i + 1).last() == place@);
                assert(all =~= all.take(i + 1) + all.skip(i + 1));
                lemma_value_of_add(self@, all.take(i + 1), all.skip(i + 1));
                lemma_value_nonnegative(self@, all.skip(i + 1));
            }
            match total.checked_add(note.value) {
                Some(sum) => {
                    total = sum;
                },
                None => {
                    return None;
                },
            }
            i = i + 1;
        }
        assert(all.take(i as int) =~= all);
        Some(total)
    }

    /// The balance of the account: the sum of the values of all its unspent notes.
    /// There is none to give where the sum is more than 64 bits hold.
    pub fn balance(&self, account: u32) -> (total: Option<u64>)
        ensures
            total == (if self@.balance(account) <= u64::MAX {
                Some(self@.balance(account) as u64)
            } else {
                None
            }),
    {
        let places = self.unspent_notes(account, u32::MAX as i64);
        self.total_value(&places)
    }

    /// The verified balance of the account: the sum of the values of its unspent notes
    /// that lie at least `CONFIRMATION_DEPTH` blocks below the highest scanned height.
    /// There is none to give where the sum is more than 64 bits hold.
    pub fn verified_balance(&self, account: u32) -> (total: Option<u64>)
        ensures
            total == (if self@.verified_balance(account) <= u64::MAX {
                Some(self@.verified_balance(account) as u64)
            } else {
                None
            }),
    {
        let places = self.unspent_notes(account, self.verified_limit());
        self.total_value(&places)
    }
}


/// The transaction that sends `value` to `recipient` and spends the notes at the
/// places.
pub open spec fn sent_view(
    w: WalletView,
    account: u32,
    recipient: Seq<char>,
    value: u64,
    memo: Option<Vec<u8>>,
    selected: Seq<NoteRef>,
) -> SentView {
    SentView {
        account,
        recipient,
        value,
        memo: match memo {
            Some(bytes) => Some(bytes@),
            None => None,
        },
        spends: nullifiers_of(w, selected),
    }
}

impl Wallet {
    /// Copies of the nullifiers of the notes at the places.
    fn nullifiers(&self, places: &Vec<NotePlace>) -> (list: Vec<Vec<u8>>)
        requires
            forall|i: int| 0 <= i < places@.len() ==> self@.has_note(#[trigger] places@[i]@),
        ensures
            byte_strings(list@) == nullifiers_of(self@, places_of(places@)),
    {
        let mut list: Vec<Vec<u8>> = Vec::new();
        let mut i: usize = 0;
        while i < places.len()
            invariant
                i <= places@.len(),
                list@.len() == i,
                forall|j: int|
                    0 <= j < i ==> (#[trigger] list@[j])@ == self@.note(places@[j]@).nullifier,
                forall|j: int| 0 <= j < places@.len() ==> self@.has_note(#[trigger] places@[j]@),
            decreases places@.len() - i,
        {
            let place = places[i];
            assert(self@.has_note(places@[i as int]@));
            assert(self.blocks@[place.block as int]@ == self@.blocks[place.block as int]);
            let note = &self.blocks[place.block].received[place.index];
            assert(note@ == self@.note(place@));
            list.push(copy_bytes(&note.nullifier));
            i = i + 1;
        }
        assert(byte_strings(list@) =~= nullifiers_of(self@, places_of(places@)));
        list
    }

    /// Builds the record of a transaction that sends `value` from the account to
    /// `recipient` and pays `fee`, and says which notes it spends.
    ///
    /// The notes are taken from the verified unspent notes of the account, in the order
    /// in which they were scanned, until they cover `value` and `fee`. Where they do not,
    /// the funds are insufficient, and the wallet stays as it is: nothing is recorded.
    /// Otherwise the transaction is recorded on the last scanned block, and its notes
    /// are spent from then on.
    pub fn spend(
        &mut self,
        account: u32,
        recipient: String,
        value: u64,
        fee: u64,
        memo: Option<Vec<u8>>,
    ) -> (r: Result<Vec<NotePlace>, Error>)
        requires
            old(self).wf(),
        ensures
            final(self).wf(),
            value == 0 ==> r == Err::<Vec<NotePlace>, Error>(
                Error::Argument(ArgumentError::AmountNotPositive),
            ) && final(self)@ == old(self)@,
            value > 0 && old(self)@.verified_balance(account) < value + fee ==> r == Err::<
                Vec<NotePlace>,
                Error,
            >(
                (Error::InsufficientFunds {
                    available: old(self)@.verified_balance(account) as u128,
                    required: (value + fee) as u128,
                }),
            ) && final(self)@ == old(self)@,
            value > 0 && old(self)@.verified_balance(account) >= value + fee ==> {
                &&& r matches Ok(places)
                &&& is_selection(old(self)@, account, value + fee, places_of(places@))
                &&& old(self)@.blocks.len() > 0
                &&& final(self)@ == old(self)@.with_sent(
                    sent_view(old(self)@, account, recipient@, value, memo, places_of(places@)),
                )
            },
    {
        if value == 0 {
            return Err(Error::Argument(ArgumentError::AmountNotPositive));
        }
        let limit = self.verified_limit();
        let mut offered = self.unspent_notes(account, limit);
        let ghost all = places_of(offered@);
        let required: u128 = value as u128 + fee as u128;
        let mut got: u128 = 0;
        let mut k: usize = 0;
        while k < offered.len() && got < required
            invariant
                k <= offered@.len(),
                all == places_of(offered@),
                got == self@.value_of(all.take(k as int)),
                required <= 2 * u64::MAX,
                k > 0 ==> self@.value_of(all.take(k - 1)) < required,
                forall|j: int| 0 <= j < offered@.len() ==> self@.has_note(#[trigger] offered@[j]@),
            decreases offered@.len() - k,
        {
            let place = offered[k];
            assert(self@.has_note(offered@[k as int]@));
            assert(self.blocks@[place.block as int]@ == self@.blocks[place.block as int]);
            let note = &self.blocks[place.block].received[place.index];
            assert(note@ == self@.note(place@));
            proof {
                assert(all.take(k + 1).drop_last() =~= all.take(k as int));
                assert(all.take(k + 1).last() == place@);
            }
            got = got + note.value as u128;
            k = k + 1;
        }
        if got < required {
            assert(all.take(k as int) =~= all);
            return Err(Error::InsufficientFunds { available: got, required });
        }
        proof {
            assert(all =~= all.take(k as int) + all.skip(k as int));
            lemma_value_of_add(self@, all.take(k as int), all.skip(k as int));
            lemma_value_nonnegative(self@, all.skip(k as int));
            assert(k > 0);
            assert(self@.has_note(offered@[0]@));
        }
        offered.truncate(k);
        let selected = offered;
        proof {
            assert(places_of(selected@) =~= all.take(k as int));
            assert(places_of(selected@).drop_last() =~= all.take(k - 1));
        }
        let spends = self.nullifiers(&selected);
        let transaction = SentTransaction { account, recipient, value, memo, spends };
        let ghost sent = transaction@;
        match self.blocks.pop() {
            Some(mut last) => {
                let ghost before = last@;
                last.sent.push(transaction);
                assert(last@.sent =~= before.sent.push(sent));
                self.blocks.push(last);
            },
            None => {},
        }
        proof {
            assert(self@.blocks =~= old(self)@.with_sent(sent).blocks);
            lemma_with_sent_keeps_notes(old(self)@, sent);
        }
        Ok(selected)
    }
}

} // verus!
