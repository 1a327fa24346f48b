//! The wallet as a mathematical value: the scanned blocks in the order of their
//! heights, each with the notes received in it, the nullifiers revealed in it and the
//! transactions that were built while it was the last block.

use vstd::prelude::*;

verus! {

/// The number of blocks that must follow the block of a note before the note counts
/// as verified.
pub const CONFIRMATION_DEPTH: u32 = 10;

/// A note that was received.
pub struct NoteView {
    pub account: u32,
    pub value: u64,
    pub nullifier: Seq<u8>,
    pub memo: Option<Seq<char>>,
}

/// A transaction that the wallet built.
pub struct SentView {
    pub account: u32,
    pub recipient: Seq<char>,
    pub value: u64,
    pub memo: Option<Seq<u8>>,
    /// The nullifiers of the notes that the transaction spends.
    pub spends: Seq<Seq<u8>>,
}

/// A scanned block.
pub struct BlockView {
    pub height: u32,
    pub hash: Seq<u8>,
    pub prev_hash: Seq<u8>,
    pub time: u32,
    /// The frontier of the note commitment tree as of the end of the block.
    pub tree: Seq<u8>,
    pub received: Seq<NoteView>,
    /// The nullifiers that the transactions of the block reveal.
    pub spent: Seq<Seq<u8>>,
    /// The transactions built while this block was the last one scanned.
    pub sent: Seq<SentView>,
}

/// A wallet.
pub struct WalletView {
    /// The height at which a wallet without blocks begins to scan.
    pub start: u32,
    pub blocks: Seq<BlockView>,
}

/// A place in a wallet where a note may stand.
pub struct NoteRef {
    pub block: int,
    pub index: int,
}

/// What scanning found in one block of the cache.
pub struct EventsView {
    pub height: u32,
    pub hash: Seq<u8>,
    pub prev_hash: Seq<u8>,
    pub time: u32,
    pub tree: Seq<u8>,
    pub received: Seq<NoteView>,
    pub spent: Seq<Seq<u8>>,
}

/// Why a block cannot be scanned next.
pub enum ScanFault {
    /// The block is not at the height that comes next.
    Gap { expected: int, found: u32 },
    /// The block does not name the last scanned block as the one before it.
    Conflict { at: int },
}

impl WalletView {
    /// The scanned heights go up by one from block to block, none lies below the
    /// start, and each block names the hash of the one before it.
    pub open spec fn wf(self) -> bool {
        &&& forall|i: int|
            0 <= i < self.blocks.len() ==> (#[trigger] self.blocks[i]).height
                == self.blocks[0].height + i
        &&& self.blocks.len() > 0 ==> self.blocks[0].height >= self.start
        &&& forall|i: int|
            0 < i < self.blocks.len() ==> (#[trigger] self.blocks[i]).prev_hash
                == self.blocks[i - 1].hash
    }

    /// The highest scanned height, where a block has been scanned.
    pub open spec fn highest(self) -> Option<u32> {
        if self.blocks.len() == 0 {
            None
        } else {
            Some(self.blocks.last().height)
        }
    }

    /// The height of the block to scan next: the one after the highest scanned height,
    /// and not below the start.
    pub open spec fn next_height(self) -> int {
        match self.highest() {
            Some(h) => if h + 1 >= self.start {
                h + 1
            } else {
                self.start as int
            },
            None => self.start as int,
        }
    }

    /// The frontier of the note commitment tree, where a block has been scanned.
    pub open spec fn frontier(self) -> Option<Seq<u8>> {
        if self.blocks.len() == 0 {
            None
        } else {
            Some(self.blocks.last().tree)
        }
    }

    /// A scanned block reveals the nullifier.
    pub open spec fn revealed(self, nullifier: Seq<u8>) -> bool {
        exists|i: int|
            0 <= i < self.blocks.len() && #[trigger] self.blocks[i].spent.contains(nullifier)
    }

    /// A transaction that the wallet built spends the note of the nullifier.
    pub open spec fn locked(self, nullifier: Seq<u8>) -> bool {
        exists|i: int, j: int|
            0 <= i < self.blocks.len() && 0 <= j < self.blocks[i].sent.len()
                && #[trigger] self.blocks[i].sent[j].spends.contains(nullifier)
    }

    /// The note of the nullifier can no longer be spent.
    pub open spec fn is_spent(self, nullifier: Seq<u8>) -> bool {
        self.revealed(nullifier) || self.locked(nullifier)
    }

    /// The place holds a note.
    pub open spec fn has_note(self, r: NoteRef) -> bool {
        0 <= r.block < self.blocks.len() && 0 <= r.index < self.blocks[r.block].received.len()
    }

    /// The note at a place.
    pub open spec fn note(self, r: NoteRef) -> NoteView {
        self.blocks[r.block].received[r.index]
    }

    /// The place holds an unspent note of the account, received at or below `limit`.
    pub open spec fn counts(self, account: u32, limit: int, r: NoteRef) -> bool {
        &&& self.has_note(r)
        &&& self.note(r).account == account
        &&& !self.is_spent(self.note(r).nullifier)
        &&& self.blocks[r.block].height <= limit
    }

    /// The places among the first `n` notes of block `b` that count, in order.
    pub open spec fn block_unspent(self, account: u32, limit: int, b: int, n: int) -> Seq<NoteRef>
        decreases n,
    {
        if n <= 0 {
            Seq::empty()
        } else {
            let r = NoteRef { block: b, index: n - 1 };
            let before = self.block_unspent(account, limit, b, n - 1);
            if self.counts(account, limit, r) {
                before.push(r)
            } else {
                before
            }
        }
    }

    /// The places in the first `k` blocks that count, in order.
    pub open spec fn unspent_upto(self, account: u32, limit: int, k: int) -> Seq<NoteRef>
        decreases k,
    {
        if k <= 0 {
            Seq::empty()
        } else {
            self.unspent_upto(account, limit, k - 1) + self.block_unspent(
                account,
                limit,
                k - 1,
                self.blocks[k - 1].received.len() as int,
            )
        }
    }

    /// The unspent notes of the account that were received at or below `limit`, in the
    /// order in which they were scanned.
    pub open spec fn unspent(self, account: u32, limit: int) -> Seq<NoteRef> {
        self.unspent_upto(account, limit, self.blocks.len() as int)
    }

    /// The sum of the values of the notes at the places.
    pub open spec fn value_of(self, refs: Seq<NoteRef>) -> int
        decreases refs.len(),
    {
        if refs.len() == 0 {
            0
        } else {
            self.value_of(refs.drop_last()) + self.note(refs.last()).value
        }
    }

    /// The highest height at which a note counts as verified.
    pub open spec fn verified_limit(self) -> int {
        match self.highest() {
            Some(h) => h - CONFIRMATION_DEPTH,
            None => -1,
        }
    }

    /// The sum of the values of all unspent notes of the account.
    pub open spec fn balance(self, account: u32) -> int {
        self.value_of(self.unspent(account, u32::MAX as int))
    }

    /// The sum of the values of the unspent notes of the account that lie at least
    /// `CONFIRMATION_DEPTH` blocks below the highest scanned height.
    pub open spec fn verified_balance(self, account: u32) -> int {
        self.value_of(self.unspent(account, self.verified_limit()))
    }

    /// Why the block of the events cannot be scanned next, if it cannot.
    pub open spec fn scan_fault(self, e: EventsView) -> Option<ScanFault> {
        if e.height != self.next_height() {
            Some(ScanFault::Gap { expected: self.next_height(), found: e.height })
        } else if self.blocks.len() > 0 && e.prev_hash != self.blocks.last().hash {
            Some(ScanFault::Conflict { at: self.next_height() })
        } else {
            None
        }
    }

    /// The wallet after the block of the events has been scanned.
    pub open spec fn scanned(self, e: EventsView) -> WalletView {
        WalletView {
            start: self.start,
            blocks: self.blocks.push(
                BlockView {
                    height: e.height,
                    hash: e.hash,
                    prev_hash: e.prev_hash,
                    time: e.time,
                    tree: e.tree,
                    received: e.received,
                    spent: e.spent,
                    sent: Seq::empty(),
                },
            ),
        }
    }

    /// The block of the events lies below the height to scan next: it was scanned before,
    /// or lies below the start, and a scan of the cache passes it by.
    pub open spec fn passes_by(self, e: EventsView) -> bool {
        e.height < self.next_height()
    }

    /// The wallet after a scan of the cache: the blocks of the events are taken in their
    /// order, those below the height to scan next are passed by, and the others are
    /// scanned up to the first that cannot be scanned.
    pub open spec fn scanned_all(self, events: Seq<EventsView>) -> WalletView
        decreases events.len(),
    {
        if events.len() == 0 {
            self
        } else if self.passes_by(events[0]) {
            self.scanned_all(events.drop_first())
        } else if self.scan_fault(events[0]) is Some {
            self
        } else {
            self.scanned(events[0]).scanned_all(events.drop_first())
        }
    }

    /// Why the scan of the cache stops, if it stops: what is wrong with the first block
    /// that is not passed by and cannot be scanned in its turn.
    pub open spec fn first_scan_fault(self, events: Seq<EventsView>) -> Option<ScanFault>
        decreases events.len(),
    {
        if events.len() == 0 {
            None
        } else if self.passes_by(events[0]) {
            self.first_scan_fault(events.drop_first())
        } else {
            match self.scan_fault(events[0]) {
                Some(fault) => Some(fault),
                None => self.scanned(events[0]).first_scan_fault(events.drop_first()),
            }
        }
    }

    /// Every block of the events is passed by or can be scanned in its turn.
    pub open spec fn scans_all(self, events: Seq<EventsView>) -> bool
        decreases events.len(),
    {
        if events.len() == 0 {
            true
        } else if self.passes_by(events[0]) {
            self.scans_all(events.drop_first())
        } else {
            self.scan_fault(events[0]) is None && self.scanned(events[0]).scans_all(
                events.drop_first(),
            )
        }
    }

    /// The number of scanned blocks at or below `height`.
    pub open spec fn kept(self, height: int) -> int {
        if self.blocks.len() == 0 || height < self.blocks[0].height {
            0
        } else if height >= self.blocks.last().height {
            self.blocks.len() as int
        } else {
            height - self.blocks[0].height + 1
        }
    }

    /// The wallet taken back to `height`: the blocks above it are gone, and with them
    /// their notes, their nullifiers and the transactions built on them.
    pub open spec fn rewound(self, height: int) -> WalletView {
        WalletView { start: self.start, blocks: self.blocks.take(self.kept(height)) }
    }

    /// The wallet after a transaction has been built on its last block.
    pub open spec fn with_sent(self, sent: SentView) -> WalletView {
        let last = self.blocks.last();
        WalletView {
            start: self.start,
            blocks: self.blocks.update(
                self.blocks.len() - 1,
                BlockView { sent: last.sent.push(sent), ..last },
            ),
        }
    }
}

/// `selected` is what a transaction that needs `required` spends: the first of the
/// account's verified unspent notes, in the order in which they were scanned, as far as
/// it takes to reach `required`, and none beyond.
pub open spec fn is_selection(
    w: WalletView,
    account: u32,
    required: int,
    selected: Seq<NoteRef>,
) -> bool {
    let offered = w.unspent(account, w.verified_limit());
    &&& selected.len() <= offered.len()
    &&& selected == offered.take(selected.len() as int)
    &&& w.value_of(selected) >= required
    &&& selected.len() > 0 ==> w.value_of(selected.drop_last()) < required
}

/// The nullifiers of the notes at the places.
pub open spec fn nullifiers_of(w: WalletView, refs: Seq<NoteRef>) -> Seq<Seq<u8>> {
    Seq::new(refs.len(), |i: int| w.note(refs[i]).nullifier)
}

} // verus!
