//! File transfers between two users: the relay keeps what was announced,
//! where each transfer stands, and the chunks that came in.

use vstd::prelude::*;
use crate::keyed::{index_of_unique, push_keeps_distinct};
use crate::protocol::messages::{TransferStatus, UserId};
use crate::time::Timestamp;

verus! {

/// How long a transfer may wait to be accepted, or to go on, in seconds.
pub const TRANSFER_TIMEOUT_SECS: u64 = 300;

/// How long a finished transfer is kept, in seconds.
pub const RETENTION_SECS: u64 = 3600;

/// The SHA-256 digest of `data`.
pub uninterp spec fn sha256_digest(data: Seq<u8>) -> Seq<u8>;

/// `Sha256::digest` of the sha2 crate.
#[verifier::external_body]
fn sha256(data: &[u8]) -> (digest: Vec<u8>)
    ensures
        digest@ == sha256_digest(data@),
{
    <sha2::Sha256 as sha2::Digest>::digest(data).to_vec()
}

/// `order` lists the places of `keys` by rising key, places with the same
/// key in their own order.
pub open spec fn is_stable_order(keys: Seq<u32>, order: Seq<usize>) -> bool {
    &&& order.len() == keys.len()
    &&& forall|i: int| 0 <= i < order.len() ==> (#[trigger] order[i]) < keys.len()
    &&& forall|i: int, j: int|
        0 <= i < j < order.len() ==> keys[(#[trigger] order[i]) as int] < keys[(
        #[trigger] order[j]) as int] || (keys[order[i] as int] == keys[order[j] as int] && order[i]
            < order[j])
}

/// `sorted_by_key` of itertools on the places of `keys`: a stable sort by
/// key.
#[verifier::external_body]
fn stable_order(keys: &Vec<u32>) -> (order: Vec<usize>)
    ensures
        is_stable_order(keys@, order@),
{
    itertools::Itertools::sorted_by_key(keys.iter().enumerate(), |place| *place.1)
        .map(|place| place.0)
        .collect()
}

/// One chunk of a file, opaque as it came.
#[derive(Debug)]
pub struct FileChunk {
    pub chunk_index: u32,
    pub chunk_data: Vec<u8>,
    pub chunk_hash: Vec<u8>,
    pub received_at: u64,
}

/// The model of a [`FileChunk`].
pub struct FileChunkModel {
    pub chunk_index: u32,
    pub chunk_data: Seq<u8>,
    pub chunk_hash: Seq<u8>,
    pub received_at: u64,
}

impl View for FileChunk {
    type V = FileChunkModel;

    open spec fn view(&self) -> FileChunkModel {
        FileChunkModel {
            chunk_index: self.chunk_index,
            chunk_data: self.chunk_data@,
            chunk_hash: self.chunk_hash@,
            received_at: self.received_at,
        }
    }
}

impl DeepView for FileChunk {
    type V = FileChunkModel;

    open spec fn deep_view(&self) -> FileChunkModel {
        self@
    }
}

impl Clone for FileChunk {
    fn clone(&self) -> (copy: Self)
        ensures
            copy@ == self@,
    {
        FileChunk {
            chunk_index: self.chunk_index,
            chunk_data: self.chunk_data.clone(),
            chunk_hash: self.chunk_hash.clone(),
            received_at: self.received_at,
        }
    }
}

/// One file transfer as the relay keeps it.
#[derive(Debug)]
pub struct FileTransfer {
    pub id: u64,
    pub sender_id: UserId,
    pub recipient_id: UserId,
    pub file_name: String,
    pub file_size: u64,
    pub file_hash: Vec<u8>,
    pub status: TransferStatus,
    pub created_at: u64,
    pub accepted_at: Option<u64>,
    pub completed_at: Option<u64>,
    pub chunks: Vec<FileChunk>,
}

/// The model of a [`FileTransfer`].
pub struct FileTransferModel {
    pub id: u64,
    pub sender_id: UserId,
    pub recipient_id: UserId,
    pub file_name: Seq<char>,
    pub file_size: u64,
    pub file_hash: Seq<u8>,
    pub status: TransferStatus,
    pub created_at: u64,
    pub accepted_at: Option<u64>,
    pub completed_at: Option<u64>,
    pub chunks: Seq<FileChunkModel>,
}

impl View for FileTransfer {
    type V = FileTransferModel;

    open spec fn view(&self) -> FileTransferModel {
        FileTransferModel {
            id: self.id,
            sender_id: self.sender_id,
            recipient_id: self.recipient_id,
            file_name: self.file_name@,
            file_size: self.file_size,
            file_hash: self.file_hash@,
            status: self.status,
            created_at: self.created_at,
            accepted_at: self.accepted_at,
            completed_at: self.completed_at,
            chunks: self.chunks.deep_view(),
        }
    }
}

impl DeepView for FileTransfer {
    type V = FileTransferModel;

    open spec fn deep_view(&self) -> FileTransferModel {
        self@
    }
}

impl Clone for FileTransfer {
    fn clone(&self) -> (copy: Self)
        ensures
            copy@ == self@,
    {
        let copy = FileTransfer {
            id: self.id,
            sender_id: self.sender_id,
            recipient_id: self.recipient_id,
            file_name: self.file_name.clone(),
            file_size: self.file_size,
            file_hash: self.file_hash.clone(),
            status: self.status,
            created_at: self.created_at,
            accepted_at: self.accepted_at,
            completed_at: self.completed_at,
            chunks: self.chunks.clone(),
        };
        assert(copy.chunks.deep_view() =~= self.chunks.deep_view());
        copy
    }
}

/// The time from `since` to `now`, zero where `since` lies ahead.
pub open spec fn elapsed(now: u64, since: u64) -> u64 {
    if since > now {
        0
    } else {
        (now - since) as u64
    }
}

impl FileTransferModel {
    /// The transfer after its status became `status` at `now`: a transfer
    /// that goes into progress notes when it was accepted, one that ends
    /// notes when.
    pub open spec fn moved_to(self, status: TransferStatus, now: u64) -> FileTransferModel {
        match status {
            TransferStatus::InProgress => FileTransferModel {
                status,
                accepted_at: Some(now),
                ..self
            },
            TransferStatus::Completed | TransferStatus::Failed | TransferStatus::Declined => FileTransferModel {
                status,
                completed_at: Some(now),
                ..self
            },
            TransferStatus::Pending => FileTransferModel { status, ..self },
        }
    }

    /// The bytes received in the first `n` chunks.
    pub open spec fn received_among(self, n: nat) -> nat
        decreases n,
    {
        if n == 0 || n > self.chunks.len() {
            0
        } else {
            self.received_among((n - 1) as nat) + self.chunks[n - 1].chunk_data.len()
        }
    }

    /// How much of the file has come in, in whole percent, at most 100;
    /// zero for a file of size zero.
    pub open spec fn progress(self) -> u32 {
        let received = self.received_among(self.chunks.len());
        if self.file_size == 0 {
            0
        } else if received >= self.file_size {
            100
        } else {
            ((received * 100) / (self.file_size as nat)) as u32
        }
    }

    /// Whether the transfer is due for removal at `now`: an hour after it
    /// ended, or five minutes after it was announced or accepted without
    /// going on.
    pub open spec fn expired(self, now: u64) -> bool {
        match self.status {
            TransferStatus::Completed | TransferStatus::Failed | TransferStatus::Declined => match self.completed_at {
                Some(t) => elapsed(now, t) > RETENTION_SECS,
                None => false,
            },
            TransferStatus::Pending => elapsed(now, self.created_at) > TRANSFER_TIMEOUT_SECS,
            TransferStatus::InProgress => elapsed(
                now,
                match self.accepted_at {
                    Some(t) => t,
                    None => 0,
                },
            ) > TRANSFER_TIMEOUT_SECS,
        }
    }

    /// Among the first `n` chunks, the hash of the first with the index
    /// `chunk_index`.
    pub open spec fn chunk_hash_among(self, chunk_index: u32, n: nat) -> Option<Seq<u8>>
        decreases n,
    {
        if n == 0 || n > self.chunks.len() {
            None
        } else {
            match self.chunk_hash_among(chunk_index, (n - 1) as nat) {
                Some(h) => Some(h),
                None => if self.chunks[n - 1].chunk_index == chunk_index {
                    Some(self.chunks[n - 1].chunk_hash)
                } else {
                    None
                },
            }
        }
    }

    /// The indexes of the chunks, in order of arrival.
    pub open spec fn chunk_indexes(self) -> Seq<u32> {
        Seq::new(self.chunks.len(), |i: int| self.chunks[i].chunk_index)
    }

    /// The data of the chunks at the first `n` places of `order`, one after
    /// the other.
    pub open spec fn gathered(self, order: Seq<usize>, n: nat) -> Seq<u8>
        decreases n,
    {
        if n == 0 || n > order.len() {
            Seq::empty()
        } else {
            self.gathered(order, (n - 1) as nat) + self.chunks[order[n - 1] as int].chunk_data
        }
    }
}

/// The model of a [`FileTransferManager`].
pub struct TransfersModel {
    pub transfers: Seq<FileTransferModel>,
    pub next_transfer_id: u64,
}

impl TransfersModel {
    pub open spec fn ids(self) -> Seq<u64> {
        Seq::new(self.transfers.len(), |i: int| self.transfers[i].id)
    }

    /// Ids are unique and below the next id.
    pub open spec fn wf(self) -> bool {
        &&& self.ids().no_duplicates()
        &&& forall|i: int|
            0 <= i < self.transfers.len() ==> (#[trigger] self.transfers[i]).id
                < self.next_transfer_id
    }

    pub open spec fn has(self, id: u64) -> bool {
        self.ids().contains(id)
    }

    pub open spec fn get_transfer(self, id: u64) -> Option<FileTransferModel> {
        if self.has(id) {
            Some(self.transfers[self.ids().index_of(id)])
        } else {
            None
        }
    }

    /// The transfers with the one under `id` replaced by `transfer`.
    pub open spec fn with_transfer(self, id: u64, transfer: FileTransferModel) -> TransfersModel {
        TransfersModel { transfers: self.transfers.update(
            self.ids().index_of(id),
            transfer,
        ), ..self }
    }

    /// The transfer that `create_transfer` announces.
    pub open spec fn announced(
        self,
        sender_id: UserId,
        recipient_id: UserId,
        file_name: Seq<char>,
        file_size: u64,
        file_hash: Seq<u8>,
        now: u64,
    ) -> FileTransferModel {
        FileTransferModel {
            id: self.next_transfer_id,
            sender_id,
            recipient_id,
            file_name,
            file_size,
            file_hash,
            status: TransferStatus::Pending,
            created_at: now,
            accepted_at: None,
            completed_at: None,
            chunks: Seq::empty(),
        }
    }

    pub open spec fn create_transfer(
        self,
        sender_id: UserId,
        recipient_id: UserId,
        file_name: Seq<char>,
        file_size: u64,
        file_hash: Seq<u8>,
        now: u64,
    ) -> TransfersModel {
        TransfersModel {
            transfers: self.transfers.push(
                self.announced(sender_id, recipient_id, file_name, file_size, file_hash, now),
            ),
            next_transfer_id: (self.next_transfer_id + 1) as u64,
        }
    }

    pub open spec fn update_transfer_status(
        self,
        id: u64,
        status: TransferStatus,
        now: u64,
    ) -> TransfersModel {
        if self.has(id) {
            self.with_transfer(id, self.get_transfer(id)->0.moved_to(status, now))
        } else {
            self
        }
    }

    pub open spec fn add_chunk(self, id: u64, chunk: FileChunkModel) -> TransfersModel {
        if self.has(id) {
            let transfer = self.get_transfer(id)->0;
            self.with_transfer(
                id,
                FileTransferModel { chunks: transfer.chunks.push(chunk), ..transfer },
            )
        } else {
            self
        }
    }

    /// Among the first `n` transfers, those that wait for `user_id` to
    /// accept them.
    pub open spec fn pending_among(self, user_id: UserId, n: nat) -> Seq<FileTransferModel>
        decreases n,
    {
        if n == 0 || n > self.transfers.len() {
            Seq::empty()
        } else {
            let earlier = self.pending_among(user_id, (n - 1) as nat);
            let t = self.transfers[n - 1];
            if t.recipient_id == user_id && t.status == TransferStatus::Pending {
                earlier.push(t)
            } else {
                earlier
            }
        }
    }

    /// Among the first `n` transfers, those not due for removal at `now`.
    pub open spec fn kept_among(self, now: u64, n: nat) -> Seq<FileTransferModel>
        decreases n,
    {
        if n == 0 || n > self.transfers.len() {
            Seq::empty()
        } else {
            let earlier = self.kept_among(now, (n - 1) as nat);
            if self.transfers[n - 1].expired(now) {
                earlier
            } else {
                earlier.push(self.transfers[n - 1])
            }
        }
    }

    pub open spec fn cleanup_expired_transfers(self, now: u64) -> TransfersModel {
        TransfersModel { transfers: self.kept_among(now, self.transfers.len()), ..self }
    }

    /// What is kept is a selection of what was there, in the same order.
    pub proof fn kept_among_is_selection(self, now: u64, n: nat)
        requires
            self.wf(),
            n <= self.transfers.len(),
        ensures
            (TransfersModel { transfers: self.kept_among(now, n), ..self }).wf(),
            forall|j: int|
                0 <= j < self.kept_among(now, n).len() ==> exists|k: int|
                    0 <= k < n && self.transfers[k] == #[trigger] self.kept_among(now, n)[j],
        decreases n,
    {
        let kept = self.kept_among(now, n);
        let after = TransfersModel { transfers: kept, ..self };
        if n == 0 {
            assert(after.ids() =~= Seq::empty());
        } else {
            let m = (n - 1) as nat;
            self.kept_among_is_selection(now, m);
            let earlier = self.kept_among(now, m);
            let before = TransfersModel { transfers: earlier, ..self };
            let last = self.transfers[n - 1];
            if !last.expired(now) {
                assert(after.ids() =~= before.ids().push(last.id));
                assert(!before.ids().contains(last.id)) by {
                    if before.ids().contains(last.id) {
                        let j = before.ids().index_of(last.id);
                        let k = choose|k: int| 0 <= k < m && self.transfers[k] == earlier[j];
                        assert(self.ids()[k] == self.ids()[n - 1]);
                    }
                }
                push_keeps_distinct(before.ids(), last.id);
                assert forall|j: int| 0 <= j < kept.len() implies exists|k: int|
                    0 <= k < n && self.transfers[k] == #[trigger] kept[j] by {
                    if j < earlier.len() {
                        let k = choose|k: int| 0 <= k < m && self.transfers[k] == earlier[j];
                        assert(self.transfers[k] == kept[j]);
                    } else {
                        assert(self.transfers[n - 1] == kept[j]);
                    }
                }
                assert forall|j: int| 0 <= j < kept.len() implies (#[trigger] kept[j]).id
                    < self.next_transfer_id by {
                    let k = choose|k: int| 0 <= k < n && self.transfers[k] == kept[j];
                    assert(self.transfers[k].id < self.next_transfer_id);
                }
            } else {
                assert forall|j: int| 0 <= j < kept.len() implies exists|k: int|
                    0 <= k < n && self.transfers[k] == #[trigger] kept[j] by {
                    let k = choose|k: int| 0 <= k < m && self.transfers[k] == earlier[j];
                    assert(self.transfers[k] == kept[j]);
                }
            }
        }
    }
}

/// Whether `a` and `b` hold the same bytes.
pub fn same_bytes(a: &[u8], b: &[u8]) -> (same: bool)
    ensures
        same == (a@ == b@),
{
    if a.len() != b.len() {
        return false;
    }
    let mut i: usize = 0;
    while i < a.len()
        invariant
            i <= a.len(),
            a.len() == b.len(),
            forall|k: int| 0 <= k < i ==> a@[k] == b@[k],
        decreases a.len() - i,
    {
        if a[i] != b[i] {
            return false;
        }
        i += 1;
    }
    assert(a@ =~= b@);
    true
}

/// The store of file transfers.
#[derive(Debug)]
pub struct FileTransferManager {
    transfers: Vec<FileTransfer>,
    next_transfer_id: u64,
}

impl View for FileTransferManager {
    type V = TransfersModel;

    closed spec fn view(&self) -> TransfersModel {
        TransfersModel {
            transfers: self.transfers.deep_view(),
            next_transfer_id: self.next_transfer_id,
        }
    }
}

impl FileTransferManager {
    pub open spec fn wf(&self) -> bool {
        self@.wf()
    }

    /// No transfers yet; the first one gets id 1.
    pub fn new() -> (m: Self)
        ensures
            m.wf(),
            m@.transfers.len() == 0,
            m@.next_transfer_id == 1,
    {
        let m = Self { transfers: Vec::new(), next_transfer_id: 1 };
        assert(m@.ids() =~= Seq::empty());
        m
    }

    /// Whether another transfer can still be numbered.
    pub fn has_room(&self) -> (r: bool)
        ensures
            r == (self@.next_transfer_id < u64::MAX),
    {
        self.next_transfer_id < u64::MAX
    }

    fn position(&self, id: u64) -> (r: Option<usize>)
        requires
            self.wf(),
        ensures
            match r {
                Some(i) => self@.has(id) && self@.ids().index_of(id) == i && i
                    < self.transfers.len() && self@.get_transfer(id) == Some(
                    self.transfers[i as int]@,
                ),
                None => !self@.has(id),
            },
    {
        let mut i: usize = 0;
        while i < self.transfers.len()
            invariant
                self.wf(),
                i <= self.transfers.len(),
                forall|k: int| 0 <= k < i ==> self@.ids()[k] != id,
            decreases self.transfers.len() - i,
        {
            if self.transfers[i].id == id {
                proof {
                    index_of_unique(self@.ids(), i as int);
                }
                return Some(i);
            }
            i += 1;
        }
        None
    }

    /// Announces a transfer at `now` (seconds since the epoch) and returns
    /// its id.
    pub fn create_transfer_at(
        &mut self,
        sender_id: UserId,
        recipient_id: UserId,
        file_name: String,
        file_size: u64,
        file_hash: Vec<u8>,
        now: u64,
    ) -> (id: u64)
        requires
            old(self).wf(),
            old(self)@.next_transfer_id < u64::MAX,
        ensures
            final(self).wf(),
            id == old(self)@.next_transfer_id,
            final(self)@ == old(self)@.create_transfer(
                sender_id,
                recipient_id,
                file_name@,
                file_size,
                file_hash@,
                now,
            ),
    {
        let id: u64 = self.next_transfer_id;
        self.next_transfer_id = id + 1;
        let transfer = FileTransfer {
            id,
            sender_id,
            recipient_id,
            file_name,
            file_size,
            file_hash,
            status: TransferStatus::Pending,
            created_at: now,
            accepted_at: None,
            completed_at: None,
            chunks: Vec::new(),
        };
        assert(transfer@.chunks =~= Seq::empty());
        self.transfers.push(transfer);
        proof {
            assert(self@.transfers =~= old(self)@.transfers.push(transfer@));
            assert(self@.ids() =~= old(self)@.ids().push(id));
            assert(!old(self)@.ids().contains(id)) by {
                if old(self)@.ids().contains(id) {
                    let k = old(self)@.ids().index_of(id);
                    assert(old(self)@.transfers[k].id < id);
                }
            }
            push_keeps_distinct(old(self)@.ids(), id);
        }
        id
    }

    /// Announces a transfer at the present moment.
    pub fn create_transfer(
        &mut self,
        sender_id: UserId,
        recipient_id: UserId,
        file_name: String,
        file_size: u64,
        file_hash: Vec<u8>,
    ) -> (id: u64)
        requires
            old(self).wf(),
            old(self)@.next_transfer_id < u64::MAX,
        ensures
            final(self).wf(),
            id == old(self)@.next_transfer_id,
            exists|now: u64|
                final(self)@ == #[trigger] old(self)@.create_transfer(
                    sender_id,
                    recipient_id,
                    file_name@,
                    file_size,
                    file_hash@,
                    now,
                ),
    {
        let now = Timestamp::now().unix_seconds();
        let ghost name = file_name@;
        let ghost hash = file_hash@;
        let id = self.create_transfer_at(
            sender_id,
            recipient_id,
            file_name,
            file_size,
            file_hash,
            now,
        );
        assert(self@ == old(self)@.create_transfer(
            sender_id,
            recipient_id,
            name,
            file_size,
            hash,
            now,
        ));
        id
    }

    /// Sets the status of the transfer `transfer_id` at `now`; says whether
    /// there is such a transfer.
    pub fn update_transfer_status_at(
        &mut self,
        transfer_id: u64,
        status: TransferStatus,
        now: u64,
    ) -> (found: bool)
        requires
            old(self).wf(),
        ensures
            final(self).wf(),
            found == old(self)@.has(transfer_id),
            final(self)@ == old(self)@.update_transfer_status(transfer_id, status, now),
    {
        match self.position(transfer_id) {
            Some(i) => {
                self.transfers[i].status = status;
                match status {
                    TransferStatus::InProgress => {
                        self.transfers[i].accepted_at = Some(now);
                    },
                    TransferStatus::Completed
                    | TransferStatus::Failed
                    | TransferStatus::Declined => {
                        self.transfers[i].completed_at = Some(now);
                    },
                    TransferStatus::Pending => {},
                }
                proof {
                    let moved = old(self)@.transfers[i as int].moved_to(status, now);
                    assert(self.transfers[i as int]@ == moved);
                    assert(self@.transfers =~= old(self)@.transfers.update(i as int, moved));
                    assert(self@.ids() =~= old(self)@.ids());
                }
                true
            },
            None => false,
        }
    }

    /// Sets the status of the transfer `transfer_id` at the present moment.
    pub fn update_transfer_status(
        &mut self,
        transfer_id: u64,
        status: TransferStatus,
    ) -> (found: bool)
        requires
            old(self).wf(),
        ensures
            final(self).wf(),
            found == old(self)@.has(transfer_id),
            exists|now: u64|
                final(self)@ == #[trigger] old(self)@.update_transfer_status(
                    transfer_id,
                    status,
                    now,
                ),
    {
        let now = Timestamp::now().unix_seconds();
        let found = self.update_transfer_status_at(transfer_id, status, now);
        assert(self@ == old(self)@.update_transfer_status(transfer_id, status, now));
        found
    }

    /// The recipient accepts: the transfer goes into progress.
    pub fn accept_transfer(&mut self, transfer_id: u64) -> (found: bool)
        requires
            old(self).wf(),
        ensures
            final(self).wf(),
            found == old(self)@.has(transfer_id),
            exists|now: u64|
                final(self)@ == #[trigger] old(self)@.update_transfer_status(
                    transfer_id,
                    TransferStatus::InProgress,
                    now,
                ),
    {
        self.update_transfer_status(transfer_id, TransferStatus::InProgress)
    }

    /// The recipient declines.
    pub fn decline_transfer(&mut self, transfer_id: u64) -> (found: bool)
        requires
            old(self).wf(),
        ensures
            final(self).wf(),
            found == old(self)@.has(transfer_id),
            exists|now: u64|
                final(self)@ == #[trigger] old(self)@.update_transfer_status(
                    transfer_id,
                    TransferStatus::Declined,
                    now,
                ),
    {
        self.update_transfer_status(transfer_id, TransferStatus::Declined)
    }

    /// The transfer is done.
    pub fn complete_transfer(&mut self, transfer_id: u64) -> (found: bool)
        requires
            old(self).wf(),
        ensures
            final(self).wf(),
            found == old(self)@.has(transfer_id),
            exists|now: u64|
                final(self)@ == #[trigger] old(self)@.update_transfer_status(
                    transfer_id,
                    TransferStatus::Completed,
                    now,
                ),
    {
        self.update_transfer_status(transfer_id, TransferStatus::Completed)
    }

    /// The transfer failed.
    pub fn fail_transfer(&mut self, transfer_id: u64) -> (found: bool)
        requires
            old(self).wf(),
        ensures
            final(self).wf(),
            found == old(self)@.has(transfer_id),
            exists|now: u64|
                final(self)@ == #[trigger] old(self)@.update_transfer_status(
                    transfer_id,
                    TransferStatus::Failed,
                    now,
                ),
    {
        self.update_transfer_status(transfer_id, TransferStatus::Failed)
    }

    /// A party cancels: the transfer counts as failed.
    pub fn cancel_transfer(&mut self, transfer_id: u64) -> (found: bool)
        requires
            old(self).wf(),
        ensures
            final(self).wf(),
            found == old(self)@.has(transfer_id),
            exists|now: u64|
                final(self)@ == #[trigger] old(self)@.update_transfer_status(
                    transfer_id,
                    TransferStatus::Failed,
                    now,
                ),
    {
        self.update_transfer_status(transfer_id, TransferStatus::Failed)
    }

    /// The chunk that `add_chunk` keeps.
    pub open spec fn chunk_model(
        chunk_index: u32,
        chunk_data: Seq<u8>,
        chunk_hash: Seq<u8>,
        now: u64,
    ) -> FileChunkModel {
        FileChunkModel { chunk_index, chunk_data, chunk_hash, received_at: now }
    }

    /// Keeps a chunk of the transfer `transfer_id` that came in at `now`;
    /// says whether there is such a transfer.
    pub fn add_chunk_at(
        &mut self,
        transfer_id: u64,
        chunk_index: u32,
        chunk_data: Vec<u8>,
        chunk_hash: Vec<u8>,
        now: u64,
    ) -> (found: bool)
        requires
            old(self).wf(),
        ensures
            final(self).wf(),
            found == old(self)@.has(transfer_id),
            final(self)@ == old(self)@.add_chunk(
                transfer_id,
                Self::chunk_model(chunk_index, chunk_data@, chunk_hash@, now),
            ),
    {
        match self.position(transfer_id) {
            Some(i) => {
                let chunk = FileChunk { chunk_index, chunk_data, chunk_hash, received_at: now };
                self.transfers[i].chunks.push(chunk);
                proof {
                    let before = old(self)@.transfers[i as int];
                    let grown = FileTransferModel { chunks: before.chunks.push(chunk@), ..before };
                    assert(self.transfers[i as int]@.chunks =~= grown.chunks);
                    assert(self@.transfers =~= old(self)@.transfers.update(i as int, grown));
                    assert(self@.ids() =~= old(self)@.ids());
                }
                true
            },
            None => false,
        }
    }

    /// Keeps a chunk of the transfer `transfer_id` that comes in now.
    pub fn add_chunk(
        &mut self,
        transfer_id: u64,
        chunk_index: u32,
        chunk_data: Vec<u8>,
        chunk_hash: Vec<u8>,
    ) -> (found: bool)
        requires
            old(self).wf(),
        ensures
            final(self).wf(),
            found == old(self)@.has(transfer_id),
            exists|now: u64|
                final(self)@ == old(self)@.add_chunk(
                    transfer_id,
                    #[trigger] Self::chunk_model(chunk_index, chunk_data@, chunk_hash@, now),
                ),
    {
        let now = Timestamp::now().unix_seconds();
        let ghost chunk = Self::chunk_model(chunk_index, chunk_data@, chunk_hash@, now);
        let found = self.add_chunk_at(transfer_id, chunk_index, chunk_data, chunk_hash, now);
        assert(self@ == old(self)@.add_chunk(transfer_id, chunk));
        found
    }

    pub fn get_transfer(&self, transfer_id: u64) -> (transfer: Option<FileTransfer>)
        requires
            self.wf(),
        ensures
            transfer.deep_view() == self@.get_transfer(transfer_id),
    {
        match self.position(transfer_id) {
            Some(i) => Some(self.transfers[i].clone()),
            None => None,
        }
    }

    /// The transfers that wait for `user_id` to accept them.
    pub fn get_pending_transfers_for_user(&self, user_id: UserId) -> (pending: Vec<FileTransfer>)
        ensures
            pending.deep_view() == self@.pending_among(user_id, self@.transfers.len()),
    {
        let mut pending: Vec<FileTransfer> = Vec::new();
        let mut i: usize = 0;
        assert(pending.deep_view() =~= self@.pending_among(user_id, 0));
        while i < self.transfers.len()
            invariant
                i <= self.transfers.len(),
                pending.deep_view() == self@.pending_among(user_id, i as nat),
            decreases self.transfers.len() - i,
        {
            let t = &self.transfers[i];
            assert(self@.transfers[i as int] == t@);
            if t.recipient_id == user_id && t.status == TransferStatus::Pending {
                let copy = t.clone();
                pending.push(copy);
                assert(pending.deep_view() =~= self@.pending_among(user_id, i as nat).push(
                    copy@,
                ));
            }
            i += 1;
        }
        pending
    }

    /// The status of the transfer `transfer_id` and how much of the file
    /// has come in, in percent.
    pub fn get_progress(&self, transfer_id: u64) -> (progress: Option<(TransferStatus, u32)>)
        requires
            self.wf(),
        ensures
            progress == match self@.get_transfer(transfer_id) {
                Some(t) => Some((t.status, t.progress())),
                None => None,
            },
    {
        let Some(i) = self.position(transfer_id) else {
            return None;
        };
        let transfer = &self.transfers[i];
        let ghost model = transfer@;
        let mut received: u128 = 0;
        let mut k: usize = 0;
        while k < transfer.chunks.len()
            invariant
                k <= transfer.chunks.len(),
                transfer@ == model,
                received == model.received_among(k as nat),
                received <= k * usize::MAX,
            decreases transfer.chunks.len() - k,
        {
            assert(model.chunks[k as int] == transfer.chunks[k as int]@);
            assert((k + 1) * usize::MAX == k * usize::MAX + usize::MAX) by (nonlinear_arith);
            assert(k * usize::MAX <= usize::MAX * usize::MAX) by (nonlinear_arith)
                requires
                    k <= usize::MAX,
            ;
            assert(usize::MAX * usize::MAX + usize::MAX <= u128::MAX) by (nonlinear_arith)
                requires
                    usize::MAX <= 0xffff_ffff_ffff_ffff,
            ;
            received = received + transfer.chunks[k].chunk_data.len() as u128;
            k += 1;
        }
        let percent: u32 = if transfer.file_size == 0 {
            0
        } else if received >= transfer.file_size as u128 {
            100
        } else {
            let share: u128 = (received * 100) / (transfer.file_size as u128);
            assert(share < 100) by (nonlinear_arith)
                requires
                    received < transfer.file_size,
                    share == (received * 100) / (transfer.file_size as int),
            ;
            share as u32
        };
        Some((transfer.status, percent))
    }

    /// Removes the transfers that are due at `now`.
    pub fn cleanup_expired_transfers_at(&mut self, now: u64)
        requires
            old(self).wf(),
        ensures
            final(self).wf(),
            final(self)@ == old(self)@.cleanup_expired_transfers(now),
    {
        let mut kept: Vec<FileTransfer> = Vec::new();
        let mut i: usize = 0;
        assert(kept.deep_view() =~= self@.kept_among(now, 0));
        while i < self.transfers.len()
            invariant
                i <= self.transfers.len(),
                self.transfers == old(self).transfers,
                self.next_transfer_id == old(self).next_transfer_id,
                kept.deep_view() == self@.kept_among(now, i as nat),
            decreases self.transfers.len() - i,
        {
            let t = &self.transfers[i];
            assert(self@.transfers[i as int] == t@);
            let due = match t.status {
                TransferStatus::Completed
                | TransferStatus::Failed
                | TransferStatus::Declined => match t.completed_at {
                    Some(at) => at <= now && now - at > RETENTION_SECS,
                    None => false,
                },
                TransferStatus::Pending => t.created_at <= now && now - t.created_at
                    > TRANSFER_TIMEOUT_SECS,
                TransferStatus::InProgress => {
                    let since: u64 = match t.accepted_at {
                        Some(at) => at,
                        None => 0,
                    };
                    since <= now && now - since > TRANSFER_TIMEOUT_SECS
                },
            };
            if !due {
                let copy = t.clone();
                kept.push(copy);
                assert(kept.deep_view() =~= self@.kept_among(now, i as nat).push(copy@));
            }
            i += 1;
        }
        proof {
            old(self)@.kept_among_is_selection(now, old(self)@.transfers.len());
        }
        self.transfers = kept;
    }

    /// Removes the transfers that are due at the present moment.
    pub fn cleanup_expired_transfers(&mut self)
        requires
            old(self).wf(),
        ensures
            final(self).wf(),
            exists|now: u64| final(self)@ == #[trigger] old(self)@.cleanup_expired_transfers(now),
    {
        let now = Timestamp::now().unix_seconds();
        self.cleanup_expired_transfers_at(now);
        assert(self@ == old(self)@.cleanup_expired_transfers(now));
    }

    /// Whether the first chunk with the index `chunk_index` of the transfer
    /// `transfer_id` carries the hash `expected_hash`.
    pub fn verify_chunk_hash(
        &self,
        transfer_id: u64,
        chunk_index: u32,
        expected_hash: &[u8],
    ) -> (ok: bool)
        requires
            self.wf(),
        ensures
            ok == match self@.get_transfer(transfer_id) {
                Some(t) => t.chunk_hash_among(chunk_index, t.chunks.len()) == Some(
                    expected_hash@,
                ),
                None => false,
            },
    {
        let Some(i) = self.position(transfer_id) else {
            return false;
        };
        let chunks = &self.transfers[i].chunks;
        let ghost model = self.transfers[i as int]@;
        let mut found: Option<usize> = None;
        let mut k: usize = 0;
        while k < chunks.len()
            invariant
                k <= chunks.len(),
                chunks.deep_view() == model.chunks,
                match found {
                    Some(p) => p < k && model.chunk_hash_among(chunk_index, k as nat) == Some(
                        chunks[p as int].chunk_hash@,
                    ),
                    None => model.chunk_hash_among(chunk_index, k as nat) is None,
                },
            decreases chunks.len() - k,
        {
            assert(model.chunks[k as int] == chunks[k as int]@);
            if found.is_none() && chunks[k].chunk_index == chunk_index {
                found = Some(k);
            }
            k += 1;
        }
        match found {
            Some(p) => same_bytes(chunks[p].chunk_hash.as_slice(), expected_hash),
            None => false,
        }
    }

    /// Whether the chunks of the transfer `transfer_id`, put together by
    /// rising index, have the SHA-256 digest that was announced for the
    /// file.
    pub fn verify_file_integrity(&self, transfer_id: u64) -> (ok: bool)
        requires
            self.wf(),
        ensures
            match self@.get_transfer(transfer_id) {
                Some(t) => exists|order: Seq<usize>|
                    #[trigger] is_stable_order(t.chunk_indexes(), order) && ok == (sha256_digest(
                        t.gathered(order, order.len()),
                    ) == t.file_hash),
                None => !ok,
            },
    {
        let Some(i) = self.position(transfer_id) else {
            return false;
        };
        let transfer = &self.transfers[i];
        let ghost model = transfer@;
        let mut keys: Vec<u32> = Vec::new();
        let mut k: usize = 0;
        while k < transfer.chunks.len()
            invariant
                k <= transfer.chunks.len(),
                transfer@ == model,
                keys@.len() == k,
                forall|j: int| 0 <= j < k ==> keys@[j] == model.chunks[j].chunk_index,
            decreases transfer.chunks.len() - k,
        {
            assert(model.chunks[k as int] == transfer.chunks[k as int]@);
            keys.push(transfer.chunks[k].chunk_index);
            k += 1;
        }
        assert(keys@ =~= model.chunk_indexes());
        let order = stable_order(&keys);
        let mut data: Vec<u8> = Vec::new();
        let mut n: usize = 0;
        assert(data@ =~= model.gathered(order@, 0));
        while n < order.len()
            invariant
                n <= order.len(),
                transfer@ == model,
                is_stable_order(model.chunk_indexes(), order@),
                data@ == model.gathered(order@, n as nat),
            decreases order.len() - n,
        {
            let place = order[n];
            assert(model.chunks[place as int] == transfer.chunks[place as int]@);
            let ghost sofar = data@;
            data.extend_from_slice(transfer.chunks[place].chunk_data.as_slice());
            assert(data@ =~= sofar + model.chunks[place as int].chunk_data);
            n += 1;
        }
        let digest = sha256(data.as_slice());
        let ok = same_bytes(digest.as_slice(), transfer.file_hash.as_slice());
        assert(is_stable_order(model.chunk_indexes(), order@) && ok == (sha256_digest(
            model.gathered(order@, order@.len()),
        ) == model.file_hash));
        ok
    }

    /// Forgets every transfer.
    pub fn clear_all_transfers(&mut self)
        requires
            old(self).wf(),
        ensures
            final(self).wf(),
            final(self)@.transfers.len() == 0,
            final(self)@.next_transfer_id == old(self)@.next_transfer_id,
    {
        self.transfers.clear();
        assert(self@.ids() =~= Seq::empty());
    }
}

} // verus!
