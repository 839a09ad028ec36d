//! The client's direct messages: one conversation for each partner, how
//! many of each are unread, and which one is open.

use vstd::prelude::*;
use crate::keyed::{index_of_unique, push_keeps_distinct};
use crate::protocol::messages::{StoredDM, StoredDMModel, UserId};
use crate::time::Timestamp;

verus! {

/// Where a message stamped `stamp` goes in the stamp-sorted `list`: in
/// front of the first entry with a later stamp.
pub open spec fn place_by_stamp(list: Seq<StoredDMModel>, stamp: Timestamp) -> nat
    decreases list.len(),
{
    if list.len() == 0 || list[0].timestamp.is_after(stamp) {
        0
    } else {
        1 + place_by_stamp(list.drop_first(), stamp)
    }
}

/// `list` with `dm` put in by stamp.
pub open spec fn inserted_by_stamp(
    list: Seq<StoredDMModel>,
    dm: StoredDMModel,
) -> Seq<StoredDMModel> {
    list.insert(place_by_stamp(list, dm.timestamp) as int, dm)
}

/// The stamps never go back along `list`.
pub open spec fn sorted_by_stamp(list: Seq<StoredDMModel>) -> bool {
    forall|i: int, j: int|
        0 <= i < j < list.len() ==> !(#[trigger] list[i]).timestamp.is_after(
            (#[trigger] list[j]).timestamp,
        )
}

/// The first `n` entries of `list` sorted by stamp, entries with the same
/// stamp in their own order.
pub open spec fn sorted_prefix(list: Seq<StoredDMModel>, n: nat) -> Seq<StoredDMModel>
    decreases n,
{
    if n == 0 || n > list.len() {
        Seq::empty()
    } else {
        inserted_by_stamp(sorted_prefix(list, (n - 1) as nat), list[n - 1])
    }
}

/// `list` sorted by stamp, entries with the same stamp in their own order.
pub open spec fn stable_sorted(list: Seq<StoredDMModel>) -> Seq<StoredDMModel> {
    sorted_prefix(list, list.len())
}

pub proof fn place_by_stamp_found(list: Seq<StoredDMModel>, stamp: Timestamp, k: int)
    requires
        0 <= k <= list.len(),
        forall|i: int| 0 <= i < k ==> !(#[trigger] list[i]).timestamp.is_after(stamp),
        k < list.len() ==> list[k].timestamp.is_after(stamp),
    ensures
        place_by_stamp(list, stamp) == k,
    decreases list.len(),
{
    if k > 0 {
        assert(!list[0].timestamp.is_after(stamp));
        let rest = list.drop_first();
        assert forall|i: int| 0 <= i < k - 1 implies !(#[trigger] rest[i]).timestamp.is_after(
            stamp,
        ) by {
            assert(rest[i] == list[i + 1]);
        }
        place_by_stamp_found(rest, stamp, k - 1);
    }
}

pub proof fn place_by_stamp_bounds(list: Seq<StoredDMModel>, stamp: Timestamp)
    ensures
        place_by_stamp(list, stamp) <= list.len(),
        forall|i: int|
            0 <= i < place_by_stamp(list, stamp) ==> !(#[trigger] list[i]).timestamp.is_after(
                stamp,
            ),
        place_by_stamp(list, stamp) < list.len() ==> list[place_by_stamp(
            list,
            stamp,
        ) as int].timestamp.is_after(stamp),
    decreases list.len(),
{
    if !(list.len() == 0 || list[0].timestamp.is_after(stamp)) {
        let rest = list.drop_first();
        place_by_stamp_bounds(rest, stamp);
        assert forall|i: int| 0 <= i < place_by_stamp(list, stamp) implies !(
        #[trigger] list[i]).timestamp.is_after(stamp) by {
            if i > 0 {
                assert(list[i] == rest[i - 1]);
            }
        }
        if place_by_stamp(list, stamp) < list.len() {
            assert(list[place_by_stamp(list, stamp) as int] == rest[place_by_stamp(
                rest,
                stamp,
            ) as int]);
        }
    }
}

/// Sorting keeps every message, each once, and puts the stamps in order.
pub proof fn sorted_prefix_is_sorted(list: Seq<StoredDMModel>, n: nat)
    requires
        n <= list.len(),
    ensures
        sorted_by_stamp(sorted_prefix(list, n)),
        sorted_prefix(list, n).len() == n,
        sorted_prefix(list, n).to_multiset() == list.subrange(0, n as int).to_multiset(),
    decreases n,
{
    if n == 0 {
        assert(list.subrange(0, 0) =~= Seq::empty());
    } else {
        let m = (n - 1) as nat;
        sorted_prefix_is_sorted(list, m);
        let earlier = sorted_prefix(list, m);
        let dm = list[n - 1];
        place_by_stamp_bounds(earlier, dm.timestamp);
        let k = place_by_stamp(earlier, dm.timestamp) as int;
        let after = sorted_prefix(list, n);
        vstd::seq_lib::to_multiset_insert(earlier, k, dm);
        assert(list.subrange(0, n as int) =~= list.subrange(0, m as int).push(dm));
        vstd::seq_lib::to_multiset_build(list.subrange(0, m as int), dm);
        assert forall|i: int, j: int| 0 <= i < j < after.len() implies !(
        #[trigger] after[i]).timestamp.is_after((#[trigger] after[j]).timestamp) by {
            if j == k {
                assert(after[i] == earlier[i]);
            } else if i == k {
                assert(after[j] == earlier[j - 1]);
                if j - 1 > k {
                    assert(!earlier[k].timestamp.is_after(earlier[j - 1].timestamp));
                }
            } else {
                let i2 = if i < k { i } else { i - 1 };
                let j2 = if j < k { j } else { j - 1 };
                assert(after[i] == earlier[i2] && after[j] == earlier[j2]);
            }
        }
    }
}

/// The ids of the messages in `list`.
pub open spec fn ids_of(list: Seq<StoredDMModel>) -> Seq<u64> {
    Seq::new(list.len(), |i: int| list[i].dm_id)
}

/// `list` with `dm` appended unless a message with its id is there.
pub open spec fn with_new(list: Seq<StoredDMModel>, dm: StoredDMModel) -> Seq<StoredDMModel> {
    if ids_of(list).contains(dm.dm_id) {
        list
    } else {
        list.push(dm)
    }
}

/// `list` with the first `n` of `more` appended, each unless a message
/// with its id is there.
pub open spec fn with_new_among(list: Seq<StoredDMModel>, more: Seq<StoredDMModel>, n: nat) -> Seq<
    StoredDMModel,
>
    decreases n,
{
    if n == 0 || n > more.len() {
        list
    } else {
        with_new(with_new_among(list, more, (n - 1) as nat), more[n - 1])
    }
}

/// Among the first `n` of `list`, the place of the first with the id
/// `dm_id`.
pub open spec fn first_with_id(list: Seq<StoredDMModel>, dm_id: u64, n: nat) -> Option<int>
    decreases n,
{
    if n == 0 || n > list.len() {
        None
    } else {
        match first_with_id(list, dm_id, (n - 1) as nat) {
            Some(i) => Some(i),
            None => if list[n - 1].dm_id == dm_id {
                Some(n - 1)
            } else {
                None
            },
        }
    }
}

pub proof fn first_with_id_is_in_range(list: Seq<StoredDMModel>, dm_id: u64, n: nat)
    ensures
        first_with_id(list, dm_id, n) matches Some(i) ==> 0 <= i < n && i < list.len()
            && list[i].dm_id == dm_id,
    decreases n,
{
    if n > 0 && n <= list.len() {
        first_with_id_is_in_range(list, dm_id, (n - 1) as nat);
    }
}

/// Puts `dm` into the stamp-sorted `list`.
fn insert_by_stamp(list: &mut Vec<StoredDM>, dm: StoredDM)
    ensures
        final(list).deep_view() == inserted_by_stamp(old(list).deep_view(), dm@),
{
    let ghost before = list.deep_view();
    let mut k: usize = 0;
    while k < list.len() && !list[k].timestamp.after(&dm.timestamp)
        invariant
            k <= list.len(),
            list.deep_view() == before,
            forall|i: int| 0 <= i < k ==> !(#[trigger] before[i]).timestamp.is_after(dm@.timestamp),
        decreases list.len() - k,
    {
        assert(before[k as int] == list[k as int]@);
        k += 1;
    }
    proof {
        if k < list.len() {
            assert(before[k as int] == list[k as int]@);
        }
        place_by_stamp_found(before, dm@.timestamp, k as int);
    }
    list.insert(k, dm);
    assert(list.deep_view() =~= before.insert(k as int, dm@));
}

/// Sorts `list` by stamp, messages with the same stamp in their own order.
pub fn sort_by_stamp(list: &Vec<StoredDM>) -> (sorted: Vec<StoredDM>)
    ensures
        sorted.deep_view() == stable_sorted(list.deep_view()),
        sorted_by_stamp(sorted.deep_view()),
        sorted.deep_view().to_multiset() == list.deep_view().to_multiset(),
{
    let mut sorted: Vec<StoredDM> = Vec::new();
    let mut i: usize = 0;
    assert(sorted.deep_view() =~= sorted_prefix(list.deep_view(), 0));
    while i < list.len()
        invariant
            i <= list.len(),
            sorted.deep_view() == sorted_prefix(list.deep_view(), i as nat),
        decreases list.len() - i,
    {
        assert(list.deep_view()[i as int] == list[i as int]@);
        insert_by_stamp(&mut sorted, list[i].clone());
        i += 1;
    }
    proof {
        sorted_prefix_is_sorted(list.deep_view(), list.len() as nat);
        assert(list.deep_view().subrange(0, list.len() as int) =~= list.deep_view());
    }
    sorted
}

/// Whether a message with the id `dm_id` is in `list`.
fn holds_id(list: &Vec<StoredDM>, dm_id: u64) -> (found: bool)
    ensures
        found == ids_of(list.deep_view()).contains(dm_id),
{
    let mut i: usize = 0;
    while i < list.len()
        invariant
            i <= list.len(),
            forall|k: int| 0 <= k < i ==> ids_of(list.deep_view())[k] != dm_id,
        decreases list.len() - i,
    {
        if list[i].dm_id == dm_id {
            assert(ids_of(list.deep_view())[i as int] == dm_id);
            return true;
        }
        i += 1;
    }
    false
}

/// The messages exchanged with one partner.
#[derive(Debug)]
pub struct DmConversation {
    pub user_id: UserId,
    pub messages: Vec<StoredDM>,
    /// How many messages came in while the conversation was not open.
    pub unread: usize,
}

/// The model of a [`DmConversation`].
pub struct DmConversationModel {
    pub user_id: UserId,
    pub messages: Seq<StoredDMModel>,
    pub unread: usize,
}

impl View for DmConversation {
    type V = DmConversationModel;

    open spec fn view(&self) -> DmConversationModel {
        DmConversationModel {
            user_id: self.user_id,
            messages: self.messages.deep_view(),
            unread: self.unread,
        }
    }
}

impl DeepView for DmConversation {
    type V = DmConversationModel;

    open spec fn deep_view(&self) -> DmConversationModel {
        self@
    }
}

/// The model of a [`DMHandler`].
pub struct DmHandlerModel {
    pub conversations: Seq<DmConversationModel>,
    pub active_conversation: Option<UserId>,
}

impl DmHandlerModel {
    pub open spec fn partners(self) -> Seq<UserId> {
        Seq::new(self.conversations.len(), |i: int| self.conversations[i].user_id)
    }

    pub open spec fn wf(self) -> bool {
        self.partners().no_duplicates()
    }

    pub open spec fn has(self, user_id: UserId) -> bool {
        self.partners().contains(user_id)
    }

    /// The conversation with `user_id`; an empty one where none is kept.
    pub open spec fn conversation(self, user_id: UserId) -> DmConversationModel {
        if self.has(user_id) {
            self.conversations[self.partners().index_of(user_id)]
        } else {
            DmConversationModel { user_id, messages: Seq::empty(), unread: 0 }
        }
    }

    pub open spec fn get_conversation(self, user_id: UserId) -> Option<Seq<StoredDMModel>> {
        if self.has(user_id) {
            Some(self.conversation(user_id).messages)
        } else {
            None
        }
    }

    pub open spec fn get_unread_count(self, user_id: UserId) -> usize {
        self.conversation(user_id).unread
    }

    /// The unread messages of the first `n` conversations together, held at
    /// the largest number where they exceed it.
    pub open spec fn unread_among(self, n: nat) -> usize
        decreases n,
    {
        if n == 0 || n > self.conversations.len() {
            0
        } else {
            let sum = self.unread_among((n - 1) as nat) + self.conversations[n - 1].unread;
            if sum > usize::MAX {
                usize::MAX
            } else {
                sum as usize
            }
        }
    }

    /// The conversations with that of `entry.user_id` set to `entry`.
    pub open spec fn with_conversation(self, entry: DmConversationModel) -> DmHandlerModel {
        DmHandlerModel {
            conversations: if self.has(entry.user_id) {
                self.conversations.update(self.partners().index_of(entry.user_id), entry)
            } else {
                self.conversations.push(entry)
            },
            ..self
        }
    }

    /// One more, held at the largest number.
    pub open spec fn one_more(count: usize) -> usize {
        if count == usize::MAX {
            count
        } else {
            (count + 1) as usize
        }
    }

    /// A message came in: it joins the conversation with its sender unless
    /// it is there already, and counts as unread unless that conversation is
    /// open.
    pub open spec fn add_dm(self, dm: StoredDMModel) -> DmHandlerModel {
        let before = self.conversation(dm.sender_id);
        self.with_conversation(
            DmConversationModel {
                messages: with_new(before.messages, dm),
                unread: if self.active_conversation == Some(dm.sender_id) {
                    before.unread
                } else {
                    Self::one_more(before.unread)
                },
                ..before
            },
        )
    }

    /// The conversation with `user_id` is opened: nothing of it is unread.
    pub open spec fn set_active_conversation(self, user_id: UserId) -> DmHandlerModel {
        (DmHandlerModel { active_conversation: Some(user_id), ..self }).with_conversation(
            DmConversationModel { unread: 0, ..self.conversation(user_id) },
        )
    }

    /// Older messages of the conversation with `user_id` came in: the new
    /// ones join it, and the conversation is put in order of the stamps.
    pub open spec fn add_history(
        self,
        user_id: UserId,
        messages: Seq<StoredDMModel>,
    ) -> DmHandlerModel {
        let before = self.conversation(user_id);
        self.with_conversation(
            DmConversationModel {
                messages: stable_sorted(with_new_among(before.messages, messages, messages.len())),
                ..before
            },
        )
    }

    /// Whether the conversation with `recipient_id` holds a message with the
    /// id `dm_id`.
    pub open spec fn holds(self, dm_id: u64, recipient_id: UserId) -> bool {
        self.has(recipient_id) && first_with_id(
            self.conversation(recipient_id).messages,
            dm_id,
            self.conversation(recipient_id).messages.len(),
        ) is Some
    }

    pub open spec fn mark_dm_as_read(self, dm_id: u64, recipient_id: UserId) -> DmHandlerModel {
        if self.holds(dm_id, recipient_id) {
            let before = self.conversation(recipient_id);
            let i = first_with_id(before.messages, dm_id, before.messages.len())->0;
            self.with_conversation(
                DmConversationModel {
                    messages: before.messages.update(
                        i,
                        StoredDMModel { is_read: true, ..before.messages[i] },
                    ),
                    ..before
                },
            )
        } else {
            self
        }
    }

    pub proof fn with_conversation_keeps_wf(self, entry: DmConversationModel)
        requires
            self.wf(),
        ensures
            self.with_conversation(entry).wf(),
            self.with_conversation(entry).conversation(entry.user_id) == entry,
            forall|other: UserId|
                other != entry.user_id ==> #[trigger] self.with_conversation(entry).conversation(
                    other,
                ) == self.conversation(other),
    {
        let after = self.with_conversation(entry);
        if self.has(entry.user_id) {
            assert(after.partners() =~= self.partners());
        } else {
            assert(after.partners() =~= self.partners().push(entry.user_id));
            push_keeps_distinct(self.partners(), entry.user_id);
        }
        assert forall|other: UserId| other != entry.user_id implies #[trigger] after.conversation(
            other,
        ) == self.conversation(other) by {
            if self.has(other) {
                assert(self.partners().contains(other));
            }
        }
    }
}

/// The client's direct messages.
#[derive(Debug)]
pub struct DMHandler {
    conversations: Vec<DmConversation>,
    active_conversation: Option<UserId>,
}

impl View for DMHandler {
    type V = DmHandlerModel;

    closed spec fn view(&self) -> DmHandlerModel {
        DmHandlerModel {
            conversations: self.conversations.deep_view(),
            active_conversation: self.active_conversation,
        }
    }
}

impl DMHandler {
    pub open spec fn wf(&self) -> bool {
        self@.wf()
    }

    pub fn new() -> (handler: Self)
        ensures
            handler.wf(),
            handler@.conversations.len() == 0,
            handler@.active_conversation is None,
    {
        let handler = Self { conversations: Vec::new(), active_conversation: None };
        assert(handler@.partners() =~= Seq::empty());
        handler
    }

    fn position(&self, user_id: UserId) -> (r: Option<usize>)
        requires
            self.wf(),
        ensures
            match r {
                Some(i) => self@.has(user_id) && self@.partners().index_of(user_id) == i && i
                    < self.conversations.len() && self.conversations[i as int]@
                    == self@.conversation(user_id),
                None => !self@.has(user_id),
            },
    {
        let mut i: usize = 0;
        while i < self.conversations.len()
            invariant
                self.wf(),
                i <= self.conversations.len(),
                forall|k: int| 0 <= k < i ==> self@.partners()[k] != user_id,
            decreases self.conversations.len() - i,
        {
            if self.conversations[i].user_id == user_id {
                proof {
                    index_of_unique(self@.partners(), i as int);
                }
                return Some(i);
            }
            i += 1;
        }
        None
    }

    /// The place of the conversation with `user_id`, made first where there
    /// is none.
    fn slot(&mut self, user_id: UserId) -> (i: usize)
        requires
            old(self).wf(),
        ensures
            final(self).wf(),
            i < final(self).conversations.len(),
            final(self)@ == old(self)@.with_conversation(old(self)@.conversation(user_id)),
            final(self).conversations[i as int]@ == old(self)@.conversation(user_id),
            final(self)@.has(user_id),
            final(self)@.partners().index_of(user_id) == i,
            final(self)@.active_conversation == old(self)@.active_conversation,
            old(self)@.has(user_id) ==> final(self)@.conversations == old(self)@.conversations
                && i == old(self)@.partners().index_of(user_id),
            !old(self)@.has(user_id) ==> final(self)@.conversations == old(self)@.conversations.push(
                old(self)@.conversation(user_id),
            ) && i == old(self)@.conversations.len(),
    {
        proof {
            old(self)@.with_conversation_keeps_wf(old(self)@.conversation(user_id));
        }
        match self.position(user_id) {
            Some(i) => {
                assert(self@.conversations =~= old(self)@.with_conversation(
                    old(self)@.conversation(user_id),
                ).conversations);
                i
            },
            None => {
                let entry = DmConversation { user_id, messages: Vec::new(), unread: 0 };
                assert(entry@.messages =~= Seq::empty());
                self.conversations.push(entry);
                proof {
                    assert(self@.conversations =~= old(self)@.conversations.push(entry@));
                    assert(self@.partners() =~= old(self)@.partners().push(user_id));
                    push_keeps_distinct(old(self)@.partners(), user_id);
                }
                self.conversations.len() - 1
            },
        }
    }

    /// Takes a message that came in.
    pub fn add_dm(&mut self, dm: StoredDM)
        requires
            old(self).wf(),
        ensures
            final(self).wf(),
            final(self)@ == old(self)@.add_dm(dm@),
    {
        let sender_id = dm.sender_id;
        let ghost before = old(self)@.conversation(sender_id);
        let ghost model = dm@;
        let i = self.slot(sender_id);
        let ghost mid = self@;
        if !holds_id(&self.conversations[i].messages, dm.dm_id) {
            self.conversations[i].messages.push(dm);
        }
        let open = match self.active_conversation {
            Some(active) => active == sender_id,
            None => false,
        };
        if !open && self.conversations[i].unread < usize::MAX {
            self.conversations[i].unread = self.conversations[i].unread + 1;
        }
        proof {
            let grown = DmConversationModel {
                messages: with_new(before.messages, model),
                unread: if old(self)@.active_conversation == Some(sender_id) {
                    before.unread
                } else {
                    DmHandlerModel::one_more(before.unread)
                },
                ..before
            };
            assert(self.conversations[i as int]@.messages =~= grown.messages);
            assert(self.conversations[i as int]@ == grown);
            assert(self@.conversations =~= mid.conversations.update(i as int, grown));
            mid.with_conversation_keeps_wf(grown);
            old(self)@.with_conversation_keeps_wf(before);
            old(self)@.with_conversation_keeps_wf(grown);
            assert(self@.conversations =~= old(self)@.add_dm(model).conversations);
        }
    }

    /// Opens the conversation with `user_id`.
    pub fn set_active_conversation(&mut self, user_id: UserId)
        requires
            old(self).wf(),
        ensures
            final(self).wf(),
            final(self)@ == old(self)@.set_active_conversation(user_id),
    {
        let ghost before = old(self)@.conversation(user_id);
        self.active_conversation = Some(user_id);
        let ghost opened = self@;
        let i = self.slot(user_id);
        let ghost mid = self@;
        self.conversations[i].unread = 0;
        proof {
            let read = DmConversationModel { unread: 0, ..before };
            assert(opened.conversation(user_id) == before);
            assert(self.conversations[i as int]@ == read);
            assert(self@.conversations =~= mid.conversations.update(i as int, read));
            opened.with_conversation_keeps_wf(before);
            opened.with_conversation_keeps_wf(read);
            assert(self@.conversations =~= old(self)@.set_active_conversation(
                user_id,
            ).conversations);
        }
    }

    /// Closes the open conversation.
    pub fn clear_active_conversation(&mut self)
        ensures
            final(self)@ == (DmHandlerModel { active_conversation: None, ..old(self)@ }),
    {
        self.active_conversation = None;
    }

    /// The conversations, in the order they began.
    pub fn get_conversations(&self) -> (conversations: &Vec<DmConversation>)
        ensures
            conversations.deep_view() == self@.conversations,
    {
        &self.conversations
    }

    pub fn get_unread_count(&self, user_id: UserId) -> (count: usize)
        requires
            self.wf(),
        ensures
            count == self@.get_unread_count(user_id),
    {
        match self.position(user_id) {
            Some(i) => self.conversations[i].unread,
            None => 0,
        }
    }

    /// The unread messages of all conversations together.
    pub fn get_total_unread_count(&self) -> (count: usize)
        ensures
            count == self@.unread_among(self@.conversations.len()),
    {
        let mut count: usize = 0;
        let mut i: usize = 0;
        while i < self.conversations.len()
            invariant
                i <= self.conversations.len(),
                count == self@.unread_among(i as nat),
            decreases self.conversations.len() - i,
        {
            let unread = self.conversations[i].unread;
            assert(self@.conversations[i as int].unread == unread);
            count = if count > usize::MAX - unread {
                usize::MAX
            } else {
                count + unread
            };
            i += 1;
        }
        count
    }

    pub fn get_conversation(&self, user_id: UserId) -> (messages: Option<&Vec<StoredDM>>)
        requires
            self.wf(),
        ensures
            messages.deep_view() == self@.get_conversation(user_id),
    {
        match self.position(user_id) {
            Some(i) => Some(&self.conversations[i].messages),
            None => None,
        }
    }

    /// Takes older messages of the conversation with `user_id`.
    pub fn add_history(&mut self, user_id: UserId, messages: Vec<StoredDM>)
        requires
            old(self).wf(),
        ensures
            final(self).wf(),
            final(self)@ == old(self)@.add_history(user_id, messages.deep_view()),
    {
        let ghost before = old(self)@.conversation(user_id);
        let i = self.slot(user_id);
        let ghost mid = self@;
        let mut k: usize = 0;
        while k < messages.len()
            invariant
                k <= messages.len(),
                i < self.conversations.len(),
                self.conversations.len() == mid.conversations.len(),
                forall|c: int|
                    0 <= c < self.conversations.len() && c != i ==> (
                    #[trigger] self.conversations[c])@ == mid.conversations[c],
                self.conversations[i as int].user_id == before.user_id,
                self.conversations[i as int].unread == before.unread,
                self.conversations[i as int].messages.deep_view() == with_new_among(
                    before.messages,
                    messages.deep_view(),
                    k as nat,
                ),
                self.active_conversation == mid.active_conversation,
            decreases messages.len() - k,
        {
            assert(messages.deep_view()[k as int] == messages[k as int]@);
            if !holds_id(&self.conversations[i].messages, messages[k].dm_id) {
                let ghost sofar = self.conversations[i as int].messages.deep_view();
                self.conversations[i].messages.push(messages[k].clone());
                assert(self.conversations[i as int].messages.deep_view() =~= sofar.push(
                    messages[k as int]@,
                ));
            }
            k += 1;
        }
        let sorted = sort_by_stamp(&self.conversations[i].messages);
        self.conversations[i].messages = sorted;
        proof {
            let grown = DmConversationModel {
                messages: stable_sorted(
                    with_new_among(before.messages, messages.deep_view(), messages.len() as nat),
                ),
                ..before
            };
            assert(self.conversations[i as int]@ == grown);
            assert(self@.conversations =~= mid.conversations.update(i as int, grown));
            old(self)@.with_conversation_keeps_wf(before);
            old(self)@.with_conversation_keeps_wf(grown);
            mid.with_conversation_keeps_wf(grown);
            assert(self@.conversations =~= old(self)@.add_history(
                user_id,
                messages.deep_view(),
            ).conversations);
        }
    }

    /// Marks the message with the id `dm_id` in the conversation with
    /// `recipient_id` as read; says whether it is there.
    pub fn mark_dm_as_read(&mut self, dm_id: u64, recipient_id: UserId) -> (marked: bool)
        requires
            old(self).wf(),
        ensures
            final(self).wf(),
            marked == old(self)@.holds(dm_id, recipient_id),
            final(self)@ == old(self)@.mark_dm_as_read(dm_id, recipient_id),
    {
        let Some(c) = self.position(recipient_id) else {
            return false;
        };
        let ghost before = old(self)@.conversation(recipient_id);
        let mut place: Option<usize> = None;
        let mut i: usize = 0;
        while i < self.conversations[c].messages.len()
            invariant
                c < self.conversations.len(),
                self.conversations == old(self).conversations,
                self.conversations[c as int]@ == before,
                i <= self.conversations[c as int].messages.len(),
                match place {
                    Some(p) => first_with_id(before.messages, dm_id, i as nat) == Some(p as int),
                    None => first_with_id(before.messages, dm_id, i as nat) is None,
                },
            decreases self.conversations[c as int].messages.len() - i,
        {
            assert(before.messages[i as int] == self.conversations[c as int].messages[i as int]@);
            if place.is_none() && self.conversations[c].messages[i].dm_id == dm_id {
                place = Some(i);
            }
            i += 1;
        }
        match place {
            Some(p) => {
                proof {
                    first_with_id_is_in_range(before.messages, dm_id, before.messages.len());
                }
                self.conversations[c].messages[p].is_read = true;
                proof {
                    let read = DmConversationModel {
                        messages: before.messages.update(
                            p as int,
                            StoredDMModel { is_read: true, ..before.messages[p as int] },
                        ),
                        ..before
                    };
                    assert(self.conversations[c as int]@.messages =~= read.messages);
                    assert(self.conversations[c as int]@ == read);
                    old(self)@.with_conversation_keeps_wf(read);
                    assert(self@.conversations =~= old(self)@.conversations.update(c as int, read));
                    assert(before.user_id == recipient_id) by {
                        assert(old(self)@.partners()[c as int] == recipient_id);
                    }
                }
                true
            },
            None => false,
        }
    }
}

} // verus!
