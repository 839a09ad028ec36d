//! Direct messages between two users: the relay keeps the newest 100 of
//! each pair, opaque as they came.

use vstd::prelude::*;
use crate::keyed::{index_of_unique, push_keeps_distinct};
use crate::protocol::messages::{StoredDM, StoredDMModel, UserId};
use crate::time::Timestamp;

verus! {

/// The most direct messages kept for one pair of users.
pub const MAX_DM_PER_PAIR: usize = 100;

/// One direct message as the relay keeps it.
#[derive(Debug)]
pub struct DirectMessage {
    pub id: u64,
    pub sender_id: UserId,
    pub recipient_id: UserId,
    pub content: Vec<u8>,
    pub nonce: Vec<u8>,
    pub timestamp: Timestamp,
    pub is_read: bool,
    /// Whole seconds since the epoch at which the message was stored.
    pub created_at: u64,
}

/// The model of a [`DirectMessage`].
pub struct DirectMessageModel {
    pub id: u64,
    pub sender_id: UserId,
    pub recipient_id: UserId,
    pub content: Seq<u8>,
    pub nonce: Seq<u8>,
    pub timestamp: Timestamp,
    pub is_read: bool,
    pub created_at: u64,
}

impl View for DirectMessage {
    type V = DirectMessageModel;

    open spec fn view(&self) -> DirectMessageModel {
        DirectMessageModel {
            id: self.id,
            sender_id: self.sender_id,
            recipient_id: self.recipient_id,
            content: self.content@,
            nonce: self.nonce@,
            timestamp: self.timestamp,
            is_read: self.is_read,
            created_at: self.created_at,
        }
    }
}

impl DeepView for DirectMessage {
    type V = DirectMessageModel;

    open spec fn deep_view(&self) -> DirectMessageModel {
        self@
    }
}

impl Clone for DirectMessage {
    fn clone(&self) -> (copy: Self)
        ensures
            copy@ == self@,
    {
        DirectMessage {
            id: self.id,
            sender_id: self.sender_id,
            recipient_id: self.recipient_id,
            content: self.content.clone(),
            nonce: self.nonce.clone(),
            timestamp: self.timestamp,
            is_read: self.is_read,
            created_at: self.created_at,
        }
    }
}

impl DirectMessageModel {
    /// The message as it is handed to a client.
    pub open spec fn stored(self) -> StoredDMModel {
        StoredDMModel {
            dm_id: self.id,
            sender_id: self.sender_id,
            recipient_id: self.recipient_id,
            content: self.content,
            nonce: self.nonce,
            timestamp: self.timestamp,
            is_read: self.is_read,
        }
    }

    /// `user_id` sent or received the message.
    pub open spec fn involves(self, user_id: UserId) -> bool {
        self.sender_id == user_id || self.recipient_id == user_id
    }

    /// The message waits for `user_id` to read it.
    pub open spec fn waits_for(self, user_id: UserId) -> bool {
        self.recipient_id == user_id && !self.is_read
    }
}

impl DirectMessage {
    /// The message as it is handed to a client.
    pub fn stored(&self) -> (dm: StoredDM)
        ensures
            dm@ == self@.stored(),
    {
        StoredDM {
            dm_id: self.id,
            sender_id: self.sender_id,
            recipient_id: self.recipient_id,
            content: self.content.clone(),
            nonce: self.nonce.clone(),
            timestamp: self.timestamp,
            is_read: self.is_read,
        }
    }
}

/// The pair of `a` and `b`, smaller id first.
pub open spec fn pair_of(a: UserId, b: UserId) -> (UserId, UserId) {
    if a < b {
        (a, b)
    } else {
        (b, a)
    }
}

/// The messages between two users.
#[derive(Debug)]
pub struct Conversation {
    pub pair: (UserId, UserId),
    pub messages: Vec<DirectMessage>,
}

/// The model of a [`Conversation`].
pub struct ConversationModel {
    pub pair: (UserId, UserId),
    pub messages: Seq<DirectMessageModel>,
}

impl View for Conversation {
    type V = ConversationModel;

    open spec fn view(&self) -> ConversationModel {
        ConversationModel { pair: self.pair, messages: self.messages.deep_view() }
    }
}

impl DeepView for Conversation {
    type V = ConversationModel;

    open spec fn deep_view(&self) -> ConversationModel {
        self@
    }
}

impl ConversationModel {
    /// The conversation after `message` was appended: the newest 100.
    pub open spec fn appended(self, message: DirectMessageModel) -> ConversationModel {
        let all = self.messages.push(message);
        ConversationModel {
            messages: if all.len() > MAX_DM_PER_PAIR {
                all.drop_first()
            } else {
                all
            },
            ..self
        }
    }

    /// Among the newest `n` messages, those that involve `user_id`, newest
    /// first.
    pub open spec fn involving_among(self, user_id: UserId, n: nat) -> Seq<StoredDMModel>
        decreases n,
    {
        if n == 0 || n > self.messages.len() {
            Seq::empty()
        } else {
            let newer = self.involving_among(user_id, (n - 1) as nat);
            let m = self.messages[self.messages.len() - n];
            if m.involves(user_id) {
                newer.push(m.stored())
            } else {
                newer
            }
        }
    }

    /// The newest `limit` messages that involve `user_id`, newest first.
    pub open spec fn history_for(self, user_id: UserId, limit: nat) -> Seq<StoredDMModel> {
        let all = self.involving_among(user_id, self.messages.len());
        if limit < all.len() {
            all.subrange(0, limit as int)
        } else {
            all
        }
    }

    /// Among the first `n` messages, those that wait for `user_id`.
    pub open spec fn waiting_among(self, user_id: UserId, n: nat) -> Seq<StoredDMModel>
        decreases n,
    {
        if n == 0 || n > self.messages.len() {
            Seq::empty()
        } else {
            let earlier = self.waiting_among(user_id, (n - 1) as nat);
            let m = self.messages[n - 1];
            if m.waits_for(user_id) {
                earlier.push(m.stored())
            } else {
                earlier
            }
        }
    }

    /// Among the first `n` messages, the place of the first one with the id
    /// `dm_id` that is addressed to `recipient_id`.
    pub open spec fn addressed_among(self, dm_id: u64, recipient_id: UserId, n: nat) -> Option<int>
        decreases n,
    {
        if n == 0 || n > self.messages.len() {
            None
        } else {
            match self.addressed_among(dm_id, recipient_id, (n - 1) as nat) {
                Some(i) => Some(i),
                None => if self.messages[n - 1].id == dm_id && self.messages[n - 1].recipient_id
                    == recipient_id {
                    Some(n - 1)
                } else {
                    None
                },
            }
        }
    }

    pub open spec fn addressed(self, dm_id: u64, recipient_id: UserId) -> Option<int> {
        self.addressed_among(dm_id, recipient_id, self.messages.len())
    }

    pub proof fn addressed_is_in_range(self, dm_id: u64, recipient_id: UserId, n: nat)
        ensures
            self.addressed_among(dm_id, recipient_id, n) matches Some(i) ==> 0 <= i < n && i
                < self.messages.len(),
        decreases n,
    {
        if n > 0 && n <= self.messages.len() {
            self.addressed_is_in_range(dm_id, recipient_id, (n - 1) as nat);
        }
    }
}

/// The model of a [`DMManager`].
pub struct DmModel {
    pub conversations: Seq<ConversationModel>,
    pub next_dm_id: u64,
}

impl DmModel {
    pub open spec fn pairs(self) -> Seq<(UserId, UserId)> {
        Seq::new(self.conversations.len(), |i: int| self.conversations[i].pair)
    }

    /// One conversation for each pair, none longer than 100 messages.
    pub open spec fn wf(self) -> bool {
        &&& self.pairs().no_duplicates()
        &&& forall|i: int|
            0 <= i < self.conversations.len() ==> (#[trigger] self.conversations[i]).messages.len()
                <= MAX_DM_PER_PAIR
    }

    pub open spec fn has(self, pair: (UserId, UserId)) -> bool {
        self.pairs().contains(pair)
    }

    /// The conversation of `pair`; an empty one where none is kept.
    pub open spec fn conversation(self, pair: (UserId, UserId)) -> ConversationModel {
        if self.has(pair) {
            self.conversations[self.pairs().index_of(pair)]
        } else {
            ConversationModel { pair, messages: Seq::empty() }
        }
    }

    /// The message that `store_dm` keeps.
    pub open spec fn new_message(
        self,
        sender_id: UserId,
        recipient_id: UserId,
        content: Seq<u8>,
        nonce: Seq<u8>,
        now: Timestamp,
    ) -> DirectMessageModel {
        DirectMessageModel {
            id: self.next_dm_id,
            sender_id,
            recipient_id,
            content,
            nonce,
            timestamp: now,
            is_read: false,
            created_at: if now.secs < 0 {
                0
            } else {
                now.secs as u64
            },
        }
    }

    pub open spec fn store_dm(
        self,
        sender_id: UserId,
        recipient_id: UserId,
        content: Seq<u8>,
        nonce: Seq<u8>,
        now: Timestamp,
    ) -> DmModel {
        let pair = pair_of(sender_id, recipient_id);
        let grown = self.conversation(pair).appended(
            self.new_message(sender_id, recipient_id, content, nonce, now),
        );
        DmModel {
            conversations: if self.has(pair) {
                self.conversations.update(self.pairs().index_of(pair), grown)
            } else {
                self.conversations.push(grown)
            },
            next_dm_id: (self.next_dm_id + 1) as u64,
        }
    }

    pub open spec fn get_history_for_user(
        self,
        user_id: UserId,
        other_user_id: UserId,
        limit: nat,
    ) -> Seq<
        StoredDMModel,
    > {
        self.conversation(pair_of(user_id, other_user_id)).history_for(user_id, limit)
    }

    /// Among the first `n` conversations, the messages that wait for
    /// `user_id`.
    pub open spec fn undelivered_among(self, user_id: UserId, n: nat) -> Seq<StoredDMModel>
        decreases n,
    {
        if n == 0 || n > self.conversations.len() {
            Seq::empty()
        } else {
            self.undelivered_among(user_id, (n - 1) as nat) + self.conversations[n
                - 1].waiting_among(user_id, self.conversations[n - 1].messages.len())
        }
    }

    pub open spec fn get_undelivered_dms(self, user_id: UserId) -> Seq<StoredDMModel> {
        self.undelivered_among(user_id, self.conversations.len())
    }

    /// Among the first `n` conversations, the first that holds a message
    /// with the id `dm_id` addressed to `recipient_id`.
    pub open spec fn holder_among(self, dm_id: u64, recipient_id: UserId, n: nat) -> Option<int>
        decreases n,
    {
        if n == 0 || n > self.conversations.len() {
            None
        } else {
            match self.holder_among(dm_id, recipient_id, (n - 1) as nat) {
                Some(c) => Some(c),
                None => if self.conversations[n - 1].addressed(dm_id, recipient_id) is Some {
                    Some(n - 1)
                } else {
                    None
                },
            }
        }
    }

    pub open spec fn holder(self, dm_id: u64, recipient_id: UserId) -> Option<int> {
        self.holder_among(dm_id, recipient_id, self.conversations.len())
    }

    pub proof fn holder_is_in_range(self, dm_id: u64, recipient_id: UserId, n: nat)
        ensures
            self.holder_among(dm_id, recipient_id, n) matches Some(c) ==> 0 <= c < n && c
                < self.conversations.len() && self.conversations[c].addressed(dm_id, recipient_id)
                is Some,
        decreases n,
    {
        if n > 0 && n <= self.conversations.len() {
            self.holder_is_in_range(dm_id, recipient_id, (n - 1) as nat);
        }
    }

    /// The messages after the one with the id `dm_id` addressed to
    /// `recipient_id` was marked as read.
    pub open spec fn mark_dm_as_read(self, dm_id: u64, recipient_id: UserId) -> DmModel {
        match self.holder(dm_id, recipient_id) {
            Some(c) => {
                let conversation = self.conversations[c];
                let i = conversation.addressed(dm_id, recipient_id)->0;
                DmModel {
                    conversations: self.conversations.update(
                        c,
                        ConversationModel {
                            messages: conversation.messages.update(
                                i,
                                DirectMessageModel { is_read: true, ..conversation.messages[i] },
                            ),
                            ..conversation
                        },
                    ),
                    ..self
                }
            },
            None => self,
        }
    }
}

/// The store of direct messages.
#[derive(Debug)]
pub struct DMManager {
    conversations: Vec<Conversation>,
    next_dm_id: u64,
}

impl View for DMManager {
    type V = DmModel;

    closed spec fn view(&self) -> DmModel {
        DmModel { conversations: self.conversations.deep_view(), next_dm_id: self.next_dm_id }
    }
}

impl DMManager {
    pub open spec fn wf(&self) -> bool {
        self@.wf()
    }

    /// No messages yet; the first one gets id 1.
    pub fn new() -> (m: Self)
        ensures
            m.wf(),
            m@.conversations.len() == 0,
            m@.next_dm_id == 1,
    {
        let m = Self { conversations: Vec::new(), next_dm_id: 1 };
        assert(m@.pairs() =~= Seq::empty());
        m
    }

    /// Whether another message can still be numbered.
    pub fn has_room(&self) -> (r: bool)
        ensures
            r == (self@.next_dm_id < u64::MAX),
    {
        self.next_dm_id < u64::MAX
    }

    fn position(&self, pair: (UserId, UserId)) -> (r: Option<usize>)
        requires
            self.wf(),
        ensures
            match r {
                Some(i) => self@.has(pair) && self@.pairs().index_of(pair) == i && i
                    < self.conversations.len(),
                None => !self@.has(pair),
            },
    {
        let mut i: usize = 0;
        while i < self.conversations.len()
            invariant
                self.wf(),
                i <= self.conversations.len(),
                forall|k: int| 0 <= k < i ==> self@.pairs()[k] != pair,
            decreases self.conversations.len() - i,
        {
            if self.conversations[i].pair.0 == pair.0 && self.conversations[i].pair.1 == pair.1 {
                proof {
                    assert(self@.pairs()[i as int] == pair);
                    index_of_unique(self@.pairs(), i as int);
                }
                return Some(i);
            }
            i += 1;
        }
        None
    }

    /// Keeps a message from `sender_id` to `recipient_id` under the next id
    /// and the stamp `now`; of more than 100 messages of the pair the oldest
    /// is dropped.
    pub fn store_dm_at(
        &mut self,
        sender_id: UserId,
        recipient_id: UserId,
        content: Vec<u8>,
        nonce: Vec<u8>,
        now: Timestamp,
    ) -> (r: (u64, Timestamp))
        requires
            old(self).wf(),
            old(self)@.next_dm_id < u64::MAX,
        ensures
            final(self).wf(),
            r == (old(self)@.next_dm_id, now),
            final(self)@ == old(self)@.store_dm(sender_id, recipient_id, content@, nonce@, now),
    {
        let id: u64 = self.next_dm_id;
        self.next_dm_id = id + 1;
        let message = DirectMessage {
            id,
            sender_id,
            recipient_id,
            content,
            nonce,
            timestamp: now,
            is_read: false,
            created_at: if now.secs < 0 {
                0
            } else {
                now.secs as u64
            },
        };
        let pair = if sender_id < recipient_id {
            (sender_id, recipient_id)
        } else {
            (recipient_id, sender_id)
        };
        let ghost before = old(self)@.conversation(pair);
        let ghost grown = before.appended(message@);
        match self.position(pair) {
            Some(c) => {
                proof {
                    assert(old(self)@.pairs()[c as int] == pair);
                }
                self.conversations[c].messages.push(message);
                assert(self.conversations[c as int]@.messages =~= before.messages.push(
                    message@,
                ));
                if self.conversations[c].messages.len() > MAX_DM_PER_PAIR {
                    self.conversations[c].messages.remove(0);
                }
                proof {
                    assert(self.conversations[c as int]@.messages =~= grown.messages);
                    assert(self.conversations[c as int]@ == grown);
                    assert(self@.conversations =~= old(self)@.conversations.update(
                        c as int,
                        grown,
                    ));
                    assert(self@.pairs() =~= old(self)@.pairs());
                }
            },
            None => {
                let mut messages: Vec<DirectMessage> = Vec::new();
                messages.push(message);
                let conversation = Conversation { pair, messages };
                proof {
                    assert(conversation@.messages =~= grown.messages);
                    push_keeps_distinct(old(self)@.pairs(), pair);
                }
                self.conversations.push(conversation);
                proof {
                    assert(self@.conversations =~= old(self)@.conversations.push(grown));
                    assert(self@.pairs() =~= old(self)@.pairs().push(pair));
                }
            },
        }
        (id, now)
    }

    /// Keeps a message from `sender_id` to `recipient_id` at the present
    /// moment and returns its id and stamp.
    pub fn store_dm(
        &mut self,
        sender_id: UserId,
        recipient_id: UserId,
        content: Vec<u8>,
        nonce: Vec<u8>,
    ) -> (r: (u64, Timestamp))
        requires
            old(self).wf(),
            old(self)@.next_dm_id < u64::MAX,
        ensures
            final(self).wf(),
            r.0 == old(self)@.next_dm_id,
            final(self)@ == old(self)@.store_dm(sender_id, recipient_id, content@, nonce@, r.1),
    {
        let now = Timestamp::now();
        self.store_dm_at(sender_id, recipient_id, content, nonce, now)
    }

    /// The newest `limit` messages between `user_id` and `other_user_id`,
    /// newest first.
    pub fn get_history_for_user(
        &self,
        user_id: UserId,
        other_user_id: UserId,
        limit: u32,
    ) -> (history: Vec<StoredDM>)
        requires
            self.wf(),
        ensures
            history.deep_view() == self@.get_history_for_user(
                user_id,
                other_user_id,
                limit as nat,
            ),
    {
        let pair = if user_id < other_user_id {
            (user_id, other_user_id)
        } else {
            (other_user_id, user_id)
        };
        let mut history: Vec<StoredDM> = Vec::new();
        let ghost model = self@.conversation(pair);
        match self.position(pair) {
            Some(c) => {
                let messages = &self.conversations[c].messages;
                let mut n: usize = 0;
                assert(history.deep_view() =~= model.involving_among(user_id, 0));
                while n < messages.len() && history.len() < limit as usize
                    invariant
                        n <= messages.len(),
                        messages.deep_view() == model.messages,
                        history.len() <= limit,
                        history.deep_view() == model.involving_among(user_id, n as nat),
                    decreases messages.len() - n,
                {
                    let m = &messages[messages.len() - 1 - n];
                    assert(model.messages[messages.len() - 1 - n] == m@);
                    if m.sender_id == user_id || m.recipient_id == user_id {
                        let dm = m.stored();
                        history.push(dm);
                        assert(history.deep_view() =~= model.involving_among(
                            user_id,
                            n as nat,
                        ).push(dm@));
                    }
                    n += 1;
                }
                proof {
                    model.involving_grows(user_id, n as nat, messages.len() as nat);
                    let all = model.involving_among(user_id, messages.len() as nat);
                    if n < messages.len() {
                        assert(history.deep_view().len() == limit);
                        assert(history.deep_view() =~= all.subrange(0, limit as int));
                    }
                }
            },
            None => {
                assert(history.deep_view() =~= model.history_for(user_id, limit as nat));
            },
        }
        history
    }

    /// The messages that wait for `user_id` to read them.
    pub fn get_undelivered_dms(&self, user_id: UserId) -> (waiting: Vec<StoredDM>)
        ensures
            waiting.deep_view() == self@.get_undelivered_dms(user_id),
    {
        let mut waiting: Vec<StoredDM> = Vec::new();
        let mut c: usize = 0;
        assert(waiting.deep_view() =~= self@.undelivered_among(user_id, 0));
        while c < self.conversations.len()
            invariant
                c <= self.conversations.len(),
                waiting.deep_view() == self@.undelivered_among(user_id, c as nat),
            decreases self.conversations.len() - c,
        {
            let messages = &self.conversations[c].messages;
            let ghost model = self@.conversations[c as int];
            let ghost before = waiting.deep_view();
            let mut i: usize = 0;
            assert(waiting.deep_view() =~= before + model.waiting_among(user_id, 0));
            while i < messages.len()
                invariant
                    i <= messages.len(),
                    messages.deep_view() == model.messages,
                    waiting.deep_view() == before + model.waiting_among(user_id, i as nat),
                decreases messages.len() - i,
            {
                assert(model.messages[i as int] == messages[i as int]@);
                if messages[i].recipient_id == user_id && !messages[i].is_read {
                    let dm = messages[i].stored();
                    let ghost sofar = waiting.deep_view();
                    waiting.push(dm);
                    assert(waiting.deep_view() =~= sofar.push(dm@));
                    assert(sofar.push(dm@) =~= before + model.waiting_among(
                        user_id,
                        i as nat,
                    ).push(dm@));
                }
                i += 1;
            }
            c += 1;
        }
        waiting
    }

    /// Marks the message with the id `dm_id` as read if it is addressed to
    /// `recipient_id`; says whether there was such a message.
    pub fn mark_dm_as_read(&mut self, dm_id: u64, recipient_id: UserId) -> (marked: bool)
        requires
            old(self).wf(),
        ensures
            final(self).wf(),
            marked == old(self)@.holder(dm_id, recipient_id) is Some,
            final(self)@ == old(self)@.mark_dm_as_read(dm_id, recipient_id),
    {
        let mut found: Option<(usize, usize)> = None;
        let mut c: usize = 0;
        while c < self.conversations.len()
            invariant
                c <= self.conversations.len(),
                self.conversations == old(self).conversations,
                match found {
                    Some((fc, fi)) => self@.holder_among(dm_id, recipient_id, c as nat) == Some(
                        fc as int,
                    ) && self@.conversations[fc as int].addressed(dm_id, recipient_id) == Some(
                        fi as int,
                    ),
                    None => self@.holder_among(dm_id, recipient_id, c as nat) is None,
                },
            decreases self.conversations.len() - c,
        {
            if found.is_none() {
                let messages = &self.conversations[c].messages;
                let ghost model = self@.conversations[c as int];
                let mut place: Option<usize> = None;
                let mut i: usize = 0;
                while i < messages.len()
                    invariant
                        i <= messages.len(),
                        messages.deep_view() == model.messages,
                        match place {
                            Some(p) => model.addressed_among(dm_id, recipient_id, i as nat)
                                == Some(p as int),
                            None => model.addressed_among(dm_id, recipient_id, i as nat) is None,
                        },
                    decreases messages.len() - i,
                {
                    assert(model.messages[i as int] == messages[i as int]@);
                    if place.is_none() && messages[i].id == dm_id && messages[i].recipient_id
                        == recipient_id {
                        place = Some(i);
                    }
                    i += 1;
                }
                if let Some(p) = place {
                    found = Some((c, p));
                }
            }
            c += 1;
        }
        match found {
            Some((c, i)) => {
                proof {
                    self@.holder_is_in_range(dm_id, recipient_id, self.conversations.len() as nat);
                    self@.conversations[c as int].addressed_is_in_range(
                        dm_id,
                        recipient_id,
                        self@.conversations[c as int].messages.len(),
                    );
                }
                self.conversations[c].messages[i].is_read = true;
                proof {
                    let conversation = old(self)@.conversations[c as int];
                    let changed = ConversationModel {
                        messages: conversation.messages.update(
                            i as int,
                            DirectMessageModel {
                                is_read: true,
                                ..conversation.messages[i as int]
                            },
                        ),
                        ..conversation
                    };
                    assert(self.conversations[c as int]@.messages =~= changed.messages);
                    assert(self@.conversations =~= old(self)@.conversations.update(
                        c as int,
                        changed,
                    ));
                    assert(self@.pairs() =~= old(self)@.pairs());
                }
                true
            },
            None => false,
        }
    }
}

impl ConversationModel {
    /// Looking at more of the conversation only adds older messages behind
    /// the ones already found.
    pub proof fn involving_grows(self, user_id: UserId, n: nat, m: nat)
        requires
            n <= m <= self.messages.len(),
        ensures
            self.involving_among(user_id, n).len() <= self.involving_among(user_id, m).len(),
            self.involving_among(user_id, m).subrange(
                0,
                self.involving_among(user_id, n).len() as int,
            ) == self.involving_among(user_id, n),
        decreases m - n,
    {
        if n < m {
            self.involving_grows(user_id, n, (m - 1) as nat);
            let shorter = self.involving_among(user_id, (m - 1) as nat);
            let longer = self.involving_among(user_id, m);
            let found = self.involving_among(user_id, n);
            assert(longer.subrange(0, found.len() as int) =~= shorter.subrange(
                0,
                found.len() as int,
            ));
        } else {
            let found = self.involving_among(user_id, n);
            assert(found.subrange(0, found.len() as int) =~= found);
        }
    }
}

} // verus!
