//! The per-connection shared secrets of the X25519 handshake.
//!
//! Secrets are only ever looked up by connection, never listed, so they
//! live in a hash map.

use std::collections::HashMap;
use vstd::prelude::*;
use vstd::std_specs::hash::group_hash_axioms;
use vstd::std_specs::iter::IteratorSpec;
pub use crate::keys::KEY_LEN;
use crate::keys::{agree, fresh_keypair};
use crate::server::channel::ClientId;
use crate::text::owned;

verus! {

/// The model of an [`EcdhManager`]: the secret of each connection that has
/// one.
pub struct EcdhModel {
    pub secrets: Map<ClientId, Seq<u8>>,
}

impl EcdhModel {
    /// Every secret is 32 bytes long.
    pub open spec fn wf(self) -> bool {
        forall|id: ClientId|
            self.secrets.contains_key(id) ==> (#[trigger] self.secrets[id]).len() == KEY_LEN
    }

    pub open spec fn has(self, client_id: ClientId) -> bool {
        self.secrets.contains_key(client_id)
    }

    pub open spec fn get_shared_secret(self, client_id: ClientId) -> Option<Seq<u8>> {
        if self.has(client_id) {
            Some(self.secrets[client_id])
        } else {
            None
        }
    }

    /// The secrets with that of `client_id` set to `secret`.
    pub open spec fn store(self, client_id: ClientId, secret: Seq<u8>) -> EcdhModel {
        EcdhModel { secrets: self.secrets.insert(client_id, secret) }
    }

    pub open spec fn remove(self, client_id: ClientId) -> EcdhModel {
        EcdhModel { secrets: self.secrets.remove(client_id) }
    }

    pub proof fn store_keeps_wf(self, client_id: ClientId, secret: Seq<u8>)
        requires
            self.wf(),
            secret.len() == KEY_LEN,
        ensures
            self.store(client_id, secret).wf(),
            self.store(client_id, secret).get_shared_secret(client_id) == Some(secret),
            forall|other: ClientId|
                other != client_id ==> #[trigger] self.store(client_id, secret).get_shared_secret(
                    other,
                ) == self.get_shared_secret(other),
    {
    }

    pub proof fn remove_keeps_wf(self, client_id: ClientId)
        requires
            self.wf(),
        ensures
            self.remove(client_id).wf(),
            self.remove(client_id).get_shared_secret(client_id) is None,
            forall|other: ClientId|
                other != client_id ==> #[trigger] self.remove(client_id).get_shared_secret(other)
                    == self.get_shared_secret(other),
    {
    }
}

/// The store of shared secrets, one for each connection at most.
#[derive(Debug)]
pub struct EcdhManager {
    secrets: HashMap<ClientId, Vec<u8>>,
}

impl View for EcdhManager {
    type V = EcdhModel;

    closed spec fn view(&self) -> EcdhModel {
        EcdhModel { secrets: self.secrets@.map_values(|secret: Vec<u8>| secret@) }
    }
}

impl EcdhManager {
    pub open spec fn wf(&self) -> bool {
        self@.wf()
    }

    pub fn new() -> (m: Self)
        ensures
            m.wf(),
            m@.secrets == Map::<ClientId, Seq<u8>>::empty(),
    {
        let m = Self { secrets: HashMap::new() };
        assert(m@.secrets =~= Map::<ClientId, Seq<u8>>::empty());
        m
    }

    /// Whether the store is well formed.
    pub fn is_wf(&self) -> (ok: bool)
        ensures
            ok == self.wf(),
    {
        broadcast use group_hash_axioms;
        broadcast use vstd::std_specs::hash::axiom_spec_values_iter;

        let ghost all = self.secrets.values().remaining();
        let ghost mut seen: int = 0;
        let mut ok = true;
        for secret in rest: self.secrets.values()
            invariant
                rest.seq() == all,
                seen == rest.index(),
                ok <==> (forall|i: int| 0 <= i < seen ==> (#[trigger] all[i])@.len() == KEY_LEN),
        {
            ok = ok && secret.len() == KEY_LEN;
            proof {
                seen = seen + 1;
            }
        }
        proof {
            assert(seen == all.len());
            assert(all.unref().to_set() == self.secrets@.values());
            if ok {
                assert forall|id: ClientId| self@.secrets.contains_key(id) implies (
                #[trigger] self@.secrets[id]).len() == KEY_LEN by {
                    let secret = self.secrets@[id];
                    assert(self.secrets@.values().contains(secret));
                    assert(all.unref().to_set().contains(secret));
                    assert(all.unref().contains(secret));
                    let i = choose|i: int| 0 <= i < all.unref().len() && all.unref()[i] == secret;
                    assert(*all[i] == secret);
                }
            } else {
                let i = choose|i: int| 0 <= i < seen && (#[trigger] all[i])@.len() != KEY_LEN;
                let secret = *all[i];
                assert(all.unref()[i] == secret);
                assert(all.unref().to_set().contains(secret));
                assert(self.secrets@.values().contains(secret));
                let id = choose|id: ClientId|
                    self.secrets@.contains_key(id) && #[trigger] self.secrets@[id] == secret;
                assert(self@.secrets.contains_key(id));
                assert(self@.secrets[id] == secret@);
            }
        }
        ok
    }

    /// Keeps `secret` as the secret shared with `client_id`.
    pub fn store_secret(&mut self, client_id: ClientId, secret: Vec<u8>)
        requires
            old(self).wf(),
            secret@.len() == KEY_LEN,
        ensures
            final(self).wf(),
            final(self)@ == old(self)@.store(client_id, secret@),
    {
        broadcast use group_hash_axioms;

        let ghost kept = secret@;
        self.secrets.insert(client_id, secret);
        assert(self@.secrets =~= old(self)@.secrets.insert(client_id, kept));
    }

    /// Answers a client's public key: makes a fresh server key pair, keeps
    /// the shared secret under `client_id` and returns the server's public
    /// key. A key that is not 32 bytes long is refused.
    pub fn generate_keypair(&mut self, client_id: ClientId, client_public_key: &[u8]) -> (r: Result<
        Vec<u8>,
        String,
    >)
        requires
            old(self).wf(),
        ensures
            final(self).wf(),
            r is Ok <==> client_public_key@.len() == KEY_LEN,
            match r {
                Ok(server_public) => {
                    &&& server_public@.len() == KEY_LEN
                    &&& final(self)@.get_shared_secret(client_id) is Some
                    &&& final(self)@ == old(self)@.store(
                        client_id,
                        final(self)@.get_shared_secret(client_id)->0,
                    )
                },
                Err(reason) => reason@ == "invalid public key length"@
                    && final(self)@ == old(self)@,
            },
    {
        if client_public_key.len() != KEY_LEN {
            return Err(owned("invalid public key length"));
        }
        let (secret, server_public) = fresh_keypair();
        let shared = agree(secret, client_public_key);
        self.store_secret(client_id, shared);
        Ok(server_public)
    }

    /// Makes a fresh server key pair against a client's public key: the
    /// server's public key and the shared secret, or nothing where the
    /// client's key is not 32 bytes long.
    pub fn fresh_exchange(client_public_key: &[u8]) -> (r: Option<(Vec<u8>, Vec<u8>)>)
        ensures
            r is Some <==> client_public_key@.len() == KEY_LEN,
            r matches Some((public, shared)) ==> public@.len() == KEY_LEN && shared@.len()
                == KEY_LEN,
    {
        if client_public_key.len() != KEY_LEN {
            None
        } else {
            let (secret, public) = fresh_keypair();
            let shared = agree(secret, client_public_key);
            Some((public, shared))
        }
    }

    pub fn get_shared_secret(&self, client_id: ClientId) -> (secret: Option<&Vec<u8>>)
        requires
            self.wf(),
        ensures
            secret.deep_view() == self@.get_shared_secret(client_id),
    {
        broadcast use group_hash_axioms;

        let secret = self.secrets.get(&client_id);
        proof {
            match secret {
                Some(found) => {
                    assert(found.deep_view() =~= found@);
                },
                None => {},
            }
        }
        secret
    }

    pub fn remove(&mut self, client_id: ClientId)
        requires
            old(self).wf(),
        ensures
            final(self).wf(),
            final(self)@ == old(self)@.remove(client_id),
    {
        broadcast use group_hash_axioms;

        let _ = self.secrets.remove(&client_id);
        assert(self@.secrets =~= old(self)@.secrets.remove(client_id));
    }
}

} // verus!
