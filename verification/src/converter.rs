//! The converter: its state, the messages between peers, and the handling of
//! ETSI 014 requests as steps between calls to the key provider.

pub mod context;
pub mod rpc;
pub mod server;

use vstd::prelude::*;

use crate::converter::context::{
    check_result, pair_view, stored_after_removal, stored_count, EtsiToSkipContext, PairView, SaePair,
};
use crate::converter::rpc::NewKey;
use crate::etsi014::models::{requested_ids, EncKeyRequest, GetKeysWithId, Key, KeyContainer, Status};
use crate::etsi014::{E014ConverterRequest, E014ConverterRequestInner};
use crate::skip::models::{Capabilities, Key as SkipKey};
use crate::status::{NOT_FOUND, UNAUTHORIZED};

verus! {

/// The (identifier, key) pairs of a sequence of delivered keys.
pub open spec fn keys_view(keys: Seq<Key>) -> Seq<(Seq<char>, Seq<char>)> {
    keys.map_values(|k: Key| (k.key_ID@, k.key@))
}

/// The identifiers of a sequence of delivered keys.
pub open spec fn key_ids(keys: Seq<Key>) -> Seq<Seq<char>> {
    keys.map_values(|k: Key| k.key_ID@)
}

/// The identifiers carried by a sequence of new-key messages.
pub open spec fn new_key_ids(keys: Seq<NewKey>) -> Seq<Seq<char>> {
    keys.map_values(|k: NewKey| k.id@)
}

/// The (identifier, key) pair of a key from the key provider.
pub open spec fn skip_key_view(k: SkipKey) -> (Seq<char>, Seq<char>) {
    (k.keyId@, k.key@)
}

fn deliver(k: SkipKey) -> (res: Key)
    ensures
        res.key_ID == k.keyId,
        res.key == k.key,
{
    Key { key_ID: k.keyId, key: k.key }
}

/// The status answered for the pair (`sae_id`, `remote_sae_id`) once the key
/// provider told its capabilities.
pub open spec fn status_fields(
    status: Status,
    local_system_id: Seq<char>,
    peer_provider: Seq<char>,
    sae_id: Seq<char>,
    remote_sae_id: Seq<char>,
    stored_key_count: nat,
) -> bool {
    &&& status.source_KME_ID@ == local_system_id
    &&& status.target_KME_ID@ == peer_provider
    &&& status.master_SAE_ID@ == sae_id
    &&& status.slave_SAE_ID@ == remote_sae_id
    &&& status.key_size == 256
    &&& status.stored_key_count == stored_key_count
    &&& status.max_key_count == 8
    &&& status.max_key_per_request == 8
    &&& status.max_key_size == 1024
    &&& status.min_key_size == 256
    &&& status.max_SAE_ID_count == 0
}

/// Answers a status request of `sae_id` about `remote_sae_id`, whose key provider is
/// `peer_provider`, from what the local key provider answered.
pub fn status_reply<C>(
    ctx: &EtsiToSkipContext<C>,
    peer_provider: String,
    sae_id: String,
    remote_sae_id: String,
    capabilities: Result<Capabilities, u16>,
) -> (res: Result<Status, u16>)
    ensures
        match capabilities {
            Err(code) => res == Err::<Status, u16>(code),
            Ok(c) => match res {
                Ok(status) => status_fields(status, c.localSystemID@, peer_provider@, sae_id@, remote_sae_id@,
                    stored_count(ctx.stored(), (sae_id@, remote_sae_id@))),
                Err(_) => false,
            },
        },
{
    match capabilities {
        Err(code) => Err(code),
        Ok(c) => {
            let sae_pair = (sae_id, remote_sae_id);
            let stored_key_count = ctx.stored_key_count(&sae_pair);
            let (sae_id, remote_sae_id) = sae_pair;
            Ok(Status {
                source_KME_ID: c.localSystemID,
                target_KME_ID: peer_provider,
                master_SAE_ID: sae_id,
                slave_SAE_ID: remote_sae_id,
                key_size: 256,
                stored_key_count,
                max_key_count: 8,
                max_key_per_request: 8,
                max_key_size: 1024,
                min_key_size: 256,
                max_SAE_ID_count: 0,
            })
        },
    }
}

/// Whether the step that takes in an answer of the key provider ends a request
/// that waits for `pending` keys: an error ends it, and so does the last key due.
pub open spec fn step_ends(pending: nat, ok: bool) -> bool {
    !ok || pending <= 1
}

/// How many steps end the request in a run where a job waiting for `pending` keys
/// is fed the answers `oks` (`true` for a key, `false` for an error) for as long as
/// it waits.
pub open spec fn ending_steps(pending: nat, oks: Seq<bool>) -> nat
    decreases oks.len(),
{
    if pending == 0 || oks.len() == 0 {
        0
    } else if step_ends(pending, oks[0]) {
        1 + ending_steps(0, oks.drop_first())
    } else {
        ending_steps((pending - 1) as nat, oks.drop_first())
    }
}

/// Every request that waits for keys ends exactly once, whatever the key provider
/// answers, within as many answers as keys are due: the step that ends it is the
/// only one that hands out the request's reply channel.
pub proof fn law_request_ends_once(pending: nat, oks: Seq<bool>)
    requires
        pending > 0,
        oks.len() >= pending,
    ensures
        ending_steps(pending, oks) == 1,
    decreases oks.len(),
{
    assert(ending_steps(0, oks.drop_first()) == 0);
    if !step_ends(pending, oks[0]) {
        law_request_ends_once((pending - 1) as nat, oks.drop_first());
    }
}

/// The key provider of a peer converter reached at `peer_address`: the first remote
/// system that the local key provider names, else the address itself.
pub fn peer_provider_id(remote_system_ids: &Vec<String>, peer_address: String) -> (res: String)
    ensures
        remote_system_ids@.len() > 0 ==> res@ == remote_system_ids@[0]@,
        remote_system_ids@.len() == 0 ==> res@ == peer_address@,
{
    if remote_system_ids.len() > 0 {
        remote_system_ids[0].clone()
    } else {
        peer_address
    }
}

/// The next thing to do for an encryption-key request; `K` answers the SAE.
pub enum EncKeyAction<K> {
    /// Ask the key provider for a new key shared with `remote_system_id`.
    FetchKey { remote_system_id: String, size: Option<usize> },
    /// The key provider refused: answer the SAE on `reply` with `status`.
    Failed { reply: K, status: u16 },
    /// All keys are here: announce their identifiers for `sae_pair` to the peer
    /// converter of `provider`, then deliver `container` to the SAE on `reply`.
    Completed { reply: K, provider: String, sae_pair: SaePair, new_keys: Vec<NewKey>, container: KeyContainer },
}

/// The reply channel that a step hands out: only a step that ends the request has one.
pub open spec fn enc_reply_of<K>(action: EncKeyAction<K>) -> Option<K> {
    match action {
        EncKeyAction::FetchKey { .. } => None,
        EncKeyAction::Failed { reply, .. } => Some(reply),
        EncKeyAction::Completed { reply, .. } => Some(reply),
    }
}

/// How an encryption-key request for `pair`, whose remote SAE `provider` serves and
/// which is answered on `reply`, begins: with no key asked for it completes at once
/// with nothing, else it asks the key provider for the first key and waits for
/// `number` keys, holding the reply channel.
pub open spec fn enc_key_started<K>(
    job: EncKeyJob<K>,
    action: EncKeyAction<K>,
    provider: Seq<char>,
    pair: PairView,
    request: EncKeyRequest,
    reply: K,
) -> bool {
    &&& job.provider() == provider
    &&& job.pair() == pair
    &&& job.size() == request.size
    &&& job.requested_count() == request.number
    &&& request.number == 0 ==> {
        &&& job.pending() == 0
        &&& enc_reply_of(action) == Some(reply)
        &&& match action {
            EncKeyAction::Completed { provider: p, sae_pair: s, new_keys, container, .. } =>
                p@ == provider && pair_view(&s) == pair && container.keys@.len() == 0 && new_keys@.len() == 0,
            _ => false,
        }
    }
    &&& request.number > 0 ==> {
        &&& job.pending() == request.number
        &&& job.reply() == Some(reply)
        &&& job.drawn() == Seq::<(Seq<char>, Seq<char>)>::empty()
        &&& match action {
            EncKeyAction::FetchKey { remote_system_id, size } => remote_system_id@ == provider && size == request.size,
            _ => false,
        }
    }
}

/// An encryption-key request in progress: the keys drawn so far, how many are
/// still to come, and the reply channel while the request has not ended.
pub struct EncKeyJob<K> {
    provider: String,
    sae_pair: SaePair,
    size: Option<usize>,
    number: usize,
    remaining: usize,
    keys: Vec<Key>,
    reply: Option<K>,
}

/// Copies of delivered keys.
fn copy_keys(keys: &Vec<Key>) -> (res: Vec<Key>)
    ensures
        keys_view(res@) == keys_view(keys@),
{
    let mut copy: Vec<Key> = Vec::new();
    let mut i: usize = 0;
    while i < keys.len()
        invariant
            i <= keys@.len(),
            keys_view(copy@) == keys_view(keys@).subrange(0, i as int),
        decreases keys@.len() - i,
    {
        let ghost cb = copy@;
        copy.push(Key { key_ID: keys[i].key_ID.clone(), key: keys[i].key.clone() });
        assert(keys_view(copy@) =~= keys_view(cb).push(keys_view(keys@)[i as int]));
        assert(keys_view(keys@).subrange(0, i + 1) =~= keys_view(keys@).subrange(0, i as int).push(keys_view(keys@)[i as int]));
        i = i + 1;
    }
    assert(keys_view(keys@).subrange(0, keys@.len() as int) =~= keys_view(keys@));
    copy
}

/// The new-key messages that announce delivered keys, in order.
fn announce(keys: &Vec<Key>) -> (res: Vec<NewKey>)
    ensures
        new_key_ids(res@) == key_ids(keys@),
{
    let mut new_keys: Vec<NewKey> = Vec::new();
    let mut i: usize = 0;
    while i < keys.len()
        invariant
            i <= keys@.len(),
            new_key_ids(new_keys@) == key_ids(keys@).subrange(0, i as int),
        decreases keys@.len() - i,
    {
        let ghost before = new_keys@;
        new_keys.push(NewKey { id: keys[i].key_ID.clone() });
        assert(new_key_ids(new_keys@) =~= new_key_ids(before).push(keys@[i as int].key_ID@));
        assert(key_ids(keys@).subrange(0, i + 1) =~= key_ids(keys@).subrange(0, i as int).push(keys@[i as int].key_ID@));
        i = i + 1;
    }
    assert(key_ids(keys@).subrange(0, keys@.len() as int) =~= key_ids(keys@));
    new_keys
}

impl<K> EncKeyJob<K> {
    #[verifier::type_invariant]
    closed spec fn inv(self) -> bool {
        self.keys@.len() + self.remaining == self.number
    }

    pub closed spec fn provider(&self) -> Seq<char> {
        self.provider@
    }

    pub closed spec fn pair(&self) -> PairView {
        pair_view(&self.sae_pair)
    }

    pub closed spec fn size(&self) -> Option<usize> {
        self.size
    }

    /// How many keys the request asked for.
    pub closed spec fn requested_count(&self) -> nat {
        self.number as nat
    }

    /// The reply channel, held until the request ends.
    pub closed spec fn reply(&self) -> Option<K> {
        self.reply
    }

    /// How many keys the job still waits for: none once the request ended.
    pub closed spec fn pending(&self) -> nat {
        if self.reply is Some { self.remaining as nat } else { 0 }
    }

    /// The keys drawn so far, in order.
    pub closed spec fn drawn(&self) -> Seq<(Seq<char>, Seq<char>)> {
        keys_view(self.keys@)
    }

    /// Whether the job waits for a key from the key provider.
    pub fn awaiting_key(&self) -> (res: bool)
        ensures
            res == (self.pending() > 0),
    {
        self.remaining > 0 && self.reply.is_some()
    }

    fn complete(&self, reply: K) -> (res: EncKeyAction<K>)
        ensures
            enc_reply_of(res) == Some(reply),
            match res {
                EncKeyAction::Completed { provider, sae_pair, new_keys, container, .. } => {
                    &&& provider@ == self.provider()
                    &&& pair_view(&sae_pair) == self.pair()
                    &&& keys_view(container.keys@) == self.drawn()
                    &&& new_key_ids(new_keys@) == key_ids(container.keys@)
                    &&& container.keys@.len() == self.drawn().len()
                    &&& new_keys@.len() == container.keys@.len()
                },
                _ => false,
            },
    {
        let keys = copy_keys(&self.keys);
        let new_keys = announce(&keys);
        assert(keys_view(keys@).len() == keys@.len());
        assert(new_key_ids(new_keys@).len() == new_keys@.len());
        assert(key_ids(keys@).len() == keys@.len());
        EncKeyAction::Completed {
            reply,
            provider: self.provider.clone(),
            sae_pair: (self.sae_pair.0.clone(), self.sae_pair.1.clone()),
            new_keys,
            container: KeyContainer { keys },
        }
    }

    /// Starts an encryption-key request for `sae_pair`, whose remote SAE the key
    /// provider `provider` serves, answered on `reply`. With no key asked for, it
    /// completes at once.
    pub fn start(provider: String, sae_pair: SaePair, request: &EncKeyRequest, reply: K) -> (res: (EncKeyJob<K>, EncKeyAction<K>))
        ensures
            enc_key_started(res.0, res.1, provider@, pair_view(&sae_pair), *request, reply),
    {
        if request.number == 0 {
            let job = EncKeyJob {
                provider,
                sae_pair,
                size: request.size,
                number: 0,
                remaining: 0,
                keys: Vec::new(),
                reply: None,
            };
            assert(job.drawn() =~= Seq::<(Seq<char>, Seq<char>)>::empty());
            let action = job.complete(reply);
            (job, action)
        } else {
            let job = EncKeyJob {
                provider,
                sae_pair,
                size: request.size,
                number: request.number,
                remaining: request.number,
                keys: Vec::new(),
                reply: Some(reply),
            };
            assert(job.drawn() =~= Seq::<(Seq<char>, Seq<char>)>::empty());
            let action = EncKeyAction::FetchKey { remote_system_id: job.provider.clone(), size: job.size };
            (job, action)
        }
    }

    /// Takes in what the key provider answered to the last key request. The step
    /// that ends the request hands out the reply channel and leaves the job waiting
    /// for nothing; when the last key arrives, the request completes with as many
    /// keys as it asked for.
    pub fn on_key(&mut self, fetched: Result<SkipKey, u16>) -> (res: EncKeyAction<K>)
        requires
            old(self).pending() > 0,
        ensures
            final(self).provider() == old(self).provider(),
            final(self).pair() == old(self).pair(),
            final(self).size() == old(self).size(),
            final(self).requested_count() == old(self).requested_count(),
            step_ends(old(self).pending(), fetched is Ok) ==> {
                &&& enc_reply_of(res) == old(self).reply()
                &&& final(self).pending() == 0
                &&& final(self).reply() is None
            },
            !step_ends(old(self).pending(), fetched is Ok) ==> {
                &&& enc_reply_of(res) is None
                &&& final(self).pending() == old(self).pending() - 1
                &&& final(self).reply() == old(self).reply()
            },
            match fetched {
                Err(code) => (res matches EncKeyAction::Failed { status, .. } && status == code)
                    && final(self).drawn() == old(self).drawn(),
                Ok(k) => {
                    &&& final(self).drawn() == old(self).drawn().push(skip_key_view(k))
                    &&& if final(self).pending() > 0 {
                        match res {
                            EncKeyAction::FetchKey { remote_system_id, size } =>
                                remote_system_id@ == old(self).provider() && size == old(self).size(),
                            _ => false,
                        }
                    } else {
                        match res {
                            EncKeyAction::Completed { provider, sae_pair, new_keys, container, .. } => {
                                &&& provider@ == old(self).provider()
                                &&& pair_view(&sae_pair) == old(self).pair()
                                &&& keys_view(container.keys@) == final(self).drawn()
                                &&& container.keys@.len() == old(self).requested_count()
                                &&& new_key_ids(new_keys@) == key_ids(container.keys@)
                            },
                            _ => false,
                        }
                    }
                },
            },
    {
        proof { use_type_invariant(&*self); }
        let mut taken = EncKeyJob {
            provider: String::new(),
            sae_pair: (String::new(), String::new()),
            size: None,
            number: 0,
            remaining: 0,
            keys: Vec::new(),
            reply: None,
        };
        std::mem::swap(&mut taken, self);
        let EncKeyJob { provider, sae_pair, size, number, remaining, mut keys, reply } = taken;
        let reply = reply.unwrap();
        match fetched {
            Err(code) => {
                *self = EncKeyJob { provider, sae_pair, size, number, remaining, keys, reply: None };
                EncKeyAction::Failed { reply, status: code }
            },
            Ok(k) => {
                let ghost kv = skip_key_view(k);
                let ghost before = keys@;
                keys.push(deliver(k));
                assert(keys_view(keys@) =~= keys_view(before).push(kv));
                if remaining > 1 {
                    *self = EncKeyJob { provider, sae_pair, size, number, remaining: remaining - 1, keys, reply: Some(reply) };
                    EncKeyAction::FetchKey { remote_system_id: self.provider.clone(), size: self.size }
                } else {
                    *self = EncKeyJob { provider, sae_pair, size, number, remaining: 0, keys, reply: None };
                    self.complete(reply)
                }
            },
        }
    }
}

/// The next thing to do for a decryption-key request; `K` answers the SAE.
pub enum DecKeyAction<K> {
    /// Ask the key provider for the key `key_id` that `remote_system_id` drew.
    FetchPeerKey { remote_system_id: String, key_id: String },
    /// Some key identifier was not announced for the pair: answer on `reply` with
    /// `status` (401); `reason` says why.
    Unauthorized { reply: K, status: u16, reason: String },
    /// The key provider refused: answer the SAE on `reply` with `status`.
    Failed { reply: K, status: u16 },
    /// All keys are here: deliver them to the SAE on `reply`.
    Completed { reply: K, container: KeyContainer },
}

/// The reply channel that a step hands out: only a step that ends the request has one.
pub open spec fn dec_reply_of<K>(action: DecKeyAction<K>) -> Option<K> {
    match action {
        DecKeyAction::FetchPeerKey { .. } => None,
        DecKeyAction::Unauthorized { reply, .. } => Some(reply),
        DecKeyAction::Failed { reply, .. } => Some(reply),
        DecKeyAction::Completed { reply, .. } => Some(reply),
    }
}

/// A decryption-key request in progress: the identifiers asked for, how many were
/// fetched, the keys fetched so far, and the reply channel while the request has
/// not ended.
pub struct DecKeyJob<K> {
    provider: String,
    sae_pair: SaePair,
    ids: Vec<String>,
    next: usize,
    keys: Vec<Key>,
    reply: Option<K>,
}

/// How a decryption-key request of `sae_id` for keys that `remote_sae_id` drew,
/// answered on `reply`, begins: the pair is (`remote_sae_id`, `sae_id`);
/// identifiers not announced for it are refused; an empty request completes at
/// once; else the first key is fetched and the job holds the reply channel.
pub open spec fn dec_key_started<K>(
    stored: Map<PairView, Set<Seq<char>>>,
    job: DecKeyJob<K>,
    action: DecKeyAction<K>,
    provider: Seq<char>,
    sae_id: Seq<char>,
    remote_sae_id: Seq<char>,
    request: GetKeysWithId,
    reply: K,
) -> bool {
    let pair = (remote_sae_id, sae_id);
    let ids = requested_ids(&request);
    &&& job.provider() == provider
    &&& job.pair() == pair
    &&& job.requested() == ids
    &&& job.fetched() == 0
    &&& job.drawn() == Seq::<(Seq<char>, Seq<char>)>::empty()
    &&& match check_result(stored, pair, ids) {
        Err(m) => {
            &&& action matches DecKeyAction::Unauthorized { status, reason, .. } && status == UNAUTHORIZED
                && reason@ == m
            &&& dec_reply_of(action) == Some(reply)
            &&& job.pending() == 0
        },
        Ok(()) => if ids.len() == 0 {
            &&& action matches DecKeyAction::Completed { container, .. } && container.keys@.len() == 0
            &&& dec_reply_of(action) == Some(reply)
            &&& job.pending() == 0
        } else {
            &&& action matches DecKeyAction::FetchPeerKey { remote_system_id, key_id }
                && remote_system_id@ == provider && key_id@ == ids[0]
            &&& job.reply() == Some(reply)
            &&& job.pending() == ids.len()
        },
    }
}

impl<K> DecKeyJob<K> {
    #[verifier::type_invariant]
    closed spec fn inv(self) -> bool {
        self.keys@.len() == self.next && self.next <= self.ids@.len()
    }

    pub closed spec fn provider(&self) -> Seq<char> {
        self.provider@
    }

    /// The pair whose stored keys the request draws on: (master SAE, slave SAE).
    pub closed spec fn pair(&self) -> PairView {
        pair_view(&self.sae_pair)
    }

    /// The identifiers asked for, in order.
    pub closed spec fn requested(&self) -> Seq<Seq<char>> {
        crate::collections::strings_view(self.ids@)
    }

    /// How many of them were fetched.
    pub closed spec fn fetched(&self) -> nat {
        self.next as nat
    }

    /// The reply channel, held until the request ends.
    pub closed spec fn reply(&self) -> Option<K> {
        self.reply
    }

    /// How many keys the job still waits for: none once the request ended.
    pub closed spec fn pending(&self) -> nat {
        if self.reply is Some { (self.ids@.len() - self.next) as nat } else { 0 }
    }

    /// The keys fetched so far, in order.
    pub closed spec fn drawn(&self) -> Seq<(Seq<char>, Seq<char>)> {
        keys_view(self.keys@)
    }

    /// Whether the job waits for a key from the key provider.
    pub fn awaiting_key(&self) -> (res: bool)
        ensures
            res == (self.pending() > 0),
    {
        proof { use_type_invariant(self); }
        self.next < self.ids.len() && self.reply.is_some()
    }

    /// Starts a decryption-key request of `sae_id` for keys that `remote_sae_id`
    /// drew through the key provider `provider`, answered on `reply`.
    pub fn start<C>(
        ctx: &EtsiToSkipContext<C>,
        provider: String,
        sae_id: String,
        remote_sae_id: String,
        request: &GetKeysWithId,
        reply: K,
    ) -> (res: (DecKeyJob<K>, DecKeyAction<K>))
        ensures
            dec_key_started(ctx.stored(), res.0, res.1, provider@, sae_id@, remote_sae_id@, *request, reply),
    {
        let sae_pair = (remote_sae_id, sae_id);
        let ghost ids = requested_ids(request);
        let checked = ctx.check_keys(&sae_pair, request);
        let mut id_list: Vec<String> = Vec::new();
        let mut i: usize = 0;
        while i < request.key_IDs.len()
            invariant
                i <= request.key_IDs@.len(),
                ids == requested_ids(request),
                crate::collections::strings_view(id_list@) == ids.subrange(0, i as int),
            decreases request.key_IDs@.len() - i,
        {
            let ghost before = id_list@;
            id_list.push(request.key_IDs[i].key_ID.clone());
            assert(crate::collections::strings_view(id_list@) =~= crate::collections::strings_view(before).push(ids[i as int]));
            assert(ids.subrange(0, i + 1) =~= ids.subrange(0, i as int).push(ids[i as int]));
            i = i + 1;
        }
        assert(ids.subrange(0, ids.len() as int) =~= ids);
        match checked {
            Err(m) => {
                let job = DecKeyJob { provider, sae_pair, ids: id_list, next: 0, keys: Vec::new(), reply: None };
                assert(job.drawn() =~= Seq::<(Seq<char>, Seq<char>)>::empty());
                (job, DecKeyAction::Unauthorized { reply, status: UNAUTHORIZED, reason: m })
            },
            Ok(()) => {
                if id_list.len() == 0 {
                    let job = DecKeyJob { provider, sae_pair, ids: id_list, next: 0, keys: Vec::new(), reply: None };
                    assert(job.drawn() =~= Seq::<(Seq<char>, Seq<char>)>::empty());
                    (job, DecKeyAction::Completed { reply, container: KeyContainer { keys: Vec::new() } })
                } else {
                    let first = id_list[0].clone();
                    let job = DecKeyJob { provider, sae_pair, ids: id_list, next: 0, keys: Vec::new(), reply: Some(reply) };
                    assert(job.drawn() =~= Seq::<(Seq<char>, Seq<char>)>::empty());
                    let action = DecKeyAction::FetchPeerKey { remote_system_id: job.provider.clone(), key_id: first };
                    (job, action)
                }
            },
        }
    }

    /// Takes in what the key provider answered to the last key request. A key that
    /// arrives is forgotten in `ctx`, so that it is handed out once. The step that
    /// ends the request hands out the reply channel and leaves the job waiting for
    /// nothing.
    pub fn on_peer_key<C>(&mut self, ctx: &mut EtsiToSkipContext<C>, fetched: Result<SkipKey, u16>) -> (res: DecKeyAction<K>)
        requires
            old(self).pending() > 0,
        ensures
            final(self).provider() == old(self).provider(),
            final(self).pair() == old(self).pair(),
            final(self).requested() == old(self).requested(),
            final(ctx).providers() == old(ctx).providers(),
            final(ctx).clients() == old(ctx).clients(),
            final(ctx).connected() == old(ctx).connected(),
            final(ctx).local_provider() == old(ctx).local_provider(),
            step_ends(old(self).pending(), fetched is Ok) ==> {
                &&& dec_reply_of(res) == old(self).reply()
                &&& final(self).pending() == 0
                &&& final(self).reply() is None
            },
            !step_ends(old(self).pending(), fetched is Ok) ==> {
                &&& dec_reply_of(res) is None
                &&& final(self).pending() == old(self).pending() - 1
                &&& final(self).reply() == old(self).reply()
            },
            match fetched {
                Err(code) => {
                    &&& res matches DecKeyAction::Failed { status, .. } && status == code
                    &&& final(ctx).stored() == old(ctx).stored()
                    &&& final(self).drawn() == old(self).drawn()
                    &&& final(self).fetched() == old(self).fetched()
                },
                Ok(k) => {
                    &&& final(ctx).stored() == stored_after_removal(old(ctx).stored(), old(self).pair(), k.keyId@)
                    &&& final(self).fetched() == old(self).fetched() + 1
                    &&& final(self).drawn() == old(self).drawn().push(skip_key_view(k))
                    &&& if final(self).fetched() < old(self).requested().len() {
                        res matches DecKeyAction::FetchPeerKey { remote_system_id, key_id }
                            && remote_system_id@ == old(self).provider()
                            && key_id@ == old(self).requested()[final(self).fetched() as int]
                    } else {
                        res matches DecKeyAction::Completed { container, .. } && keys_view(container.keys@) == final(self).drawn()
                            && container.keys@.len() == old(self).requested().len()
                    }
                },
            },
    {
        proof { use_type_invariant(&*self); }
        assert(self.requested().len() == self.ids@.len());
        let mut taken = DecKeyJob {
            provider: String::new(),
            sae_pair: (String::new(), String::new()),
            ids: Vec::new(),
            next: 0,
            keys: Vec::new(),
            reply: None,
        };
        std::mem::swap(&mut taken, self);
        let DecKeyJob { provider, sae_pair, ids, next, mut keys, reply } = taken;
        let reply = reply.unwrap();
        match fetched {
            Err(code) => {
                *self = DecKeyJob { provider, sae_pair, ids, next, keys, reply: None };
                DecKeyAction::Failed { reply, status: code }
            },
            Ok(k) => {
                ctx.remove_key(&sae_pair, &k.keyId);
                let ghost kv = skip_key_view(k);
                let ghost before = keys@;
                keys.push(deliver(k));
                assert(keys_view(keys@) =~= keys_view(before).push(kv));
                let n = ids.len();
                assert(next < n);
                if next + 1 < n {
                    let key_id = ids[next + 1].clone();
                    *self = DecKeyJob { provider, sae_pair, ids, next: next + 1, keys, reply: Some(reply) };
                    DecKeyAction::FetchPeerKey { remote_system_id: self.provider.clone(), key_id }
                } else {
                    let copy = copy_keys(&keys);
                    assert(keys_view(copy@).len() == copy@.len());
                    *self = DecKeyJob { provider, sae_pair, ids, next: next + 1, keys, reply: None };
                    DecKeyAction::Completed { reply, container: KeyContainer { keys: copy } }
                }
            },
        }
    }
}

/// Where an ETSI 014 request goes once the remote SAE is looked up.
#[allow(inconsistent_fields)]
pub enum Dispatch<S, K> {
    /// No peer announced the remote SAE: answer `status` (404) on the request's
    /// channel; the converter goes on with the next request.
    UnknownPeer { request: E014ConverterRequestInner<S, K>, status: u16 },
    /// A status request: ask the key provider for its capabilities, then answer on
    /// `reply` with [`status_reply`].
    Status { reply: S, provider: String, sae_id: String, remote_sae_id: String },
    /// An encryption-key request and its first step.
    EncKey { job: EncKeyJob<K>, action: EncKeyAction<K> },
    /// A decryption-key request and its first step.
    DecKey { job: DecKeyJob<K>, action: DecKeyAction<K> },
}

/// Converts an ETSI 014 request into its first step: the remote SAE must be one
/// that a peer converter announced, and the request goes on with that peer's key
/// provider. The request's reply channel goes either to a step that ends the
/// request or to the job that waits for keys.
pub fn handle_etsi_request<C, S, K>(ctx: &EtsiToSkipContext<C>, request: E014ConverterRequest<S, K>) -> (res: Dispatch<S, K>)
    ensures
        !ctx.providers().contains_key(request.remote_sae_id@) ==> res == (Dispatch::<S, K>::UnknownPeer {
            request: request.req,
            status: NOT_FOUND,
        }),
        ctx.providers().contains_key(request.remote_sae_id@) ==> {
            let provider = ctx.providers()[request.remote_sae_id@];
            match request.req {
                E014ConverterRequestInner::Status(s) => match res {
                    Dispatch::Status { reply, provider: p, sae_id, remote_sae_id } =>
                        reply == s && p@ == provider && sae_id == request.sae_id
                            && remote_sae_id == request.remote_sae_id,
                    _ => false,
                },
                E014ConverterRequestInner::EncKey(k, r) => match res {
                    Dispatch::EncKey { job, action } =>
                        enc_key_started(job, action, provider, (request.sae_id@, request.remote_sae_id@), r, k),
                    _ => false,
                },
                E014ConverterRequestInner::DecKey(k, r) => match res {
                    Dispatch::DecKey { job, action } =>
                        dec_key_started(ctx.stored(), job, action, provider,
                            request.sae_id@, request.remote_sae_id@, r, k),
                    _ => false,
                },
            }
        },
{
    let E014ConverterRequest { sae_id, remote_sae_id, req } = request;
    let provider = match ctx.remote_sae_provider(&remote_sae_id) {
        Some(p) => p,
        None => {
            return Dispatch::UnknownPeer { request: req, status: NOT_FOUND };
        },
    };
    match req {
        E014ConverterRequestInner::Status(s) => Dispatch::Status { reply: s, provider, sae_id, remote_sae_id },
        E014ConverterRequestInner::EncKey(k, r) => {
            let (job, action) = EncKeyJob::start(provider, (sae_id, remote_sae_id), &r, k);
            Dispatch::EncKey { job, action }
        },
        E014ConverterRequestInner::DecKey(k, r) => {
            let (job, action) = DecKeyJob::start(ctx, provider, sae_id, remote_sae_id, &r, k);
            Dispatch::DecKey { job, action }
        },
    }
}

} // verus!
