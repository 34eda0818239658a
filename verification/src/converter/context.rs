//! The state that a converter keeps about its peers and the keys they announced.

use vstd::prelude::*;

use crate::collections::{strings_view, KeyMap, MapKey, StringSet};
use crate::converter::rpc::SaeId;
use crate::etsi014::models::{requested_ids, GetKeysWithId};

verus! {

/// An ordered (master SAE, slave SAE) pair.
pub type SaePair = (String, String);

/// The mathematical value of an [`SaePair`].
pub type PairView = (Seq<char>, Seq<char>);

pub open spec fn pair_view(pair: &SaePair) -> PairView {
    (pair.0@, pair.1@)
}

/// The number of keys stored for a pair: none when nothing is stored for it.
pub open spec fn stored_count(stored: Map<PairView, Set<Seq<char>>>, pair: PairView) -> nat {
    if stored.contains_key(pair) {
        stored[pair].len()
    } else {
        0
    }
}

/// The keys stored for a pair, empty when nothing is stored for it.
pub open spec fn stored_for(stored: Map<PairView, Set<Seq<char>>>, pair: PairView) -> Set<Seq<char>> {
    if stored.contains_key(pair) {
        stored[pair]
    } else {
        Set::empty()
    }
}

/// The stored keys once a peer announced `ids` for `pair`.
pub open spec fn stored_after_announce(
    stored: Map<PairView, Set<Seq<char>>>,
    pair: PairView,
    ids: Seq<Seq<char>>,
) -> Map<PairView, Set<Seq<char>>> {
    stored.insert(pair, stored_for(stored, pair) + ids.to_set())
}

/// The stored keys once `key` was handed out for `pair`.
pub open spec fn stored_after_removal(
    stored: Map<PairView, Set<Seq<char>>>,
    pair: PairView,
    key: Seq<char>,
) -> Map<PairView, Set<Seq<char>>> {
    if stored.contains_key(pair) {
        stored.insert(pair, stored[pair].remove(key))
    } else {
        stored
    }
}

/// The remote-SAE-to-key-provider map once a peer of `provider` announced `saes`.
pub open spec fn providers_after_register(
    providers: Map<Seq<char>, Seq<char>>,
    provider: Seq<char>,
    saes: Seq<Seq<char>>,
) -> Map<Seq<char>, Seq<char>> {
    Map::new(
        |k: Seq<char>| providers.contains_key(k) || saes.contains(k),
        |k: Seq<char>| if saes.contains(k) { provider } else { providers[k] },
    )
}

/// The message for a pair with no stored keys.
pub open spec fn no_keys_message(pair: PairView) -> Seq<char> {
    "No keys stored for SAE pair ("@ + pair.0 + ", "@ + pair.1 + ")"@
}

/// The message for a key identifier that was not announced for the pair.
pub open spec fn invalid_key_message(slave: Seq<char>, key: Seq<char>) -> Seq<char> {
    slave + " requested an invalid key id: "@ + key
}

/// The first of `ids[i..]` that `known` lacks.
pub open spec fn first_unknown(known: Set<Seq<char>>, ids: Seq<Seq<char>>, i: int) -> Option<Seq<char>>
    decreases ids.len() - i,
{
    if i < 0 || i >= ids.len() {
        None
    } else if !known.contains(ids[i]) {
        Some(ids[i])
    } else {
        first_unknown(known, ids, i + 1)
    }
}

/// What checking `ids` against the keys stored for `pair` answers: `Ok` when every
/// identifier was announced for the pair, else the message of the first failure.
pub open spec fn check_result(
    stored: Map<PairView, Set<Seq<char>>>,
    pair: PairView,
    ids: Seq<Seq<char>>,
) -> Result<(), Seq<char>> {
    if !stored.contains_key(pair) {
        Err(no_keys_message(pair))
    } else {
        match first_unknown(stored[pair], ids, 0) {
            Some(k) => Err(invalid_key_message(pair.1, k)),
            None => Ok(()),
        }
    }
}

pub proof fn lemma_first_unknown(known: Set<Seq<char>>, ids: Seq<Seq<char>>, i: int)
    requires
        0 <= i <= ids.len(),
    ensures
        first_unknown(known, ids, i) is None <==> (forall|j: int| i <= j < ids.len() ==> known.contains(#[trigger] ids[j])),
    decreases ids.len() - i,
{
    if i < ids.len() {
        lemma_first_unknown(known, ids, i + 1);
    }
}

/// Every provider named in `providers` has a client in `clients`.
pub open spec fn reachable<C>(providers: Map<Seq<char>, String>, clients: Map<Seq<char>, C>) -> bool {
    forall|sae: Seq<char>| #[trigger] providers.contains_key(sae) ==> clients.contains_key(providers[sae]@)
}

/// The state of a converter: which key provider serves each remote SAE, the keys
/// announced by peers per SAE pair, a client per peer key provider, and the SAEs
/// served here. `C` is the client handle of a peer converter.
pub struct EtsiToSkipContext<C> {
    peer_providers: KeyMap<String, String>,
    stored_keys: KeyMap<SaePair, StringSet>,
    peer_clients: KeyMap<String, C>,
    connected_sae_ids: StringSet,
    provider_id: String,
}

impl<C> EtsiToSkipContext<C> {
    /// Remote SAE to the key provider that serves it.
    pub closed spec fn providers(&self) -> Map<Seq<char>, Seq<char>> {
        self.peer_providers@.map_values(|p: String| p@)
    }

    /// SAE pair to the key identifiers that peers announced for it.
    pub closed spec fn stored(&self) -> Map<PairView, Set<Seq<char>>> {
        self.stored_keys@.map_values(|s: StringSet| s@)
    }

    /// Peer key provider to the client of its converter.
    pub closed spec fn clients(&self) -> Map<Seq<char>, C> {
        self.peer_clients@
    }

    /// The SAEs that this converter serves.
    pub closed spec fn connected(&self) -> Set<Seq<char>> {
        self.connected_sae_ids@
    }

    /// The identifier of the local key provider.
    pub closed spec fn local_provider(&self) -> Seq<char> {
        self.provider_id@
    }

    #[verifier::type_invariant]
    closed spec fn inv(self) -> bool {
        reachable(self.peer_providers@, self.peer_clients@)
    }

    /// The state reached by a converter that acts for the SAEs in `connected_sae_ids`
    /// on behalf of the key provider `provider_id`, before it knows any peer.
    pub fn new(connected_sae_ids: Vec<String>, provider_id: String) -> (res: Self)
        ensures
            res.connected() == strings_view(connected_sae_ids@).to_set(),
            res.local_provider() == provider_id@,
            res.providers() == Map::<Seq<char>, Seq<char>>::empty(),
            res.stored() == Map::<PairView, Set<Seq<char>>>::empty(),
            res.clients() == Map::<Seq<char>, C>::empty(),
    {
        let res = EtsiToSkipContext {
            peer_providers: KeyMap::new(),
            stored_keys: KeyMap::new(),
            peer_clients: KeyMap::new(),
            connected_sae_ids: StringSet::from_vec(connected_sae_ids),
            provider_id,
        };
        assert(res.providers() =~= Map::<Seq<char>, Seq<char>>::empty());
        assert(res.stored() =~= Map::<PairView, Set<Seq<char>>>::empty());
        res
    }

    pub fn provider_id(&self) -> (res: &String)
        ensures
            res@ == self.local_provider(),
    {
        &self.provider_id
    }

    /// The number of keys stored for a (master SAE, slave SAE) pair.
    pub fn stored_key_count(&self, sae_pair: &SaePair) -> (res: usize)
        ensures
            res == stored_count(self.stored(), pair_view(sae_pair)),
    {
        match self.stored_keys.get(sae_pair) {
            Some(keys) => keys.len(),
            None => 0,
        }
    }

    /// The key provider that serves a remote SAE, if a peer announced it.
    pub fn remote_sae_provider(&self, remote_sae_id: &String) -> (res: Option<String>)
        ensures
            match res {
                Some(p) => self.providers().contains_key(remote_sae_id@) && p@ == self.providers()[remote_sae_id@],
                None => !self.providers().contains_key(remote_sae_id@),
            },
            res matches Some(p) ==> self.clients().contains_key(p@),
    {
        proof { use_type_invariant(&*self); }
        match self.peer_providers.get(remote_sae_id) {
            Some(p) => Some(p.clone()),
            None => None,
        }
    }

    /// The client of the converter of a peer key provider, if one is registered.
    pub fn peer_client(&self, provider_id: &String) -> (res: Option<&C>)
        ensures
            match res {
                Some(c) => self.clients().contains_key(provider_id@) && *c == self.clients()[provider_id@],
                None => !self.clients().contains_key(provider_id@),
            },
    {
        self.peer_clients.get(provider_id)
    }

    /// Whether a peer key provider is registered.
    pub fn has_peer(&self, provider_id: &String) -> (res: bool)
        ensures
            res == self.clients().contains_key(provider_id@),
    {
        self.peer_clients.contains_key(provider_id)
    }

    fn placeholder() -> (res: Self)
        ensures
            res.providers() == Map::<Seq<char>, Seq<char>>::empty(),
            res.stored() == Map::<PairView, Set<Seq<char>>>::empty(),
            res.clients() == Map::<Seq<char>, C>::empty(),
            res.connected() == Set::<Seq<char>>::empty(),
            res.local_provider() == Seq::<char>::empty(),
    {
        let res = EtsiToSkipContext {
            peer_providers: KeyMap::new(),
            stored_keys: KeyMap::new(),
            peer_clients: KeyMap::new(),
            connected_sae_ids: StringSet::new(),
            provider_id: String::new(),
        };
        assert(res.providers() =~= Map::<Seq<char>, Seq<char>>::empty());
        assert(res.stored() =~= Map::<PairView, Set<Seq<char>>>::empty());
        res
    }

    /// Records key identifiers that the peer announced for a (master SAE, slave SAE) pair.
    pub fn new_keys(&mut self, sae_pair: &SaePair, key_ids: Vec<String>)
        ensures
            final(self).stored() == stored_after_announce(old(self).stored(), pair_view(sae_pair), strings_view(key_ids@)),
            final(self).providers() == old(self).providers(),
            final(self).clients() == old(self).clients(),
            final(self).connected() == old(self).connected(),
            final(self).local_provider() == old(self).local_provider(),
    {
        proof { use_type_invariant(&*self); }
        let ghost old_stored = self.stored();
        let mut taken = Self::placeholder();
        std::mem::swap(&mut taken, self);
        let EtsiToSkipContext { peer_providers, mut stored_keys, peer_clients, connected_sae_ids, provider_id } = taken;
        assert(reachable(peer_providers@, peer_clients@));
        let ghost pair = pair_view(sae_pair);
        let mut keys = match stored_keys.take(sae_pair) {
            Some(keys) => keys,
            None => StringSet::new(),
        };
        assert(keys@ == stored_for(old_stored, pair));
        let mut i: usize = 0;
        while i < key_ids.len()
            invariant
                i <= key_ids@.len(),
                keys@ == stored_for(old_stored, pair) + strings_view(key_ids@.subrange(0, i as int)).to_set(),
            decreases key_ids@.len() - i,
        {
            let ghost before = strings_view(key_ids@.subrange(0, i as int));
            keys.insert(key_ids[i].clone());
            proof {
                assert(strings_view(key_ids@.subrange(0, i + 1)) =~= before.push(key_ids@[i as int]@));
                before.lemma_push_to_set_commute(key_ids@[i as int]@);
                assert(keys@ =~= stored_for(old_stored, pair) + strings_view(key_ids@.subrange(0, i + 1)).to_set());
            }
            i = i + 1;
        }
        assert(key_ids@.subrange(0, key_ids@.len() as int) =~= key_ids@);
        stored_keys.insert((sae_pair.0.clone(), sae_pair.1.clone()), keys);
        *self = EtsiToSkipContext { peer_providers, stored_keys, peer_clients, connected_sae_ids, provider_id };
        assert(self.stored() =~= stored_after_announce(old_stored, pair, strings_view(key_ids@)));
    }
}


/// Handing out a key of one pair leaves every other pair's stored keys as they
/// were, and takes exactly that key from the pair's own keys.
pub proof fn law_removal_touches_only_its_pair(
    stored: Map<PairView, Set<Seq<char>>>,
    pair: PairView,
    key: Seq<char>,
    other: PairView,
    x: Seq<char>,
)
    ensures
        other != pair ==> stored_for(stored_after_removal(stored, pair, key), other) == stored_for(stored, other),
        other != pair ==> (stored_after_removal(stored, pair, key).contains_key(other) <==> stored.contains_key(other)),
        stored_for(stored_after_removal(stored, pair, key), pair).contains(x) <==> (stored_for(stored, pair).contains(x)
            && x != key),
{
}

/// Announcing keys for one pair leaves every other pair's stored keys as they were;
/// the pair itself then holds exactly its earlier keys and the announced ones.
pub proof fn law_announce_touches_only_its_pair(
    stored: Map<PairView, Set<Seq<char>>>,
    pair: PairView,
    ids: Seq<Seq<char>>,
    other: PairView,
    x: Seq<char>,
)
    ensures
        other != pair ==> stored_for(stored_after_announce(stored, pair, ids), other) == stored_for(stored, other),
        other != pair ==> (stored_after_announce(stored, pair, ids).contains_key(other) <==> stored.contains_key(other)),
        stored_after_announce(stored, pair, ids).contains_key(pair),
        stored_for(stored_after_announce(stored, pair, ids), pair).contains(x) <==> (stored_for(stored, pair).contains(x)
            || (exists|i: int| 0 <= i < ids.len() && ids[i] == x)),
{
}

/// Keys that a peer announced for a pair are accepted when an SAE of that pair asks
/// for them.
pub proof fn law_announced_keys_are_accepted(
    stored: Map<PairView, Set<Seq<char>>>,
    pair: PairView,
    announced: Seq<Seq<char>>,
    requested: Seq<Seq<char>>,
)
    requires
        forall|i: int| 0 <= i < requested.len() ==> announced.contains(#[trigger] requested[i]),
    ensures
        check_result(stored_after_announce(stored, pair, announced), pair, requested) is Ok,
{
    let after = stored_after_announce(stored, pair, announced);
    assert forall|j: int| 0 <= j < requested.len() implies after[pair].contains(#[trigger] requested[j]) by {
        assert(announced.contains(requested[j]));
    }
    lemma_first_unknown(after[pair], requested, 0);
}

/// A key handed out for a pair is refused when it is asked for again.
pub proof fn law_handed_out_key_is_refused(
    stored: Map<PairView, Set<Seq<char>>>,
    pair: PairView,
    key: Seq<char>,
    requested: Seq<Seq<char>>,
)
    requires
        requested.contains(key),
    ensures
        check_result(stored_after_removal(stored, pair, key), pair, requested) is Err,
        !stored_for(stored_after_removal(stored, pair, key), pair).contains(key),
{
    let after = stored_after_removal(stored, pair, key);
    if after.contains_key(pair) {
        let j = choose|j: int| 0 <= j < requested.len() && requested[j] == key;
        lemma_first_unknown(after[pair], requested, 0);
        assert(!after[pair].contains(requested[j]));
    }
}

/// Announcing keys that were not stored yet raises the stored count of the pair by
/// their number.
pub proof fn law_announce_raises_count(
    stored: Map<PairView, Set<Seq<char>>>,
    pair: PairView,
    ids: Seq<Seq<char>>,
)
    requires
        stored_for(stored, pair).finite(),
        ids.no_duplicates(),
        forall|i: int| 0 <= i < ids.len() ==> !stored_for(stored, pair).contains(#[trigger] ids[i]),
    ensures
        stored_count(stored_after_announce(stored, pair, ids), pair) == stored_count(stored, pair) + ids.len(),
{
    let old_set = stored_for(stored, pair);
    ids.unique_seq_to_set();
    assert(old_set.disjoint(ids.to_set())) by {
        assert forall|x: Seq<char>| old_set.contains(x) implies !ids.to_set().contains(x) by {
            if ids.to_set().contains(x) {
                let i = choose|i: int| 0 <= i < ids.len() && ids[i] == x;
                assert(!old_set.contains(ids[i]));
            }
        }
    }
    vstd::set_lib::lemma_set_disjoint_lens(old_set, ids.to_set());
    if !stored.contains_key(pair) {
        assert(old_set =~= Set::<Seq<char>>::empty());
    }
}

/// Once a peer registered, each SAE it announced is served by its key provider, and
/// every other SAE keeps the provider it had.
pub proof fn law_registered_saes_resolve(
    providers: Map<Seq<char>, Seq<char>>,
    provider: Seq<char>,
    saes: Seq<Seq<char>>,
    sae: Seq<char>,
)
    ensures
        saes.contains(sae) ==> providers_after_register(providers, provider, saes).contains_key(sae)
            && providers_after_register(providers, provider, saes)[sae] == provider,
        !saes.contains(sae) ==> providers_after_register(providers, provider, saes).contains_key(sae)
            == providers.contains_key(sae),
        !saes.contains(sae) && providers.contains_key(sae) ==> providers_after_register(providers, provider, saes)[sae]
            == providers[sae],
{
}

/// The identifiers carried by a sequence of SAE messages.
pub open spec fn sae_ids_view(saes: Seq<SaeId>) -> Seq<Seq<char>> {
    saes.map_values(|s: SaeId| s.id@)
}

impl<C> EtsiToSkipContext<C> {
    /// Registers the converter of a peer key provider and the remote SAEs it serves;
    /// a provider registered before keeps only the new client.
    pub fn register_peer(&mut self, provider_id: String, client: C, connected_sae: Vec<SaeId>)
        ensures
            final(self).clients() == old(self).clients().insert(provider_id@, client),
            final(self).providers() == providers_after_register(old(self).providers(), provider_id@, sae_ids_view(connected_sae@)),
            final(self).stored() == old(self).stored(),
            final(self).connected() == old(self).connected(),
            final(self).local_provider() == old(self).local_provider(),
    {
        proof { use_type_invariant(&*self); }
        let ghost old_providers = self.providers();
        let ghost provider = provider_id@;
        let ghost saes = sae_ids_view(connected_sae@);
        let mut taken = Self::placeholder();
        std::mem::swap(&mut taken, self);
        let EtsiToSkipContext { mut peer_providers, stored_keys, mut peer_clients, connected_sae_ids, provider_id: local } = taken;
        assert(reachable(peer_providers@, peer_clients@));
        peer_clients.insert(provider_id.clone(), client);
        let mut i: usize = 0;
        while i < connected_sae.len()
            invariant
                i <= connected_sae@.len(),
                saes == sae_ids_view(connected_sae@),
                provider == provider_id@,
                peer_clients@.contains_key(provider),
                reachable(peer_providers@, peer_clients@),
                peer_providers@.map_values(|p: String| p@)
                    == providers_after_register(old_providers, provider, saes.subrange(0, i as int)),
            decreases connected_sae@.len() - i,
        {
            let ghost before = peer_providers@.map_values(|p: String| p@);
            let ghost before_raw = peer_providers@;
            let sae = connected_sae[i].id.clone();
            let prov = provider_id.clone();
            assert(saes[i as int] == sae@);
            assert(prov@ == provider);
            peer_providers.insert(sae, prov);
            proof {
                assert(peer_providers@ == before_raw.insert(saes[i as int], prov));
                assert(peer_providers@[saes[i as int]]@ == provider);
                assert forall|k: Seq<char>| #[trigger] peer_providers@.contains_key(k) implies peer_clients@.contains_key(peer_providers@[k]@) by {
                    if k != saes[i as int] {
                        assert(before_raw.contains_key(k));
                    }
                }
                let prefix = saes.subrange(0, i + 1);
                assert(prefix =~= saes.subrange(0, i as int).push(saes[i as int]));
                assert forall|k: Seq<char>| #[trigger] prefix.contains(k) <==> (saes.subrange(0, i as int).contains(k) || k == saes[i as int]) by {
                    if prefix.contains(k) {
                        let j = choose|j: int| 0 <= j < prefix.len() && prefix[j] == k;
                        if j < i {
                            assert(saes.subrange(0, i as int)[j] == k);
                        }
                    }
                    if saes.subrange(0, i as int).contains(k) {
                        let j = choose|j: int| 0 <= j < i && saes.subrange(0, i as int)[j] == k;
                        assert(prefix[j] == k);
                    }
                    if k == saes[i as int] {
                        assert(prefix[i as int] == k);
                    }
                }
                let after = peer_providers@.map_values(|p: String| p@);
                let target = providers_after_register(old_providers, provider, prefix);
                assert forall|k: Seq<char>| #[trigger] after.contains_key(k) <==> target.contains_key(k) by {
                    if k != saes[i as int] {
                        assert(before.contains_key(k) == before_raw.contains_key(k));
                    }
                }
                assert forall|k: Seq<char>| #[trigger] after.contains_key(k) implies after[k] == target[k] by {
                    if k != saes[i as int] {
                        assert(before_raw.contains_key(k));
                        assert(before[k] == before_raw[k]@);
                    }
                }
                assert(after =~= target);
            }
            i = i + 1;
        }
        assert(saes.subrange(0, connected_sae@.len() as int) =~= saes);
        *self = EtsiToSkipContext { peer_providers, stored_keys, peer_clients, connected_sae_ids, provider_id: local };
    }

    /// Checks that every requested key identifier was announced for the pair.
    pub fn check_keys(&self, sae_pair: &SaePair, keys: &GetKeysWithId) -> (res: Result<(), String>)
        ensures
            match res {
                Ok(()) => check_result(self.stored(), pair_view(sae_pair), requested_ids(keys)) is Ok,
                Err(m) => check_result(self.stored(), pair_view(sae_pair), requested_ids(keys)) == Err::<(), Seq<char>>(m@),
            },
    {
        let ghost ids = requested_ids(keys);
        match self.stored_keys.get(sae_pair) {
            None => {
                let mut m = String::new();
                m.append("No keys stored for SAE pair (");
                m.append(sae_pair.0.as_str());
                m.append(", ");
                m.append(sae_pair.1.as_str());
                m.append(")");
                assert(m@ =~= no_keys_message(pair_view(sae_pair)));
                Err(m)
            },
            Some(stored) => {
                let ghost known = stored@;
                assert(self.stored().contains_key(pair_view(sae_pair)));
                assert(self.stored()[pair_view(sae_pair)] == known);
                let mut i: usize = 0;
                while i < keys.key_IDs.len()
                    invariant
                        i <= keys.key_IDs@.len(),
                        ids == requested_ids(keys),
                        ids.len() == keys.key_IDs@.len(),
                        known == stored@,
                        self.stored().contains_key(pair_view(sae_pair)),
                        self.stored()[pair_view(sae_pair)] == known,
                        first_unknown(known, ids, 0) == first_unknown(known, ids, i as int),
                    decreases keys.key_IDs@.len() - i,
                {
                    let id = &keys.key_IDs[i].key_ID;
                    assert(ids[i as int] == id@);
                    if !stored.contains(id) {
                        let mut m = String::new();
                        m.append(sae_pair.1.as_str());
                        m.append(" requested an invalid key id: ");
                        m.append(id.as_str());
                        assert(m@ =~= invalid_key_message(sae_pair.1@, id@));
                        return Err(m);
                    }
                    i = i + 1;
                }
                Ok(())
            },
        }
    }

    /// Forgets a key that was handed out for the pair; returns whether it was stored.
    pub fn remove_key(&mut self, sae_pair: &SaePair, key: &String) -> (res: bool)
        ensures
            final(self).stored() == stored_after_removal(old(self).stored(), pair_view(sae_pair), key@),
            res == (old(self).stored().contains_key(pair_view(sae_pair)) && old(self).stored()[pair_view(sae_pair)].contains(key@)),
            final(self).providers() == old(self).providers(),
            final(self).clients() == old(self).clients(),
            final(self).connected() == old(self).connected(),
            final(self).local_provider() == old(self).local_provider(),
    {
        proof { use_type_invariant(&*self); }
        let ghost old_stored = self.stored();
        let mut taken = Self::placeholder();
        std::mem::swap(&mut taken, self);
        let EtsiToSkipContext { peer_providers, mut stored_keys, peer_clients, connected_sae_ids, provider_id } = taken;
        assert(reachable(peer_providers@, peer_clients@));
        let res = match stored_keys.take(sae_pair) {
            Some(mut keys) => {
                let removed = keys.remove(key);
                stored_keys.insert((sae_pair.0.clone(), sae_pair.1.clone()), keys);
                assert(stored_keys@.map_values(|s: StringSet| s@) =~= stored_after_removal(old_stored, pair_view(sae_pair), key@));
                removed
            },
            None => {
                assert(stored_keys@.map_values(|s: StringSet| s@) =~= old_stored);
                false
            },
        };
        *self = EtsiToSkipContext { peer_providers, stored_keys, peer_clients, connected_sae_ids, provider_id };
        res
    }

    /// The SAEs that this converter serves, each once.
    pub fn connected_sae(&self) -> (res: Vec<SaeId>)
        ensures
            sae_ids_view(res@).no_duplicates(),
            sae_ids_view(res@).to_set() == self.connected(),
    {
        let ids = self.connected_sae_ids.to_vec();
        let mut out: Vec<SaeId> = Vec::new();
        let mut i: usize = 0;
        while i < ids.len()
            invariant
                i <= ids@.len(),
                sae_ids_view(out@) == strings_view(ids@).subrange(0, i as int),
            decreases ids@.len() - i,
        {
            let ghost before = out@;
            out.push(SaeId { id: ids[i].clone() });
            assert(sae_ids_view(out@) =~= sae_ids_view(before).push(ids@[i as int]@));
            assert(strings_view(ids@).subrange(0, i + 1) =~= strings_view(ids@).subrange(0, i as int).push(ids@[i as int]@));
            i = i + 1;
        }
        assert(strings_view(ids@).subrange(0, ids@.len() as int) =~= strings_view(ids@));
        out
    }
}

} // verus!
