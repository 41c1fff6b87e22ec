//! The registry state and the mint transition.
use vstd::prelude::*;

use crate::hashing::{blake2_128, blake2_128_of, blake2_256, blake2_256_of};
use crate::store::{
    copy_ids, find_key, keys_unique, lemma_map_of_index, lemma_map_of_keys, lemma_map_of_push,
    lemma_map_of_update, map_of,
};
use crate::types::{
    encode_kitty, encode_kitty_spec, encode_seed_height, encode_seed_height_bytes, new_kitty,
    AccountId, Error, Event, Gender, Kitty, KittyId,
};

verus! {

/// What the registry state means: the global count, the registry from
/// identifier to kitty, the ownership lists and their capacity.
pub struct PalletModel {
    pub count: u64,
    pub kitties: Map<KittyId, Kitty>,
    pub owned: Map<AccountId, Seq<KittyId>>,
    pub max_owned: u32,
}

impl PalletModel {
    /// The identifiers that `a` owns, in the order they were added; empty for
    /// an account that never owned any.
    pub open spec fn owned_by(self, a: AccountId) -> Seq<KittyId> {
        if self.owned.contains_key(a) {
            self.owned[a]
        } else {
            Seq::empty()
        }
    }

    /// Every ownership list is within capacity and names registered kitties,
    /// and every registered kitty is listed under its owner and stored under
    /// the identifier of its content.
    pub open spec fn wf(self) -> bool {
        &&& forall|a: AccountId| #[trigger]
            self.owned.contains_key(a) ==> self.owned[a].len() <= self.max_owned
        &&& forall|a: AccountId, i: int|
            self.owned.contains_key(a) && 0 <= i < self.owned[a].len()
                ==> self.kitties.contains_key(#[trigger] self.owned[a][i])
        &&& forall|id: KittyId| #[trigger]
            self.kitties.contains_key(id) ==> self.owned_by(self.kitties[id].owner).contains(id)
        &&& forall|id: KittyId| #[trigger]
            self.kitties.contains_key(id) ==> is_kitty_id(id, self.kitties[id])
    }

    /// The state after `k` is committed under `id`.
    pub open spec fn with_kitty(self, id: KittyId, k: Kitty) -> PalletModel {
        PalletModel {
            count: (self.count + 1) as u64,
            kitties: self.kitties.insert(id, k),
            owned: self.owned.insert(k.owner, self.owned_by(k.owner).push(id)),
            max_owned: self.max_owned,
        }
    }
}

/// The outcome of committing `k`: the count is checked first, then the
/// owner's capacity; on either failure nothing changes.
pub open spec fn commit_outcome(
    pre: PalletModel,
    post: PalletModel,
    k: Kitty,
    r: Result<KittyId, Error>,
) -> bool {
    if pre.count == u64::MAX {
        r == Err::<KittyId, Error>(Error::KittyCountOverflow) && post == pre
    } else if pre.owned_by(k.owner).len() >= pre.max_owned {
        r == Err::<KittyId, Error>(Error::ExceedMaxKittyOwned) && post == pre
    } else {
        r is Ok && post == pre.with_kitty(r->Ok_0, k)
    }
}

/// The identifier of a kitty: the Blake2-256 digest of its encoding.
pub open spec fn is_kitty_id(id: KittyId, k: Kitty) -> bool {
    id@ == blake2_256_of(encode_kitty_spec(k))
}

/// The outcome of minting a kitty of `owner` with the given code and sex.
pub open spec fn mint_outcome(
    pre: PalletModel,
    post: PalletModel,
    owner: AccountId,
    dna: [u8; 16],
    gender: Gender,
    r: Result<KittyId, Error>,
) -> bool {
    &&& commit_outcome(pre, post, new_kitty(owner, dna, gender), r)
    &&& r is Ok ==> is_kitty_id(r->Ok_0, new_kitty(owner, dna, gender))
}

/// The result of a creation request whose mint ended in `m`.
pub open spec fn created(sender: AccountId, m: Result<KittyId, Error>) -> Result<Event, Error> {
    match m {
        Ok(id) => Ok(Event::Created(sender, id)),
        Err(e) => Err(e),
    }
}

/// What a random seed is drawn for; each subject gets a seed of its own.
#[derive(Clone, Copy, Debug, PartialEq, Eq, Structural)]
pub enum Subject {
    Dna,
    Gender,
}

impl Subject {
    /// The label under which a source draws for this subject.
    pub fn label(&self) -> (r: &'static str)
        ensures
            r@ == subject_label(*self),
    {
        match self {
            Subject::Dna => "dna",
            Subject::Gender => "gender",
        }
    }
}

/// The label of a subject: "dna" or "gender".
pub open spec fn subject_label(s: Subject) -> Seq<char> {
    match s {
        Subject::Dna => "dna"@,
        Subject::Gender => "gender"@,
    }
}

/// Where randomness and the block height come from. Both are fixed for a
/// given source: the same subject always gives the same seed.
pub trait Config {
    /// The seed that the source gives for `subject`.
    spec fn seed_of(&self, subject: Subject) -> [u8; 32];

    /// The block height that the source reports.
    spec fn height(&self) -> u64;

    /// A random seed for the given subject.
    fn random(&self, subject: Subject) -> (r: [u8; 32])
        ensures
            r == self.seed_of(subject),
    ;

    /// The current block height.
    fn block_number(&self) -> (r: u64)
        ensures
            r == self.height(),
    ;
}

/// A source that gives fixed seeds and a fixed height.
pub struct SeededSource {
    pub dna_seed: [u8; 32],
    pub gender_seed: [u8; 32],
    pub height: u64,
}

impl Config for SeededSource {
    open spec fn seed_of(&self, subject: Subject) -> [u8; 32] {
        match subject {
            Subject::Dna => self.dna_seed,
            Subject::Gender => self.gender_seed,
        }
    }

    open spec fn height(&self) -> u64 {
        self.height
    }

    fn random(&self, subject: Subject) -> (r: [u8; 32]) {
        match subject {
            Subject::Dna => self.dna_seed,
            Subject::Gender => self.gender_seed,
        }
    }

    fn block_number(&self) -> (r: u64) {
        self.height
    }
}

/// The sex that a seed gives: the parity of its first byte.
pub open spec fn gender_of_seed(seed: [u8; 32]) -> Gender {
    if seed@[0] % 2 == 0 {
        Gender::Male
    } else {
        Gender::Female
    }
}

/// The genetic code that `cfg` gives: the Blake2-128 digest of the seed for
/// `Subject::Dna` encoded with the block height.
pub open spec fn dna_drawn_by<C: Config>(cfg: &C) -> Seq<u8> {
    blake2_128_of(encode_seed_height(cfg.seed_of(Subject::Dna)@, cfg.height()))
}

/// The sex that `cfg` gives: from the seed for `Subject::Gender`.
pub open spec fn gender_drawn_by<C: Config>(cfg: &C) -> Gender {
    gender_of_seed(cfg.seed_of(Subject::Gender))
}

/// The registry state: the global count, the registry, and the ownership
/// index with its capacity.
pub struct Pallet {
    kitty_count: u64,
    kitties: Vec<(KittyId, Kitty)>,
    kitties_owned: Vec<(AccountId, Vec<KittyId>)>,
    max_kitty_owned: u32,
}

impl View for Pallet {
    type V = PalletModel;

    closed spec fn view(&self) -> PalletModel {
        PalletModel {
            count: self.kitty_count,
            kitties: map_of(self.kitties@),
            owned: map_of(self.kitties_owned@).map_values(|v: Vec<KittyId>| v@),
            max_owned: self.max_kitty_owned,
        }
    }
}

/// The identifier of a kitty: the Blake2-256 digest of its encoding.
pub fn kitty_id(k: &Kitty) -> (r: KittyId)
    ensures
        is_kitty_id(r, *k),
{
    let bytes = encode_kitty(k);
    blake2_256(&bytes)
}

/// A genetic code drawn from a seed and a block height: the Blake2-128
/// digest of the two encoded together.
pub fn dna_from_seed(seed: &[u8; 32], height: u64) -> (r: [u8; 16])
    ensures
        r@ == blake2_128_of(encode_seed_height(seed@, height)),
{
    let bytes = encode_seed_height_bytes(seed, height);
    blake2_128(&bytes)
}

/// A sex drawn from a seed: the parity of its first byte.
pub fn gender_from_seed(seed: &[u8; 32]) -> (r: Gender)
    ensures
        r == gender_of_seed(*seed),
{
    if seed[0] % 2 == 0 {
        Gender::Male
    } else {
        Gender::Female
    }
}

/// Committing a kitty to a well-formed state within the owner's capacity
/// keeps it well formed.
pub proof fn lemma_with_kitty_wf(m: PalletModel, id: KittyId, k: Kitty)
    requires
        m.wf(),
        m.owned_by(k.owner).len() < m.max_owned,
        is_kitty_id(id, k),
    ensures
        m.with_kitty(id, k).wf(),
{
    let n = m.with_kitty(id, k);
    let list = m.owned_by(k.owner).push(id);
    assert forall|a: AccountId, i: int|
        n.owned.contains_key(a) && 0 <= i < n.owned[a].len() implies n.kitties.contains_key(
        #[trigger] n.owned[a][i],
    ) by {
        if a == k.owner {
            if i < list.len() - 1 {
                assert(m.owned.contains_key(a) && m.owned[a][i] == n.owned[a][i]);
            }
        } else {
            assert(m.owned[a][i] == n.owned[a][i]);
        }
    }
    assert forall|x: KittyId| #[trigger]
        n.kitties.contains_key(x) implies n.owned_by(n.kitties[x].owner).contains(x) by {
        if x == id {
            assert(n.owned_by(k.owner)[list.len() - 1] == id);
        } else {
            let o = m.kitties[x].owner;
            assert(m.owned_by(o).contains(x));
            let j = choose|j: int| 0 <= j < m.owned_by(o).len() && m.owned_by(o)[j] == x;
            if o == k.owner {
                assert(n.owned_by(o)[j] == x);
            } else {
                assert(n.owned_by(o) == m.owned_by(o));
            }
        }
    }
}

impl Pallet {
    /// Well formed: keys unique in both lists, and the model well formed.
    pub closed spec fn wf(&self) -> bool {
        &&& keys_unique(self.kitties@)
        &&& keys_unique(self.kitties_owned@)
        &&& self@.wf()
    }

    /// An empty state whose owners may hold up to `max_kitty_owned` kitties each.
    pub fn new(max_kitty_owned: u32) -> (r: Pallet)
        ensures
            r.wf(),
            r@.wf(),
            r@.count == 0,
            r@.kitties == Map::<KittyId, Kitty>::empty(),
            r@.owned == Map::<AccountId, Seq<KittyId>>::empty(),
            r@.max_owned == max_kitty_owned,
    {
        Self::with_count(max_kitty_owned, 0)
    }

    /// A state that holds no kitties and whose count starts at `kitty_count`.
    pub fn with_count(max_kitty_owned: u32, kitty_count: u64) -> (r: Pallet)
        ensures
            r.wf(),
            r@.wf(),
            r@.count == kitty_count,
            r@.kitties == Map::<KittyId, Kitty>::empty(),
            r@.owned == Map::<AccountId, Seq<KittyId>>::empty(),
            r@.max_owned == max_kitty_owned,
    {
        let r = Pallet { kitty_count, kitties: Vec::new(), kitties_owned: Vec::new(), max_kitty_owned };
        assert(r@.owned =~= Map::<AccountId, Seq<KittyId>>::empty());
        r
    }

    /// Commits `kitty` under its identifier `id`: checks that the count can grow and that the
    /// owner has room, then appends `id` to the owner's list, stores the kitty
    /// (replacing one stored under the same identifier) and counts it.
    pub fn commit_kitty(&mut self, id: KittyId, kitty: Kitty) -> (r: Result<KittyId, Error>)
        requires
            old(self).wf(),
            is_kitty_id(id, kitty),
        ensures
            final(self).wf(),
            final(self)@.wf(),
            commit_outcome(old(self)@, final(self)@, kitty, r),
            r is Ok ==> r->Ok_0 == id,
    {
        let ghost pre = self@;
        let new_count = match self.kitty_count.checked_add(1) {
            Some(c) => c,
            None => {
                return Err(Error::KittyCountOverflow);
            },
        };
        let pos = find_key(&self.kitties_owned, &kitty.owner);
        proof {
            lemma_map_of_keys(self.kitties_owned@, kitty.owner);
            if let Some(i) = pos {
                lemma_map_of_index(self.kitties_owned@, i as int);
            }
        }
        match pos {
            Some(i) => {
                assert(pre.owned_by(kitty.owner) == self.kitties_owned@[i as int].1@);
                if self.kitties_owned[i].1.len() >= self.max_kitty_owned as usize {
                    return Err(Error::ExceedMaxKittyOwned);
                }
                let mut ids = copy_ids(&self.kitties_owned[i].1);
                ids.push(id);
                let ghost s = self.kitties_owned@;
                let ghost ids_v = ids;
                self.kitties_owned.set(i, (kitty.owner, ids));
                proof {
                    assert(self.kitties_owned@ == s.update(i as int, (s[i as int].0, ids_v)));
                    lemma_map_of_update(s, i as int, ids_v);
                    assert(keys_unique(self.kitties_owned@)) by {
                        assert forall|a: int, b: int|
                            0 <= a < self.kitties_owned@.len() && 0 <= b
                                < self.kitties_owned@.len() && a != b implies
                            #[trigger] self.kitties_owned@[a].0
                            != #[trigger] self.kitties_owned@[b].0 by {
                            assert(s[a].0 != s[b].0);
                        }
                    }
                }
            },
            None => {
                assert(pre.owned_by(kitty.owner) == Seq::<KittyId>::empty());
                if self.max_kitty_owned == 0 {
                    return Err(Error::ExceedMaxKittyOwned);
                }
                let mut ids: Vec<KittyId> = Vec::new();
                ids.push(id);
                let ghost s = self.kitties_owned@;
                let ghost ids_v = ids;
                self.kitties_owned.push((kitty.owner, ids));
                proof {
                    lemma_map_of_push(s, (kitty.owner, ids_v));
                    assert(ids_v@ =~= Seq::<KittyId>::empty().push(id));
                    assert(keys_unique(self.kitties_owned@)) by {
                        assert forall|a: int, b: int|
                            0 <= a < self.kitties_owned@.len() && 0 <= b
                                < self.kitties_owned@.len() && a != b implies
                            #[trigger] self.kitties_owned@[a].0
                            != #[trigger] self.kitties_owned@[b].0 by {
                            if a < s.len() && b < s.len() {
                                assert(s[a].0 != s[b].0);
                            }
                        }
                    }
                }
            },
        }
        let ghost s = self.kitties@;
        match find_key(&self.kitties, &id) {
            Some(j) => {
                self.kitties.set(j, (id, kitty));
                proof {
                    assert(self.kitties@ == s.update(j as int, (s[j as int].0, kitty)));
                    lemma_map_of_update(s, j as int, kitty);
                    assert(keys_unique(self.kitties@)) by {
                        assert forall|a: int, b: int|
                            0 <= a < self.kitties@.len() && 0 <= b < self.kitties@.len() && a
                                != b implies #[trigger] self.kitties@[a].0
                            != #[trigger] self.kitties@[b].0 by {
                            assert(s[a].0 != s[b].0);
                        }
                    }
                }
            },
            None => {
                self.kitties.push((id, kitty));
                proof {
                    lemma_map_of_push(s, (id, kitty));
                    assert(keys_unique(self.kitties@)) by {
                        assert forall|a: int, b: int|
                            0 <= a < self.kitties@.len() && 0 <= b < self.kitties@.len() && a
                                != b implies #[trigger] self.kitties@[a].0
                            != #[trigger] self.kitties@[b].0 by {
                            if a < s.len() && b < s.len() {
                                assert(s[a].0 != s[b].0);
                            }
                        }
                    }
                }
            },
        }
        self.kitty_count = new_count;
        proof {
            assert(self@.owned =~= pre.with_kitty(id, kitty).owned);
            assert(self@.kitties =~= pre.with_kitty(id, kitty).kitties);
            assert(self@ == pre.with_kitty(id, kitty));
            lemma_with_kitty_wf(pre, id, kitty);
        }
        Ok(id)
    }

    /// Mints a kitty of `owner` with the given code and sex: the identifier is
    /// the digest of the kitty's encoding, and the kitty is then committed.
    /// Kitties of identical content share an identifier: minting one again
    /// replaces the stored kitty with an equal one and lists the identifier a
    /// second time under its owner.
    pub fn mint_with(&mut self, owner: &AccountId, dna: [u8; 16], gender: Gender) -> (r: Result<
        KittyId,
        Error,
    >)
        requires
            old(self).wf(),
        ensures
            final(self).wf(),
            final(self)@.wf(),
            mint_outcome(old(self)@, final(self)@, *owner, dna, gender, r),
    {
        let kitty = Kitty { dna, price: None, gender, owner: *owner };
        let id = kitty_id(&kitty);
        self.commit_kitty(id, kitty)
    }

    /// A genetic code from the randomness drawn for `Subject::Dna` and the
    /// current block height.
    pub fn gen_dna<C: Config>(cfg: &C) -> (r: [u8; 16])
        ensures
            r@ == dna_drawn_by(cfg),
    {
        let seed = cfg.random(Subject::Dna);
        let height = cfg.block_number();
        dna_from_seed(&seed, height)
    }

    /// A sex from the randomness drawn for `Subject::Gender`.
    pub fn gen_gender<C: Config>(cfg: &C) -> (r: Gender)
        ensures
            r == gender_drawn_by(cfg),
    {
        let seed = cfg.random(Subject::Gender);
        gender_from_seed(&seed)
    }

    /// Mints a kitty of `owner`. A code or sex left out is drawn from `cfg`
    /// (see `gen_dna` and `gen_gender`); the outcome is that of `mint_with`.
    pub fn mint<C: Config>(
        &mut self,
        cfg: &C,
        owner: &AccountId,
        dna: Option<[u8; 16]>,
        gender: Option<Gender>,
    ) -> (r: Result<KittyId, Error>)
        requires
            old(self).wf(),
        ensures
            final(self).wf(),
            final(self)@.wf(),
            exists|d: [u8; 16], g: Gender|
                {
                    &&& #[trigger] mint_outcome(old(self)@, final(self)@, *owner, d, g, r)
                    &&& dna is Some ==> d == dna->Some_0
                    &&& dna is None ==> d@ == dna_drawn_by(cfg)
                    &&& gender is Some ==> g == gender->Some_0
                    &&& gender is None ==> g == gender_drawn_by(cfg)
                },
    {
        let d = match dna {
            Some(d) => d,
            None => Self::gen_dna(cfg),
        };
        let g = match gender {
            Some(g) => g,
            None => Self::gen_gender(cfg),
        };
        let r = self.mint_with(owner, d, g);
        assert(mint_outcome(old(self)@, self@, *owner, d, g, r));
        r
    }

    /// Mints a kitty of `sender` with a drawn code and sex, and on success
    /// returns the announcement of its creation.
    pub fn create_kitty<C: Config>(&mut self, cfg: &C, sender: &AccountId) -> (r: Result<
        Event,
        Error,
    >)
        requires
            old(self).wf(),
        ensures
            final(self).wf(),
            final(self)@.wf(),
            exists|d: [u8; 16], g: Gender, m: Result<KittyId, Error>|
                {
                    &&& #[trigger] mint_outcome(old(self)@, final(self)@, *sender, d, g, m)
                    &&& d@ == dna_drawn_by(cfg)
                    &&& g == gender_drawn_by(cfg)
                    &&& r == created(*sender, m)
                },
    {
        let m = self.mint(cfg, sender, None, None);
        match m {
            Ok(id) => Ok(Event::Created(*sender, id)),
            Err(e) => Err(e),
        }
    }

    /// The number of kitties ever minted.
    pub fn kitty_count(&self) -> (r: u64)
        ensures
            r == self@.count,
    {
        self.kitty_count
    }

    /// The capacity of each ownership list.
    pub fn max_kitty_owned(&self) -> (r: u32)
        ensures
            r == self@.max_owned,
    {
        self.max_kitty_owned
    }

    /// The kitty stored under `id`, if any.
    pub fn kitties(&self, id: &KittyId) -> (r: Option<Kitty>)
        requires
            self.wf(),
        ensures
            r == (if self@.kitties.contains_key(*id) {
                Some(self@.kitties[*id])
            } else {
                None
            }),
    {
        proof {
            lemma_map_of_keys(self.kitties@, *id);
        }
        match find_key(&self.kitties, id) {
            Some(i) => {
                proof {
                    lemma_map_of_index(self.kitties@, i as int);
                }
                Some(self.kitties[i].1)
            },
            None => None,
        }
    }

    /// The identifiers that `owner` owns, in the order they were added.
    pub fn kitties_owned(&self, owner: &AccountId) -> (r: Vec<KittyId>)
        requires
            self.wf(),
        ensures
            r@ == self@.owned_by(*owner),
    {
        proof {
            lemma_map_of_keys(self.kitties_owned@, *owner);
        }
        match find_key(&self.kitties_owned, owner) {
            Some(i) => {
                proof {
                    lemma_map_of_index(self.kitties_owned@, i as int);
                }
                copy_ids(&self.kitties_owned[i].1)
            },
            None => Vec::new(),
        }
    }
}

} // verus!
