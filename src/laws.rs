//! Properties of the mint transition, proved from its outcome.
use vstd::prelude::*;

use crate::pallet::{is_kitty_id, mint_outcome, PalletModel};
use crate::types::{new_kitty, AccountId, Error, Gender, KittyId};

verus! {

/// A successful mint returns the identifier of the kitty built from the
/// owner, the code, no price and the sex.
pub proof fn lemma_mint_returns_content_id(
    pre: PalletModel,
    post: PalletModel,
    owner: AccountId,
    dna: [u8; 16],
    gender: Gender,
    r: Result<KittyId, Error>,
)
    requires
        mint_outcome(pre, post, owner, dna, gender, r),
        r is Ok,
    ensures
        is_kitty_id(r->Ok_0, new_kitty(owner, dna, gender)),
{
}

/// After a successful mint the registry holds the new kitty under its
/// identifier, the owner's list holds the identifier once more than before
/// (exactly once if it did not hold it), and the count has grown by one.
pub proof fn lemma_mint_success(
    pre: PalletModel,
    post: PalletModel,
    owner: AccountId,
    dna: [u8; 16],
    gender: Gender,
    r: Result<KittyId, Error>,
)
    requires
        mint_outcome(pre, post, owner, dna, gender, r),
        r is Ok,
    ensures
        post.kitties.contains_key(r->Ok_0),
        post.kitties[r->Ok_0] == new_kitty(owner, dna, gender),
        post.owned_by(owner).to_multiset().count(r->Ok_0) == pre.owned_by(owner).to_multiset().count(
            r->Ok_0,
        ) + 1,
        !pre.owned_by(owner).contains(r->Ok_0) ==> post.owned_by(owner).to_multiset().count(r->Ok_0)
            == 1,
        post.count == pre.count + 1,
{
    broadcast use vstd::seq_lib::group_to_multiset_ensures;

    let id = r->Ok_0;
    assert(post.owned_by(owner) == pre.owned_by(owner).push(id));
    assert(post.owned_by(owner).to_multiset() =~= pre.owned_by(owner).to_multiset().insert(id));
}

/// A mint for an owner whose list is full fails with `ExceedMaxKittyOwned`
/// and changes nothing, provided the count can still grow.
pub proof fn lemma_mint_at_capacity(
    pre: PalletModel,
    post: PalletModel,
    owner: AccountId,
    dna: [u8; 16],
    gender: Gender,
    r: Result<KittyId, Error>,
)
    requires
        mint_outcome(pre, post, owner, dna, gender, r),
        pre.count < u64::MAX,
        pre.owned_by(owner).len() == pre.max_owned,
    ensures
        r == Err::<KittyId, Error>(Error::ExceedMaxKittyOwned),
        post == pre,
{
}

/// Once the count is at its largest value every mint fails with
/// `KittyCountOverflow` and changes nothing, whatever the owner holds.
pub proof fn lemma_mint_count_saturated(
    pre: PalletModel,
    post: PalletModel,
    owner: AccountId,
    dna: [u8; 16],
    gender: Gender,
    r: Result<KittyId, Error>,
)
    requires
        mint_outcome(pre, post, owner, dna, gender, r),
        pre.count == u64::MAX,
    ensures
        r == Err::<KittyId, Error>(Error::KittyCountOverflow),
        post == pre,
{
}

/// Two successful mints of the same owner, code and sex return the same
/// identifier, from any states. When the second follows the first, it leaves
/// the registry as the first left it and lists the identifier a second time.
pub proof fn lemma_same_content_same_id(
    pre1: PalletModel,
    post1: PalletModel,
    r1: Result<KittyId, Error>,
    pre2: PalletModel,
    post2: PalletModel,
    r2: Result<KittyId, Error>,
    owner: AccountId,
    dna: [u8; 16],
    gender: Gender,
)
    requires
        mint_outcome(pre1, post1, owner, dna, gender, r1),
        mint_outcome(pre2, post2, owner, dna, gender, r2),
        r1 is Ok,
        r2 is Ok,
    ensures
        r1 == r2,
        pre2 == post1 ==> post2.kitties == post1.kitties,
        pre2 == post1 ==> post2.owned_by(owner) == post1.owned_by(owner).push(r1->Ok_0),
{
    assert(r1->Ok_0 =~= r2->Ok_0);
    if pre2 == post1 {
        assert(post2.kitties =~= post1.kitties);
    }
}

} // verus!
