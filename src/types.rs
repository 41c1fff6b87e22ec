use vstd::prelude::*;

verus! {

/// The identifier of a kitty: the 256-bit hash of its encoded content.
pub type KittyId = [u8; 32];

/// An account identifier.
pub type AccountId = [u8; 32];

/// The sex of a kitty.
#[derive(Clone, Copy, Debug, PartialEq, Eq, Structural)]
pub enum Gender {
    Male,
    Female,
}

impl Default for Gender {
    fn default() -> (r: Gender)
        ensures
            r == Gender::Male,
    {
        Gender::Male
    }
}

/// A minted record.
#[derive(Clone, Copy, Debug, PartialEq, Eq)]
pub struct Kitty {
    pub dna: [u8; 16],
    pub price: Option<u128>,
    pub gender: Gender,
    pub owner: AccountId,
}

/// Why a mint was refused.
#[derive(Clone, Copy, Debug, PartialEq, Eq, Structural)]
pub enum Error {
    /// The global count is already at its largest value.
    KittyCountOverflow,
    /// The owner already holds as many kitties as allowed.
    ExceedMaxKittyOwned,
}

/// What a successful mint announces.
#[derive(Clone, Copy, Debug, PartialEq, Eq)]
pub enum Event {
    /// `Created(owner, id)`.
    Created(AccountId, KittyId),
}

/// The kitty that a mint builds: no price, the given owner, code and sex.
pub open spec fn new_kitty(owner: AccountId, dna: [u8; 16], gender: Gender) -> Kitty {
    Kitty { dna, price: None, gender, owner }
}

/// The `n` low bytes of `x`, least significant first.
pub open spec fn le_bytes(x: nat, n: nat) -> Seq<u8>
    decreases n,
{
    if n == 0 {
        Seq::empty()
    } else {
        seq![(x % 256) as u8] + le_bytes(x / 256, (n - 1) as nat)
    }
}

/// The one-byte tag of a sex.
pub open spec fn gender_byte(g: Gender) -> u8 {
    match g {
        Gender::Male => 0,
        Gender::Female => 1,
    }
}

/// An optional balance: a zero tag, or a one tag and sixteen little-endian bytes.
pub open spec fn encode_price(p: Option<u128>) -> Seq<u8> {
    match p {
        None => seq![0u8],
        Some(b) => seq![1u8] + le_bytes(b as nat, 16),
    }
}

/// The canonical encoding of a kitty: code, price, sex, owner, field by field.
pub open spec fn encode_kitty_spec(k: Kitty) -> Seq<u8> {
    k.dna@ + encode_price(k.price) + seq![gender_byte(k.gender)] + k.owner@
}

/// The encoding of a random seed together with a block height.
pub open spec fn encode_seed_height(seed: Seq<u8>, height: u64) -> Seq<u8> {
    seed + le_bytes(height as nat, 8)
}

/// Appends `bytes` to `out`.
pub fn push_bytes(out: &mut Vec<u8>, bytes: &[u8])
    ensures
        final(out)@ == old(out)@ + bytes@,
{
    let ghost start = out@;
    let mut i: usize = 0;
    while i < bytes.len()
        invariant
            i <= bytes@.len(),
            out@ == start + bytes@.subrange(0, i as int),
        decreases bytes@.len() - i,
    {
        out.push(bytes[i]);
        i = i + 1;
        assert(out@ =~= start + bytes@.subrange(0, i as int));
    }
    assert(bytes@.subrange(0, i as int) =~= bytes@);
}

/// Appends the `n` low bytes of `x` to `out`, least significant first.
pub fn push_le(out: &mut Vec<u8>, x: u128, n: usize)
    ensures
        final(out)@ == old(out)@ + le_bytes(x as nat, n as nat),
{
    let ghost start = out@;
    let mut rest: u128 = x;
    let mut i: usize = 0;
    while i < n
        invariant
            i <= n,
            out@ + le_bytes(rest as nat, (n - i) as nat) == start + le_bytes(x as nat, n as nat),
        decreases n - i,
    {
        let ghost before = out@;
        let b: u8 = (rest % 256) as u8;
        assert(le_bytes(rest as nat, (n - i) as nat) =~= seq![b] + le_bytes(
            (rest / 256) as nat,
            (n - i - 1) as nat,
        ));
        out.push(b);
        rest = rest / 256;
        i = i + 1;
        assert(out@ + le_bytes(rest as nat, (n - i) as nat) =~= before + (seq![b] + le_bytes(
            rest as nat,
            (n - i) as nat,
        )));
    }
    assert(le_bytes(rest as nat, 0) =~= Seq::<u8>::empty());
    assert(out@ =~= out@ + le_bytes(rest as nat, 0));
}

/// The canonical encoding of a kitty.
pub fn encode_kitty(k: &Kitty) -> (r: Vec<u8>)
    ensures
        r@ == encode_kitty_spec(*k),
{
    let mut out: Vec<u8> = Vec::new();
    push_bytes(&mut out, &k.dna);
    match k.price {
        None => {
            out.push(0u8);
        },
        Some(b) => {
            out.push(1u8);
            push_le(&mut out, b, 16);
        },
    }
    let g: u8 = match k.gender {
        Gender::Male => 0,
        Gender::Female => 1,
    };
    out.push(g);
    push_bytes(&mut out, &k.owner);
    assert(out@ =~= encode_kitty_spec(*k));
    out
}

/// The encoding of a random seed together with a block height.
pub fn encode_seed_height_bytes(seed: &[u8; 32], height: u64) -> (r: Vec<u8>)
    ensures
        r@ == encode_seed_height(seed@, height),
{
    let mut out: Vec<u8> = Vec::new();
    push_bytes(&mut out, seed);
    push_le(&mut out, height as u128, 8);
    out
}

} // verus!
