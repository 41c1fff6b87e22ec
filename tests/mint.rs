use mykitties::pallet::{dna_from_seed, gender_from_seed, kitty_id, Config, Pallet, SeededSource, Subject};
use mykitties::types::{encode_kitty, encode_seed_height_bytes, Error, Event, Gender, Kitty};

const OWNER_A: [u8; 32] = [7u8; 32];
const OWNER_B: [u8; 32] = [8u8; 32];

fn code(n: u8) -> [u8; 16] {
    let mut d = [0u8; 16];
    for i in 0..16 {
        d[i] = n.wrapping_add(i as u8);
    }
    d
}

fn sample_code() -> [u8; 16] {
    let mut d = [0u8; 16];
    for i in 0..16 {
        d[i] = i as u8;
    }
    d
}

const ID_FEMALE: [u8; 32] = [
    235, 147, 189, 235, 45, 202, 186, 229, 162, 220, 214, 167, 56, 101, 102, 53, 200, 109, 189,
    150, 9, 66, 177, 71, 77, 116, 119, 217, 50, 189, 147, 222,
];
const ID_MALE: [u8; 32] = [
    0, 145, 128, 197, 79, 156, 150, 176, 233, 20, 35, 198, 164, 170, 139, 53, 211, 209, 86, 125,
    105, 53, 118, 221, 110, 92, 232, 154, 194, 204, 221, 74,
];
const DNA_FROM_NINES_AT_FIVE: [u8; 16] = [
    78, 79, 249, 28, 73, 196, 241, 193, 37, 156, 254, 60, 133, 183, 215, 89,
];

#[test]
fn gender_defaults_to_male() {
    assert_eq!(Gender::default(), Gender::Male);
}

#[test]
fn new_state_is_empty() {
    let p = Pallet::new(3);
    assert_eq!(p.kitty_count(), 0);
    assert_eq!(p.max_kitty_owned(), 3);
    assert!(p.kitties_owned(&OWNER_A).is_empty());
    assert_eq!(p.kitties(&ID_MALE), None);
}

#[test]
fn encoding_is_field_by_field() {
    let k = Kitty { dna: sample_code(), price: None, gender: Gender::Female, owner: OWNER_A };
    let e = encode_kitty(&k);
    assert_eq!(e.len(), 50);
    assert_eq!(&e[0..16], &sample_code()[..]);
    assert_eq!(e[16], 0);
    assert_eq!(e[17], 1);
    assert_eq!(&e[18..50], &OWNER_A[..]);
}

#[test]
fn encoding_of_a_price() {
    let k = Kitty { dna: [0u8; 16], price: Some(0x0102), gender: Gender::Male, owner: OWNER_B };
    let e = encode_kitty(&k);
    assert_eq!(e.len(), 66);
    assert_eq!(e[16], 1);
    assert_eq!(e[17], 0x02);
    assert_eq!(e[18], 0x01);
    assert!(e[19..33].iter().all(|b| *b == 0));
    assert_eq!(e[33], 0);
    assert_eq!(&e[34..66], &OWNER_B[..]);
}

#[test]
fn seed_and_height_encoding() {
    let e = encode_seed_height_bytes(&[9u8; 32], 0x0102_0304);
    assert_eq!(e.len(), 40);
    assert_eq!(&e[32..40], &[4, 3, 2, 1, 0, 0, 0, 0]);
}

#[test]
fn kitty_id_is_blake2_256_of_encoding() {
    let female = Kitty { dna: sample_code(), price: None, gender: Gender::Female, owner: OWNER_A };
    let male = Kitty { gender: Gender::Male, ..female };
    assert_eq!(kitty_id(&female), ID_FEMALE);
    assert_eq!(kitty_id(&male), ID_MALE);
}

#[test]
fn dna_is_blake2_128_of_seed_and_height() {
    assert_eq!(dna_from_seed(&[9u8; 32], 5), DNA_FROM_NINES_AT_FIVE);
    assert_ne!(dna_from_seed(&[9u8; 32], 6), DNA_FROM_NINES_AT_FIVE);
}

#[test]
fn gender_is_parity_of_first_byte() {
    let mut seed = [0u8; 32];
    assert_eq!(gender_from_seed(&seed), Gender::Male);
    seed[0] = 3;
    assert_eq!(gender_from_seed(&seed), Gender::Female);
    seed[0] = 200;
    assert_eq!(gender_from_seed(&seed), Gender::Male);
}

#[test]
fn mint_returns_content_hash() {
    let mut p = Pallet::new(5);
    let r = p.mint_with(&OWNER_A, sample_code(), Gender::Female);
    assert_eq!(r, Ok(ID_FEMALE));
}

#[test]
fn successful_mint_updates_registry_index_and_count() {
    let mut p = Pallet::new(5);
    let id = p.mint_with(&OWNER_A, sample_code(), Gender::Male).unwrap();
    assert_eq!(id, ID_MALE);
    let expected = Kitty { dna: sample_code(), price: None, gender: Gender::Male, owner: OWNER_A };
    assert_eq!(p.kitties(&id), Some(expected));
    assert_eq!(p.kitties_owned(&OWNER_A), vec![id]);
    assert!(p.kitties_owned(&OWNER_B).is_empty());
    assert_eq!(p.kitty_count(), 1);
}

#[test]
fn mint_at_capacity_changes_nothing() {
    let mut p = Pallet::new(1);
    let first = p.mint_with(&OWNER_A, code(1), Gender::Male).unwrap();
    let r = p.mint_with(&OWNER_A, code(2), Gender::Male);
    assert_eq!(r, Err(Error::ExceedMaxKittyOwned));
    assert_eq!(p.kitty_count(), 1);
    assert_eq!(p.kitties_owned(&OWNER_A), vec![first]);
    let other = Kitty { dna: code(2), price: None, gender: Gender::Male, owner: OWNER_A };
    assert_eq!(p.kitties(&kitty_id(&other)), None);
}

#[test]
fn zero_capacity_refuses_every_mint() {
    let mut p = Pallet::new(0);
    assert_eq!(p.mint_with(&OWNER_A, code(1), Gender::Male), Err(Error::ExceedMaxKittyOwned));
    assert_eq!(p.kitty_count(), 0);
    assert!(p.kitties_owned(&OWNER_A).is_empty());
}

#[test]
fn saturated_count_refuses_every_mint() {
    let mut p = Pallet::with_count(0, u64::MAX);
    assert_eq!(p.mint_with(&OWNER_A, code(1), Gender::Male), Err(Error::KittyCountOverflow));
    let mut q = Pallet::with_count(4, u64::MAX);
    assert_eq!(q.mint_with(&OWNER_B, code(1), Gender::Female), Err(Error::KittyCountOverflow));
    assert_eq!(q.kitty_count(), u64::MAX);
    assert!(q.kitties_owned(&OWNER_B).is_empty());
}

#[test]
fn count_one_below_the_maximum_still_mints() {
    let mut p = Pallet::with_count(4, u64::MAX - 1);
    assert!(p.mint_with(&OWNER_A, code(1), Gender::Male).is_ok());
    assert_eq!(p.kitty_count(), u64::MAX);
    assert_eq!(p.mint_with(&OWNER_A, code(2), Gender::Male), Err(Error::KittyCountOverflow));
}

#[test]
fn identical_content_gives_identical_ids() {
    let mut p = Pallet::new(5);
    let a = p.mint_with(&OWNER_A, code(3), Gender::Female).unwrap();
    let b = p.mint_with(&OWNER_A, code(3), Gender::Female).unwrap();
    assert_eq!(a, b);
    assert_eq!(p.kitty_count(), 2);
    assert_eq!(p.kitties_owned(&OWNER_A), vec![a, a]);
    let mut q = Pallet::new(5);
    assert_eq!(q.mint_with(&OWNER_A, code(3), Gender::Female), Ok(a));
}

#[test]
fn different_owner_gives_different_id() {
    let mut p = Pallet::new(5);
    let a = p.mint_with(&OWNER_A, code(3), Gender::Female).unwrap();
    let b = p.mint_with(&OWNER_B, code(3), Gender::Female).unwrap();
    assert_ne!(a, b);
    assert_eq!(p.kitties_owned(&OWNER_A), vec![a]);
    assert_eq!(p.kitties_owned(&OWNER_B), vec![b]);
}

#[test]
fn capacity_two_scenario() {
    let src = SeededSource { dna_seed: [1u8; 32], gender_seed: [2u8; 32], height: 1 };
    let mut p = Pallet::new(2);
    assert!(p.mint(&src, &OWNER_A, Some(code(1)), None).is_ok());
    assert!(p.mint(&src, &OWNER_A, Some(code(2)), None).is_ok());
    assert_eq!(p.kitty_count(), 2);
    assert_eq!(p.mint(&src, &OWNER_A, Some(code(3)), None), Err(Error::ExceedMaxKittyOwned));
    assert_eq!(p.kitty_count(), 2);
    assert_eq!(p.kitties_owned(&OWNER_A).len(), 2);
}

#[test]
fn mint_draws_missing_attributes() {
    let mut gender_seed = [0u8; 32];
    gender_seed[0] = 5;
    let src = SeededSource { dna_seed: [9u8; 32], gender_seed, height: 5 };
    let mut p = Pallet::new(3);
    let id = p.mint(&src, &OWNER_A, None, None).unwrap();
    let k = p.kitties(&id).unwrap();
    assert_eq!(k.dna, DNA_FROM_NINES_AT_FIVE);
    assert_eq!(k.gender, Gender::Female);
    assert_eq!(k.price, None);
    assert_eq!(k.owner, OWNER_A);
    assert_eq!(id, kitty_id(&k));
}

#[test]
fn mint_keeps_given_attributes() {
    let src = SeededSource { dna_seed: [9u8; 32], gender_seed: [1u8; 32], height: 5 };
    let mut p = Pallet::new(3);
    let id = p.mint(&src, &OWNER_A, Some(sample_code()), Some(Gender::Male)).unwrap();
    assert_eq!(id, ID_MALE);
}

#[test]
fn create_kitty_announces_creation() {
    let src = SeededSource { dna_seed: [9u8; 32], gender_seed: [0u8; 32], height: 5 };
    let mut p = Pallet::new(1);
    let ev = p.create_kitty(&src, &OWNER_B).unwrap();
    let Event::Created(who, id) = ev;
    assert_eq!(who, OWNER_B);
    assert_eq!(p.kitties_owned(&OWNER_B), vec![id]);
    assert_eq!(p.kitties(&id).unwrap().dna, DNA_FROM_NINES_AT_FIVE);
    assert_eq!(p.create_kitty(&src, &OWNER_B), Err(Error::ExceedMaxKittyOwned));
    assert_eq!(p.kitty_count(), 1);
}

#[test]
fn commit_under_content_id() {
    let mut p = Pallet::new(2);
    let k = Kitty { dna: code(4), price: None, gender: Gender::Male, owner: OWNER_A };
    let id = kitty_id(&k);
    assert_eq!(p.commit_kitty(id, k), Ok(id));
    assert_eq!(p.kitties(&id), Some(k));
    assert_eq!(p.commit_kitty(id, k), Ok(id));
    assert_eq!(p.kitties(&id), Some(k));
    assert_eq!(p.kitties_owned(&OWNER_A), vec![id, id]);
    assert_eq!(p.kitty_count(), 2);
    let k2 = Kitty { gender: Gender::Female, ..k };
    assert_eq!(p.commit_kitty(kitty_id(&k2), k2), Err(Error::ExceedMaxKittyOwned));
    assert_eq!(p.kitties(&kitty_id(&k2)), None);
}

#[test]
fn drawn_attributes_follow_the_source() {
    let src = SeededSource { dna_seed: [9u8; 32], gender_seed: [4u8; 32], height: 5 };
    assert_eq!(Pallet::gen_dna(&src), DNA_FROM_NINES_AT_FIVE);
    assert_eq!(Pallet::gen_gender(&src), Gender::Male);
    let odd = SeededSource { dna_seed: [9u8; 32], gender_seed: [7u8; 32], height: 6 };
    assert_eq!(Pallet::gen_gender(&odd), Gender::Female);
    assert_ne!(Pallet::gen_dna(&odd), DNA_FROM_NINES_AT_FIVE);
}

#[test]
fn subjects_have_distinct_labels_and_seeds() {
    assert_eq!(Subject::Dna.label(), "dna");
    assert_eq!(Subject::Gender.label(), "gender");
    let src = SeededSource { dna_seed: [1u8; 32], gender_seed: [2u8; 32], height: 3 };
    assert_eq!(src.random(Subject::Dna), [1u8; 32]);
    assert_eq!(src.random(Subject::Gender), [2u8; 32]);
    assert_eq!(src.block_number(), 3);
}
