//! The validators of a set, and the participants they act as.
use coordinator_substrate::validator_set::{
    Participant, TributaryValidator, TributaryValidatorSet,
};

fn set_of(validators: Vec<TributaryValidator>) -> TributaryValidatorSet {
    let mut set = TributaryValidatorSet::new();
    set.validators = validators;
    set.init_participant_indexes();
    set
}

fn validator(key: u8, weight: u16) -> TributaryValidator {
    TributaryValidator::new([key; 32], vec![key, key], weight)
}

fn indexes(set: &TributaryValidatorSet) -> Vec<(TributaryValidator, Vec<u16>)> {
    set.participant_indexes
        .iter()
        .map(|(v, ps)| (v.clone(), ps.iter().map(|p| p.index()).collect()))
        .collect()
}

fn lookup(set: &TributaryValidatorSet) -> Vec<(u16, TributaryValidator)> {
    set.participant_indexes_reverse_lookup.iter().map(|(p, v)| (p.index(), v.clone())).collect()
}

#[test]
fn new_validator_has_its_fields() {
    let validator = TributaryValidator::new([7; 32], vec![1, 2, 3], 9);
    assert_eq!(validator.substrate_key, [7; 32]);
    assert_eq!(validator.network_key, vec![1, 2, 3]);
    assert_eq!(validator.weight, 9);
}

#[test]
fn validators_are_the_same_by_all_of_their_fields() {
    assert!(validator(1, 2).same(&validator(1, 2)));
    assert!(!validator(1, 2).same(&validator(1, 3)));
    assert!(!validator(1, 2).same(&validator(2, 2)));
    assert!(!validator(1, 2).same(&TributaryValidator::new([1; 32], vec![1], 2)));
    assert_eq!(validator(1, 2).clone(), validator(1, 2));
}

#[test]
fn participants_are_non_zero() {
    assert!(Participant::new(0).is_none());
    assert_eq!(Participant::new(1).unwrap().index(), 1);
    assert_eq!(Participant::new(u16::MAX).unwrap().index(), u16::MAX);
}

#[test]
fn empty_set() {
    for set in [TributaryValidatorSet::new(), TributaryValidatorSet::default(), set_of(vec![])] {
        assert_eq!(set.len(), 0);
        assert!(set.as_slice().is_empty());
        assert_eq!(set.total_weight(), 0);
        assert_eq!(set.threshold(), 1);
        assert!(set.substrate_evrf_public_keys().is_empty());
        assert!(set.network_evrf_public_keys().is_empty());
        assert!(set.get_by_substrate_public(&[1; 32]).is_none());
        assert!(set.get_by_participant(&Participant::new(1).unwrap()).is_none());
        assert!(set.get_participant_by_substrate_public(&[1; 32]).is_none());
    }
}

#[test]
fn indexes_are_handed_out_by_weight() {
    let set = set_of(vec![validator(1, 2), validator(2, 0), validator(3, 3)]);
    assert_eq!(
        indexes(&set),
        vec![
            (validator(1, 2), vec![1, 2]),
            (validator(2, 0), vec![]),
            (validator(3, 3), vec![3, 4, 5]),
        ]
    );
    assert_eq!(
        lookup(&set),
        vec![
            (1, validator(1, 2)),
            (2, validator(1, 2)),
            (3, validator(3, 3)),
            (4, validator(3, 3)),
            (5, validator(3, 3)),
        ]
    );
    assert_eq!(set.total_weight(), 5);
    assert_eq!(set.len(), 3);
}

#[test]
fn last_listing_of_a_validator_decides_its_indexes() {
    let set = set_of(vec![validator(1, 1), validator(2, 2), validator(1, 1)]);
    assert_eq!(indexes(&set), vec![(validator(1, 1), vec![4]), (validator(2, 2), vec![2, 3])]);
    assert_eq!(
        lookup(&set),
        vec![
            (1, validator(1, 1)),
            (2, validator(2, 2)),
            (3, validator(2, 2)),
            (4, validator(1, 1)),
        ]
    );
    assert_eq!(set.len(), 3);
    assert_eq!(set.total_weight(), 4);
}

#[test]
fn initializing_again_replaces_what_was() {
    let mut set = set_of(vec![validator(1, 2)]);
    set.validators = vec![validator(2, 1)];
    set.init_participant_indexes();
    assert_eq!(indexes(&set), vec![(validator(2, 1), vec![1])]);
    assert_eq!(lookup(&set), vec![(1, validator(2, 1))]);
    let again = indexes(&set);
    set.init_participant_indexes();
    assert_eq!(indexes(&set), again);
}

#[test]
fn lookups() {
    let set = set_of(vec![validator(1, 2), validator(2, 1)]);
    assert_eq!(set.as_slice(), &[validator(1, 2), validator(2, 1)]);
    assert_eq!(set.get_by_substrate_public(&[2; 32]), Some(&validator(2, 1)));
    assert_eq!(set.get_by_substrate_public(&[3; 32]), None);

    let third = Participant::new(3).unwrap();
    let fourth = Participant::new(4).unwrap();
    assert_eq!(set.get_by_participant(&third), Some(&validator(2, 1)));
    assert_eq!(set.get_by_participant(&fourth), None);
    assert!(set.get_participant_matches_substrate_public(&third, &[2; 32]));
    assert!(!set.get_participant_matches_substrate_public(&third, &[1; 32]));
    assert!(!set.get_participant_matches_substrate_public(&fourth, &[2; 32]));

    assert_eq!(set.get_participant_by_validator(&validator(1, 2)).unwrap().index(), 1);
    assert_eq!(set.get_participant_by_validator(&validator(2, 1)).unwrap().index(), 3);
    assert!(set.get_participant_by_validator(&validator(2, 2)).is_none());
    assert_eq!(set.get_participant_by_substrate_public(&[1; 32]).unwrap().index(), 1);
    assert!(set.get_participant_by_substrate_public(&[9; 32]).is_none());
}

#[test]
fn keys_are_those_of_the_indexed_validators() {
    let set = set_of(vec![validator(1, 2), validator(2, 1), validator(1, 2)]);
    assert_eq!(set.substrate_evrf_public_keys(), vec![[1; 32], [2; 32]]);
    assert_eq!(set.network_evrf_public_keys(), vec![vec![1, 1], vec![2, 2]]);
}

#[test]
fn threshold_is_by_the_amount_of_validators() {
    for (validators, threshold) in [(1u8, 1), (2, 2), (3, 3), (4, 3), (5, 4), (6, 5), (7, 5)] {
        let set = set_of((1..=validators).map(|key| validator(key, 10)).collect());
        assert_eq!(set.threshold(), threshold);
    }
}

#[test]
fn clones_have_the_same_content() {
    let set = set_of(vec![validator(1, 2), validator(2, 0), validator(1, 2)]);
    let copy = set.clone();
    assert_eq!(copy, set);
    assert_eq!(indexes(&copy), indexes(&set));
    assert_eq!(lookup(&copy), lookup(&set));

    // Also where the indexes aren't of the validators
    let mut stale = set.clone();
    stale.validators = vec![validator(9, 1)];
    assert_eq!(stale.clone(), stale);
    assert_ne!(stale.clone(), set);
}

#[test]
fn equality_ignores_the_order_of_associations() {
    let set = set_of(vec![validator(1, 2), validator(2, 1)]);
    let mut reordered = set.clone();
    reordered.participant_indexes.reverse();
    reordered.participant_indexes_reverse_lookup.reverse();
    assert_eq!(reordered, set);
    assert!(set.same(&reordered));

    // Where an entry is listed again, the last one decides
    let mut repeated = set.clone();
    repeated.participant_indexes.insert(0, (validator(2, 1), vec![]));
    assert_eq!(repeated, set);
    repeated.participant_indexes.push((validator(2, 1), vec![]));
    assert_ne!(repeated, set);

    // The order of the validators, and of a validator's participants, does matter
    let mut validators = set.clone();
    validators.validators.reverse();
    assert_ne!(validators, set);
    let mut participants = set.clone();
    participants.participant_indexes[0].1.reverse();
    assert_ne!(participants, set);

    let mut fewer = set.clone();
    fewer.participant_indexes_reverse_lookup.pop();
    assert_ne!(fewer, set);
    assert_ne!(set, fewer);
    let mut swapped = set.clone();
    swapped.participant_indexes_reverse_lookup[2].1 = validator(1, 2);
    assert_ne!(swapped, set);
    let mut fewer = set.clone();
    fewer.participant_indexes.pop();
    assert_ne!(fewer, set);
    assert_ne!(set, fewer);
    assert_ne!(set_of(vec![validator(1, 2)]), set);
    assert_eq!(set_of(vec![validator(1, 2), validator(2, 1)]), set);
}

#[test]
fn all_participants_are_handed_out() {
    let set = set_of(vec![validator(1, 60000), validator(2, 5535)]);
    assert_eq!(set.total_weight(), u16::MAX);
    let last = Participant::new(u16::MAX).unwrap();
    assert_eq!(set.get_by_participant(&last), Some(&validator(2, 5535)));
    assert_eq!(lookup(&set).len(), usize::from(u16::MAX));
}
