//! The validators of a tributary, and the participants they act as in its protocols.
use crate::bytes::{copy_bytes, same_bytes};
use vstd::prelude::*;
use vstd::std_specs::cmp::{PartialEqSpec, PartialEqSpecImpl};

verus! {

/// A participant in a threshold protocol, identified by a non-zero index.
#[derive(Clone, Copy, PartialEq, Eq, Structural, Debug, Hash, PartialOrd, Ord)]
pub struct Participant(u16);

impl View for Participant {
    type V = nat;

    closed spec fn view(&self) -> nat {
        self.0 as nat
    }
}

impl Participant {
    #[verifier::type_invariant]
    spec fn non_zero(self) -> bool {
        self.0 != 0
    }

    /// Create a participant, so long as its index is not zero.
    pub fn new(i: u16) -> (participant: Option<Participant>)
        ensures
            participant is None <==> i == 0,
            participant matches Some(p) ==> p@ == i,
    {
        if i == 0 {
            None
        } else {
            Some(Participant(i))
        }
    }

    /// The index of this participant.
    pub fn index(self) -> (i: u16)
        ensures
            i == self@,
            i != 0,
    {
        proof {
            use_type_invariant(self);
        }
        self.0
    }
}

/// A participant is its index.
pub proof fn participant_is_its_index(a: Participant, b: Participant)
    ensures
        a == b <==> a@ == b@,
{
}

/// The mathematical content of a [`TributaryValidator`].
pub struct ValidatorModel {
    pub substrate_key: Seq<u8>,
    pub network_key: Seq<u8>,
    pub weight: nat,
}

/// A validator's substrate and network auxiliary keys with a weight.
#[derive(PartialEq, Eq, Debug, Hash)]
pub struct TributaryValidator {
    /// The validator's Substrate auxiliary key.
    pub substrate_key: [u8; 32],
    /// The validator's network-specific auxiliary key.
    pub network_key: Vec<u8>,
    /// The validator's weight within the set.
    pub weight: u16,
}

impl View for TributaryValidator {
    type V = ValidatorModel;

    open spec fn view(&self) -> ValidatorModel {
        ValidatorModel {
            substrate_key: self.substrate_key@,
            network_key: self.network_key@,
            weight: self.weight as nat,
        }
    }
}

impl Clone for TributaryValidator {
    fn clone(&self) -> (copy: Self)
        ensures
            copy@ == self@,
    {
        TributaryValidator {
            substrate_key: self.substrate_key,
            network_key: copy_bytes(self.network_key.as_slice()),
            weight: self.weight,
        }
    }
}

impl TributaryValidator {
    /// Create a new validator with a weight.
    pub fn new(substrate_key: [u8; 32], network_key: Vec<u8>, weight: u16) -> (validator: Self)
        ensures
            validator.substrate_key == substrate_key,
            validator.network_key == network_key,
            validator.weight == weight,
    {
        TributaryValidator { substrate_key, network_key, weight }
    }

    /// Whether two validators have the same keys and the same weight.
    pub fn same(&self, other: &TributaryValidator) -> (same: bool)
        ensures
            same == (self@ == other@),
    {
        same_bytes(self.substrate_key.as_slice(), other.substrate_key.as_slice()) && same_bytes(
            self.network_key.as_slice(),
            other.network_key.as_slice(),
        ) && self.weight == other.weight
    }
}

/// The validators, by their content.
pub open spec fn models(validators: Seq<TributaryValidator>) -> Seq<ValidatorModel> {
    validators.map_values(|v: TributaryValidator| v@)
}

/// The weight of all of the validators together.
pub open spec fn weight_of(vs: Seq<ValidatorModel>) -> nat
    decreases vs.len(),
{
    if vs.len() == 0 {
        0
    } else {
        weight_of(vs.drop_last()) + vs.last().weight
    }
}

/// The `weight` consecutive participant indexes which follow `taken`.
pub open spec fn indexes_after(taken: nat, weight: nat) -> Seq<nat> {
    Seq::new(weight, |k: int| (taken + 1 + k) as nat)
}

/// The participant indexes of each validator: indexes are handed out from one on, validator by
/// validator, as many to each as it has weight. Where one validator is listed repeatedly, the
/// last time it's listed decides.
pub open spec fn indexes_of(vs: Seq<ValidatorModel>) -> Map<ValidatorModel, Seq<nat>>
    decreases vs.len(),
{
    if vs.len() == 0 {
        Map::empty()
    } else {
        indexes_of(vs.drop_last()).insert(
            vs.last(),
            indexes_after(weight_of(vs.drop_last()), vs.last().weight),
        )
    }
}

/// The position, in the list of validators, of the one which participant `p` was handed to.
pub open spec fn owner_of(vs: Seq<ValidatorModel>, p: nat) -> int
    decreases vs.len(),
{
    if vs.len() == 0 {
        -1
    } else if p > weight_of(vs.drop_last()) {
        vs.len() - 1
    } else {
        owner_of(vs.drop_last(), p)
    }
}

/// The validator of each participant index.
pub open spec fn lookup_of(vs: Seq<ValidatorModel>) -> Map<nat, ValidatorModel> {
    Map::new(|p: nat| 1 <= p <= weight_of(vs), |p: nat| vs[owner_of(vs, p)])
}

/// The distinct validators, each where it's first listed.
pub open spec fn distinct(vs: Seq<ValidatorModel>) -> Seq<ValidatorModel>
    decreases vs.len(),
{
    if vs.len() == 0 {
        vs
    } else {
        let rest = distinct(vs.drop_last());
        if rest.contains(vs.last()) {
            rest
        } else {
            rest.push(vs.last())
        }
    }
}

/// The association which a list of pairs makes, the last pair with a key deciding.
pub open spec fn assoc<K, V>(pairs: Seq<(K, V)>) -> Map<K, V>
    decreases pairs.len(),
{
    if pairs.len() == 0 {
        Map::empty()
    } else {
        assoc(pairs.drop_last()).insert(pairs.last().0, pairs.last().1)
    }
}

/// A list of validators with their substrate/network keys and weights, and the participants each
/// of them acts as.
#[derive(Debug)]
pub struct TributaryValidatorSet {
    /// A list of validators with their substrate/network keys and weights.
    pub validators: Vec<TributaryValidator>,
    /// The participant indexes, by their validator. No validator is listed twice.
    pub participant_indexes: Vec<(TributaryValidator, Vec<Participant>)>,
    /// The validators, by their participant index. The participants ascend.
    pub participant_indexes_reverse_lookup: Vec<(Participant, TributaryValidator)>,
}

impl Clone for TributaryValidatorSet {
    fn clone(&self) -> (copy: Self)
        ensures
            copy.validator_models() == self.validator_models(),
            copy.index_entries() == self.index_entries(),
            copy.lookup_entries() == self.lookup_entries(),
            copy.same_content(self),
            copy.wf() == self.wf(),
            copy.in_sync() == self.in_sync(),
    {
        let validators = clone_validators(&self.validators);
        let mut participant_indexes: Vec<(TributaryValidator, Vec<Participant>)> =
            Vec::with_capacity(self.participant_indexes.len());
        let mut i: usize = 0;
        while i < self.participant_indexes.len()
            invariant
                i <= self.participant_indexes.len(),
                participant_indexes@.len() == i,
                forall|j: int|
                    0 <= j < i ==> index_entry(#[trigger] participant_indexes@[j]) == index_entry(
                        self.participant_indexes@[j],
                    ),
            decreases self.participant_indexes.len() - i,
        {
            let validator = self.participant_indexes[i].0.clone();
            let participants = clone_participants(&self.participant_indexes[i].1);
            assert(participants@ == self.participant_indexes@[i as int].1@);
            participant_indexes.push((validator, participants));
            i += 1;
        }
        let mut reverse: Vec<(Participant, TributaryValidator)> = Vec::with_capacity(
            self.participant_indexes_reverse_lookup.len(),
        );
        let mut k: usize = 0;
        while k < self.participant_indexes_reverse_lookup.len()
            invariant
                k <= self.participant_indexes_reverse_lookup.len(),
                reverse@.len() == k,
                forall|j: int|
                    0 <= j < k ==> lookup_entry(#[trigger] reverse@[j]) == lookup_entry(
                        self.participant_indexes_reverse_lookup@[j],
                    ),
            decreases self.participant_indexes_reverse_lookup.len() - k,
        {
            let participant = self.participant_indexes_reverse_lookup[k].0;
            let validator = self.participant_indexes_reverse_lookup[k].1.clone();
            reverse.push((participant, validator));
            k += 1;
        }
        let copy = TributaryValidatorSet {
            validators,
            participant_indexes,
            participant_indexes_reverse_lookup: reverse,
        };
        proof {
            assert(copy.index_entries() =~= self.index_entries());
            assert(copy.lookup_entries() =~= self.lookup_entries());
            lemma_same_entries(&copy, self);
        }
        copy
    }
}

/// Clone validators.
fn clone_validators(validators: &Vec<TributaryValidator>) -> (copy: Vec<TributaryValidator>)
    ensures
        models(copy@) == models(validators@),
{
    let mut copy: Vec<TributaryValidator> = Vec::with_capacity(validators.len());
    let mut i: usize = 0;
    while i < validators.len()
        invariant
            i <= validators.len(),
            copy@.len() == i,
            forall|j: int| 0 <= j < i ==> (#[trigger] copy@[j])@ == validators@[j]@,
        decreases validators.len() - i,
    {
        copy.push(validators[i].clone());
        i += 1;
    }
    assert(models(copy@) =~= models(validators@));
    copy
}

/// Clone participants.
fn clone_participants(participants: &Vec<Participant>) -> (copy: Vec<Participant>)
    ensures
        copy@ == participants@,
{
    let mut copy: Vec<Participant> = Vec::with_capacity(participants.len());
    let mut i: usize = 0;
    while i < participants.len()
        invariant
            i <= participants.len(),
            copy@ == participants@.take(i as int),
        decreases participants.len() - i,
    {
        copy.push(participants[i]);
        assert(copy@ =~= participants@.take(i + 1));
        i += 1;
    }
    assert(participants@.take(i as int) =~= participants@);
    copy
}

/// Sets with the same content are well-formed, and in sync, alike.
proof fn lemma_same_entries(a: &TributaryValidatorSet, b: &TributaryValidatorSet)
    requires
        a.validator_models() == b.validator_models(),
        a.index_entries() == b.index_entries(),
        a.lookup_entries() == b.lookup_entries(),
    ensures
        a.wf() == b.wf(),
        a.in_sync() == b.in_sync(),
{
    let x = a.participant_indexes_reverse_lookup@;
    let y = b.participant_indexes_reverse_lookup@;
    assert(a.participant_indexes@.len() == a.index_entries().len());
    assert(b.participant_indexes@.len() == b.index_entries().len());
    assert(x.len() == a.lookup_entries().len());
    assert(y.len() == b.lookup_entries().len());
    assert forall|i: int| 0 <= i < a.indexed().len() implies a.indexed()[i] == b.indexed()[i] by {
        assert(a.index_entries()[i] == index_entry(a.participant_indexes@[i]));
        assert(b.index_entries()[i] == index_entry(b.participant_indexes@[i]));
    }
    assert(a.indexed() =~= b.indexed());
    assert forall|i: int| 0 <= i < x.len() implies (#[trigger] x[i]).0@ == y[i].0@ by {
        assert(a.lookup_entries()[i] == b.lookup_entries()[i]);
    }
    assert forall|i: int| 0 <= i < y.len() implies (#[trigger] y[i]).0@ == x[i].0@ by {
        assert(a.lookup_entries()[i] == b.lookup_entries()[i]);
    }
    if a.wf() {
        assert forall|i: int, j: int| 0 <= i < j < y.len() implies #[trigger] y[i].0@
            < #[trigger] y[j].0@ by {
            assert(x[i].0@ < x[j].0@);
        }
    }
    if b.wf() {
        assert forall|i: int, j: int| 0 <= i < j < x.len() implies #[trigger] x[i].0@
            < #[trigger] x[j].0@ by {
            assert(y[i].0@ < y[j].0@);
        }
    }
}

/// An entry of `participant_indexes`, by its content.
pub open spec fn index_entry(entry: (TributaryValidator, Vec<Participant>)) -> (
    ValidatorModel,
    Seq<nat>,
) {
    (entry.0@, entry.1@.map_values(|p: Participant| p@))
}

/// An entry of `participant_indexes_reverse_lookup`, by its content.
pub open spec fn lookup_entry(entry: (Participant, TributaryValidator)) -> (nat, ValidatorModel) {
    (entry.0@, entry.1@)
}

impl TributaryValidatorSet {
    /// The content of `validators`.
    pub open spec fn validator_models(&self) -> Seq<ValidatorModel> {
        models(self.validators@)
    }

    /// The validators which have an entry in `participant_indexes`, in its order.
    pub open spec fn indexed(&self) -> Seq<ValidatorModel> {
        self.participant_indexes@.map_values(
            |e: (TributaryValidator, Vec<Participant>)| index_entry(e).0,
        )
    }

    /// The content of `participant_indexes`.
    pub open spec fn index_entries(&self) -> Seq<(ValidatorModel, Seq<nat>)> {
        self.participant_indexes@.map_values(
            |e: (TributaryValidator, Vec<Participant>)| index_entry(e),
        )
    }

    /// What `participant_indexes` associates.
    pub open spec fn indexes(&self) -> Map<ValidatorModel, Seq<nat>> {
        assoc(self.index_entries())
    }

    /// The content of `participant_indexes_reverse_lookup`.
    pub open spec fn lookup_entries(&self) -> Seq<(nat, ValidatorModel)> {
        self.participant_indexes_reverse_lookup@.map_values(
            |e: (Participant, TributaryValidator)| lookup_entry(e),
        )
    }

    /// What `participant_indexes_reverse_lookup` associates.
    pub open spec fn lookup(&self) -> Map<nat, ValidatorModel> {
        assoc(self.lookup_entries())
    }

    /// No validator has two entries in `participant_indexes`, nor a participant two in
    /// `participant_indexes_reverse_lookup`, and the latter's participants ascend.
    pub open spec fn wf(&self) -> bool {
        &&& self.indexed().no_duplicates()
        &&& forall|i: int, j: int|
            0 <= i < j < self.participant_indexes_reverse_lookup@.len()
                ==> #[trigger] self.participant_indexes_reverse_lookup@[i].0@
                < #[trigger] self.participant_indexes_reverse_lookup@[j].0@
    }

    /// The participant indexes and the reverse lookup are those of `validators`.
    pub open spec fn in_sync(&self) -> bool {
        &&& self.wf()
        &&& self.indexed() == distinct(self.validator_models())
        &&& self.indexes() == indexes_of(self.validator_models())
        &&& self.lookup() == lookup_of(self.validator_models())
    }

    /// Create a new empty validator set.
    pub fn new() -> (set: Self)
        ensures
            set.validators@.len() == 0,
            set.in_sync(),
    {
        let set = TributaryValidatorSet {
            validators: Vec::new(),
            participant_indexes: Vec::new(),
            participant_indexes_reverse_lookup: Vec::new(),
        };
        assert(set.indexed() =~= distinct(set.validator_models()));
        assert(set.lookup() =~= lookup_of(set.validator_models()));
        set
    }
}

/// An association has the keys of its pairs and, where no key repeats, their values.
proof fn lemma_assoc<K, V>(pairs: Seq<(K, V)>)
    requires
        forall|i: int, j: int| 0 <= i < j < pairs.len() ==> pairs[i].0 != pairs[j].0,
    ensures
        forall|i: int|
            0 <= i < pairs.len() ==> #[trigger] assoc(pairs).contains_key(pairs[i].0)
                && assoc(pairs)[pairs[i].0] == pairs[i].1,
        forall|k: K|
            assoc(pairs).contains_key(k) ==> exists|i: int|
                0 <= i < pairs.len() && #[trigger] pairs[i].0 == k,
    decreases pairs.len(),
{
    if pairs.len() > 0 {
        let rest = pairs.drop_last();
        lemma_assoc(rest);
        assert forall|i: int| 0 <= i < pairs.len() implies #[trigger] assoc(pairs).contains_key(
            pairs[i].0,
        ) && assoc(pairs)[pairs[i].0] == pairs[i].1 by {
            if i < rest.len() {
                assert(rest[i] == pairs[i]);
                assert(assoc(rest).contains_key(rest[i].0));
            }
        }
        assert forall|k: K| assoc(pairs).contains_key(k) implies exists|i: int|
            0 <= i < pairs.len() && #[trigger] pairs[i].0 == k by {
            if k == pairs.last().0 {
                assert(pairs[pairs.len() - 1].0 == k);
            } else {
                assert(assoc(rest).contains_key(k));
                let i = choose|i: int| 0 <= i < rest.len() && #[trigger] rest[i].0 == k;
                assert(pairs[i].0 == k);
            }
        }
    }
}

/// To replace the value in a pair is to replace it in the association.
proof fn lemma_assoc_update<K, V>(pairs: Seq<(K, V)>, at: int, value: V)
    requires
        0 <= at < pairs.len(),
        forall|i: int, j: int| 0 <= i < j < pairs.len() ==> pairs[i].0 != pairs[j].0,
    ensures
        assoc(pairs.update(at, (pairs[at].0, value))) == assoc(pairs).insert(pairs[at].0, value),
{
    let updated = pairs.update(at, (pairs[at].0, value));
    lemma_assoc(pairs);
    lemma_assoc(updated);
    let expected = assoc(pairs).insert(pairs[at].0, value);
    assert forall|k: K| assoc(updated).contains_key(k) <==> expected.contains_key(k) by {
        if assoc(updated).contains_key(k) {
            let i = choose|i: int| 0 <= i < updated.len() && #[trigger] updated[i].0 == k;
            assert(assoc(pairs).contains_key(pairs[i].0));
        }
        if expected.contains_key(k) {
            assert(assoc(pairs).contains_key(pairs[at].0));
            let i = choose|i: int| 0 <= i < pairs.len() && #[trigger] pairs[i].0 == k;
            assert(assoc(updated).contains_key(updated[i].0));
        }
    }
    assert forall|k: K| assoc(updated).contains_key(k) implies assoc(updated)[k] == expected[k] by {
        let i = choose|i: int| 0 <= i < updated.len() && #[trigger] updated[i].0 == k;
        assert(assoc(updated).contains_key(updated[i].0));
        assert(assoc(pairs).contains_key(pairs[i].0));
    }
    assert(assoc(updated) =~= expected);
}

/// The content of a list of `participant_indexes` entries.
spec fn index_entries(entries: Seq<(TributaryValidator, Vec<Participant>)>) -> Seq<
    (ValidatorModel, Seq<nat>),
> {
    entries.map_values(|e: (TributaryValidator, Vec<Participant>)| index_entry(e))
}

/// The validators of a list of `participant_indexes` entries.
spec fn index_keys(entries: Seq<(TributaryValidator, Vec<Participant>)>) -> Seq<ValidatorModel> {
    entries.map_values(|e: (TributaryValidator, Vec<Participant>)| index_entry(e).0)
}

/// Associate a validator with its participants, in place of those it had.
fn set_indexes(
    entries: &mut Vec<(TributaryValidator, Vec<Participant>)>,
    validator: TributaryValidator,
    participants: Vec<Participant>,
)
    requires
        index_keys(old(entries)@).no_duplicates(),
    ensures
        index_keys(final(entries)@).no_duplicates(),
        index_keys(final(entries)@) == if index_keys(old(entries)@).contains(validator@) {
            index_keys(old(entries)@)
        } else {
            index_keys(old(entries)@).push(validator@)
        },
        assoc(index_entries(final(entries)@)) == assoc(index_entries(old(entries)@)).insert(
            validator@,
            participants@.map_values(|p: Participant| p@),
        ),
{
    let ghost before = entries@;
    let ghost entry = (validator, participants);
    let mut i: usize = 0;
    while i < entries.len()
        invariant
            i <= entries.len(),
            entries@ == before,
            before == old(entries)@,
            entry == (validator, participants),
            index_keys(before).no_duplicates(),
            forall|j: int| 0 <= j < i ==> before[j].0@ != validator@,
        decreases entries.len() - i,
    {
        if entries[i].0.same(&validator) {
            proof {
                let pairs = index_entries(before);
                assert forall|a: int, b: int| 0 <= a < b < pairs.len() implies pairs[a].0
                    != pairs[b].0 by {
                    assert(index_keys(before)[a] != index_keys(before)[b]);
                }
                lemma_assoc_update(pairs, i as int, index_entry(entry).1);
                assert(index_keys(before)[i as int] == validator@);
            }
            entries[i] = (validator, participants);
            assert(index_keys(entries@) =~= index_keys(before));
            assert(index_entries(entries@) =~= index_entries(before).update(
                i as int,
                index_entry(entry),
            ));
            return;
        }
        i += 1;
    }
    assert(!index_keys(before).contains(validator@)) by {
        if index_keys(before).contains(validator@) {
            let j = choose|j: int|
                0 <= j < before.len() && #[trigger] index_keys(before)[j] == validator@;
            assert(before[j].0@ == validator@);
        }
    }
    entries.push((validator, participants));
    assert(index_keys(entries@) =~= index_keys(before).push(entry.0@));
    assert(index_entries(entries@) =~= index_entries(before).push(index_entry(entry)));
    assert(index_entries(entries@).drop_last() =~= index_entries(before));
}

/// A prefix has at most the weight of the whole.
proof fn lemma_weight_of_prefix(vs: Seq<ValidatorModel>, i: int)
    requires
        0 <= i <= vs.len(),
    ensures
        weight_of(vs.take(i)) <= weight_of(vs),
    decreases vs.len() - i,
{
    if i == vs.len() {
        assert(vs.take(i) =~= vs);
    } else {
        assert(vs.take(i + 1).drop_last() =~= vs.take(i));
        lemma_weight_of_prefix(vs, i + 1);
    }
}

/// A participant which was handed out has an owner.
proof fn lemma_owner_of(vs: Seq<ValidatorModel>, p: nat)
    requires
        1 <= p <= weight_of(vs),
    ensures
        0 <= owner_of(vs, p) < vs.len(),
        weight_of(vs.take(owner_of(vs, p))) < p <= weight_of(vs.take(owner_of(vs, p) + 1)),
    decreases vs.len(),
{
    if p > weight_of(vs.drop_last()) {
        assert(vs.take(vs.len() - 1) =~= vs.drop_last());
        assert(vs.take(vs.len() as int) =~= vs);
    } else {
        lemma_owner_of(vs.drop_last(), p);
        let i = owner_of(vs.drop_last(), p);
        assert(vs.drop_last().take(i) =~= vs.take(i));
        assert(vs.drop_last().take(i + 1) =~= vs.take(i + 1));
    }
}

impl TributaryValidatorSet {
    /// Accordingly sync up participant indexes and reverse lookup with `validators`.
    pub fn init_participant_indexes(&mut self)
        requires
            weight_of(old(self).validator_models()) <= u16::MAX,
        ensures
            final(self).validators == old(self).validators,
            final(self).in_sync(),
    {
        let ghost vs = self.validator_models();
        let mut indexes: Vec<(TributaryValidator, Vec<Participant>)> = Vec::with_capacity(
            self.validators.len(),
        );
        let mut lookup: Vec<(Participant, TributaryValidator)> = Vec::with_capacity(
            self.validators.len(),
        );
        let mut taken: u16 = 0;
        let mut i: usize = 0;
        proof {
            assert(index_keys(indexes@) =~= distinct(vs.take(0)));
        }
        while i < self.validators.len()
            invariant
                i <= self.validators.len(),
                vs == models(self.validators@),
                self.validators == old(self).validators,
                weight_of(vs) <= u16::MAX,
                taken == weight_of(vs.take(i as int)),
                index_keys(indexes@).no_duplicates(),
                index_keys(indexes@) == distinct(vs.take(i as int)),
                assoc(index_entries(indexes@)) == indexes_of(vs.take(i as int)),
                lookup@.len() == taken,
                forall|k: int|
                    0 <= k < taken ==> (#[trigger] lookup@[k]).0@ == k + 1 && lookup@[k].1@
                        == vs[owner_of(vs.take(i as int), (k + 1) as nat)],
            decreases self.validators.len() - i,
        {
            let ghost before = vs.take(i as int);
            let ghost after = vs.take(i + 1);
            proof {
                assert(after.drop_last() =~= before);
                assert(after.last() == self.validators@[i as int]@);
                lemma_weight_of_prefix(vs, i + 1);
            }
            let validator = &self.validators[i];
            let weight = validator.weight;
            let mut participants: Vec<Participant> = Vec::with_capacity(weight as usize);
            let mut k: u16 = 0;
            while k < weight
                invariant
                    k <= weight,
                    weight == validator.weight,
                    taken + weight <= u16::MAX,
                    after.len() > 0,
                    after.drop_last() == before,
                    taken == weight_of(before),
                    i == after.len() - 1,
                    0 <= i < vs.len(),
                    vs[i as int] == validator@,
                    participants@.len() == k,
                    forall|m: int|
                        0 <= m < k ==> (#[trigger] participants@[m])@ == taken + 1 + m,
                    lookup@.len() == taken + k,
                    forall|m: int|
                        0 <= m < taken + k ==> (#[trigger] lookup@[m]).0@ == m + 1,
                    forall|m: int|
                        0 <= m < taken ==> (#[trigger] lookup@[m]).1@ == vs[owner_of(
                            before,
                            (m + 1) as nat,
                        )],
                    forall|m: int|
                        taken <= m < taken + k ==> (#[trigger] lookup@[m]).1@ == vs[i as int],
                decreases weight - k,
            {
                let participant = Participant::new(taken + k + 1).unwrap();
                participants.push(participant);
                lookup.push((participant, validator.clone()));
                k += 1;
            }
            proof {
                assert(participants@.map_values(|p: Participant| p@) =~= indexes_after(
                    weight_of(before),
                    after.last().weight,
                ));
                assert forall|m: int| 0 <= m < taken + weight implies (#[trigger] lookup@[m]).1@
                    == vs[owner_of(after, (m + 1) as nat)] by {
                    if m < taken {
                        assert(owner_of(after, (m + 1) as nat) == owner_of(
                            before,
                            (m + 1) as nat,
                        ));
                    }
                }
            }
            set_indexes(&mut indexes, validator.clone(), participants);
            taken = taken + weight;
            i += 1;
        }
        self.participant_indexes = indexes;
        self.participant_indexes_reverse_lookup = lookup;
        proof {
            assert(vs.take(i as int) =~= vs);
            let pairs = self.participant_indexes_reverse_lookup@.map_values(
                |e: (Participant, TributaryValidator)| lookup_entry(e),
            );
            lemma_assoc(pairs);
            assert forall|p: nat| assoc(pairs).contains_key(p) <==> lookup_of(vs).contains_key(p) by {
                if assoc(pairs).contains_key(p) {
                    let m = choose|m: int| 0 <= m < pairs.len() && #[trigger] pairs[m].0 == p;
                    assert(self.participant_indexes_reverse_lookup@[m].0@ == m + 1);
                }
                if lookup_of(vs).contains_key(p) {
                    assert(pairs[p - 1].0 == p) by {
                        assert(self.participant_indexes_reverse_lookup@[p - 1].0@ == p);
                    }
                }
            }
            assert forall|p: nat| assoc(pairs).contains_key(p) implies assoc(pairs)[p]
                == lookup_of(vs)[p] by {
                let m = choose|m: int| 0 <= m < pairs.len() && #[trigger] pairs[m].0 == p;
                assert(self.participant_indexes_reverse_lookup@[m].0@ == m + 1);
            }
            assert(self.lookup() =~= lookup_of(vs));
            assert(self.indexed() =~= index_keys(indexes@));
            assert(self.indexes() == assoc(index_entries(indexes@)));
        }
    }
}

impl TributaryValidatorSet {
    /// The content of `participant_indexes_reverse_lookup`, entry by entry.
    proof fn lemma_lookup(&self)
        requires
            self.wf(),
        ensures
            forall|i: int|
                0 <= i < self.participant_indexes_reverse_lookup@.len() ==> {
                    let entry = #[trigger] self.participant_indexes_reverse_lookup@[i];
                    self.lookup().contains_key(entry.0@) && self.lookup()[entry.0@] == entry.1@
                },
            forall|p: nat| #[trigger]
                self.lookup().contains_key(p) ==> exists|i: int|
                    0 <= i < self.participant_indexes_reverse_lookup@.len()
                        && #[trigger] self.participant_indexes_reverse_lookup@[i].0@ == p,
    {
        let entries = self.participant_indexes_reverse_lookup@;
        let pairs = entries.map_values(|e: (Participant, TributaryValidator)| lookup_entry(e));
        assert forall|i: int, j: int| 0 <= i < j < pairs.len() implies pairs[i].0 != pairs[j].0 by {
            assert(entries[i].0@ < entries[j].0@);
        }
        lemma_assoc(pairs);
        assert forall|i: int| 0 <= i < entries.len() implies {
            let entry = #[trigger] entries[i];
            self.lookup().contains_key(entry.0@) && self.lookup()[entry.0@] == entry.1@
        } by {
            assert(assoc(pairs).contains_key(pairs[i].0));
        }
        assert forall|p: nat| #[trigger] self.lookup().contains_key(p) implies exists|i: int|
            0 <= i < entries.len() && #[trigger] entries[i].0@ == p by {
            let i = choose|i: int| 0 <= i < pairs.len() && #[trigger] pairs[i].0 == p;
            assert(entries[i].0@ == p);
        }
    }

    /// Get the underlying list of validators.
    pub fn as_slice(&self) -> (validators: &[TributaryValidator])
        ensures
            validators@ == self.validators@,
    {
        self.validators.as_slice()
    }

    /// Get a validator by their Substrate auxiliary key, given by its encoding: the first listed
    /// with it.
    pub fn get_by_substrate_public(&self, substrate_public: &[u8; 32]) -> (validator: Option<
        &TributaryValidator,
    >)
        ensures
            match validator {
                Some(v) => exists|i: int|
                    {
                        &&& 0 <= i < self.validators@.len()
                        &&& *v == #[trigger] self.validators@[i]
                        &&& v.substrate_key@ == substrate_public@
                        &&& forall|j: int|
                            0 <= j < i ==> (#[trigger] self.validators@[j]).substrate_key@
                                != substrate_public@
                    },
                None => forall|j: int|
                    0 <= j < self.validators@.len() ==> (
                    #[trigger] self.validators@[j]).substrate_key@ != substrate_public@,
            },
    {
        let mut i: usize = 0;
        while i < self.validators.len()
            invariant
                i <= self.validators.len(),
                forall|j: int|
                    0 <= j < i ==> (#[trigger] self.validators@[j]).substrate_key@
                        != substrate_public@,
            decreases self.validators.len() - i,
        {
            if same_bytes(
                self.validators[i].substrate_key.as_slice(),
                substrate_public.as_slice(),
            ) {
                return Some(&self.validators[i]);
            }
            i += 1;
        }
        None
    }

    /// Get the validator which acts as a participant.
    pub fn get_by_participant(&self, participant: &Participant) -> (validator: Option<
        &TributaryValidator,
    >)
        requires
            self.wf(),
        ensures
            validator is Some <==> self.lookup().contains_key(participant@),
            validator matches Some(v) ==> v@ == self.lookup()[participant@],
    {
        proof {
            self.lemma_lookup();
        }
        let mut i: usize = 0;
        while i < self.participant_indexes_reverse_lookup.len()
            invariant
                i <= self.participant_indexes_reverse_lookup.len(),
                self.wf(),
                forall|j: int|
                    0 <= j < i ==> (#[trigger] self.participant_indexes_reverse_lookup@[j]).0@
                        != participant@,
                forall|j: int|
                    0 <= j < self.participant_indexes_reverse_lookup@.len() ==> {
                        let entry = #[trigger] self.participant_indexes_reverse_lookup@[j];
                        self.lookup().contains_key(entry.0@) && self.lookup()[entry.0@] == entry.1@
                    },
            decreases self.participant_indexes_reverse_lookup.len() - i,
        {
            if self.participant_indexes_reverse_lookup[i].0.index() == participant.index() {
                return Some(&self.participant_indexes_reverse_lookup[i].1);
            }
            i += 1;
        }
        None
    }

    /// Whether a participant is one which the validator with a Substrate auxiliary key, given by
    /// its encoding, acts as.
    pub fn get_participant_matches_substrate_public(
        &self,
        participant: &Participant,
        substrate_public: &[u8; 32],
    ) -> (matches: bool)
        requires
            self.wf(),
        ensures
            matches <==> self.lookup().contains_key(participant@)
                && self.lookup()[participant@].substrate_key == substrate_public@,
    {
        match self.get_by_participant(participant) {
            Some(validator) => same_bytes(
                validator.substrate_key.as_slice(),
                substrate_public.as_slice(),
            ),
            None => false,
        }
    }

    /// Get the lowest participant which a validator acts as.
    pub fn get_participant_by_validator(&self, validator: &TributaryValidator) -> (participant:
        Option<&Participant>)
        requires
            self.wf(),
        ensures
            match participant {
                Some(p) => {
                    &&& self.lookup().contains_key(p@)
                    &&& self.lookup()[p@] == validator@
                    &&& forall|q: nat|
                        q < p@ && #[trigger] self.lookup().contains_key(q) ==> self.lookup()[q]
                            != validator@
                },
                None => forall|q: nat| #[trigger]
                    self.lookup().contains_key(q) ==> self.lookup()[q] != validator@,
            },
    {
        proof {
            self.lemma_lookup();
        }
        let ghost entries = self.participant_indexes_reverse_lookup@;
        let mut i: usize = 0;
        while i < self.participant_indexes_reverse_lookup.len()
            invariant
                i <= entries.len(),
                entries == self.participant_indexes_reverse_lookup@,
                self.wf(),
                forall|j: int| 0 <= j < i ==> (#[trigger] entries[j]).1@ != validator@,
                forall|j: int|
                    0 <= j < entries.len() ==> {
                        let entry = #[trigger] entries[j];
                        self.lookup().contains_key(entry.0@) && self.lookup()[entry.0@] == entry.1@
                    },
                forall|p: nat| #[trigger]
                    self.lookup().contains_key(p) ==> exists|j: int|
                        0 <= j < entries.len() && #[trigger] entries[j].0@ == p,
            decreases entries.len() - i,
        {
            if self.participant_indexes_reverse_lookup[i].1.same(validator) {
                assert forall|q: nat|
                    q < entries[i as int].0@ && #[trigger] self.lookup().contains_key(
                        q,
                    ) implies self.lookup()[q] != validator@ by {
                    let j = choose|j: int| 0 <= j < entries.len() && #[trigger] entries[j].0@ == q;
                    assert(j < i);
                }
                return Some(&self.participant_indexes_reverse_lookup[i].0);
            }
            i += 1;
        }
        None
    }

    /// Get the lowest participant which a validator with a Substrate auxiliary key, given by its
    /// encoding, acts as.
    pub fn get_participant_by_substrate_public(&self, substrate_public: &[u8; 32]) -> (participant:
        Option<&Participant>)
        requires
            self.wf(),
        ensures
            match participant {
                Some(p) => {
                    &&& self.lookup().contains_key(p@)
                    &&& self.lookup()[p@].substrate_key == substrate_public@
                    &&& forall|q: nat|
                        q < p@ && #[trigger] self.lookup().contains_key(q)
                            ==> self.lookup()[q].substrate_key != substrate_public@
                },
                None => forall|q: nat| #[trigger]
                    self.lookup().contains_key(q) ==> self.lookup()[q].substrate_key
                        != substrate_public@,
            },
    {
        proof {
            self.lemma_lookup();
        }
        let ghost entries = self.participant_indexes_reverse_lookup@;
        let mut i: usize = 0;
        while i < self.participant_indexes_reverse_lookup.len()
            invariant
                i <= entries.len(),
                entries == self.participant_indexes_reverse_lookup@,
                self.wf(),
                forall|j: int|
                    0 <= j < i ==> (#[trigger] entries[j]).1@.substrate_key != substrate_public@,
                forall|j: int|
                    0 <= j < entries.len() ==> {
                        let entry = #[trigger] entries[j];
                        self.lookup().contains_key(entry.0@) && self.lookup()[entry.0@] == entry.1@
                    },
                forall|p: nat| #[trigger]
                    self.lookup().contains_key(p) ==> exists|j: int|
                        0 <= j < entries.len() && #[trigger] entries[j].0@ == p,
            decreases entries.len() - i,
        {
            if same_bytes(
                self.participant_indexes_reverse_lookup[i].1.substrate_key.as_slice(),
                substrate_public.as_slice(),
            ) {
                assert forall|q: nat|
                    q < entries[i as int].0@ && #[trigger] self.lookup().contains_key(
                        q,
                    ) implies self.lookup()[q].substrate_key != substrate_public@ by {
                    let j = choose|j: int| 0 <= j < entries.len() && #[trigger] entries[j].0@ == q;
                    assert(j < i);
                }
                return Some(&self.participant_indexes_reverse_lookup[i].0);
            }
            i += 1;
        }
        None
    }

    /// Get the total weight of all validators in the set.
    pub fn total_weight(&self) -> (total: u16)
        requires
            weight_of(self.validator_models()) <= u16::MAX,
        ensures
            total == weight_of(self.validator_models()),
    {
        let ghost vs = self.validator_models();
        let mut total: u16 = 0;
        let mut i: usize = 0;
        while i < self.validators.len()
            invariant
                i <= self.validators.len(),
                vs == models(self.validators@),
                weight_of(vs) <= u16::MAX,
                total == weight_of(vs.take(i as int)),
            decreases self.validators.len() - i,
        {
            proof {
                assert(vs.take(i + 1).drop_last() =~= vs.take(i as int));
                lemma_weight_of_prefix(vs, i + 1);
            }
            total = total + self.validators[i].weight;
            i += 1;
        }
        assert(vs.take(i as int) =~= vs);
        total
    }

    /// Get len of the validator items
    pub fn len(&self) -> (len: usize)
        ensures
            len == self.validators@.len(),
    {
        self.validators.len()
    }

    /// Get the threshold for the EVRF protocol, calculated as `(2/3 * len) + 1`, where `len` is
    /// the amount of distinct validators which were indexed.
    pub fn threshold(&self) -> (threshold: u16)
        requires
            (self.indexed().len() * 2) / 3 + 1 <= u16::MAX,
        ensures
            threshold == (self.indexed().len() * 2) / 3 + 1,
    {
        let len = self.participant_indexes.len();
        (((len * 2) / 3) + 1) as u16
    }

    /// Get the substrate public keys from the EVRF public keys.
    pub fn substrate_evrf_public_keys(&self) -> (keys: Vec<[u8; 32]>)
        ensures
            keys@.map_values(|key: [u8; 32]| key@) == self.indexed().map_values(
                |v: ValidatorModel| v.substrate_key,
            ),
    {
        let mut keys: Vec<[u8; 32]> = Vec::with_capacity(self.participant_indexes.len());
        let mut i: usize = 0;
        while i < self.participant_indexes.len()
            invariant
                i <= self.participant_indexes.len(),
                keys@.len() == i,
                forall|j: int|
                    0 <= j < i ==> (#[trigger] keys@[j])@ == self.indexed()[j].substrate_key,
            decreases self.participant_indexes.len() - i,
        {
            keys.push(self.participant_indexes[i].0.substrate_key);
            i += 1;
        }
        assert(keys@.map_values(|key: [u8; 32]| key@) =~= self.indexed().map_values(
            |v: ValidatorModel| v.substrate_key,
        ));
        keys
    }

    /// Get the network public keys from the EVRF public keys.
    pub fn network_evrf_public_keys(&self) -> (keys: Vec<Vec<u8>>)
        ensures
            keys@.map_values(|key: Vec<u8>| key@) == self.indexed().map_values(
                |v: ValidatorModel| v.network_key,
            ),
    {
        let mut keys: Vec<Vec<u8>> = Vec::with_capacity(self.participant_indexes.len());
        let mut i: usize = 0;
        while i < self.participant_indexes.len()
            invariant
                i <= self.participant_indexes.len(),
                keys@.len() == i,
                forall|j: int|
                    0 <= j < i ==> (#[trigger] keys@[j])@ == self.indexed()[j].network_key,
            decreases self.participant_indexes.len() - i,
        {
            keys.push(copy_bytes(self.participant_indexes[i].0.network_key.as_slice()));
            i += 1;
        }
        assert(keys@.map_values(|key: Vec<u8>| key@) =~= self.indexed().map_values(
            |v: ValidatorModel| v.network_key,
        ));
        keys
    }
}

impl Default for TributaryValidatorSet {
    fn default() -> (set: Self)
        ensures
            set.validators@.len() == 0,
            set.in_sync(),
    {
        TributaryValidatorSet::new()
    }
}

/// Every validator listed is indexed, and with as many participants as it has weight, all of which
/// it owns.
proof fn lemma_indexes_of(vs: Seq<ValidatorModel>)
    ensures
        forall|v: ValidatorModel| #[trigger] indexes_of(vs).contains_key(v) <==> vs.contains(v),
        forall|v: ValidatorModel| #[trigger]
            indexes_of(vs).contains_key(v) ==> indexes_of(vs)[v].len() == v.weight,
        forall|v: ValidatorModel, k: int|
            vs.contains(v) && 0 <= k < v.weight ==> {
                let p = #[trigger] indexes_of(vs)[v][k];
                &&& 1 <= p <= weight_of(vs)
                &&& 0 <= owner_of(vs, p) < vs.len()
                &&& vs[owner_of(vs, p)] == v
            },
    decreases vs.len(),
{
    if vs.len() > 0 {
        let rest = vs.drop_last();
        lemma_indexes_of(rest);
        assert forall|v: ValidatorModel| #[trigger]
            indexes_of(vs).contains_key(v) <==> vs.contains(v) by {
            if vs.contains(v) && v != vs.last() {
                let i = choose|i: int| 0 <= i < vs.len() && vs[i] == v;
                assert(rest[i] == v);
                assert(indexes_of(rest).contains_key(v));
            }
            if indexes_of(vs).contains_key(v) {
                if v == vs.last() {
                    assert(vs[vs.len() - 1] == v);
                } else {
                    assert(indexes_of(rest).contains_key(v));
                    let i = choose|i: int| 0 <= i < rest.len() && rest[i] == v;
                    assert(vs[i] == v);
                }
            }
        }
        assert forall|v: ValidatorModel| #[trigger] indexes_of(vs).contains_key(v) implies indexes_of(
            vs,
        )[v].len() == v.weight by {
            if v != vs.last() {
                assert(indexes_of(rest).contains_key(v));
            }
        }
        assert forall|v: ValidatorModel, k: int| vs.contains(v) && 0 <= k < v.weight implies {
            let p = #[trigger] indexes_of(vs)[v][k];
            &&& 1 <= p <= weight_of(vs)
            &&& 0 <= owner_of(vs, p) < vs.len()
            &&& vs[owner_of(vs, p)] == v
        } by {
            if v != vs.last() {
                assert(indexes_of(vs).contains_key(v));
                assert(indexes_of(rest).contains_key(v));
                let p = indexes_of(rest)[v][k];
                assert(rest[owner_of(rest, p)] == v);
            }
        }
    }
}

/// The distinct validators are the ones listed, each once.
proof fn lemma_distinct(vs: Seq<ValidatorModel>)
    ensures
        distinct(vs).no_duplicates(),
        distinct(vs).len() <= vs.len(),
        forall|v: ValidatorModel| #[trigger] distinct(vs).contains(v) <==> vs.contains(v),
        vs.no_duplicates() ==> distinct(vs) == vs,
    decreases vs.len(),
{
    if vs.len() > 0 {
        let rest = vs.drop_last();
        lemma_distinct(rest);
        assert forall|v: ValidatorModel| #[trigger] distinct(vs).contains(v) <==> vs.contains(v) by {
            assert(vs.contains(v) <==> rest.contains(v) || v == vs.last()) by {
                if rest.contains(v) {
                    let i = choose|i: int| 0 <= i < rest.len() && rest[i] == v;
                    assert(vs[i] == v);
                }
                if v == vs.last() {
                    assert(vs[vs.len() - 1] == v);
                }
                if vs.contains(v) && v != vs.last() {
                    let i = choose|i: int| 0 <= i < vs.len() && vs[i] == v;
                    assert(rest[i] == v);
                }
            }
            assert(distinct(rest).contains(v) <==> rest.contains(v));
            if !distinct(rest).contains(vs.last()) {
                let pushed = distinct(rest).push(vs.last());
                if distinct(rest).contains(v) {
                    let i = choose|i: int|
                        0 <= i < distinct(rest).len() && distinct(rest)[i] == v;
                    assert(pushed[i] == v);
                }
                if v == vs.last() {
                    assert(pushed[pushed.len() - 1] == v);
                }
                if pushed.contains(v) && v != vs.last() {
                    let i = choose|i: int| 0 <= i < pushed.len() && pushed[i] == v;
                    assert(distinct(rest)[i] == v);
                }
            }
        }
        if vs.no_duplicates() {
            assert(rest.no_duplicates());
            assert(!rest.contains(vs.last()));
            assert(!distinct(rest).contains(vs.last()));
            assert(distinct(vs) =~= vs);
        }
    }
}

/// Of a set in sync, the participants are the indexes from one through the total weight, each
/// of which exactly one listed validator acts as.
pub proof fn participants_are_one_through_total_weight(set: &TributaryValidatorSet)
    requires
        set.in_sync(),
    ensures
        forall|p: nat| #[trigger]
            set.lookup().contains_key(p) <==> 1 <= p <= weight_of(set.validator_models()),
        forall|p: nat| #[trigger]
            set.lookup().contains_key(p) ==> set.validator_models().contains(set.lookup()[p]),
{
    let vs = set.validator_models();
    assert forall|p: nat| #[trigger] set.lookup().contains_key(p) implies vs.contains(
        set.lookup()[p],
    ) by {
        lemma_owner_of(vs, p);
        assert(vs[owner_of(vs, p)] == set.lookup()[p]);
    }
}

/// Of a set in sync, the validators indexed are the ones listed, each with as many participants as
/// it has weight, and the reverse lookup leads from each of those back to it.
pub proof fn lookup_reverses_indexes(set: &TributaryValidatorSet)
    requires
        set.in_sync(),
    ensures
        forall|v: ValidatorModel| #[trigger]
            set.indexes().contains_key(v) <==> set.validator_models().contains(v),
        forall|v: ValidatorModel| #[trigger]
            set.indexes().contains_key(v) ==> set.indexes()[v].len() == v.weight,
        forall|v: ValidatorModel, k: int|
            set.indexes().contains_key(v) && 0 <= k < set.indexes()[v].len() ==> {
                let p = #[trigger] set.indexes()[v][k];
                set.lookup().contains_key(p) && set.lookup()[p] == v
            },
{
    lemma_indexes_of(set.validator_models());
}

/// Of a set in sync which lists no validator twice, each participant is among those of the
/// validator which the reverse lookup leads it to.
pub proof fn indexes_reverse_lookup(set: &TributaryValidatorSet)
    requires
        set.in_sync(),
        set.validator_models().no_duplicates(),
    ensures
        forall|p: nat| #[trigger]
            set.lookup().contains_key(p) ==> set.indexes().contains_key(set.lookup()[p])
                && set.indexes()[set.lookup()[p]].contains(p),
{
    let vs = set.validator_models();
    assert forall|p: nat| #[trigger] set.lookup().contains_key(p) implies set.indexes().contains_key(
        set.lookup()[p],
    ) && set.indexes()[set.lookup()[p]].contains(p) by {
        lemma_owner_is_indexed(vs, p);
    }
}

/// Where no validator is listed twice, a participant is among those of its owner.
proof fn lemma_owner_is_indexed(vs: Seq<ValidatorModel>, p: nat)
    requires
        vs.no_duplicates(),
        1 <= p <= weight_of(vs),
    ensures
        indexes_of(vs).contains_key(vs[owner_of(vs, p)]),
        indexes_of(vs)[vs[owner_of(vs, p)]].contains(p),
    decreases vs.len(),
{
    let rest = vs.drop_last();
    let taken = weight_of(rest);
    if p > taken {
        let these = indexes_after(taken, vs.last().weight);
        assert(these[p - taken - 1] == p);
    } else {
        lemma_owner_is_indexed(rest, p);
        lemma_owner_of(rest, p);
        let i = owner_of(rest, p);
        assert(vs[i] == rest[i]);
        assert(vs[i] != vs[vs.len() - 1]);
    }
}

/// Of a set in sync, the threshold is over how many distinct validators there are, of whom there
/// are as many as listed where none is listed twice.
pub proof fn indexed_validators_are_distinct(set: &TributaryValidatorSet)
    requires
        set.in_sync(),
    ensures
        set.indexed().no_duplicates(),
        forall|v: ValidatorModel| #[trigger]
            set.indexed().contains(v) <==> set.validator_models().contains(v),
        set.indexed().len() <= set.validators@.len(),
        set.validator_models().no_duplicates() ==> set.indexed() == set.validator_models(),
{
    lemma_distinct(set.validator_models());
}

/// The threshold is more than two thirds of the indexed validators, and no more than all of them
/// where there is one.
pub proof fn threshold_is_over_two_thirds(set: &TributaryValidatorSet)
    ensures
        3 * ((set.indexed().len() * 2) / 3 + 1) > 2 * set.indexed().len(),
        set.indexed().len() > 0 ==> (set.indexed().len() * 2) / 3 + 1 <= set.indexed().len(),
{
}

/// What's indexed is decided by the list of validators alone: to drop the indexes and initialize
/// them anew gives the same back.
pub proof fn validators_decide_indexes(a: &TributaryValidatorSet, b: &TributaryValidatorSet)
    requires
        a.in_sync(),
        b.in_sync(),
        a.validator_models() == b.validator_models(),
    ensures
        a.indexed() == b.indexed(),
        a.indexes() == b.indexes(),
        a.lookup() == b.lookup(),
{
}

/// The last pair with a key decides what's associated with it.
pub proof fn lemma_assoc_last<K, V>(pairs: Seq<(K, V)>, i: int)
    requires
        0 <= i < pairs.len(),
        forall|j: int| i < j < pairs.len() ==> (#[trigger] pairs[j]).0 != pairs[i].0,
    ensures
        assoc(pairs).contains_key(pairs[i].0),
        assoc(pairs)[pairs[i].0] == pairs[i].1,
    decreases pairs.len(),
{
    let rest = pairs.drop_last();
    if i < rest.len() {
        assert forall|j: int| i < j < rest.len() implies (#[trigger] rest[j]).0 != rest[i].0 by {
            assert(rest[j] == pairs[j]);
        }
        lemma_assoc_last(rest, i);
        assert(pairs[pairs.len() - 1].0 != pairs[i].0);
    }
}

/// Only keys of pairs are associated with anything.
pub proof fn lemma_assoc_keys<K, V>(pairs: Seq<(K, V)>, k: K)
    requires
        assoc(pairs).contains_key(k),
    ensures
        exists|i: int| 0 <= i < pairs.len() && (#[trigger] pairs[i]).0 == k,
    decreases pairs.len(),
{
    if pairs.len() > 0 {
        let rest = pairs.drop_last();
        if k == pairs.last().0 {
            assert(pairs[pairs.len() - 1].0 == k);
        } else {
            lemma_assoc_keys(rest, k);
            let i = choose|i: int| 0 <= i < rest.len() && (#[trigger] rest[i]).0 == k;
            assert(pairs[i].0 == k);
        }
    }
}

/// Whether participants are the same, in the same order.
fn same_participants(a: &Vec<Participant>, b: &Vec<Participant>) -> (same: bool)
    ensures
        same == (a@.map_values(|p: Participant| p@) == b@.map_values(|p: Participant| p@)),
{
    let ghost left = a@.map_values(|p: Participant| p@);
    let ghost right = b@.map_values(|p: Participant| p@);
    assert(left.len() == a.len() && right.len() == b.len());
    if a.len() != b.len() {
        return false;
    }
    let mut i: usize = 0;
    while i < a.len()
        invariant
            i <= a.len(),
            a.len() == b.len(),
            left == a@.map_values(|p: Participant| p@),
            right == b@.map_values(|p: Participant| p@),
            forall|j: int| 0 <= j < i ==> left[j] == #[trigger] right[j],
        decreases a.len() - i,
    {
        if a[i].index() != b[i].index() {
            assert(left[i as int] != right[i as int]);
            return false;
        }
        i += 1;
    }
    assert(left =~= right);
    true
}

/// Where the last entry of a validator is, if it has any.
fn last_index_entry(
    entries: &Vec<(TributaryValidator, Vec<Participant>)>,
    validator: &TributaryValidator,
) -> (position: Option<usize>)
    ensures
        match position {
            Some(i) => {
                &&& i < entries@.len()
                &&& index_entries(entries@)[i as int].0 == validator@
                &&& forall|j: int|
                    i < j < entries@.len() ==> (#[trigger] index_entries(entries@)[j]).0
                        != validator@
            },
            None => forall|j: int|
                0 <= j < entries@.len() ==> (#[trigger] index_entries(entries@)[j]).0
                    != validator@,
        },
{
    let mut i: usize = entries.len();
    while i > 0
        invariant
            i <= entries.len(),
            forall|j: int|
                i <= j < entries@.len() ==> (#[trigger] index_entries(entries@)[j]).0
                    != validator@,
        decreases i,
    {
        i -= 1;
        assert(index_entries(entries@)[i as int] == index_entry(entries@[i as int]));
        if entries[i].0.same(validator) {
            return Some(i);
        }
    }
    None
}

/// Whether all which the entries associate, others do too.
fn indexes_within(
    entries: &Vec<(TributaryValidator, Vec<Participant>)>,
    others: &Vec<(TributaryValidator, Vec<Participant>)>,
) -> (within: bool)
    ensures
        within == assoc(index_entries(entries@)).submap_of(assoc(index_entries(others@))),
{
    let ghost a = index_entries(entries@);
    let ghost b = index_entries(others@);
    let mut i: usize = 0;
    while i < entries.len()
        invariant
            i <= entries.len(),
            a == index_entries(entries@),
            b == index_entries(others@),
            a.len() == entries@.len(),
            forall|j: int|
                0 <= j < i ==> assoc(b).contains_key((#[trigger] a[j]).0) && assoc(a)[a[j].0]
                    == assoc(b)[a[j].0],
        decreases entries.len() - i,
    {
        let validator = &entries[i].0;
        let ghost key = a[i as int].0;
        assert(a[i as int] == index_entry(entries@[i as int]));
        let position = last_index_entry(entries, validator);
        let other = last_index_entry(others, validator);
        match position {
            Some(last) => {
                proof {
                    lemma_assoc_last(a, last as int);
                }
                match other {
                    Some(other_last) => {
                        proof {
                            lemma_assoc_last(b, other_last as int);
                            assert(a[last as int] == index_entry(entries@[last as int]));
                            assert(b[other_last as int] == index_entry(
                                others@[other_last as int],
                            ));
                        }
                        if !same_participants(&entries[last].1, &others[other_last].1) {
                            assert(assoc(a).dom().contains(key));
                            return false;
                        }
                    },
                    None => {
                        proof {
                            if assoc(b).contains_key(key) {
                                lemma_assoc_keys(b, key);
                            }
                            assert(assoc(a).dom().contains(key));
                        }
                        return false;
                    },
                }
            },
            None => {
                // This entry is one of the validator's
                assert(a[i as int].0 != key);
            },
        }
        i += 1;
    }
    proof {
        assert forall|k: ValidatorModel| #[trigger] assoc(a).dom().contains(k) implies assoc(
            b,
        ).dom().contains(k) && assoc(a)[k] == assoc(b)[k] by {
            lemma_assoc_keys(a, k);
            let j = choose|j: int| 0 <= j < a.len() && (#[trigger] a[j]).0 == k;
            assert(assoc(b).contains_key(a[j].0));
        }
    }
    true
}

/// The content of a list of `participant_indexes_reverse_lookup` entries.
spec fn lookup_entries_of(entries: Seq<(Participant, TributaryValidator)>) -> Seq<
    (nat, ValidatorModel),
> {
    entries.map_values(|e: (Participant, TributaryValidator)| lookup_entry(e))
}

/// Where the last entry of a participant is, if it has any.
fn last_lookup_entry(
    entries: &Vec<(Participant, TributaryValidator)>,
    participant: Participant,
) -> (position: Option<usize>)
    ensures
        match position {
            Some(i) => {
                &&& i < entries@.len()
                &&& lookup_entries_of(entries@)[i as int].0 == participant@
                &&& forall|j: int|
                    i < j < entries@.len() ==> (#[trigger] lookup_entries_of(entries@)[j]).0
                        != participant@
            },
            None => forall|j: int|
                0 <= j < entries@.len() ==> (#[trigger] lookup_entries_of(entries@)[j]).0
                    != participant@,
        },
{
    let mut i: usize = entries.len();
    while i > 0
        invariant
            i <= entries.len(),
            forall|j: int|
                i <= j < entries@.len() ==> (#[trigger] lookup_entries_of(entries@)[j]).0
                    != participant@,
        decreases i,
    {
        i -= 1;
        assert(lookup_entries_of(entries@)[i as int] == lookup_entry(entries@[i as int]));
        if entries[i].0.index() == participant.index() {
            return Some(i);
        }
    }
    None
}

/// Whether all which the entries associate, others do too.
fn lookups_within(
    entries: &Vec<(Participant, TributaryValidator)>,
    others: &Vec<(Participant, TributaryValidator)>,
) -> (within: bool)
    ensures
        within == assoc(lookup_entries_of(entries@)).submap_of(
            assoc(lookup_entries_of(others@)),
        ),
{
    let ghost a = lookup_entries_of(entries@);
    let ghost b = lookup_entries_of(others@);
    let mut i: usize = 0;
    while i < entries.len()
        invariant
            i <= entries.len(),
            a == lookup_entries_of(entries@),
            b == lookup_entries_of(others@),
            a.len() == entries@.len(),
            forall|j: int|
                0 <= j < i ==> assoc(b).contains_key((#[trigger] a[j]).0) && assoc(a)[a[j].0]
                    == assoc(b)[a[j].0],
        decreases entries.len() - i,
    {
        let participant = entries[i].0;
        let ghost key = a[i as int].0;
        assert(a[i as int] == lookup_entry(entries@[i as int]));
        let position = last_lookup_entry(entries, participant);
        let other = last_lookup_entry(others, participant);
        match position {
            Some(last) => {
                proof {
                    lemma_assoc_last(a, last as int);
                }
                match other {
                    Some(other_last) => {
                        proof {
                            lemma_assoc_last(b, other_last as int);
                            assert(a[last as int] == lookup_entry(entries@[last as int]));
                            assert(b[other_last as int] == lookup_entry(
                                others@[other_last as int],
                            ));
                        }
                        if !entries[last].1.same(&others[other_last].1) {
                            assert(assoc(a).dom().contains(key));
                            return false;
                        }
                    },
                    None => {
                        proof {
                            if assoc(b).contains_key(key) {
                                lemma_assoc_keys(b, key);
                            }
                            assert(assoc(a).dom().contains(key));
                        }
                        return false;
                    },
                }
            },
            None => {
                // This entry is one of the participant's
                assert(a[i as int].0 != key);
            },
        }
        i += 1;
    }
    proof {
        assert forall|k: nat| #[trigger] assoc(a).dom().contains(k) implies assoc(
            b,
        ).dom().contains(k) && assoc(a)[k] == assoc(b)[k] by {
            lemma_assoc_keys(a, k);
            let j = choose|j: int| 0 <= j < a.len() && (#[trigger] a[j]).0 == k;
            assert(assoc(b).contains_key(a[j].0));
        }
    }
    true
}

/// Whether validators are the same, in the same order.
fn same_validators(a: &Vec<TributaryValidator>, b: &Vec<TributaryValidator>) -> (same: bool)
    ensures
        same == (models(a@) == models(b@)),
{
    assert(models(a@).len() == a.len() && models(b@).len() == b.len());
    if a.len() != b.len() {
        return false;
    }
    let mut i: usize = 0;
    while i < a.len()
        invariant
            i <= a.len(),
            a.len() == b.len(),
            forall|j: int| 0 <= j < i ==> models(a@)[j] == #[trigger] models(b@)[j],
        decreases a.len() - i,
    {
        if !a[i].same(&b[i]) {
            assert(models(a@)[i as int] != models(b@)[i as int]);
            return false;
        }
        i += 1;
    }
    assert(models(a@) =~= models(b@));
    true
}

impl TributaryValidatorSet {
    /// Whether two sets list the same validators, in the same order, and associate the same
    /// participants with the same validators. The order of associations is irrelevant.
    pub open spec fn same_content(&self, other: &TributaryValidatorSet) -> bool {
        &&& self.validator_models() == other.validator_models()
        &&& self.indexes() == other.indexes()
        &&& self.lookup() == other.lookup()
    }

    /// Whether two sets list the same validators, in the same order, and associate the same
    /// participants with the same validators. The order of associations is irrelevant.
    pub fn same(&self, other: &TributaryValidatorSet) -> (same: bool)
        ensures
            same == self.same_content(other),
    {
        let validators: bool = same_validators(&self.validators, &other.validators);
        let indexes: bool = indexes_within(&self.participant_indexes, &other.participant_indexes)
            && indexes_within(&other.participant_indexes, &self.participant_indexes);
        let lookups: bool = lookups_within(
            &self.participant_indexes_reverse_lookup,
            &other.participant_indexes_reverse_lookup,
        ) && lookups_within(
            &other.participant_indexes_reverse_lookup,
            &self.participant_indexes_reverse_lookup,
        );
        proof {
            assert(self.index_entries() =~= index_entries(self.participant_indexes@));
            assert(other.index_entries() =~= index_entries(other.participant_indexes@));
            assert(self.lookup_entries() =~= lookup_entries_of(
                self.participant_indexes_reverse_lookup@,
            ));
            assert(other.lookup_entries() =~= lookup_entries_of(
                other.participant_indexes_reverse_lookup@,
            ));
            lemma_submaps_are_equal(self.indexes(), other.indexes());
            lemma_submaps_are_equal(self.lookup(), other.lookup());
        }
        validators && indexes && lookups
    }
}

/// Maps are equal exactly if each is within the other.
proof fn lemma_submaps_are_equal<K, V>(a: Map<K, V>, b: Map<K, V>)
    ensures
        a == b <==> a.submap_of(b) && b.submap_of(a),
{
    if a.submap_of(b) && b.submap_of(a) {
        assert forall|k: K| a.dom().contains(k) <==> b.dom().contains(k) by {}
        assert(a =~= b);
    }
}

impl PartialEq for TributaryValidatorSet {
    fn eq(&self, other: &TributaryValidatorSet) -> (equal: bool) {
        self.same(other)
    }
}

impl Eq for TributaryValidatorSet {

}

impl PartialEqSpecImpl for TributaryValidatorSet {
    open spec fn obeys_eq_spec() -> bool {
        true
    }

    open spec fn eq_spec(&self, other: &TributaryValidatorSet) -> bool {
        self.same_content(other)
    }
}

/// Sets which were initialized are equal exactly if they list the same validators in the same order.
pub proof fn initialized_sets_are_equal_by_validators(
    a: &TributaryValidatorSet,
    b: &TributaryValidatorSet,
)
    requires
        a.in_sync(),
        b.in_sync(),
    ensures
        a.same_content(b) <==> a.validator_models() == b.validator_models(),
{
}

/// The content of a validator is all of it.
pub proof fn content_of_a_validator_is_all_of_it(validator: TributaryValidator)
    ensures
        validator@.substrate_key == validator.substrate_key@,
        validator@.network_key == validator.network_key@,
        validator@.weight == validator.weight,
{
}

/// The sum of the weights of the validators before a position.
pub open spec fn weight_before(validators: Seq<TributaryValidator>, i: int) -> int {
    validators.take(i).map_values(|v: TributaryValidator| v.weight as int).fold_left(
        0,
        |sum: int, weight: int| sum + weight,
    )
}

/// The weight of validators is the sum of theirs.
pub proof fn weights_are_summed_up(validators: Seq<TributaryValidator>, i: int)
    requires
        0 <= i <= validators.len(),
    ensures
        weight_of(models(validators).take(i)) == weight_before(validators, i),
        weight_of(models(validators)) == weight_before(validators, validators.len() as int),
    decreases i,
{
    assert(models(validators).take(validators.len() as int) =~= models(validators));
    lemma_weight_before(validators, i);
    lemma_weight_before(validators, validators.len() as int);
}

/// The weight of the validators before a position is the sum of theirs.
proof fn lemma_weight_before(validators: Seq<TributaryValidator>, i: int)
    requires
        0 <= i <= validators.len(),
    ensures
        weight_of(models(validators).take(i)) == weight_before(validators, i),
    decreases i,
{
    let weight = |v: TributaryValidator| v.weight as int;
    let vs = models(validators);
    if i > 0 {
        lemma_weight_before(validators, i - 1);
        assert(vs.take(i).drop_last() =~= vs.take(i - 1));
        assert(validators.take(i).map_values(weight).drop_last() =~= validators.take(
            i - 1,
        ).map_values(weight));
        assert(vs.take(i).last() == validators[i - 1]@);
    } else {
        assert(vs.take(0) =~= seq![]);
        assert(validators.take(0).map_values(weight) =~= seq![]);
    }
}

/// Whose a participant is, by the weights before and through a validator.
proof fn lemma_owner_between(vs: Seq<ValidatorModel>, i: int, p: nat)
    requires
        0 <= i < vs.len(),
        weight_of(vs.take(i)) < p <= weight_of(vs.take(i + 1)),
    ensures
        owner_of(vs, p) == i,
    decreases vs.len(),
{
    let rest = vs.drop_last();
    assert(rest =~= vs.take(vs.len() - 1));
    if i < vs.len() - 1 {
        assert(rest.take(i) =~= vs.take(i));
        assert(rest.take(i + 1) =~= vs.take(i + 1));
        lemma_weight_of_prefix(rest, i + 1);
        lemma_owner_between(rest, i, p);
    }
}

/// The participants of a set which was initialized are listed as one, two, and so on through its total
/// weight. Each validator, in the order in which they're listed, acts as as many as it has weight, right
/// after those of the validators before it.
pub proof fn participants_are_listed_by_weight(set: &TributaryValidatorSet)
    requires
        set.in_sync(),
    ensures
        ({
            let validators = set.validators@;
            let listed = set.participant_indexes_reverse_lookup@;
            &&& listed.len() == weight_before(validators, validators.len() as int)
            &&& forall|q: int| 0 <= q < listed.len() ==> (#[trigger] listed[q]).0@ == q + 1
            &&& forall|i: int, q: int|
                0 <= i < validators.len() && weight_before(validators, i) <= q < weight_before(
                    validators,
                    i + 1,
                ) ==> (#[trigger] listed[q]).1@ == (#[trigger] validators[i])@
        }),
{
    let validators = set.validators@;
    let vs = set.validator_models();
    let listed = set.participant_indexes_reverse_lookup@;
    let total = weight_of(vs);
    weights_are_summed_up(validators, 0);
    set.lemma_lookup();
    lemma_listed_positions(set, listed.len() as int);
    // Every participant is listed, so there are as many as there's weight
    if listed.len() < total {
        let p = (listed.len() + 1) as nat;
        assert(set.lookup().contains_key(p));
        let i = choose|i: int| 0 <= i < listed.len() && #[trigger] listed[i].0@ == p;
        assert(listed[i].0@ == i + 1);
    }
    if listed.len() > total {
        assert(listed[listed.len() - 1].0@ == listed.len());
        assert(set.lookup().contains_key(listed[listed.len() - 1].0@));
    }
    assert forall|i: int, q: int|
        0 <= i < validators.len() && weight_before(validators, i) <= q < weight_before(
            validators,
            i + 1,
        ) implies (#[trigger] listed[q]).1@ == (#[trigger] validators[i])@ by {
        weights_are_summed_up(validators, i);
        weights_are_summed_up(validators, i + 1);
        lemma_weight_of_prefix(vs, i + 1);
        let p = (q + 1) as nat;
        lemma_owner_between(vs, i, p);
        assert(listed[q].0@ == p);
        assert(set.lookup()[p] == vs[i]);
    }
}

/// The first participants listed are one, two, and so on.
proof fn lemma_listed_positions(set: &TributaryValidatorSet, n: int)
    requires
        set.in_sync(),
        0 <= n <= set.participant_indexes_reverse_lookup@.len(),
    ensures
        forall|q: int|
            0 <= q < n ==> (#[trigger] set.participant_indexes_reverse_lookup@[q]).0@ == q + 1,
    decreases n,
{
    let listed = set.participant_indexes_reverse_lookup@;
    if n > 0 {
        lemma_listed_positions(set, n - 1);
        set.lemma_lookup();
        let q = n - 1;
        assert(set.lookup().contains_key(listed[q].0@));
        assert(1 <= listed[q].0@);
        if q > 0 {
            assert(listed[q - 1].0@ < listed[q].0@);
        }
        assert(listed[q].0@ >= q + 1);
        let p = (q + 1) as nat;
        assert(set.lookup().contains_key(p));
        let j = choose|j: int| 0 <= j < listed.len() && #[trigger] listed[j].0@ == p;
        if j < q {
            assert(listed[j].0@ == j + 1);
        } else if j > q {
            assert(listed[q].0@ < listed[j].0@);
        }
    }
}

/// The last time a validator is listed decides which participants it acts as.
proof fn lemma_indexes_of_last(vs: Seq<ValidatorModel>, i: int)
    requires
        0 <= i < vs.len(),
        forall|j: int| i < j < vs.len() ==> #[trigger] vs[j] != vs[i],
    ensures
        indexes_of(vs).contains_key(vs[i]),
        indexes_of(vs)[vs[i]] == indexes_after(weight_of(vs.take(i)), vs[i].weight),
    decreases vs.len(),
{
    let rest = vs.drop_last();
    if i < rest.len() {
        assert forall|j: int| i < j < rest.len() implies #[trigger] rest[j] != rest[i] by {
            assert(rest[j] == vs[j]);
        }
        lemma_indexes_of_last(rest, i);
        assert(rest.take(i) =~= vs.take(i));
        assert(vs[vs.len() - 1] != vs[i]);
    } else {
        assert(vs.take(i) =~= rest);
    }
}

/// The last position at which a validator is listed.
proof fn lemma_last_listing(vs: Seq<ValidatorModel>, v: ValidatorModel) -> (i: int)
    requires
        vs.contains(v),
    ensures
        0 <= i < vs.len(),
        vs[i] == v,
        forall|j: int| i < j < vs.len() ==> #[trigger] vs[j] != v,
    decreases vs.len(),
{
    if vs.last() == v {
        vs.len() - 1
    } else {
        let rest = vs.drop_last();
        let k = choose|k: int| 0 <= k < vs.len() && vs[k] == v;
        assert(rest[k] == v);
        let i = lemma_last_listing(rest, v);
        assert forall|j: int| i < j < vs.len() implies #[trigger] vs[j] != v by {
            if j < rest.len() {
                assert(rest[j] == vs[j]);
            }
        }
        i
    }
}

/// Each validator of a set which was initialized has one entry of participants. They're consecutive, as
/// many as the validator has weight, right after those of the validators listed before it, where it's
/// last listed.
pub proof fn validators_act_as_consecutive_participants(set: &TributaryValidatorSet, e: int) -> (i:
    int)
    requires
        set.in_sync(),
        0 <= e < set.participant_indexes@.len(),
    ensures
        ({
            let validators = set.validators@;
            let (validator, participants) = set.participant_indexes@[e];
            &&& 0 <= i < validators.len()
            &&& validators[i]@ == validator@
            &&& forall|j: int| i < j < validators.len() ==> (#[trigger] validators[j])@ != validator@
            &&& participants@.len() == validator.weight
            &&& forall|k: int|
                0 <= k < participants@.len() ==> (#[trigger] participants@[k])@ == weight_before(
                    validators,
                    i,
                ) + 1 + k
            &&& forall|f: int|
                0 <= f < set.participant_indexes@.len() && f != e ==> (
                #[trigger] set.participant_indexes@[f]).0@ != validator@
        }),
{
    let validators = set.validators@;
    let vs = set.validator_models();
    let entries = set.participant_indexes@;
    let pairs = set.index_entries();
    let (validator, participants) = entries[e];
    assert(pairs.len() == entries.len());
    assert forall|a: int, b: int| 0 <= a < b < pairs.len() implies pairs[a].0 != pairs[b].0 by {
        assert(set.indexed()[a] == index_entry(entries[a]).0);
        assert(set.indexed()[b] == index_entry(entries[b]).0);
    }
    lemma_assoc(pairs);
    assert(pairs[e] == index_entry(entries[e]));
    assert(assoc(pairs).contains_key(pairs[e].0));
    lemma_indexes_of(vs);
    assert(indexes_of(vs).contains_key(validator@));
    let i = lemma_last_listing(vs, validator@);
    lemma_indexes_of_last(vs, i);
    weights_are_summed_up(validators, i);
    assert forall|j: int| i < j < validators.len() implies (#[trigger] validators[j])@ != validator@ by {
        assert(vs[j] == validators[j]@);
    }
    let held = participants@.map_values(|p: Participant| p@);
    assert(held == indexes_after(weight_of(vs.take(i)), vs[i].weight));
    assert(held.len() == participants@.len());
    assert forall|k: int| 0 <= k < participants@.len() implies (#[trigger] participants@[k])@
        == weight_before(validators, i) + 1 + k by {
        assert(held[k] == participants@[k]@);
    }
    assert forall|f: int| 0 <= f < entries.len() && f != e implies (#[trigger] entries[f]).0@
        != validator@ by {
        assert(pairs[f] == index_entry(entries[f]));
        if f < e {
            assert(pairs[f].0 != pairs[e].0);
        } else {
            assert(pairs[e].0 != pairs[f].0);
        }
    }
    i
}

/// Each validator listed in a set which was initialized has an entry of participants. The entries are in
/// the order in which the validators are first listed: by the time one is listed, each with an earlier
/// entry was.
pub proof fn each_validator_has_an_entry(set: &TributaryValidatorSet, i: int) -> (e: int)
    requires
        set.in_sync(),
        0 <= i < set.validators@.len(),
    ensures
        0 <= e < set.participant_indexes@.len(),
        set.participant_indexes@[e].0@ == set.validators@[i]@,
        forall|f: int|
            0 <= f < e ==> listed_before(
                set.validator_models(),
                (#[trigger] set.participant_indexes@[f]).0@,
                i,
            ),
{
    let vs = set.validator_models();
    let entries = set.participant_indexes@;
    lemma_distinct(vs);
    assert(vs[i] == set.validators@[i]@);
    assert(distinct(vs).contains(vs[i]));
    let e = choose|e: int| 0 <= e < distinct(vs).len() && distinct(vs)[e] == vs[i];
    assert(set.indexed().len() == entries.len());
    assert(set.indexed()[e] == index_entry(entries[e]).0);
    lemma_distinct_order(vs);
    assert forall|f: int| 0 <= f < e implies listed_before(vs, (#[trigger] entries[f]).0@, i) by {
        assert(set.indexed()[f] == index_entry(entries[f]).0);
        assert(listed_before(vs, distinct(vs)[f], i));
    }
    e
}

/// Whether a validator is listed before a position.
pub open spec fn listed_before(vs: Seq<ValidatorModel>, v: ValidatorModel, i: int) -> bool {
    exists|h: int| 0 <= h < i && #[trigger] vs[h] == v
}

/// The distinct validators are in the order in which they're first listed.
proof fn lemma_distinct_order(vs: Seq<ValidatorModel>)
    ensures
        forall|f: int, e: int, i: int|
            0 <= f < e < distinct(vs).len() && 0 <= i < vs.len() && #[trigger] vs[i]
                == #[trigger] distinct(vs)[e] ==> #[trigger] listed_before(vs, distinct(vs)[f], i),
    decreases vs.len(),
{
    if vs.len() > 0 {
        let rest = vs.drop_last();
        let before = distinct(rest);
        lemma_distinct_order(rest);
        lemma_distinct(rest);
        assert forall|f: int, e: int, i: int|
            0 <= f < e < distinct(vs).len() && 0 <= i < vs.len() && #[trigger] vs[i]
                == #[trigger] distinct(vs)[e] implies #[trigger] listed_before(
            vs,
            distinct(vs)[f],
            i,
        ) by {
            assert(f < before.len());
            assert(distinct(vs)[f] == before[f]);
            if i < rest.len() {
                assert(rest[i] == vs[i]);
                if e < before.len() {
                    assert(before[e] == distinct(vs)[e]);
                    assert(listed_before(rest, before[f], i));
                    let h = choose|h: int| 0 <= h < i && #[trigger] rest[h] == before[f];
                    assert(vs[h] == distinct(vs)[f]);
                } else {
                    // What's new wasn't listed before
                    assert(rest.contains(vs[i]));
                    assert(before.contains(vs.last()));
                }
            } else {
                // All which have an entry were listed before the last
                assert(before.contains(before[f]));
                let h = choose|h: int| 0 <= h < rest.len() && rest[h] == before[f];
                assert(vs[h] == distinct(vs)[f]);
            }
        }
    }
}

/// What's looked up of a well-formed set is what's listed.
pub proof fn lookups_are_of_what_is_listed(set: &TributaryValidatorSet)
    requires
        set.wf(),
    ensures
        forall|q: int|
            0 <= q < set.participant_indexes_reverse_lookup@.len() ==> {
                let entry = #[trigger] set.participant_indexes_reverse_lookup@[q];
                set.lookup().contains_key(entry.0@) && set.lookup()[entry.0@] == entry.1@
            },
        forall|p: nat| #[trigger]
            set.lookup().contains_key(p) ==> exists|q: int|
                0 <= q < set.participant_indexes_reverse_lookup@.len()
                    && #[trigger] set.participant_indexes_reverse_lookup@[q].0@ == p,
        set.indexed().len() == set.participant_indexes@.len(),
        forall|e: int|
            0 <= e < set.indexed().len() ==> #[trigger] set.indexed()[e]
                == set.participant_indexes@[e].0@,
{
    set.lemma_lookup();
}

/// The threshold is the least number of validators which is over two thirds of those indexed.
pub proof fn thresholds_are_the_least_over_two_thirds(len: nat, threshold: nat)
    requires
        threshold == (len * 2) / 3 + 1,
    ensures
        3 * threshold > 2 * len,
        3 * (threshold - 1) <= 2 * len,
{
}

/// Sets are equal exactly if they have the same validators at each position, and each validator, and each
/// participant, is associated with the same in both.
pub proof fn equal_sets_agree_on_all(a: &TributaryValidatorSet, b: &TributaryValidatorSet)
    ensures
        a.same_content(b) <==> PartialEqSpec::eq_spec(a, b),
        PartialEqSpec::eq_spec(a, b) <==> {
            &&& a.validators@.len() == b.validators@.len()
            &&& forall|i: int|
                0 <= i < a.validators@.len() ==> (#[trigger] a.validators@[i])@ == b.validators@[i]@
            &&& forall|v: ValidatorModel| #[trigger]
                a.indexes().contains_key(v) <==> b.indexes().contains_key(v)
            &&& forall|v: ValidatorModel| #[trigger]
                a.indexes().contains_key(v) ==> a.indexes()[v] == b.indexes()[v]
            &&& forall|p: nat| #[trigger]
                a.lookup().contains_key(p) <==> b.lookup().contains_key(p)
            &&& forall|p: nat| #[trigger]
                a.lookup().contains_key(p) ==> a.lookup()[p] == b.lookup()[p]
        },
{
    let agree = {
        &&& a.validators@.len() == b.validators@.len()
        &&& forall|i: int|
            0 <= i < a.validators@.len() ==> (#[trigger] a.validators@[i])@ == b.validators@[i]@
        &&& forall|v: ValidatorModel| #[trigger]
            a.indexes().contains_key(v) <==> b.indexes().contains_key(v)
        &&& forall|v: ValidatorModel| #[trigger]
            a.indexes().contains_key(v) ==> a.indexes()[v] == b.indexes()[v]
        &&& forall|p: nat| #[trigger] a.lookup().contains_key(p) <==> b.lookup().contains_key(p)
        &&& forall|p: nat| #[trigger]
            a.lookup().contains_key(p) ==> a.lookup()[p] == b.lookup()[p]
    };
    if agree {
        assert(a.validator_models() =~= b.validator_models());
        assert(a.indexes() =~= b.indexes());
        assert(a.lookup() =~= b.lookup());
    }
    if a.same_content(b) {
        assert(a.validator_models().len() == a.validators@.len());
        assert(b.validator_models().len() == b.validators@.len());
        assert forall|i: int| 0 <= i < a.validators@.len() implies (#[trigger] a.validators@[i])@
            == b.validators@[i]@ by {
            assert(a.validator_models()[i] == b.validator_models()[i]);
        }
    }
}

} // verus!
