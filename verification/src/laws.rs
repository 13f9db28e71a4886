//! What the parts are: that nothing is left out of a value's content, and what each small function
//! gives, in terms of what it's given.
use crate::auxiliary_keys::EmbeddedEllipticCurveKeys;
use crate::canonical_stream::CanonicalEventStream;
use crate::canonical::{CanonicalDb, CanonicalEvents, CanonicalModel};
use crate::cosign::Cosigning;
use crate::db::MemDb;
use crate::ephemeral::{EphemeralDb, EphemeralEvents, EphemeralModel, NewSetInformation};
use crate::ephemeral_stream::EphemeralEventStream;
use crate::ephemeral_laws::{is_network_key_of, is_substrate_key_of, network_of};
use crate::errors::{set_text, StreamError};
use crate::events::{in_order, lemma_in_order_none, lemma_in_order_push, Event};
use crate::messages::{CoordinatorMessage, ExecutedBatch, MessageModel};
use crate::network_id::{external_networks, ExternalCoin, ExternalNetworkId, NetworkId, PerNetwork};
use crate::node::{
    block_fetched, events_fetched, hash_to_fetch, BlockReply, EventsReply, SeraiBlock,
};
use crate::primitives::{
    BlockHash, ExternalValidatorSet, ValidatorSet, EXTERNAL_ADDRESS_MAX_SIZE,
    EXTERNAL_KEY_MAX_SIZE, MAX_KEY_SHARES_PER_SET,
};
use crate::task::RangeProcessor;
use crate::test_helpers::{greatest_len, is_length_range, least_len, network_for_draw, LengthBound};
use crate::text::{decimal, digit, hex, holds, holds_at};
use vstd::prelude::*;

verus! {

/// A block's time is in whole seconds: it's the only number of them which the block's milliseconds are
/// of.
pub proof fn time_is_in_whole_seconds(block: SeraiBlock)
    ensures
        1000 * block.time() <= block.unix_time_in_millis < 1000 * block.time() + 1000,
{
}

/// Only Serai itself isn't an external network.
pub proof fn only_serai_is_not_external(network: NetworkId)
    ensures
        network is Serai <==> network.external() is None,
        network matches NetworkId::External(n) ==> network.external() == Some(n),
        network.external() matches Some(n) ==> network == NetworkId::External(n),
{
}

/// Each set of an external network is that network's, for the same session. Only Serai's own sets are
/// passed over.
pub proof fn only_sets_of_serai_are_passed_over(set: ValidatorSet)
    ensures
        set.network is Serai <==> set.external() is None,
        set.external() matches Some(external) ==> set.network == NetworkId::External(
            external.network,
        ) && set.session == external.session,
{
}

/// Ether and Dai are Ethereum's coins. The other networks have the one named like them.
pub proof fn coins_are_of_their_network(coin: ExternalCoin)
    ensures
        coin.network() is Bitcoin <==> coin is Bitcoin,
        coin.network() is Ethereum <==> coin is Ether || coin is Dai,
        coin.network() is Monero <==> coin is Monero,
{
}

/// All external networks are gone through, each once: first Bitcoin, then Ethereum, and then Monero.
pub proof fn all_networks_are_gone_through_once(network: ExternalNetworkId)
    ensures
        external_networks().contains(network),
        external_networks().no_duplicates(),
        external_networks().len() == 3,
        external_networks()[0] is Bitcoin,
        external_networks()[1] is Ethereum,
        external_networks()[2] is Monero,
{
    match network {
        ExternalNetworkId::Bitcoin => assert(external_networks()[0] == network),
        ExternalNetworkId::Ethereum => assert(external_networks()[1] == network),
        ExternalNetworkId::Monero => assert(external_networks()[2] == network),
    }
}

/// Each network's value is its own.
pub proof fn each_network_has_its_own_value<T>(bitcoin: T, ethereum: T, monero: T)
    ensures
        ({
            let values = PerNetwork { bitcoin, ethereum, monero };
            &&& values.of(ExternalNetworkId::Bitcoin) == bitcoin
            &&& values.of(ExternalNetworkId::Ethereum) == ethereum
            &&& values.of(ExternalNetworkId::Monero) == monero
        }),
{
}

/// Auxiliary keys are for the network they're named after, and hold the keys they were made of.
pub proof fn keys_hold_what_they_were_made_of(keys: EmbeddedEllipticCurveKeys)
    ensures
        keys.network() == network_of(keys),
        is_substrate_key_of(keys.substrate_key()@, keys),
        is_network_key_of(keys.network_key_bytes(), keys),
{
}

/// A faulted session, and nothing else, leaves no answer to which block is the latest cosigned.
pub proof fn latest_is_known_unless_faulted(cosigning: Cosigning)
    ensures
        cosigning.latest() is Err <==> cosigning.faulted_session is Some,
        cosigning.latest() matches Ok(latest) ==> latest == cosigning.latest_cosigned_block_number,
{
}

/// A block is cosigned exactly if no session faulted, and it isn't after the latest which was. Its hash
/// is the one indexed for its number. Where none is, that's an error, and so is a faulted session.
pub proof fn blocks_through_the_latest_are_cosigned(cosigning: Cosigning, number: u64)
    ensures
        cosigning.faulted_session is Some ==> (cosigning.cosigned(number) matches Err(error) && error
            is Faulted),
        cosigning.faulted_session is None ==> match cosigning.cosigned(number) {
            Ok(Some(hash)) => {
                &&& cosigning.latest_cosigned_block_number matches Some(latest) && number <= latest
                &&& cosigning.substrate_block_hashes@.contains_pair(number, hash)
            },
            Ok(None) => cosigning.latest_cosigned_block_number matches Some(latest) ==> number
                > latest,
            Err(error) => {
                &&& error is NotIndexed
                &&& cosigning.latest_cosigned_block_number matches Some(latest) && number <= latest
                &&& !cosigning.substrate_block_hashes@.contains_key(number)
            },
        },
{
}

/// A block is requested by the hash it's cosigned by. Else, the error says why it isn't cosigned.
pub proof fn only_cosigned_blocks_are_requested(cosigning: Cosigning, number: u64)
    ensures
        match hash_to_fetch(cosigning, number) {
            Ok(hash) => {
                &&& cosigning.faulted_session is None
                &&& cosigning.latest_cosigned_block_number matches Some(latest) && number <= latest
                &&& cosigning.substrate_block_hashes@.contains_pair(number, hash)
            },
            Err(StreamError::CosigningFaulted) => cosigning.faulted_session is Some,
            Err(StreamError::NotCosigned { block_number }) => {
                &&& block_number == number
                &&& cosigning.faulted_session is None
                &&& cosigning.latest_cosigned_block_number matches Some(latest) ==> number > latest
            },
            Err(StreamError::NotIndexed { block_number }) => {
                &&& block_number == number
                &&& cosigning.faulted_session is None
                &&& cosigning.latest_cosigned_block_number matches Some(latest) && number <= latest
                &&& !cosigning.substrate_block_hashes@.contains_key(number)
            },
            Err(_) => false,
        },
{
}

/// All of the events answered with are taken, and an error answered with is kept.
pub proof fn answers_are_taken_as_they_are(
    number: u64,
    hash: BlockHash,
    events: EventsReply,
    block: BlockReply,
)
    ensures
        match events {
            Ok(transactions) => events_fetched(hash, events) == Ok::<_, StreamError>(
                transactions@.map_values(|transaction: Vec<Event>| transaction@).flatten(),
            ),
            Err(message) => events_fetched(hash, events) matches Err(StreamError::EventsRpc {
                block_hash,
                error,
            }) && block_hash == hash && error == message,
        },
        match block {
            Ok(Some(answer)) => block_fetched(number, hash, block) == Ok::<_, StreamError>(answer),
            Ok(None) => block_fetched(number, hash, block) matches Err(StreamError::MissingBlock {
                block_number,
            }) && block_number == number,
            Err(message) => block_fetched(number, hash, block) matches Err(StreamError::BlockRpc {
                block_hash,
                error,
            }) && block_hash == hash && error == message,
        },
{
}

/// The events of a block are those of its transactions, one transaction after the other.
pub proof fn transactions_are_taken_one_after_the_other(
    transactions: Seq<Vec<Event>>,
    more: Vec<Event>,
)
    ensures
        in_order(Seq::<Vec<Event>>::empty()).len() == 0,
        in_order(transactions.push(more)).len() == in_order(transactions).len() + more@.len(),
        forall|i: int|
            0 <= i < in_order(transactions).len() ==> #[trigger] in_order(
                transactions.push(more),
            )[i] == in_order(transactions)[i],
        forall|j: int|
            0 <= j < more@.len() ==> #[trigger] in_order(transactions.push(more))[in_order(
                transactions,
            ).len() + j] == more@[j],
{
    lemma_in_order_none();
    lemma_in_order_push(transactions, more);
}

/// The content of a batch is all of it.
pub proof fn content_of_a_batch_is_all_of_it(batch: ExecutedBatch)
    ensures
        batch@.id == batch.id,
        batch@.publisher == batch.publisher,
        batch@.external_network_block_hash == batch.external_network_block_hash,
        batch@.in_instructions_hash == batch.in_instructions_hash,
        batch@.in_instruction_results == batch.in_instruction_results@,
{
}

/// The content of a message is all of it.
pub proof fn content_of_a_message_is_all_of_it(message: CoordinatorMessage)
    ensures
        match message {
            CoordinatorMessage::SetKeys { serai_time, session, key_pair } => message@ matches
                MessageModel::SetKeys { serai_time: t, session: s, key_pair: k } && t == serai_time
                && s == session && k == key_pair,
            CoordinatorMessage::SlashesReported { session } => message@ matches
                MessageModel::SlashesReported { session: s } && s == session,
            CoordinatorMessage::Block { serai_block_number, batch, burns } => message@ matches
                MessageModel::Block { serai_block_number: n, batch: b, burns: o } && n
                == serai_block_number && o == burns@ && (b is Some <==> batch is Some) && (b matches
                Some(b) ==> b == batch->Some_0@),
        },
{
}

/// The content of a block's canonical events is all of them.
pub proof fn content_of_canonical_events_is_all_of_them(events: CanonicalEvents)
    ensures
        events@.time == events.time,
        events@.set_keys_events == events.set_keys_events@,
        events@.slash_report_events == events.slash_report_events@,
        events@.batch_events == events.batch_events@,
        events@.burn_events == events.burn_events@,
{
}

/// The content of a block's ephemeral events is all of them.
pub proof fn content_of_ephemeral_events_is_all_of_them(events: EphemeralEvents)
    ensures
        events@.block_hash == events.block_hash,
        events@.time == events.time,
        events@.embedded_elliptic_curve_keys_events == events.embedded_elliptic_curve_keys_events@,
        events@.set_decided_events == events.set_decided_events@,
        events@.accepted_handover_events == events.accepted_handover_events@,
{
}

/// The content of a set which is announced is all of it, but for the participants, which follow from
/// the validators.
pub proof fn content_of_a_new_set_is_all_of_it(set: NewSetInformation)
    ensures
        set@.set == set.set,
        set@.serai_block == set.serai_block,
        set@.declaration_time == set.declaration_time,
        set@.validators.len() == set.tributary_validators.validators@.len(),
        forall|i: int|
            0 <= i < set@.validators.len() ==> {
                let validator = set.tributary_validators.validators@[i];
                &&& (#[trigger] set@.validators[i]).substrate_key == validator.substrate_key@
                &&& set@.validators[i].network_key == validator.network_key@
                &&& set@.validators[i].weight == validator.weight
            },
{
}

/// The content of what the canonical event stream writes is all of it.
pub proof fn content_of_the_canonical_db_is_all_of_it(db: CanonicalDb, network: ExternalNetworkId)
    ensures
        db@.scan_from == db.scan_from,
        db@.last_indexed_batch_id.of(network) == db.last_indexed_batch_id.of(network),
        db@.messages.of(network).len() == db.messages.of(network)@.len(),
        forall|i: int|
            0 <= i < db.messages.of(network)@.len() ==> #[trigger] db@.messages.of(network)[i]
                == db.messages.of(network)@[i]@,
{
}

/// The content of what the ephemeral event stream writes is all of it.
pub proof fn content_of_the_ephemeral_db_is_all_of_it(db: EphemeralDb)
    ensures
        db@.scan_from == db.scan_from,
        db@.new_sets.len() == db.new_sets@.len(),
        forall|i: int|
            0 <= i < db.new_sets@.len() ==> #[trigger] db@.new_sets[i] == db.new_sets@[i]@,
        db@.sign_slash_reports == db.sign_slash_reports@,
{
}

/// The content of a database is that of all of its parts.
pub proof fn content_of_the_db_is_all_of_it(db: MemDb)
    ensures
        db@.cosigning == db.cosigning,
        db@.auxiliary_keys == db.auxiliary_keys@,
        db@.canonical == db.canonical@,
        db@.ephemeral == db.ephemeral@,
{
}

/// Nothing's in what's new.
pub proof fn nothing_is_in_what_is_new(
    canonical: CanonicalModel,
    ephemeral: EphemeralModel,
    network: ExternalNetworkId,
)
    ensures
        canonical.is_new() ==> canonical.scan_from is None && canonical.last_indexed_batch_id.of(
            network,
        ) is None && canonical.messages.of(network).len() == 0,
        ephemeral.is_new() ==> ephemeral.scan_from is None && ephemeral.new_sets.len() == 0
            && ephemeral.sign_slash_reports.len() == 0,
{
}

/// The character of a digit is the decimal digit, or the lowercase letter, of its value.
pub proof fn digits_are_their_value(value: nat)
    requires
        value < 16,
    ensures
        digit(value) as int == if value < 10 {
            48int + value
        } else {
            97int + value - 10
        },
{
}

/// The number which decimal digits are of.
pub open spec fn number_of(text: Seq<char>) -> int {
    text.fold_left(0, |number: int, c: char| 10 * number + (c as int - 48))
}

/// A number in decimal reads as the number. It's made of digits alone, and has no leading zero.
pub proof fn decimals_read_as_the_number(n: nat)
    ensures
        number_of(decimal(n)) == n,
        decimal(n).len() > 0,
        forall|i: int|
            0 <= i < decimal(n).len() ==> 48 <= #[trigger] decimal(n)[i] as int <= 57,
        decimal(n).len() > 1 ==> decimal(n)[0] != '0',
    decreases n,
{
    let read = |number: int, c: char| 10 * number + (c as int - 48);
    if n < 10 {
        digits_are_their_value(n);
        assert(decimal(n).drop_last() =~= Seq::<char>::empty());
        assert(decimal(n).drop_last().fold_left(0, read) == 0);
    } else {
        decimals_read_as_the_number(n / 10);
        digits_are_their_value(n % 10);
        assert(decimal(n).drop_last() =~= decimal(n / 10));
        assert forall|i: int| 0 <= i < decimal(n).len() implies 48 <= #[trigger] decimal(n)[i] as int
            <= 57 by {
            if i < decimal(n / 10).len() {
                assert(decimal(n)[i] == decimal(n / 10)[i]);
            }
        }
        assert(decimal(n)[0] == decimal(n / 10)[0]);
        if decimal(n / 10).len() == 1 {
            assert(n / 10 > 0);
            assert(decimal(n / 10).drop_last() =~= Seq::<char>::empty());
            assert(decimal(n / 10).drop_last().fold_left(0, read) == 0);
            assert(decimal(n / 10)[0] as int == 48 + n / 10);
        }
    }
}

/// Bytes in hexadecimal have two digits for each byte, the higher one first.
pub proof fn hexadecimals_have_two_digits_a_byte(bytes: Seq<u8>)
    ensures
        hex(bytes).len() == 2 * bytes.len(),
        forall|i: int|
            0 <= i < bytes.len() ==> {
                &&& hex(bytes)[2 * i] == digit(#[trigger] bytes[i] as nat / 16)
                &&& hex(bytes)[2 * i + 1] == digit(bytes[i] as nat % 16)
            },
    decreases bytes.len(),
{
    if bytes.len() > 0 {
        let rest = bytes.drop_last();
        hexadecimals_have_two_digits_a_byte(rest);
        assert forall|i: int| 0 <= i < bytes.len() implies {
            &&& hex(bytes)[2 * i] == digit(#[trigger] bytes[i] as nat / 16)
            &&& hex(bytes)[2 * i + 1] == digit(bytes[i] as nat % 16)
        } by {
            if i < rest.len() {
                assert(rest[i] == bytes[i]);
                assert(hex(bytes)[2 * i] == hex(rest)[2 * i]);
                assert(hex(bytes)[2 * i + 1] == hex(rest)[2 * i + 1]);
            }
        }
    }
}

/// A text holds another exactly if it's made of anything, the other, and anything.
pub proof fn texts_hold_their_parts(text: Seq<char>, part: Seq<char>)
    ensures
        holds(text, part) <==> exists|before: Seq<char>, after: Seq<char>|
            text == #[trigger] (before + part + after),
{
    if holds(text, part) {
        let i = choose|i: int| #[trigger] holds_at(text, part, i);
        let before = text.take(i);
        let after = text.skip(i + part.len());
        assert(text =~= before + part + after);
    }
    if exists|before: Seq<char>, after: Seq<char>| text == #[trigger] (before + part + after) {
        let (before, after) = choose|before: Seq<char>, after: Seq<char>|
            text == #[trigger] (before + part + after);
        assert(text.subrange(before.len() as int, (before.len() + part.len()) as int) =~= part);
        assert(holds_at(text, part, before.len() as int));
    }
}

/// A process is halted by what can't be, were it for what the streams are built on, and by nothing else:
/// a block which is due isn't cosigned, wasn't indexed, or doesn't exist, a batch's ID isn't the next, or
/// a selected validator has no keys.
pub proof fn only_the_impossible_halts(error: StreamError)
    ensures
        error.halts() <==> error is NotCosigned || error is NotIndexed || error is MissingBlock
            || error is BatchIdNotIncrement || error is MissingAuxiliaryKeys,
{
}

/// An error tells of the block, the node's answer, or the set, which it's of.
pub proof fn errors_tell_what_they_are_of(
    block_number: u64,
    block_hash: BlockHash,
    error: String,
    set: ExternalValidatorSet,
    key_shares: u32,
)
    ensures
        StreamError::LatestCosignedBlockNumber.text()
            == "Error getting latest cosigned block number: Faulted"@,
        StreamError::CosigningFaulted.text() == "cosigning process faulted"@,
        (StreamError::NotCosigned { block_number }).text()
            == "iterating to latest cosigned block but couldn't get cosigned block number "@
            + decimal(block_number as nat),
        (StreamError::NotIndexed { block_number }).text() == "cosigned block "@ + decimal(
            block_number as nat,
        ) + " but didn't index it"@,
        (StreamError::MissingBlock { block_number }).text() == "Serai node didn't have block #"@
            + decimal(block_number as nat) + " which should've been finalized and cosigned"@,
        (StreamError::BlockRpc { block_hash, error }).text() == "RPC error fetching block #"@ + hex(
            block_hash.0@,
        ) + ": "@ + error@,
        (StreamError::EventsRpc { block_hash, error }).text()
            == "RPC error fetching block events #"@ + hex(block_hash.0@) + ": "@ + error@,
        StreamError::MultipleBatches.text()
            == "Serai block had multiple batches for the same network"@,
        StreamError::BatchIdNotIncrement.text()
            == "next batch from Serai's ID was not an increment of the last indexed batch's ID"@,
        StreamError::TooManyValidators.text() == "more than u16::MAX validators sent"@,
        (StreamError::TooManyKeyShares { set, key_shares }).text() == set_text(set) + " has "@
            + decimal(key_shares as nat) + " key shares when the max is "@ + decimal(127),
        set_text(set) == "ExternalValidatorSet { network: "@ + (match set.network {
            ExternalNetworkId::Bitcoin => "Bitcoin"@,
            ExternalNetworkId::Ethereum => "Ethereum"@,
            ExternalNetworkId::Monero => "Monero"@,
        }) + ", session: Session("@ + decimal(set.session.0 as nat) + ") }"@,
        StreamError::MissingAuxiliaryKeys.text() == "selected validator lacked auxiliary keys"@,
{
}

/// Whether a length is within bounds.
pub open spec fn is_within(start: LengthBound, end: LengthBound, len: int) -> bool {
    &&& 0 <= len
    &&& match start {
        LengthBound::Included(least) => least <= len,
        LengthBound::Excluded(least) => least < len,
        LengthBound::Unbounded => true,
    }
    &&& match end {
        LengthBound::Included(greatest) => len <= greatest,
        LengthBound::Excluded(greatest) => len < greatest,
        LengthBound::Unbounded => true,
    }
}

/// The least and the greatest length are within the bounds, and each length within them is between
/// these. A length can be drawn exactly if there's an upper bound, any length is within the bounds, and
/// no vector would be too long. Each is then decided on by some draw.
pub proof fn lengths_are_within_their_bounds(start: LengthBound, end: LengthBound, len: int)
    ensures
        is_length_range(start, end) ==> {
            &&& is_within(start, end, least_len(start))
            &&& is_within(start, end, greatest_len(end)->Some_0)
        },
        !(end is Unbounded) && is_within(start, end, len) ==> least_len(start) <= len
            <= greatest_len(end)->Some_0,
        is_length_range(start, end) && is_within(start, end, len) ==> {
            let draw = len - least_len(start);
            least_len(start) + draw % (greatest_len(end)->Some_0 - least_len(start) + 1) == len
        },
        is_length_range(start, end) <==> !(end is Unbounded) && (exists|l: int|
            #[trigger] is_within(start, end, l)) && greatest_len(end)->Some_0 <= isize::MAX,
{
    if is_length_range(start, end) {
        assert(is_within(start, end, least_len(start)));
        if is_within(start, end, len) {
            let draw = len - least_len(start);
            let range = greatest_len(end)->Some_0 - least_len(start) + 1;
            vstd::arithmetic::div_mod::lemma_small_mod(draw as nat, range as nat);
        }
    }
}

/// Draws are dealt to the networks in turns: of any three consecutive ones, each network has one.
pub proof fn draws_are_dealt_in_turns(draw: u64)
    ensures
        network_for_draw(draw) is Bitcoin <==> draw % 3 == 0,
        network_for_draw(draw) is Ethereum <==> draw % 3 == 1,
        network_for_draw(draw) is Monero <==> draw % 3 == 2,
{
}

/// All of a stream's database, and its key, are what it works on, and with.
pub proof fn streams_work_on_all_of_their_db(
    canonical: CanonicalEventStream,
    ephemeral: EphemeralEventStream,
)
    ensures
        canonical.state() == canonical.db@,
        CanonicalEventStream::cosigning_of(canonical.state()) == canonical.db.cosigning,
        EphemeralEventStream::cosigning_of(ephemeral.state()) == ephemeral.db.cosigning,
        ephemeral.state().db == ephemeral.db@,
        ephemeral.state().public_serai_auxiliary_key == ephemeral.public_serai_auxiliary_key@,
{
}

/// Ten canonical items are fetched at once, and fifty ephemeral ones.
pub proof fn items_are_fetched_ahead(ahead: u64)
    ensures
        ahead < CanonicalEventStream::at_once() <==> ahead < 10,
        ahead < EphemeralEventStream::at_once() <==> ahead < 50,
{
}

/// The participants of every set which was announced are those of its validators.
pub proof fn announced_sets_are_initialized(stream: EphemeralEventStream, i: int)
    requires
        stream.wf(),
        0 <= i < stream.db.ephemeral.new_sets@.len(),
    ensures
        stream.db.ephemeral.new_sets@[i].tributary_validators.in_sync(),
{
}

/// An address has up to 512 bytes, a key up to 96, and a set up to 127 key shares.
pub proof fn sizes_are_bounded(size: nat)
    ensures
        size <= EXTERNAL_ADDRESS_MAX_SIZE <==> size <= 512,
        size <= EXTERNAL_KEY_MAX_SIZE <==> size <= 96,
        size <= MAX_KEY_SHARES_PER_SET <==> size <= 127,
{
}

} // verus!
