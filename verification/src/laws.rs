//! What holds of the engine over all inputs, proved from the definitions
//! that the contracts of the operations are stated with.

use crate::address::{address_of, program_address, ELECTION_SEED};
use crate::ballot::{cast, first_match, lemma_first_match_found, matches_at};
use crate::clock::expired;
use crate::close::closing;
use crate::errors::Errors;
use crate::open::{opened, slots};
use crate::record::{
    byte_len, space_for, total_bytes, ElectionView, MAX_CANDIDATES, MAX_DESC_LEN, MAX_NAME_LEN,
};
use crate::transfer::Transfer;
use anchor_lang::prelude::Pubkey;
use vstd::prelude::*;
use vstd::utf8::encode_utf8_decode_utf8;

verus! {

/// A name longer than twelve bytes is always refused as too long, whatever
/// else is asked for. A request whose name, description and number of
/// candidates are within bounds is always granted, and the record it gives
/// is well formed, has no vote counted and is not marked as ended.
pub proof fn creation_bounds(
    creator: Pubkey,
    name: Seq<char>,
    description: Seq<char>,
    candidates: Seq<Seq<char>>,
    duration: u8,
    now: i64,
)
    ensures
        byte_len(name) > MAX_NAME_LEN ==> opened(
            creator,
            name,
            description,
            candidates,
            duration as nat,
            now as int,
        ) == Err::<ElectionView, Errors>(Errors::MaxStrLen),
        byte_len(name) <= MAX_NAME_LEN && byte_len(description) <= MAX_DESC_LEN
            && candidates.len() <= MAX_CANDIDATES ==> ({
            let made = opened(creator, name, description, candidates, duration as nat, now as int);
            &&& made is Ok
            &&& made->Ok_0.well_formed()
            &&& made->Ok_0.total_votes() == 0
            &&& !made->Ok_0.has_ended
            &&& made->Ok_0.winner is None
        }),
{
}

/// The space reserved for a request is the space that the record made from
/// it takes: the slots left empty take none.
pub proof fn reserved_space_is_record_space(
    creator: Pubkey,
    name: Seq<char>,
    description: Seq<char>,
    candidates: Seq<Seq<char>>,
    duration: nat,
    now: int,
)
    requires
        opened(creator, name, description, candidates, duration, now) is Ok,
    ensures
        opened(creator, name, description, candidates, duration, now)->Ok_0.space() == space_for(
            name,
            description,
            candidates,
        ),
{
    lemma_padding_takes_no_space(candidates, 4);
    assert(slots(candidates).take(4) == slots(candidates));
    assert(candidates.take(candidates.len() as int) == candidates);
}

/// The first `n` slots of an election take the bytes of the candidates that
/// reach them.
proof fn lemma_padding_takes_no_space(given: Seq<Seq<char>>, n: int)
    requires
        given.len() <= 4,
        0 <= n <= 4,
    ensures
        total_bytes(slots(given).take(n)) == total_bytes(
            given.take(if n < given.len() { n } else { given.len() as int }),
        ),
    decreases n,
{
    if n > 0 {
        let filled = slots(given).take(n);
        lemma_padding_takes_no_space(given, n - 1);
        assert(filled.drop_last() == slots(given).take(n - 1));
        if n <= given.len() {
            assert(given.take(n).drop_last() == given.take(n - 1));
            assert(filled.last() == given.take(n).last());
        }
    }
}

/// A vote for a string that no slot holds is refused for that reason at any
/// time, also after the window is over: whether the candidate exists is
/// decided before whether the election has ended.
pub proof fn unknown_candidate_precedes_expiry(
    e: ElectionView,
    candidate: Seq<char>,
    amount: nat,
    now: int,
)
    requires
        forall|i: int| 0 <= i < e.candidates.len() ==> e.candidates[i] != candidate,
    ensures
        cast(e, candidate, amount, now) == Err::<ElectionView, Errors>(
            Errors::CandidateDoesNotExist,
        ),
{
    assert forall|i: int| !matches_at(e.candidates, candidate, i) by {}
}

/// The window of an election is over from the first second of the hour after
/// the one in which its duration runs out: exactly when `duration + 1` whole
/// hours have passed since it was opened. Until then a vote is in time, the
/// instant `duration` hours after the opening included.
pub proof fn window_boundary(started_at: int, duration: nat, now: int)
    ensures
        expired(started_at, duration, now) <==> now - started_at >= (duration + 1) * 3600,
        now - started_at <= duration * 3600 ==> !expired(started_at, duration, now),
{
}

/// A vote for a candidate of the election is refused as late exactly when the
/// window is over.
pub proof fn late_vote_is_refused(e: ElectionView, candidate: Seq<char>, amount: nat, now: int)
    requires
        first_match(e.candidates, candidate) is Some,
    ensures
        cast(e, candidate, amount, now) == Err::<ElectionView, Errors>(Errors::ElectionHasEnded)
            <==> now - e.started_at >= (e.duration + 1) * 3600,
{
    window_boundary(e.started_at, e.duration, now);
}

/// An election cannot be closed before `duration` hours have passed since it
/// was opened, and can be closed once `duration + 1` hours have passed. In
/// the hour between, the window is still open and a close is refused.
pub proof fn close_gating(e: ElectionView, now: int)
    ensures
        now - e.started_at < e.duration * 3600 ==> closing(e, now) == Err::<(), Errors>(
            Errors::ElectionHasNotEnded,
        ),
        now - e.started_at >= (e.duration + 1) * 3600 ==> closing(e, now) == Ok::<(), Errors>(()),
        closing(e, now) is Ok <==> now - e.started_at >= (e.duration + 1) * 3600,
{
    window_boundary(e.started_at, e.duration, now);
}

/// At any time an election takes votes or can be closed, never both.
pub proof fn open_or_closable(e: ElectionView, candidate: Seq<char>, amount: nat, now: int)
    ensures
        !(cast(e, candidate, amount, now) is Ok && closing(e, now) is Ok),
{
}

/// The address of an election is a function of its name: the same name gives
/// the same address, every time.
pub proof fn same_name_same_address(program_id: Pubkey, first: Seq<char>, second: Seq<char>)
    requires
        first == second,
    ensures
        address_of(program_id, first) == address_of(program_id, second),
{
}

/// That the derivation under `program_id` sends no two keys to one address.
/// This rests on the hash that the derivation is built on; nothing
/// here proves it.
pub open spec fn collision_free(program_id: Pubkey) -> bool {
    forall|one: Seq<u8>, other: Seq<u8>|
        {
            let a = #[trigger] program_address(ELECTION_SEED@, one, program_id);
            let b = #[trigger] program_address(ELECTION_SEED@, other, program_id);
            a is Some && b is Some && (a->0).0 == (b->0).0 ==> one == other
        }
}

/// Where the derivation is free of collisions, two elections with different
/// names are kept at different addresses.
pub proof fn different_names_different_addresses(
    program_id: Pubkey,
    first: Seq<char>,
    second: Seq<char>,
)
    requires
        collision_free(program_id),
        first != second,
        address_of(program_id, first) is Some,
        address_of(program_id, second) is Some,
    ensures
        (address_of(program_id, first)->0).0 != (address_of(program_id, second)->0).0,
{
    // Decoding gives each name back, so names that differ have encodings
    // that differ.
    encode_utf8_decode_utf8(first);
    encode_utf8_decode_utf8(second);
}

/// An accepted vote adds its amount to one counter and to the total, lowers
/// no counter and changes nothing else of the election.
pub proof fn accepted_vote_adds_amount(e: ElectionView, candidate: Seq<char>, amount: nat, now: int)
    requires
        e.candidates.len() == MAX_CANDIDATES,
        e.candidate_votes.len() == MAX_CANDIDATES,
        cast(e, candidate, amount, now) is Ok,
    ensures
        ({
            let next = cast(e, candidate, amount, now)->Ok_0;
            let slot = first_match(e.candidates, candidate)->0;
            &&& 0 <= slot < MAX_CANDIDATES
            &&& e.candidates[slot] == candidate
            &&& next.candidate_votes == e.candidate_votes.update(
                slot,
                e.candidate_votes[slot] + amount,
            )
            &&& next.total_votes() == e.total_votes() + amount
            &&& forall|i: int|
                0 <= i < MAX_CANDIDATES ==> next.candidate_votes[i] >= e.candidate_votes[i]
            &&& next == ElectionView { candidate_votes: next.candidate_votes, ..e }
            &&& e.well_formed() ==> next.well_formed()
        }),
{
    lemma_first_match_found(e.candidates, candidate);
}

/// A vote as it reaches the engine.
pub struct Ballot {
    pub voter: Pubkey,
    pub destination: Pubkey,
    pub candidate: Seq<char>,
    pub amount: u64,
    pub now: int,
}

/// The election after `ballots` were cast on `e` in order. A refused ballot
/// changes nothing.
pub open spec fn after(e: ElectionView, ballots: Seq<Ballot>) -> ElectionView
    decreases ballots.len(),
{
    if ballots.len() == 0 {
        e
    } else {
        let prior = after(e, ballots.drop_last());
        let b = ballots.last();
        match cast(prior, b.candidate, b.amount as nat, b.now) {
            Ok(next) => next,
            Err(_) => prior,
        }
    }
}

/// The transfers that casting `ballots` on `e` in order asks for: one for
/// each accepted ballot, none for a refused one.
pub open spec fn transfers(e: ElectionView, ballots: Seq<Ballot>) -> Seq<Transfer>
    decreases ballots.len(),
{
    if ballots.len() == 0 {
        Seq::empty()
    } else {
        let prior = after(e, ballots.drop_last());
        let b = ballots.last();
        let earlier = transfers(e, ballots.drop_last());
        if cast(prior, b.candidate, b.amount as nat, b.now) is Ok {
            earlier.push(Transfer { from: b.voter, to: b.destination, amount: b.amount })
        } else {
            earlier
        }
    }
}

/// Whether every one of `ballots`, cast on `e` in order, is accepted.
pub open spec fn all_accepted(e: ElectionView, ballots: Seq<Ballot>) -> bool
    decreases ballots.len(),
{
    if ballots.len() == 0 {
        true
    } else {
        let prior = after(e, ballots.drop_last());
        let b = ballots.last();
        all_accepted(e, ballots.drop_last()) && cast(prior, b.candidate, b.amount as nat, b.now)
            is Ok
    }
}

/// The amounts of `ballots`, added up.
pub open spec fn stakes(ballots: Seq<Ballot>) -> nat
    decreases ballots.len(),
{
    if ballots.len() == 0 {
        0
    } else {
        stakes(ballots.drop_last()) + ballots.last().amount as nat
    }
}

/// All that `moves` take from those who pay.
pub open spec fn debited(moves: Seq<Transfer>) -> nat
    decreases moves.len(),
{
    if moves.len() == 0 {
        0
    } else {
        debited(moves.drop_last()) + moves.last().amount as nat
    }
}

/// All that `moves` bring to `who`.
pub open spec fn credited(moves: Seq<Transfer>, who: Pubkey) -> nat
    decreases moves.len(),
{
    if moves.len() == 0 {
        0
    } else if moves.last().to == who {
        credited(moves.drop_last(), who) + moves.last().amount as nat
    } else {
        credited(moves.drop_last(), who)
    }
}

/// No sequence of votes lowers a counter or changes anything of the election
/// but its counters.
pub proof fn counters_never_decrease(e: ElectionView, ballots: Seq<Ballot>)
    requires
        e.candidates.len() == MAX_CANDIDATES,
        e.candidate_votes.len() == MAX_CANDIDATES,
    ensures
        forall|i: int|
            0 <= i < MAX_CANDIDATES ==> after(e, ballots).candidate_votes[i]
                >= e.candidate_votes[i],
        after(e, ballots) == (ElectionView {
            candidate_votes: after(e, ballots).candidate_votes,
            ..e
        }),
        after(e, ballots).candidate_votes.len() == MAX_CANDIDATES,
    decreases ballots.len(),
{
    if ballots.len() > 0 {
        let b = ballots.last();
        counters_never_decrease(e, ballots.drop_last());
        let prior = after(e, ballots.drop_last());
        if cast(prior, b.candidate, b.amount as nat, b.now) is Ok {
            accepted_vote_adds_amount(prior, b.candidate, b.amount as nat, b.now);
        }
    }
}

/// Stake is conserved. Whatever ballots are cast, the counters grow by
/// exactly what the transfers take from the voters. Where every ballot is
/// accepted, that is the sum of the ballots' amounts, so that an election
/// opened with no vote counts exactly that sum; and where every ballot names
/// `creator` as its destination, all of it reaches `creator`.
pub proof fn value_conservation(e: ElectionView, ballots: Seq<Ballot>, creator: Pubkey)
    requires
        e.candidates.len() == MAX_CANDIDATES,
        e.candidate_votes.len() == MAX_CANDIDATES,
    ensures
        after(e, ballots).total_votes() == e.total_votes() + debited(transfers(e, ballots)),
        all_accepted(e, ballots) ==> debited(transfers(e, ballots)) == stakes(ballots),
        all_accepted(e, ballots) ==> after(e, ballots).total_votes() == e.total_votes() + stakes(
            ballots,
        ),
        (forall|k: int| 0 <= k < ballots.len() ==> (#[trigger] ballots[k]).destination == creator)
            ==> credited(transfers(e, ballots), creator) == debited(transfers(e, ballots)),
        after(e, ballots).candidates == e.candidates,
        after(e, ballots).candidate_votes.len() == MAX_CANDIDATES,
    decreases ballots.len(),
{
    if ballots.len() > 0 {
        let earlier = ballots.drop_last();
        let b = ballots.last();
        value_conservation(e, earlier, creator);
        let prior = after(e, earlier);
        if cast(prior, b.candidate, b.amount as nat, b.now) is Ok {
            accepted_vote_adds_amount(prior, b.candidate, b.amount as nat, b.now);
            let made = transfers(e, earlier).push(
                Transfer { from: b.voter, to: b.destination, amount: b.amount },
            );
            assert(made.drop_last() == transfers(e, earlier));
        }
        if forall|k: int| 0 <= k < ballots.len() ==> (#[trigger] ballots[k]).destination == creator {
            assert forall|k: int| 0 <= k < earlier.len() implies (#[trigger] earlier[k]).destination
                == creator by {
                assert(earlier[k] == ballots[k]);
            }
        }
    }
}

} // verus!
