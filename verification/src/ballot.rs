use crate::clock::{expired, has_expired};
use crate::errors::Errors;
use crate::record::{slot_texts, Election, ElectionView};
use crate::transfer::Transfer;
use anchor_lang::prelude::Pubkey;
use vstd::prelude::*;

verus! {

/// Whether slot `i` of `candidates` holds exactly `candidate`.
pub open spec fn matches_at(candidates: Seq<Seq<char>>, candidate: Seq<char>, i: int) -> bool {
    0 <= i < candidates.len() && candidates[i] == candidate
}

/// Whether `i` is the lowest slot of `candidates` that holds `candidate`.
pub open spec fn is_first_match(candidates: Seq<Seq<char>>, candidate: Seq<char>, i: int) -> bool {
    &&& matches_at(candidates, candidate, i)
    &&& forall|j: int| 0 <= j < i ==> !matches_at(candidates, candidate, j)
}

/// The slot that a vote for `candidate` counts toward: the lowest one that
/// holds exactly that string, or `None` where no slot does.
pub open spec fn first_match(candidates: Seq<Seq<char>>, candidate: Seq<char>) -> Option<int> {
    if exists|i: int| matches_at(candidates, candidate, i) {
        Some(choose|i: int| is_first_match(candidates, candidate, i))
    } else {
        None
    }
}

/// A slot that holds `candidate` with none before it that does is the one
/// that [`first_match`] names.
pub proof fn lemma_first_match(candidates: Seq<Seq<char>>, candidate: Seq<char>, i: int)
    requires
        is_first_match(candidates, candidate, i),
    ensures
        first_match(candidates, candidate) == Some(i),
{
    let chosen = choose|k: int| is_first_match(candidates, candidate, k);
    assert(chosen == i) by {
        if chosen < i {
            assert(!matches_at(candidates, candidate, chosen));
        } else if i < chosen {
            assert(!matches_at(candidates, candidate, i));
        }
    }
}

/// Where [`first_match`] names a slot, that slot is the lowest one that holds
/// `candidate`.
pub proof fn lemma_first_match_found(candidates: Seq<Seq<char>>, candidate: Seq<char>)
    requires
        first_match(candidates, candidate) is Some,
    ensures
        is_first_match(candidates, candidate, first_match(candidates, candidate)->0),
{
    let some = choose|i: int| matches_at(candidates, candidate, i);
    lemma_lowest_match(candidates, candidate, some);
}

/// Below any slot that holds `candidate` there is a lowest one.
proof fn lemma_lowest_match(candidates: Seq<Seq<char>>, candidate: Seq<char>, i: int)
    requires
        matches_at(candidates, candidate, i),
    ensures
        exists|k: int| is_first_match(candidates, candidate, k),
    decreases i,
{
    if exists|j: int| 0 <= j < i && matches_at(candidates, candidate, j) {
        let j = choose|j: int| 0 <= j < i && matches_at(candidates, candidate, j);
        lemma_lowest_match(candidates, candidate, j);
    } else {
        assert(is_first_match(candidates, candidate, i));
    }
}

/// What a vote does to an election: the election with `amount` added to the
/// slot of `candidate`, or why the vote is rejected. That the candidate
/// exists is checked first, then that the window is open, then that the
/// counter can take the amount.
pub open spec fn cast(e: ElectionView, candidate: Seq<char>, amount: nat, now: int) -> Result<
    ElectionView,
    Errors,
> {
    match first_match(e.candidates, candidate) {
        None => Err(Errors::CandidateDoesNotExist),
        Some(slot) => {
            if expired(e.started_at, e.duration, now) {
                Err(Errors::ElectionHasEnded)
            } else if e.candidate_votes[slot] + amount > u64::MAX {
                Err(Errors::VoteOverflow)
            } else {
                Ok(
                    ElectionView {
                        candidate_votes: e.candidate_votes.update(
                            slot,
                            e.candidate_votes[slot] + amount,
                        ),
                        ..e
                    },
                )
            }
        },
    }
}

/// The lowest slot of `candidates` that holds exactly `candidate`.
pub fn find_candidate(candidates: &[String; 4], candidate: &String) -> (found: Option<usize>)
    ensures
        (match found {
            Some(i) => i < 4 && first_match(slot_texts(*candidates), candidate@) == Some(i as int),
            None => first_match(slot_texts(*candidates), candidate@) is None,
        }),
{
    let ghost slots = slot_texts(*candidates);
    let mut i: usize = 0;
    while i < 4
        invariant
            i <= 4,
            slots == slot_texts(*candidates),
            forall|j: int| 0 <= j < i ==> !matches_at(slots, candidate@, j),
        decreases 4 - i,
    {
        if candidates[i] == *candidate {
            proof {
                lemma_first_match(slots, candidate@, i as int);
            }
            return Some(i);
        }
        i = i + 1;
    }
    None
}

/// Counts a vote of weight `amount` for `candidate` at the time `now`, and
/// returns the transfer of `amount` from `voter` to `destination` that the
/// host has to carry out with it. A rejected vote leaves the election as it
/// was and asks for no transfer.
pub fn vote(
    election: &mut Election,
    voter: Pubkey,
    destination: Pubkey,
    candidate: String,
    amount: u64,
    now: i64,
) -> (moved: Result<Transfer, Errors>)
    ensures
        (match cast(old(election)@, candidate@, amount as nat, now as int) {
            Ok(next) => {
                &&& moved == Ok::<Transfer, Errors>(
                    (Transfer { from: voter, to: destination, amount }),
                )
                &&& final(election)@ == next
                &&& final(election).name == old(election).name
                &&& final(election).description == old(election).description
                &&& final(election).candidates == old(election).candidates
            },
            Err(why) => moved == Err::<Transfer, Errors>(why) && *final(election) == *old(election),
        }),
        old(election).well_formed() ==> final(election).well_formed(),
{
    let slot = match find_candidate(&election.candidates, &candidate) {
        Some(i) => i,
        None => { return Err(Errors::CandidateDoesNotExist); },
    };
    if has_expired(election.started_at, election.duration, now) {
        return Err(Errors::ElectionHasEnded);
    }
    let count = match election.candidate_votes[slot].checked_add(amount) {
        Some(n) => n,
        None => { return Err(Errors::VoteOverflow); },
    };
    election.candidate_votes[slot] = count;
    proof {
        assert(election@.candidate_votes =~= old(election)@.candidate_votes.update(
            slot as int,
            count as nat,
        ));
    }
    Ok(Transfer { from: voter, to: destination, amount })
}

} // verus!
