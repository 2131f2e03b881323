use crate::errors::Errors;
use crate::record::{
    byte_len, texts, Election, ElectionView, MAX_CANDIDATES, MAX_DESC_LEN, MAX_NAME_LEN,
};
use anchor_lang::prelude::Pubkey;
use vstd::prelude::*;

verus! {

/// The four slots of an election whose candidates are `given`, in order:
/// the slots that `given` does not reach stay empty.
pub open spec fn slots(given: Seq<Seq<char>>) -> Seq<Seq<char>> {
    Seq::new(
        4,
        |i: int|
            if i < given.len() {
                given[i]
            } else {
                Seq::empty()
            },
    )
}

/// What opening an election gives: the new record, with no vote counted yet,
/// or why the request is rejected. The name is checked first, then the
/// description, then the number of candidates.
pub open spec fn opened(
    creator: Pubkey,
    name: Seq<char>,
    description: Seq<char>,
    candidates: Seq<Seq<char>>,
    duration: nat,
    now: int,
) -> Result<ElectionView, Errors> {
    if byte_len(name) > MAX_NAME_LEN {
        Err(Errors::MaxStrLen)
    } else if byte_len(description) > MAX_DESC_LEN {
        Err(Errors::MaxStrLen)
    } else if candidates.len() > MAX_CANDIDATES {
        Err(Errors::MaxNoOfCandidatesExceeded)
    } else {
        Ok(
            ElectionView {
                creator,
                name,
                description,
                candidates: slots(candidates),
                candidate_votes: seq![0nat, 0nat, 0nat, 0nat],
                duration,
                started_at: now,
                has_ended: false,
                winner: None,
            },
        )
    }
}

/// Opens an election for `creator` at the time `now`, to run for `duration`
/// hours. Up to four candidates may be given; the record always has four
/// slots, and those that no candidate fills stand empty.
pub fn start_election(
    creator: Pubkey,
    name: String,
    description: String,
    candidates: Vec<String>,
    duration: u8,
    now: i64,
) -> (made: Result<Election, Errors>)
    ensures
        (match opened(
            creator,
            name@,
            description@,
            texts(candidates@),
            duration as nat,
            now as int,
        ) {
            Ok(record) => made is Ok && made->Ok_0@ == record && made->Ok_0.well_formed(),
            Err(why) => made == Err::<Election, Errors>(why),
        }),
{
    if name.as_str().as_bytes().len() > MAX_NAME_LEN {
        return Err(Errors::MaxStrLen);
    }
    if description.as_str().as_bytes().len() > MAX_DESC_LEN {
        return Err(Errors::MaxStrLen);
    }
    if candidates.len() > MAX_CANDIDATES {
        return Err(Errors::MaxNoOfCandidatesExceeded);
    }
    let ghost given = texts(candidates@);
    let mut rest = candidates;
    let mut filled: [String; 4] = [String::new(), String::new(), String::new(), String::new()];
    let mut i: usize = rest.len();
    while i > 0
        invariant
            i == rest.len(),
            i <= given.len() <= 4,
            texts(rest@) =~= given.take(i as int),
            forall|k: int| i <= k < 4 ==> (#[trigger] filled@[k])@ == slots(given)[k],
        decreases i,
    {
        i = i - 1;
        let ghost before = rest@;
        let ghost earlier = filled@;
        let last = rest.pop().unwrap();
        filled[i] = last;
        proof {
            assert(texts(before)[i as int] == given.take(i + 1)[i as int]);
            assert forall|k: int| i <= k < 4 implies (#[trigger] filled@[k])@ == slots(given)[k] by {
                if k > i {
                    assert(filled@[k] == earlier[k]);
                }
            }
            assert forall|k: int| 0 <= k < i implies texts(rest@)[k] == given.take(i as int)[k] by {
                assert(texts(before)[k] == given.take(i + 1)[k]);
            }
        }
    }
    let election = Election {
        creator,
        name,
        description,
        candidates: filled,
        candidate_votes: [0, 0, 0, 0],
        duration,
        started_at: now,
        has_ended: false,
        winner: None,
    };
    proof {
        assert forall|k: int| 0 <= k < 4 implies election@.candidates[k] == slots(given)[k] by {
            assert(filled@[k]@ == slots(given)[k]);
        }
        assert(election@.candidates =~= slots(given));
        assert(election@.candidate_votes =~= seq![0nat, 0nat, 0nat, 0nat]);
    }
    Ok(election)
}

} // verus!
