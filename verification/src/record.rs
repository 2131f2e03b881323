use anchor_lang::prelude::Pubkey;
use vstd::prelude::*;
use vstd::utf8::encode_utf8;

verus! {

/// The number of candidate slots of an election.
pub const MAX_CANDIDATES: usize = 4;

/// The longest name of an election, in bytes.
pub const MAX_NAME_LEN: usize = 12;

/// The longest description of an election, in bytes.
pub const MAX_DESC_LEN: usize = 48;

/// The bytes that a stored record takes before its strings: the tag of the
/// record, the creator, the length prefixes of the name, of the description
/// and of the four candidates, the four counters, the duration, the start,
/// the flag and the optional winner.
pub const INIT_SPACE: usize = 8 + 32 + 4 + 4 + (4 * 4) + (8 * 4) + 1 + 8 + 1 + (1 + 32);

/// The length of a string in bytes: that of its UTF-8 encoding.
pub open spec fn byte_len(s: Seq<char>) -> nat {
    encode_utf8(s).len()
}

/// The record of one election.
#[derive(Debug, PartialEq, Eq)]
pub struct Election {
    /// Who opened the election.
    pub creator: Pubkey,
    /// The election's name, by which its record is found.
    pub name: String,
    /// What the election is about.
    pub description: String,
    /// The four candidate slots. A slot that stands for nobody is empty.
    pub candidates: [String; 4],
    /// The stake counted for each slot, aligned with `candidates`.
    pub candidate_votes: [u64; 4],
    /// How long the election runs, in hours.
    pub duration: u8,
    /// When the election was opened, in seconds.
    pub started_at: i64,
    /// Set to `false` when the election is opened and never consulted: whether
    /// an election is over is always decided from its start, its duration and
    /// the current time.
    pub has_ended: bool,
    /// Reserved. No operation sets it.
    pub winner: Option<Pubkey>,
}

/// An election as a mathematical value.
pub struct ElectionView {
    pub creator: Pubkey,
    pub name: Seq<char>,
    pub description: Seq<char>,
    pub candidates: Seq<Seq<char>>,
    pub candidate_votes: Seq<nat>,
    pub duration: nat,
    pub started_at: int,
    pub has_ended: bool,
    pub winner: Option<Pubkey>,
}

impl ElectionView {
    /// The invariant of a record: four slots with four counters, each within
    /// what a counter holds, and a name and a description within their bounds.
    pub open spec fn well_formed(self) -> bool {
        &&& self.candidates.len() == MAX_CANDIDATES
        &&& self.candidate_votes.len() == MAX_CANDIDATES
        &&& forall|i: int| 0 <= i < MAX_CANDIDATES ==> #[trigger] self.candidate_votes[i] <= u64::MAX
        &&& byte_len(self.name) <= MAX_NAME_LEN
        &&& byte_len(self.description) <= MAX_DESC_LEN
        &&& self.duration <= u8::MAX
        &&& i64::MIN <= self.started_at <= i64::MAX
    }

    /// All the stake counted so far, over the four slots.
    pub open spec fn total_votes(self) -> nat {
        self.candidate_votes[0] + self.candidate_votes[1] + self.candidate_votes[2]
            + self.candidate_votes[3]
    }

    /// The bytes that storing this record takes.
    pub open spec fn space(self) -> nat {
        space_for(self.name, self.description, self.candidates)
    }
}

/// The four slots of a record as mathematical strings, in order.
pub open spec fn slot_texts(slots: [String; 4]) -> Seq<Seq<char>> {
    Seq::new(4, |i: int| slots[i]@)
}

impl View for Election {
    type V = ElectionView;

    open spec fn view(&self) -> ElectionView {
        ElectionView {
            creator: self.creator,
            name: self.name@,
            description: self.description@,
            candidates: slot_texts(self.candidates),
            candidate_votes: Seq::new(4, |i: int| self.candidate_votes[i] as nat),
            duration: self.duration as nat,
            started_at: self.started_at as int,
            has_ended: self.has_ended,
            winner: self.winner,
        }
    }
}

impl Clone for Election {
    /// A copy of the record, equal to it in every field.
    fn clone(&self) -> (copy: Self)
        ensures
            copy == *self,
    {
        let copy = Election {
            creator: self.creator,
            name: self.name.clone(),
            description: self.description.clone(),
            candidates: [
                self.candidates[0].clone(),
                self.candidates[1].clone(),
                self.candidates[2].clone(),
                self.candidates[3].clone(),
            ],
            candidate_votes: self.candidate_votes,
            duration: self.duration,
            started_at: self.started_at,
            has_ended: self.has_ended,
            winner: self.winner,
        };
        assert(copy.candidates == self.candidates);
        copy
    }
}

impl Election {
    /// The invariant of a record. [`crate::open::start_election`] establishes
    /// it and [`crate::ballot::vote`] keeps it.
    pub open spec fn well_formed(&self) -> bool {
        self@.well_formed()
    }
}

/// The bytes of all the strings of `items` together.
pub open spec fn total_bytes(items: Seq<Seq<char>>) -> nat
    decreases items.len(),
{
    if items.len() == 0 {
        0
    } else {
        total_bytes(items.drop_last()) + byte_len(items.last())
    }
}

/// The bytes that storing an election takes: the fixed part and the bytes of
/// its name, of its description and of its candidates.
pub open spec fn space_for(
    name: Seq<char>,
    description: Seq<char>,
    candidates: Seq<Seq<char>>,
) -> nat {
    INIT_SPACE as nat + byte_len(name) + byte_len(description) + total_bytes(candidates)
}

/// The views of the strings of `items`, in order.
pub open spec fn texts(items: Seq<String>) -> Seq<Seq<char>> {
    Seq::new(items.len(), |i: int| items[i]@)
}

/// The bytes to reserve for the record of an election with this name,
/// description and candidates, or `None` where that number is beyond `usize`.
pub fn required_space(name: &str, description: &str, candidates: &[String]) -> (space: Option<
    usize,
>)
    ensures
        (match space {
            Some(n) => n == space_for(name@, description@, texts(candidates@)),
            None => space_for(name@, description@, texts(candidates@)) > usize::MAX,
        }),
{
    let fixed: usize = INIT_SPACE;
    let mut total: usize = match fixed.checked_add(name.as_bytes().len()) {
        Some(n) => n,
        None => { return None; },
    };
    total = match total.checked_add(description.as_bytes().len()) {
        Some(n) => n,
        None => { return None; },
    };
    let mut i: usize = 0;
    while i < candidates.len()
        invariant
            i <= candidates.len(),
            total == space_for(name@, description@, texts(candidates@).take(i as int)),
        decreases candidates.len() - i,
    {
        proof {
            let all = texts(candidates@);
            assert(all.take(i + 1).drop_last() == all.take(i as int));
            lemma_total_bytes_grows(all, i + 1);
        }
        total = match total.checked_add(candidates[i].as_str().as_bytes().len()) {
            Some(n) => n,
            None => { return None; },
        };
        i = i + 1;
    }
    proof {
        let all = texts(candidates@);
        assert(all.take(i as int) == all);
    }
    Some(total)
}

/// The strings of a prefix take no more bytes than those of the whole.
proof fn lemma_total_bytes_grows(items: Seq<Seq<char>>, n: int)
    requires
        0 <= n <= items.len(),
    ensures
        total_bytes(items.take(n)) <= total_bytes(items),
    decreases items.len(),
{
    if n < items.len() {
        lemma_total_bytes_grows(items.drop_last(), n);
        assert(items.drop_last().take(n) == items.take(n));
    } else {
        assert(items.take(n) == items);
    }
}

} // verus!
