use anchor_lang::prelude::Pubkey;
use voting_dapp::{
    required_space, start_election, Election, Errors, INIT_SPACE, MAX_CANDIDATES, MAX_DESC_LEN,
    MAX_NAME_LEN,
};

fn key(tag: u8) -> Pubkey {
    Pubkey::new_from_array([tag; 32])
}

fn names(given: &[&str]) -> Vec<String> {
    given.iter().map(|s| s.to_string()).collect()
}

fn open_named(name: &str) -> Result<Election, Errors> {
    start_election(
        key(1),
        name.to_string(),
        "who chairs the board".to_string(),
        names(&["A", "B", "C", "D"]),
        24,
        1_700_000_000,
    )
}

#[test]
fn bounds_are_those_of_the_record() {
    assert_eq!(MAX_NAME_LEN, 12);
    assert_eq!(MAX_DESC_LEN, 48);
    assert_eq!(MAX_CANDIDATES, 4);
    assert_eq!(INIT_SPACE, 139);
}

#[test]
fn new_election_holds_what_was_asked() {
    let made = start_election(
        key(7),
        "board".to_string(),
        "who chairs the board".to_string(),
        names(&["A", "B", "C", "D"]),
        24,
        1_700_000_000,
    )
    .unwrap();
    assert_eq!(made.creator, key(7));
    assert_eq!(made.name, "board");
    assert_eq!(made.description, "who chairs the board");
    assert_eq!(made.candidates, ["A", "B", "C", "D"]);
    assert_eq!(made.candidate_votes, [0, 0, 0, 0]);
    assert_eq!(made.duration, 24);
    assert_eq!(made.started_at, 1_700_000_000);
    assert!(!made.has_ended);
    assert_eq!(made.winner, None);
}

#[test]
fn name_of_twelve_bytes_is_accepted() {
    assert!(open_named("abcdefghijkl").is_ok());
    assert!(open_named("").is_ok());
}

#[test]
fn name_of_thirteen_bytes_is_too_long() {
    assert_eq!(open_named("abcdefghijklm"), Err(Errors::MaxStrLen));
    assert_eq!(open_named("a much longer name than allowed"), Err(Errors::MaxStrLen));
}

#[test]
fn name_is_measured_in_bytes() {
    // Seven letters of two bytes each: fourteen bytes.
    assert_eq!(open_named("ééééééé"), Err(Errors::MaxStrLen));
    // Six of them: twelve bytes.
    assert!(open_named("éééééé").is_ok());
}

#[test]
fn description_bound_is_forty_eight_bytes() {
    let fits = "d".repeat(48);
    let over = "d".repeat(49);
    let ok = start_election(key(1), "n".to_string(), fits.clone(), names(&["A"]), 1, 0);
    assert_eq!(ok.unwrap().description, fits);
    let refused = start_election(key(1), "n".to_string(), over, names(&["A"]), 1, 0);
    assert_eq!(refused, Err(Errors::MaxStrLen));
}

#[test]
fn five_candidates_are_too_many() {
    let refused = start_election(
        key(1),
        "board".to_string(),
        "".to_string(),
        names(&["A", "B", "C", "D", "E"]),
        1,
        0,
    );
    assert_eq!(refused, Err(Errors::MaxNoOfCandidatesExceeded));
}

#[test]
fn long_name_is_reported_before_candidate_count() {
    let refused = start_election(
        key(1),
        "abcdefghijklm".to_string(),
        "".to_string(),
        names(&["A", "B", "C", "D", "E"]),
        1,
        0,
    );
    assert_eq!(refused, Err(Errors::MaxStrLen));
    let refused = start_election(
        key(1),
        "board".to_string(),
        "d".repeat(49),
        names(&["A", "B", "C", "D", "E"]),
        1,
        0,
    );
    assert_eq!(refused, Err(Errors::MaxStrLen));
}

#[test]
fn fewer_candidates_leave_empty_slots() {
    let made =
        start_election(key(1), "board".to_string(), "".to_string(), names(&["A", "B"]), 1, 0)
            .unwrap();
    assert_eq!(made.candidates, ["A", "B", "", ""]);
    let none = start_election(key(1), "board".to_string(), "".to_string(), Vec::new(), 1, 0)
        .unwrap();
    assert_eq!(none.candidates, ["", "", "", ""]);
    assert_eq!(none.candidate_votes, [0, 0, 0, 0]);
}

#[test]
fn duration_and_start_cover_their_whole_range() {
    let made = start_election(key(1), "n".to_string(), "".to_string(), names(&["A"]), 255, i64::MAX)
        .unwrap();
    assert_eq!(made.duration, 255);
    assert_eq!(made.started_at, i64::MAX);
    let made = start_election(key(1), "n".to_string(), "".to_string(), names(&["A"]), 0, i64::MIN)
        .unwrap();
    assert_eq!(made.duration, 0);
    assert_eq!(made.started_at, i64::MIN);
}

#[test]
fn space_is_fixed_part_plus_bytes_of_strings() {
    let candidates = names(&["Ann", "Bo", "Cy", ""]);
    // 139 + 5 + 20 + (3 + 2 + 2 + 0)
    assert_eq!(required_space("board", "who chairs the board", &candidates), Some(171));
    assert_eq!(required_space("", "", &names(&["", "", "", ""])), Some(139));
    assert_eq!(required_space("", "", &[]), Some(139));
    // Two bytes for each letter.
    assert_eq!(required_space("éé", "", &names(&["é"])), Some(145));
}

#[test]
fn space_of_request_is_space_of_record() {
    let given = names(&["Ann", "Bo"]);
    let asked = required_space("board", "chair", &given).unwrap();
    let made = start_election(key(1), "board".to_string(), "chair".to_string(), given, 1, 0)
        .unwrap();
    let kept = required_space(&made.name, &made.description, &made.candidates).unwrap();
    assert_eq!(asked, kept);
    assert_eq!(asked, 139 + 5 + 5 + 3 + 2);
}
