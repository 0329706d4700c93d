use fantoch::command::ClientCommand;
use fantoch::command::Command;
use fantoch::command::CommandResult;
use fantoch::command::MultiCommand;
use fantoch::executor::table::MultiVotesTable;
use fantoch::executor::table::TableExecutionInfo;
use fantoch::executor::table::VotesTable;
use fantoch::id::Dot;
use fantoch::id::Rifl;
use fantoch::protocol::votes::VoteRange;

fn key(name: &str) -> String {
    String::from(name)
}

fn put(value: &str) -> Command {
    Command::Put(String::from(value))
}

#[test]
fn a_vote_range_is_a_voter_and_its_votes() {
    let range = VoteRange::new(3, 5, 9);
    assert_eq!(range.voter(), 3);
    assert_eq!(range.start(), 5);
    assert_eq!(range.end(), 9);
    assert_eq!(range, VoteRange { by: 3, start: 5, end: 9 });
}

#[test]
fn nothing_is_stable_before_enough_voters_have_voted() {
    let mut table = VotesTable::new(2);
    table.add((1, 1), put("a"), &vec![VoteRange::new(1, 1, 1)]);
    assert!(table.stable_commands().is_empty());
    // the second voter makes clock 1 stable
    table.add((2, 2), put("b"), &vec![VoteRange::new(2, 1, 2)]);
    assert_eq!(table.stable_commands(), vec![put("a")]);
    // the command with clock 2 waits for a second vote on 2
    assert!(table.stable_commands().is_empty());
    assert!(table.holds((2, 2)));
    assert!(!table.holds((1, 1)));
    table.add((3, 1), put("c"), &vec![VoteRange::new(1, 2, 3)]);
    assert_eq!(table.stable_commands(), vec![put("b")]);
    assert!(table.holds((3, 1)));
}

#[test]
fn the_stable_clock_is_what_the_threshold_of_voters_has_reached() {
    // one voter is enough: what it has reached without a gap is stable
    let mut table = VotesTable::new(1);
    table.add((6, 1), put("six"), &vec![VoteRange::new(1, 1, 5)]);
    table.add((5, 1), put("five"), &vec![]);
    assert_eq!(table.stable_commands(), vec![put("five")]);
    // a vote beyond a gap does not count until the gap is closed
    table.add((8, 1), put("eight"), &vec![VoteRange::new(1, 7, 8)]);
    assert!(table.stable_commands().is_empty());
    table.add((9, 1), put("nine"), &vec![VoteRange::new(1, 6, 6)]);
    assert_eq!(table.stable_commands(), vec![put("six"), put("eight")]);
    assert!(table.holds((9, 1)));
}

#[test]
fn the_slowest_of_the_fastest_voters_decides() {
    // three voters of which two make a clock stable: the second highest
    // frontier is the stable clock
    let mut table = VotesTable::new(2);
    let votes = vec![VoteRange::new(1, 1, 7), VoteRange::new(2, 1, 4), VoteRange::new(3, 1, 2)];
    table.add((5, 1), put("five"), &votes);
    table.add((4, 9), put("four"), &vec![]);
    table.add((2, 1), put("two"), &vec![]);
    assert_eq!(table.stable_commands(), vec![put("two"), put("four")]);
    // with all three needed, the lowest frontier is
    let mut table = VotesTable::new(3);
    table.add((3, 1), put("three"), &votes);
    table.add((2, 1), put("two"), &vec![]);
    assert_eq!(table.stable_commands(), vec![put("two")]);
}

#[test]
fn commands_leave_the_table_by_clock_and_then_by_process() {
    let mut table = VotesTable::new(1);
    table.add((2, 3), put("2-3"), &vec![]);
    table.add((1, 2), put("1-2"), &vec![]);
    table.add((2, 1), put("2-1"), &vec![]);
    table.add((1, 1), put("1-1"), &vec![]);
    table.add((3, 1), put("3-1"), &vec![]);
    assert!(table.holds((2, 1)));
    assert!(!table.holds((2, 2)));
    assert!(table.stable_commands().is_empty());
    table.add((4, 1), Command::Get, &vec![VoteRange::new(7, 1, 2)]);
    assert_eq!(
        table.stable_commands(),
        vec![put("1-1"), put("1-2"), put("2-1"), put("2-3")]
    );
    table.add((9, 9), put("9-9"), &vec![VoteRange::new(7, 3, 20)]);
    assert_eq!(table.stable_commands(), vec![put("3-1"), Command::Get, put("9-9")]);
    assert!(table.stable_commands().is_empty());
}

#[test]
fn votes_are_counted_once() {
    let mut table = VotesTable::new(2);
    // process 1 votes twice for the same clock values
    table.add((1, 1), put("a"), &vec![VoteRange::new(1, 1, 3), VoteRange::new(1, 2, 3)]);
    assert!(table.stable_commands().is_empty());
    table.add((2, 2), put("b"), &vec![VoteRange::new(2, 1, 1)]);
    assert_eq!(table.stable_commands(), vec![put("a")]);
}

#[test]
fn each_key_has_its_own_table() {
    let mut table = MultiVotesTable::new(2);
    let on_a_and_b = MultiCommand::new(vec![(key("a"), put("1")), (key("b"), Command::Get)]);
    let votes = vec![
        (key("a"), vec![VoteRange::new(1, 1, 1), VoteRange::new(2, 1, 1)]),
        (key("b"), vec![VoteRange::new(1, 1, 1)]),
    ];
    assert!(!table.holds(&key("a"), (1, 1)));
    // on `a` two voters have voted, on `b` one
    assert_eq!(table.add(1, Some(on_a_and_b), 1, votes), vec![put("1")]);
    assert!(!table.holds(&key("a"), (1, 1)));
    assert!(table.holds(&key("b"), (1, 1)));
    assert!(!table.holds(&key("c"), (1, 1)));

    // a command on `b` and `c`: on `b` the second vote lets both commands go
    let on_b_and_c = MultiCommand::new(vec![(key("b"), put("2")), (key("c"), put("3"))]);
    let votes = vec![
        (key("b"), vec![VoteRange::new(2, 1, 2), VoteRange::new(1, 2, 2)]),
        (key("c"), vec![VoteRange::new(2, 1, 2)]),
    ];
    assert_eq!(table.add(2, Some(on_b_and_c), 2, votes), vec![Command::Get, put("2")]);
    assert!(table.holds(&key("c"), (2, 2)));
    assert!(!table.holds(&key("b"), (2, 2)));
}

#[test]
fn a_no_op_adds_nothing() {
    let mut table = MultiVotesTable::new(1);
    assert!(table.add(1, None, 1, vec![]).is_empty());
    assert!(table.add(1, None, 1, vec![(key("a"), vec![VoteRange::new(1, 1, 9)])]).is_empty());
    // the votes of the no-op were not counted
    let cmd = MultiCommand::new(vec![(key("a"), put("1"))]);
    assert!(table.add(1, Some(cmd), 1, vec![(key("a"), vec![])]).is_empty());
    assert!(table.holds(&key("a"), (1, 1)));
}

#[test]
fn what_the_table_executor_is_told() {
    let cmd = ClientCommand::new(Rifl::new(1, 1), MultiCommand::new(vec![(key("a"), put("1"))]));
    let votes = vec![(key("a"), vec![VoteRange::new(1, 1, 2)])];
    let info = TableExecutionInfo::votes(Dot::new(1, 1), cmd.clone(), 2, votes.clone());
    assert_eq!(info, TableExecutionInfo::Votes { dot: Dot::new(1, 1), cmd, clock: 2, votes });
    let process_votes = vec![(key("b"), VoteRange::new(2, 4, 6))];
    let info = TableExecutionInfo::phantom_votes(process_votes.clone());
    assert_eq!(info, TableExecutionInfo::PhantomVotes { process_votes });
}

#[test]
fn a_result_is_ready_when_every_key_has_reported() {
    let mut result = CommandResult::new(Rifl::new(4, 2), 2);
    assert_eq!(result.rifl(), Rifl::new(4, 2));
    assert!(result.results().is_empty());
    assert!(!result.has(&key("a")));
    assert!(!result.add_partial(key("a"), None));
    assert!(result.has(&key("a")));
    assert!(!result.has(&key("b")));
    assert!(result.add_partial(key("b"), Some(String::from("old"))));
    assert_eq!(
        result.results(),
        &vec![(key("a"), None), (key("b"), Some(String::from("old")))]
    );
    // a command on no key is never ready, as no key ever reports
    let empty = CommandResult::new(Rifl::new(4, 3), 0);
    assert!(empty.results().is_empty());
}
