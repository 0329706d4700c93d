use fantoch::id::process_ids;
use fantoch::id::Dot;
use fantoch::id::DotGen;
use fantoch::id::Rifl;

#[test]
fn a_dot_is_its_source_and_its_sequence() {
    let dot = Dot::new(3, 17);
    assert_eq!(dot.source(), 3);
    assert_eq!(dot.sequence(), 17);
    assert_eq!(dot, Dot { source: 3, sequence: 17 });
    assert_ne!(dot, Dot::new(17, 3));
}

#[test]
fn a_rifl_is_its_client_and_its_sequence() {
    let rifl = Rifl::new(9, 2);
    assert_eq!(rifl.source(), 9);
    assert_eq!(rifl.sequence(), 2);
    assert_ne!(rifl, Rifl::new(9, 3));
}

#[test]
fn processes_are_numbered_from_one() {
    assert_eq!(process_ids(0), Vec::<u64>::new());
    assert_eq!(process_ids(1), vec![1]);
    assert_eq!(process_ids(5), vec![1, 2, 3, 4, 5]);
}

#[test]
fn dots_are_handed_out_in_sequence() {
    let mut dots = DotGen::new(2);
    assert_eq!(dots.source(), 2);
    assert_eq!(dots.last_sequence(), 0);
    assert_eq!(dots.next_dot(), Dot::new(2, 1));
    assert_eq!(dots.next_dot(), Dot::new(2, 2));
    assert_eq!(dots.next_dot(), Dot::new(2, 3));
    assert_eq!(dots.last_sequence(), 3);
}

#[test]
fn a_resumed_generator_goes_on_after_the_last_sequence() {
    let mut dots = DotGen::resume(4, 41);
    assert_eq!(dots.last_sequence(), 41);
    assert_eq!(dots.next_dot(), Dot::new(4, 42));
    let mut last = DotGen::resume(4, u64::MAX - 1);
    assert_eq!(last.next_dot(), Dot::new(4, u64::MAX));
    assert_eq!(last.last_sequence(), u64::MAX);
}
