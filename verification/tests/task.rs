use fantoch::run::task::after_failed_connect;
use fantoch::run::task::connections_expected;
use fantoch::run::task::next_source;
use fantoch::run::task::reader_step;
use fantoch::run::task::selection;
use fantoch::run::task::start_writers;
use fantoch::run::task::writer_counts;
use fantoch::run::task::writer_step;
use fantoch::run::task::ConnectAction;
use fantoch::run::task::ReaderAction;
use fantoch::run::task::ReaderEvent;
use fantoch::run::task::Selection;
use fantoch::run::task::Source;
use fantoch::run::task::WriterAction;
use fantoch::run::task::WriterEvent;
use std::collections::HashMap;

#[test]
fn connections_are_grouped_by_the_process_they_lead_to() {
    let peers = vec![2, 3, 2, 5, 3, 2];
    let writers = start_writers(3, &peers).expect("connections to three processes");
    let mut expected = HashMap::new();
    expected.insert(2, vec![0, 2, 5]);
    expected.insert(3, vec![1, 4]);
    expected.insert(5, vec![3]);
    assert_eq!(writers, expected);

    let counts = writer_counts(&writers, &peers);
    let mut expected = HashMap::new();
    expected.insert(2, 3);
    expected.insert(3, 2);
    expected.insert(5, 1);
    assert_eq!(counts, expected);
}

#[test]
fn connections_to_another_number_of_processes_are_refused() {
    assert_eq!(start_writers(2, &vec![2, 3, 2, 5, 3, 2]), None);
    assert_eq!(start_writers(4, &vec![2, 3, 2, 5, 3, 2]), None);
    assert_eq!(start_writers(1, &vec![]), None);
    assert_eq!(start_writers(0, &vec![]), Some(HashMap::new()));
    assert_eq!(start_writers(0, &vec![4]), None);
}

#[test]
fn writers_are_counted_for_the_processes_asked_for() {
    let mut writers = HashMap::new();
    writers.insert(2, vec![0, 1]);
    writers.insert(3, vec![2]);
    writers.insert(4, vec![]);
    let counts = writer_counts(&writers, &vec![3, 4, 9, 3]);
    let mut expected = HashMap::new();
    expected.insert(3, 1);
    expected.insert(4, 0);
    assert_eq!(counts, expected);
}

#[test]
fn each_peer_gets_as_many_connections_as_the_multiplexing_says() {
    assert_eq!(connections_expected(2, 1), Some(2));
    assert_eq!(connections_expected(4, 3), Some(12));
    assert_eq!(connections_expected(0, 3), Some(0));
    assert_eq!(connections_expected(usize::MAX, 1), Some(usize::MAX));
    assert_eq!(connections_expected(usize::MAX, 2), None);
}

#[test]
fn a_writer_with_a_flush_interval_flushes_on_the_tick() {
    assert_eq!(writer_step(Some(5), WriterEvent::Message), WriterAction::Write);
    assert_eq!(writer_step(Some(5), WriterEvent::Tick), WriterAction::Flush);
    assert_eq!(writer_step(Some(5), WriterEvent::Closed), WriterAction::Stop);
}

#[test]
fn a_writer_without_flush_interval_flushes_each_write() {
    assert_eq!(writer_step(None, WriterEvent::Message), WriterAction::Send);
    assert_eq!(writer_step(None, WriterEvent::Closed), WriterAction::Stop);
}

#[test]
fn a_reader_forwards_what_it_reads_and_goes_on_after_a_failure() {
    assert_eq!(reader_step(ReaderEvent::Message), ReaderAction::Forward);
    assert_eq!(reader_step(ReaderEvent::Failed), ReaderAction::Report);
    assert_eq!(reader_step(ReaderEvent::Closed), ReaderAction::Stop);
}

#[test]
fn a_leaderless_protocol_favours_the_messages_of_other_processes() {
    assert_eq!(selection(true), Selection::Biased);
    assert_eq!(selection(false), Selection::Fair);
    for last in [Source::Readers, Source::Clients] {
        assert_eq!(next_source(Selection::Biased, true, true, last), Some(Source::Readers));
        assert_eq!(next_source(Selection::Biased, true, false, last), Some(Source::Readers));
        assert_eq!(next_source(Selection::Biased, false, true, last), Some(Source::Clients));
        assert_eq!(next_source(Selection::Biased, false, false, last), None);
    }
}

#[test]
fn a_fair_worker_serves_its_sources_in_turn() {
    assert_eq!(next_source(Selection::Fair, true, true, Source::Readers), Some(Source::Clients));
    assert_eq!(next_source(Selection::Fair, true, true, Source::Clients), Some(Source::Readers));
    for last in [Source::Readers, Source::Clients] {
        assert_eq!(next_source(Selection::Fair, true, false, last), Some(Source::Readers));
        assert_eq!(next_source(Selection::Fair, false, true, last), Some(Source::Clients));
        assert_eq!(next_source(Selection::Fair, false, false, last), None);
    }
}

#[test]
fn a_connection_is_tried_as_often_as_allowed() {
    assert_eq!(after_failed_connect(1, 3), ConnectAction::Retry);
    assert_eq!(after_failed_connect(2, 3), ConnectAction::Retry);
    assert_eq!(after_failed_connect(3, 3), ConnectAction::GiveUp);
    assert_eq!(after_failed_connect(4, 3), ConnectAction::GiveUp);
    assert_eq!(after_failed_connect(1, 1), ConnectAction::GiveUp);
    assert_eq!(after_failed_connect(1, 0), ConnectAction::GiveUp);
    assert_eq!(after_failed_connect(usize::MAX, usize::MAX), ConnectAction::GiveUp);
}
