use fantoch::bote::search::is_countable;
use fantoch::bote::search::is_subset;
use fantoch::bote::search::AllStats;
use fantoch::bote::search::Evolution;
use fantoch::bote::search::Protocol;
use fantoch::bote::search::Scored;
use fantoch::bote::search::Search;
use fantoch::bote::search::SearchFTFilter;
use fantoch::bote::search::SearchInput;
use fantoch::bote::search::SearchMetric;
use fantoch::bote::search::SearchParams;
use fantoch::bote::search::Stats;
use fantoch::bote::search::StatsRequest;

fn stats(mean: u32, fairness: u32, min_max_dist: u32) -> Stats {
    Stats { mean, fairness, min_max_dist }
}

fn params(metric: SearchMetric, filter: SearchFTFilter, min_lat: i64, min_fairness: i64) -> SearchParams {
    SearchParams::new(min_lat, min_fairness, 9, metric, filter, vec![], vec![])
}

// Figures in which Atlas is faster than FPaxos by `gain` milliseconds for
// each number of faults.
fn faster_by(n: usize, gain: u32) -> AllStats {
    let by_faults = (0..Search::max_f(n))
        .map(|_| (stats(100, 10, 5), stats(100 + gain, 10, 5)))
        .collect();
    AllStats { by_faults, epaxos: stats(90, 9, 4) }
}

#[test]
fn the_numbers_of_faults_that_count() {
    for n in [3usize, 5, 7, 9, 4, 0] {
        assert_eq!(SearchFTFilter::F1.fs(n), vec![1]);
    }
    assert_eq!(SearchFTFilter::F2.fs(3), vec![1]);
    assert_eq!(SearchFTFilter::F2.fs(5), vec![2]);
    assert_eq!(SearchFTFilter::F2.fs(9), vec![2]);
    assert_eq!(SearchFTFilter::F1AndF2.fs(3), vec![1]);
    assert_eq!(SearchFTFilter::F1AndF2.fs(5), vec![1, 2]);
    assert_eq!(SearchFTFilter::F1AndF2.fs(7), vec![1, 2]);
}

#[test]
fn figures_are_wanted_for_a_minority_of_faults_and_three_at_most() {
    assert_eq!(Search::max_f(0), 0);
    assert_eq!(Search::max_f(1), 0);
    assert_eq!(Search::max_f(3), 1);
    assert_eq!(Search::max_f(5), 2);
    assert_eq!(Search::max_f(7), 3);
    assert_eq!(Search::max_f(9), 3);
    assert_eq!(Search::max_f(usize::MAX), 3);
}

#[test]
fn the_quorum_of_each_protocol() {
    // Atlas: a minority and f more
    assert_eq!(Protocol::Atlas.quorum_size(5, 1), 3);
    assert_eq!(Protocol::Atlas.quorum_size(5, 2), 4);
    assert_eq!(Protocol::Atlas.quorum_size(7, 3), 6);
    // FPaxos: f and one more
    assert_eq!(Protocol::FPaxos.quorum_size(5, 1), 2);
    assert_eq!(Protocol::FPaxos.quorum_size(7, 3), 4);
    // EPaxos: with a minority as f, f + (f + 1) / 2
    assert_eq!(Protocol::EPaxos.quorum_size(3, 0), 2);
    assert_eq!(Protocol::EPaxos.quorum_size(5, 0), 3);
    assert_eq!(Protocol::EPaxos.quorum_size(7, 0), 5);
    assert_eq!(Protocol::EPaxos.quorum_size(9, 4), 6);
}

#[test]
fn the_figures_wanted_for_a_configuration() {
    let request = |protocol, f, quorum_size| StatsRequest { protocol, f, quorum_size };
    assert_eq!(
        Search::compute_stats(3),
        vec![
            request(Protocol::Atlas, 1, 2),
            request(Protocol::FPaxos, 1, 2),
            request(Protocol::EPaxos, 0, 2),
        ]
    );
    assert_eq!(
        Search::compute_stats(5),
        vec![
            request(Protocol::Atlas, 1, 3),
            request(Protocol::FPaxos, 1, 2),
            request(Protocol::Atlas, 2, 4),
            request(Protocol::FPaxos, 2, 3),
            request(Protocol::EPaxos, 0, 3),
        ]
    );
    assert_eq!(Search::compute_stats(9).len(), 7);
    assert_eq!(Search::compute_stats(1), vec![request(Protocol::EPaxos, 0, 0)]);
}

#[test]
fn answers_are_put_together_in_the_order_of_the_requests() {
    let answers = vec![stats(1, 1, 1), stats(2, 2, 2), stats(3, 3, 3), stats(4, 4, 4), stats(5, 5, 5)];
    let all = AllStats::from_answers(5, &answers).expect("one answer per request");
    assert_eq!(
        all,
        AllStats {
            by_faults: vec![(stats(1, 1, 1), stats(2, 2, 2)), (stats(3, 3, 3), stats(4, 4, 4))],
            epaxos: stats(5, 5, 5),
        }
    );
    assert_eq!(AllStats::from_answers(3, &answers), None);
    assert_eq!(AllStats::from_answers(7, &answers), None);
    assert_eq!(
        AllStats::from_answers(1, &vec![stats(7, 8, 9)]),
        Some(AllStats { by_faults: vec![], epaxos: stats(7, 8, 9) })
    );
}

#[test]
fn the_score_is_the_mean_improvement_of_atlas_on_fpaxos() {
    let figures = AllStats {
        by_faults: vec![
            // f = 1: latency 120 - 100 = 20, fairness 15 - 10 = 5, distance 9 - 8 = 1
            (stats(100, 10, 8), stats(120, 15, 9)),
            // f = 2: latency 130 - 101 = 29, fairness 10 - 20 = -10, distance 3 - 8 = -5
            (stats(101, 20, 8), stats(130, 10, 3)),
        ],
        epaxos: stats(0, 0, 0),
    };
    let score = |metric, filter| {
        let params = params(metric, filter, i64::MIN, i64::MIN);
        let (valid, score, kept) = Search::compute_score(5, &params, figures.clone());
        assert!(valid);
        assert_eq!(kept, figures);
        score
    };
    assert_eq!(score(SearchMetric::Latency, SearchFTFilter::F1), 20);
    assert_eq!(score(SearchMetric::Latency, SearchFTFilter::F2), 29);
    // (20 + 29) / 2
    assert_eq!(score(SearchMetric::Latency, SearchFTFilter::F1AndF2), 24);
    assert_eq!(score(SearchMetric::Fairness, SearchFTFilter::F1), 5);
    // (5 - 10) / 2, rounded towards zero
    assert_eq!(score(SearchMetric::Fairness, SearchFTFilter::F1AndF2), -2);
    // (1 - 5) / 2
    assert_eq!(score(SearchMetric::MinMaxDistance, SearchFTFilter::F1AndF2), -2);
    assert_eq!(score(SearchMetric::MinMaxDistance, SearchFTFilter::F2), -5);
    // (20 + 5 + 29 - 10) / 2
    assert_eq!(score(SearchMetric::LatencyAndFairness, SearchFTFilter::F1AndF2), 22);
}

#[test]
fn a_configuration_is_valid_if_atlas_improves_enough_for_each_number_of_faults() {
    let figures = AllStats {
        by_faults: vec![(stats(100, 10, 8), stats(120, 15, 9)), (stats(101, 20, 8), stats(130, 10, 3))],
        epaxos: stats(0, 0, 0),
    };
    let valid = |filter, min_lat, min_fairness| {
        let params = params(SearchMetric::Latency, filter, min_lat, min_fairness);
        Search::compute_score(5, &params, figures.clone()).0
    };
    assert!(valid(SearchFTFilter::F1, 20, 5));
    assert!(!valid(SearchFTFilter::F1, 21, 5));
    assert!(!valid(SearchFTFilter::F1, 20, 6));
    assert!(valid(SearchFTFilter::F2, 29, -10));
    assert!(!valid(SearchFTFilter::F2, 29, -9));
    assert!(valid(SearchFTFilter::F1AndF2, 20, -10));
    assert!(!valid(SearchFTFilter::F1AndF2, 21, -10));
    assert!(!valid(SearchFTFilter::F1AndF2, 20, 0));
}

#[test]
fn scores_stay_within_their_bounds() {
    let figures = AllStats {
        by_faults: vec![(stats(0, 0, 0), stats(u32::MAX, u32::MAX, u32::MAX))],
        epaxos: stats(0, 0, 0),
    };
    let params = params(SearchMetric::LatencyAndFairness, SearchFTFilter::F1, 0, 0);
    let (valid, score, _) = Search::compute_score(3, &params, figures);
    assert!(valid);
    assert_eq!(score, 2 * (u32::MAX as i64));
    let figures = AllStats {
        by_faults: vec![(stats(u32::MAX, u32::MAX, u32::MAX), stats(0, 0, 0))],
        epaxos: stats(0, 0, 0),
    };
    let (valid, score, _) = Search::compute_score(3, &params, figures);
    assert!(!valid);
    assert_eq!(score, -2 * (u32::MAX as i64));
}

#[test]
fn the_regions_searched_and_those_of_the_clients() {
    let known = vec![String::from("a"), String::from("b"), String::from("c")];
    let eleven = vec![
        "asia-east2",
        "asia-northeast1",
        "asia-south1",
        "asia-southeast1",
        "australia-southeast1",
        "europe-north1",
        "europe-west2",
        "northamerica-northeast1",
        "southamerica-east1",
        "us-east1",
        "us-west2",
    ];
    let nine = vec![
        "asia-east2",
        "asia-northeast1",
        "asia-south1",
        "australia-southeast1",
        "europe-north1",
        "europe-west2",
        "southamerica-east1",
        "us-east1",
        "us-west2",
    ];
    let (clients, regions) = Search::search_regions(&SearchInput::C20R20, known.clone());
    assert_eq!(clients, known);
    assert_eq!(regions, known);
    let (clients, regions) = Search::search_regions(&SearchInput::C11R20, known.clone());
    assert_eq!(clients, eleven);
    assert_eq!(regions, known);
    let (clients, regions) = Search::search_regions(&SearchInput::C11R11, known.clone());
    assert_eq!(clients, eleven);
    assert_eq!(regions, eleven);
    let (clients, regions) = Search::search_regions(&SearchInput::C09R09, known);
    assert_eq!(clients, nine);
    assert_eq!(regions, nine);
    // the lists are in the order of the names
    let mut sorted = eleven.clone();
    sorted.sort();
    assert_eq!(sorted, eleven);
    let mut sorted = nine.clone();
    sorted.sort();
    assert_eq!(sorted, nine);
}

#[test]
fn combinations_can_be_counted_while_the_products_fit() {
    assert!(is_countable(4, 3));
    assert!(is_countable(20, 9));
    assert!(is_countable(20, 20));
    // 21! does not fit in 64 bits
    assert!(!is_countable(21, 21));
    assert!(!is_countable(100, 50));
    assert!(is_countable(usize::MAX, 1));
    assert!(!is_countable(usize::MAX, 2));
}

#[test]
fn the_configurations_of_each_odd_size_are_listed() {
    let lists = Search::all_configs(5, 6).expect("sizes 3 and 5 among five regions");
    assert_eq!(lists.len(), 2);
    let (n, mut threes) = lists[0].clone();
    assert_eq!(n, 3);
    threes.sort();
    assert_eq!(
        threes,
        vec![
            vec![0, 1, 2],
            vec![0, 1, 3],
            vec![0, 1, 4],
            vec![0, 2, 3],
            vec![0, 2, 4],
            vec![0, 3, 4],
            vec![1, 2, 3],
            vec![1, 2, 4],
            vec![1, 3, 4],
            vec![2, 3, 4],
        ]
    );
    assert_eq!(lists[1], (5, vec![vec![0, 1, 2, 3, 4]]));
    // nothing is searched below three regions
    assert_eq!(Search::all_configs(5, 2), Some(vec![]));
    assert_eq!(Search::all_configs(0, 0), Some(vec![]));
    // a size beyond the number of regions cannot be listed
    assert_eq!(Search::all_configs(4, 5), None);
    assert_eq!(Search::all_configs(2, 3), None);
    assert_eq!(Search::all_configs(9, 9).map(|lists| lists.len()), Some(4));
}

#[test]
fn a_part_of_a_set_has_all_its_regions_in_the_set() {
    assert!(is_subset(&vec![], &vec![]));
    assert!(is_subset(&vec![], &vec![1]));
    assert!(is_subset(&vec![1, 3], &vec![0, 1, 2, 3]));
    assert!(is_subset(&vec![3, 1], &vec![1, 3]));
    assert!(!is_subset(&vec![1, 4], &vec![0, 1, 2, 3]));
    assert!(!is_subset(&vec![0], &vec![]));
}

#[test]
fn only_valid_configurations_are_kept() {
    let params = params(SearchMetric::Latency, SearchFTFilter::F1, 10, 0);
    let figures = vec![(
        3,
        vec![
            (vec![0, 1, 2], faster_by(3, 30)),
            (vec![0, 1, 3], faster_by(3, 9)),
            (vec![0, 2, 3], faster_by(3, 10)),
        ],
    )];
    let search = Search::new(params.clone(), figures).expect("figures of three regions");
    assert_eq!(search.params(), &params);
    assert_eq!(
        search.superset_configs(3),
        Some(&vec![
            Scored { score: 30, config: vec![0, 1, 2], stats: faster_by(3, 30) },
            Scored { score: 10, config: vec![0, 2, 3], stats: faster_by(3, 10) },
        ])
    );
    assert_eq!(search.superset_configs(5), None);
    assert_eq!(search.evolving_configs(), None);
}

#[test]
fn figures_of_another_size_are_refused() {
    let params = params(SearchMetric::Latency, SearchFTFilter::F1, 10, 0);
    // figures for two numbers of faults, where three regions tolerate one
    let figures = vec![(3, vec![(vec![0, 1, 2], faster_by(5, 30))])];
    assert!(Search::new(params.clone(), figures).is_none());
    // fewer than three regions
    let figures = vec![(2, vec![(vec![0, 1], faster_by(2, 30))])];
    assert!(Search::new(params.clone(), figures).is_none());
    let figures = vec![(3, vec![]), (2, vec![])];
    assert!(Search::new(params.clone(), figures).is_none());
    assert!(Search::new(params, vec![]).is_some());
}

#[test]
fn a_configuration_grows_through_the_configurations_it_is_a_part_of() {
    let params = params(SearchMetric::Latency, SearchFTFilter::F1, 0, 0);
    let figures = vec![
        (3, vec![(vec![0, 1, 2], faster_by(3, 1)), (vec![6, 7, 8], faster_by(3, 2))]),
        (
            5,
            vec![
                (vec![0, 1, 2, 3, 4], faster_by(5, 10)),
                (vec![0, 1, 2, 7, 8], faster_by(5, 20)),
                (vec![4, 5, 6, 7, 8], faster_by(5, 30)),
            ],
        ),
        (
            7,
            vec![
                (vec![0, 1, 2, 3, 4, 5, 6], faster_by(7, 100)),
                (vec![0, 1, 2, 4, 5, 7, 8], faster_by(7, 200)),
                (vec![2, 3, 4, 5, 6, 7, 8], faster_by(7, 300)),
            ],
        ),
        (9, vec![(vec![0, 1, 2, 3, 4, 5, 6, 7, 8], faster_by(9, 1000))]),
    ];
    let search = Search::new(params, figures).expect("figures of each size");
    let found = search.evolving_configs().expect("all four sizes were searched");
    assert_eq!(
        found,
        vec![
            // {0,1,2} in {0,1,2,3,4} in {0,..,6} in all
            Evolution { score: 1 + 10 + 100 + 1000, steps: vec![0, 0, 0, 0] },
            // {0,1,2} in {0,1,2,7,8} in {0,1,2,4,5,7,8} in all
            Evolution { score: 1 + 20 + 200 + 1000, steps: vec![0, 1, 1, 0] },
            // {6,7,8} in {4,5,6,7,8} in {2,..,8} in all
            Evolution { score: 2 + 30 + 300 + 1000, steps: vec![1, 2, 2, 0] },
        ]
    );
}

#[test]
fn no_evolution_without_a_chain() {
    let params = params(SearchMetric::Latency, SearchFTFilter::F1, 0, 0);
    let figures = vec![
        (9, vec![(vec![0, 1, 2, 3, 4, 5, 6, 7, 8], faster_by(9, 1000))]),
        (7, vec![(vec![0, 1, 2, 3, 4, 5, 6], faster_by(7, 100))]),
        (5, vec![(vec![0, 1, 2, 3, 8], faster_by(5, 10))]),
        (3, vec![(vec![0, 1, 2], faster_by(3, 1))]),
    ];
    let search = Search::new(params, figures).expect("figures of each size");
    // the five regions are not among the seven
    assert_eq!(search.evolving_configs(), Some(vec![]));
}
