//! The search for sets of regions in which a leaderless protocol improves
//! on a leader-based one, and for the ways in which such a set can grow.
//!
//! The latencies themselves are measured elsewhere: the search says which
//! figures it wants for a set of regions, and ranks the sets by the figures
//! it is given.

use permutator::Combination;
use vstd::prelude::*;

verus! {

/// The name of a region.
pub type Region = String;

/// A set of regions: the positions of its regions in the list of regions
/// that are searched.
pub type RegionSet = Vec<usize>;

/// Identifies which regions are considered for the search.
#[derive(Debug, Clone, Copy, PartialEq, Eq, Structural)]
pub enum SearchInput {
    /// 20-clients considered, config search within the 20 regions
    C20R20,
    /// 11-clients considered, config search within the 20 regions
    C11R20,
    /// 11-clients considered, config search within the same 11 regions
    C11R11,
    /// 9-clients considered, config search within the same 9 regions
    C09R09,
}

/// What is considered when ranking configurations.
#[derive(Debug, Clone, Copy, PartialEq, Eq, Structural)]
pub enum SearchMetric {
    Latency,
    Fairness,
    MinMaxDistance,
    LatencyAndFairness,
}

/// Fault tolerance considered when searching for configurations.
#[derive(Debug, Clone, Copy, PartialEq, Eq, Structural)]
pub enum SearchFTFilter {
    F1,
    F2,
    F1AndF2,
}

impl SearchFTFilter {
    /// The numbers of faults that count in a configuration of `n` regions.
    /// Three regions tolerate one fault only.
    pub open spec fn spec_fs(self, n: usize) -> Seq<usize> {
        match self {
            SearchFTFilter::F1 => seq![1usize],
            SearchFTFilter::F2 => if n == 3 {
                seq![1usize]
            } else {
                seq![2usize]
            },
            SearchFTFilter::F1AndF2 => if n == 3 {
                seq![1usize]
            } else {
                seq![1usize, 2usize]
            },
        }
    }

    /// The numbers of faults that count in a configuration of `n` regions.
    pub fn fs(&self, n: usize) -> (fs: Vec<usize>)
        ensures
            fs@ == self.spec_fs(n),
    {
        let mut fs: Vec<usize> = Vec::new();
        match self {
            SearchFTFilter::F1 => {
                fs.push(1);
            },
            SearchFTFilter::F2 => {
                if n == 3 {
                    fs.push(1);
                } else {
                    fs.push(2);
                }
            },
            SearchFTFilter::F1AndF2 => {
                if n == 3 {
                    fs.push(1);
                } else {
                    fs.push(1);
                    fs.push(2);
                }
            },
        }
        assert(fs@ =~= self.spec_fs(n));
        fs
    }
}

/// The protocols that are compared.
#[derive(Debug, Clone, Copy, PartialEq, Eq, Structural)]
pub enum Protocol {
    Atlas,
    FPaxos,
    EPaxos,
}

impl Protocol {
    /// The size of the quorum that decides how fast the protocol answers,
    /// among `n` regions of which `f` may fail. EPaxos always tolerates a
    /// minority of faults.
    pub open spec fn spec_quorum_size(self, n: usize, f: usize) -> int {
        match self {
            Protocol::Atlas => n / 2 + f,
            Protocol::FPaxos => f + 1,
            Protocol::EPaxos => n / 2 + (n / 2 + 1) / 2,
        }
    }

    /// The size of the quorum that decides how fast the protocol answers.
    pub fn quorum_size(&self, n: usize, f: usize) -> (size: usize)
        requires
            f <= n / 2,
        ensures
            size == self.spec_quorum_size(n, f),
    {
        match self {
            Protocol::Atlas => n / 2 + f,
            Protocol::FPaxos => f + 1,
            Protocol::EPaxos => {
                let minority = n / 2;
                minority + (minority + 1) / 2
            },
        }
    }
}

/// What was measured for one protocol in one set of regions, in
/// milliseconds: the mean latency of the clients, how far their latencies
/// are from the mean, and how far apart the fastest and the slowest are.
#[derive(Debug, Clone, Copy, PartialEq, Eq, Structural)]
pub struct Stats {
    pub mean: u32,
    pub fairness: u32,
    pub min_max_dist: u32,
}

/// What was measured in one set of regions: for each number of faults
/// from 1 on, the figures of Atlas and of FPaxos, and the figures of
/// EPaxos.
#[derive(Debug, Clone, PartialEq, Eq)]
pub struct AllStats {
    /// The figures of Atlas and of FPaxos for `f` faults, at `f - 1`.
    pub by_faults: Vec<(Stats, Stats)>,
    /// The figures of EPaxos.
    pub epaxos: Stats,
}

/// A figure that is wanted for a set of regions.
#[derive(Debug, Clone, Copy, PartialEq, Eq, Structural)]
pub struct StatsRequest {
    pub protocol: Protocol,
    /// The number of faults tolerated; 0 for EPaxos, which does not take
    /// it.
    pub f: usize,
    /// The size of the quorum to measure with.
    pub quorum_size: usize,
}

/// The highest number of faults that figures are wanted for in a set of
/// `n` regions: a minority, and 3 at most.
pub open spec fn spec_max_f(n: usize) -> usize {
    if n / 2 <= 3 {
        n / 2
    } else {
        3
    }
}

/// The figures wanted for the first `faults` numbers of faults in a set of
/// `n` regions: for each, Atlas and then FPaxos.
pub open spec fn wanted_up_to(n: usize, faults: int) -> Seq<StatsRequest>
    decreases faults,
{
    if faults <= 0 {
        Seq::empty()
    } else {
        wanted_up_to(n, faults - 1).push(
            StatsRequest {
                protocol: Protocol::Atlas,
                f: faults as usize,
                quorum_size: Protocol::Atlas.spec_quorum_size(n, faults as usize) as usize,
            },
        ).push(
            StatsRequest {
                protocol: Protocol::FPaxos,
                f: faults as usize,
                quorum_size: Protocol::FPaxos.spec_quorum_size(n, faults as usize) as usize,
            },
        )
    }
}

/// The figures wanted for a set of `n` regions, in the order in which they
/// are asked for: Atlas and FPaxos for each number of faults, then EPaxos.
pub open spec fn wanted(n: usize) -> Seq<StatsRequest> {
    wanted_up_to(n, spec_max_f(n) as int).push(
        StatsRequest {
            protocol: Protocol::EPaxos,
            f: 0,
            quorum_size: Protocol::EPaxos.spec_quorum_size(n, 0) as usize,
        },
    )
}

/// The figures of Atlas and FPaxos, for each number of faults, among the
/// first `2 * faults` answers.
pub open spec fn paired(answers: Seq<Stats>, faults: int) -> Seq<(Stats, Stats)>
    decreases faults,
{
    if faults <= 0 {
        Seq::empty()
    } else {
        paired(answers, faults - 1).push((answers[2 * faults - 2], answers[2 * faults - 1]))
    }
}

impl AllStats {
    /// Puts the answers to the requests for a set of `n` regions together.
    /// There is no result if there is not one answer for each request.
    pub fn from_answers(n: usize, answers: &Vec<Stats>) -> (res: Option<AllStats>)
        ensures
            match res {
                Some(stats) => {
                    &&& answers@.len() == wanted(n).len()
                    &&& stats.by_faults@ == paired(answers@, spec_max_f(n) as int)
                    &&& stats.epaxos == answers@.last()
                },
                None => answers@.len() != wanted(n).len(),
            },
    {
        let faults = Search::max_f(n);
        proof {
            lemma_wanted_up_to_len(n, faults as int);
        }
        if answers.len() != 2 * faults + 1 {
            return None;
        }
        let mut by_faults: Vec<(Stats, Stats)> = Vec::new();
        let mut f: usize = 0;
        while f < faults
            invariant
                f <= faults <= 3,
                answers@.len() == 2 * faults + 1,
                by_faults@ == paired(answers@, f as int),
            decreases faults - f,
        {
            by_faults.push((answers[2 * f], answers[2 * f + 1]));
            f = f + 1;
        }
        Some(AllStats { by_faults, epaxos: answers[2 * faults] })
    }
}

/// Two requests are made for each number of faults.
pub proof fn lemma_wanted_up_to_len(n: usize, faults: int)
    requires
        0 <= faults,
    ensures
        wanted_up_to(n, faults).len() == 2 * faults,
    decreases faults,
{
    if faults > 0 {
        lemma_wanted_up_to_len(n, faults - 1);
    }
}

/// What configurations are measured by, and which are kept.
#[derive(Debug, Clone, PartialEq, Eq)]
pub struct SearchParams {
    /// The least by which Atlas must improve on the latency of FPaxos.
    pub min_lat_improv: i64,
    /// The least by which Atlas must improve on the fairness of FPaxos.
    pub min_fairness_improv: i64,
    /// The size of the largest configurations searched.
    pub max_n: usize,
    pub search_metric: SearchMetric,
    pub search_ft_filter: SearchFTFilter,
    /// The regions of the clients.
    pub clients: Vec<Region>,
    /// The regions that are searched.
    pub regions: Vec<Region>,
}

impl SearchParams {
    /// Puts the settings of a search together.
    pub fn new(
        min_lat_improv: i64,
        min_fairness_improv: i64,
        max_n: usize,
        search_metric: SearchMetric,
        search_ft_filter: SearchFTFilter,
        clients: Vec<Region>,
        regions: Vec<Region>,
    ) -> (params: Self)
        ensures
            params == (SearchParams {
                min_lat_improv,
                min_fairness_improv,
                max_n,
                search_metric,
                search_ft_filter,
                clients,
                regions,
            }),
    {
        SearchParams {
            min_lat_improv,
            min_fairness_improv,
            max_n,
            search_metric,
            search_ft_filter,
            clients,
            regions,
        }
    }
}

/// By how much Atlas improves on the latency of FPaxos.
pub open spec fn lat_improv(figures: (Stats, Stats)) -> int {
    figures.1.mean - figures.0.mean
}

/// By how much Atlas improves on the fairness of FPaxos.
pub open spec fn fairness_improv(figures: (Stats, Stats)) -> int {
    figures.1.fairness - figures.0.fairness
}

/// By how much Atlas improves on FPaxos in what `metric` considers.
pub open spec fn improvement(metric: SearchMetric, figures: (Stats, Stats)) -> int {
    match metric {
        SearchMetric::Latency => lat_improv(figures),
        SearchMetric::Fairness => fairness_improv(figures),
        SearchMetric::MinMaxDistance => figures.1.min_max_dist - figures.0.min_max_dist,
        SearchMetric::LatencyAndFairness => lat_improv(figures) + fairness_improv(figures),
    }
}

/// The improvements for the first `count` of the numbers of faults `fs`,
/// added up.
pub open spec fn improvements(
    metric: SearchMetric,
    by_faults: Seq<(Stats, Stats)>,
    fs: Seq<usize>,
    count: int,
) -> int
    decreases count,
{
    if count <= 0 {
        0
    } else {
        improvements(metric, by_faults, fs, count - 1) + improvement(
            metric,
            by_faults[fs[count - 1] - 1],
        )
    }
}

/// Whether, for each of the first `count` of the numbers of faults `fs`,
/// Atlas improves on FPaxos by what `params` asks for at least.
pub open spec fn improves(
    params: SearchParams,
    by_faults: Seq<(Stats, Stats)>,
    fs: Seq<usize>,
    count: int,
) -> bool {
    forall|i: int|
        0 <= i < count ==> lat_improv(#[trigger] by_faults[fs[i] - 1]) >= params.min_lat_improv
            && fairness_improv(by_faults[fs[i] - 1]) >= params.min_fairness_improv
}

/// `a` divided by `b`, rounded towards zero.
pub open spec fn quotient(a: int, b: int) -> int
    recommends
        b > 0,
{
    if a >= 0 {
        a / b
    } else {
        -((-a) / b)
    }
}

/// The score of a configuration of `n` regions with figures `stats`: the
/// mean, over the numbers of faults that count, of the improvement of Atlas
/// on FPaxos.
pub open spec fn score_of(params: SearchParams, n: usize, stats: AllStats) -> int {
    let fs = params.search_ft_filter.spec_fs(n);
    quotient(improvements(params.search_metric, stats.by_faults@, fs, fs.len() as int), fs.len() as int)
}

/// Whether a configuration of `n` regions with figures `stats` is valid:
/// Atlas improves enough for each number of faults that counts.
pub open spec fn valid(params: SearchParams, n: usize, stats: AllStats) -> bool {
    let fs = params.search_ft_filter.spec_fs(n);
    improves(params, stats.by_faults@, fs, fs.len() as int)
}

/// A configuration that is kept, with its score and its figures.
#[derive(Debug, Clone, PartialEq, Eq)]
pub struct Scored {
    pub score: i64,
    pub config: RegionSet,
    pub stats: AllStats,
}

/// The product of the numbers from `from` to `to`.
pub open spec fn product(from: int, to: int) -> int
    decreases to - from + 1,
{
    if to < from {
        1
    } else {
        product(from, to - 1) * to
    }
}

/// Whether the subsets of `size` elements of a set of `count` elements can
/// be counted the way the `permutator` crate counts them: the product of
/// the `size` highest numbers up to `count`, and that of the numbers up to
/// `size`, are numbers of the machine.
pub open spec fn countable(count: usize, size: usize) -> bool
    recommends
        size <= count,
{
    product(count - size + 1, count as int) <= usize::MAX && product(1, size as int) <= usize::MAX
}

/// A product of positive numbers is positive and grows with each factor.
pub proof fn lemma_product_grows(from: int, mid: int, to: int)
    requires
        1 <= from,
        from - 1 <= mid <= to,
    ensures
        1 <= product(from, mid) <= product(from, to),
    decreases to - from + 1,
{
    if to >= from {
        if mid < to {
            lemma_product_grows(from, mid, to - 1);
            assert(product(from, to - 1) * to >= product(from, to - 1)) by (nonlinear_arith)
                requires
                    product(from, to - 1) >= 1,
                    to >= 1,
            ;
        } else {
            lemma_product_grows(from, mid - 1, to - 1);
            assert(product(from, to - 1) * to >= 1) by (nonlinear_arith)
                requires
                    product(from, to - 1) >= 1,
                    to >= 1,
            ;
        }
    }
}

/// The product of the numbers from `from` to `to`, if it is a number of
/// the machine.
fn product_within(from: usize, to: usize) -> (res: Option<usize>)
    requires
        1 <= from,
        from <= to + 1,
    ensures
        match res {
            Some(p) => p == product(from as int, to as int),
            None => product(from as int, to as int) > usize::MAX,
        },
{
    let mut acc: usize = 1;
    let mut next: usize = from;
    while next <= to
        invariant
            1 <= from <= next <= to + 1,
            acc == product(from as int, next - 1),
        decreases to + 1 - next,
    {
        match acc.checked_mul(next) {
            Some(more) => {
                acc = more;
            },
            None => {
                proof {
                    lemma_product_grows(from as int, next as int, to as int);
                }
                return None;
            },
        }
        if next == to {
            return Some(acc);
        }
        next = next + 1;
    }
    Some(acc)
}

/// Whether the subsets of `size` elements of a set of `count` elements can
/// be counted.
pub fn is_countable(count: usize, size: usize) -> (ok: bool)
    requires
        0 < size <= count,
    ensures
        ok == countable(count, size),
{
    match product_within(count - size + 1, count) {
        Some(_) => product_within(1, size).is_some(),
        None => false,
    }
}

/// What `permutator::Combination::combination` yields, one after the other,
/// for a list of items and a size: the combinations of that many items.
pub uninterp spec fn combinations_of(items: Seq<usize>, size: usize) -> Seq<Seq<usize>>;

/// The model of a list of sets of regions.
pub open spec fn sets_view(sets: Seq<RegionSet>) -> Seq<Seq<usize>> {
    sets.map_values(|set: RegionSet| set@)
}

/// `Combination::combination` of the `permutator` crate on a list, each
/// combination copied out. The crate panics on a size of 0 and on one
/// beyond the length of the list; and it counts the combinations first, as
/// `countable` says.
#[verifier::external_body]
fn combinations(items: &Vec<usize>, size: usize) -> (res: Vec<RegionSet>)
    requires
        0 < size <= items@.len(),
        countable(items.len(), size),
    ensures
        sets_view(res@) == combinations_of(items@, size),
{
    items.combination(size).map(|c| c.into_iter().copied().collect()).collect()
}

/// The positions of a list of `count` regions.
pub open spec fn positions(count: usize) -> Seq<usize> {
    Seq::new(count as nat, |i: int| i as usize)
}

/// The sizes of the configurations that are searched: the odd numbers from
/// 3 to `max_n`.
pub open spec fn sizes(max_n: usize) -> Seq<usize> {
    if max_n < 3 {
        Seq::empty()
    } else {
        Seq::new(((max_n - 3) / 2 + 1) as nat, |i: int| (3 + 2 * i) as usize)
    }
}

/// Whether the configurations of `size` regions among `count` can be
/// listed.
pub open spec fn listable(count: usize, size: usize) -> bool {
    size <= count && countable(count, size)
}

/// Whether `small` is a part of `large`.
pub open spec fn part_of(small: Seq<usize>, large: Seq<usize>) -> bool {
    forall|i: int| 0 <= i < small.len() ==> large.contains(#[trigger] small[i])
}

/// Whether `region` is one of `set`.
fn holds(set: &RegionSet, region: usize) -> (res: bool)
    ensures
        res == set@.contains(region),
{
    let mut j: usize = 0;
    while j < set.len()
        invariant
            j <= set.len(),
            forall|k: int| 0 <= k < j ==> set@[k] != region,
        decreases set.len() - j,
    {
        if set[j] == region {
            return true;
        }
        j = j + 1;
    }
    false
}

/// Whether `small` is a part of `large`.
pub fn is_subset(small: &RegionSet, large: &RegionSet) -> (res: bool)
    ensures
        res == part_of(small@, large@),
{
    let mut i: usize = 0;
    while i < small.len()
        invariant
            i <= small.len(),
            forall|k: int| 0 <= k < i ==> large@.contains(#[trigger] small@[k]),
        decreases small.len() - i,
    {
        if !holds(large, small[i]) {
            return false;
        }
        i = i + 1;
    }
    true
}

/// The configurations, among the first `count` of `entries`, that are
/// valid, each with its score.
pub open spec fn kept(
    params: SearchParams,
    n: usize,
    entries: Seq<(RegionSet, AllStats)>,
    count: int,
) -> Seq<Scored>
    decreases count,
{
    if count <= 0 {
        Seq::empty()
    } else {
        let before = kept(params, n, entries, count - 1);
        let (config, stats) = entries[count - 1];
        if valid(params, n, stats) {
            before.push(Scored { score: score_of(params, n, stats) as i64, config, stats })
        } else {
            before
        }
    }
}

/// Whether the figures of each of `entries` are those of a configuration
/// of `n` regions.
pub open spec fn measured(n: usize, entries: Seq<(RegionSet, AllStats)>) -> bool {
    n >= 3 && forall|i: int|
        0 <= i < entries.len() ==> (#[trigger] entries[i]).1.by_faults@.len() == spec_max_f(n)
}

/// A way in which a configuration can grow: a configuration of each size,
/// each a part of the next, and the sum of their scores.
#[derive(Debug, Clone, PartialEq, Eq)]
pub struct Evolution {
    pub score: i64,
    /// For each size, the position of the configuration among those kept
    /// of that size.
    pub steps: Vec<usize>,
}

/// Mathematical model of an `Evolution`.
pub struct EvolutionView {
    pub score: int,
    pub steps: Seq<usize>,
}

impl View for Evolution {
    type V = EvolutionView;

    open spec fn view(&self) -> EvolutionView {
        EvolutionView { score: self.score as int, steps: self.steps@ }
    }
}

/// The model of a list of evolutions.
pub open spec fn evolutions_view(evolutions: Seq<Evolution>) -> Seq<EvolutionView> {
    evolutions.map_values(|evolution: Evolution| evolution@)
}

/// Whether `config` can follow `last` in an evolution: the configuration
/// before it, if there is one, is a part of it.
pub open spec fn follows(last: Option<Seq<usize>>, config: Seq<usize>) -> bool {
    match last {
        Some(last) => part_of(last, config),
        None => true,
    }
}

/// The evolutions that go on, from level `level`, the one that has taken
/// `steps` so far, ended in `last` and scored `score`; at `level`, only
/// the configurations from position `from` on are considered. They come in
/// the order of the positions taken.
pub open spec fn evolutions(
    levels: Seq<Seq<Scored>>,
    level: int,
    from: int,
    last: Option<Seq<usize>>,
    steps: Seq<usize>,
    score: int,
) -> Seq<EvolutionView>
    decreases levels.len() - level, levels[level].len() - from,
{
    if level < 0 || from < 0 {
        Seq::empty()
    } else if level >= levels.len() {
        seq![EvolutionView { score, steps }]
    } else if from >= levels[level].len() {
        Seq::empty()
    } else {
        let next = levels[level][from];
        let here = if follows(last, next.config@) {
            evolutions(
                levels,
                level + 1,
                0,
                Some(next.config@),
                steps.push(from as usize),
                score + next.score,
            )
        } else {
            Seq::empty()
        };
        here + evolutions(levels, level, from + 1, last, steps, score)
    }
}

/// The model of the lists of configurations of several sizes.
pub open spec fn levels_view(levels: Seq<&Vec<Scored>>) -> Seq<Seq<Scored>> {
    levels.map_values(|level: &Vec<Scored>| level@)
}

/// Whether the scores of all configurations are within the bounds of a
/// score.
pub open spec fn bounded(levels: Seq<Seq<Scored>>) -> bool {
    forall|level: int, at: int|
        0 <= level < levels.len() && 0 <= at < levels[level].len() ==> -0x2_0000_0000 <= (
        #[trigger] levels[level][at]).score <= 0x2_0000_0000
}

/// Adds to `out` the evolutions that go on from level `level`.
fn grow(
    levels: &Vec<&Vec<Scored>>,
    level: usize,
    last: Option<&RegionSet>,
    steps: &Vec<usize>,
    score: i64,
    out: &mut Vec<Evolution>,
)
    requires
        level <= levels@.len() <= 4,
        bounded(levels_view(levels@)),
        -0x2_0000_0000 * level <= score <= 0x2_0000_0000 * level,
    ensures
        evolutions_view(final(out)@) == evolutions_view(old(out)@) + evolutions(
            levels_view(levels@),
            level as int,
            0,
            match last {
                Some(last) => Some(last@),
                None => None,
            },
            steps@,
            score as int,
        ),
    decreases levels@.len() - level,
{
    let ghost all = levels_view(levels@);
    let ghost last_view = match last {
        Some(last) => Some(last@),
        None => None,
    };
    let ghost start = evolutions_view(out@);
    if level >= levels.len() {
        let mut taken: Vec<usize> = Vec::new();
        let mut i: usize = 0;
        while i < steps.len()
            invariant
                i <= steps.len(),
                taken@ == steps@.subrange(0, i as int),
            decreases steps.len() - i,
        {
            taken.push(steps[i]);
            assert(taken@ =~= steps@.subrange(0, i + 1));
            i = i + 1;
        }
        assert(steps@.subrange(0, i as int) =~= steps@);
        out.push(Evolution { score, steps: taken });
        assert(evolutions_view(out@) =~= start + seq![
            EvolutionView { score: score as int, steps: steps@ },
        ]);
        return ;
    }
    let candidates = levels[level];
    assert(all[level as int] == candidates@);
    let mut from: usize = 0;
    while from < candidates.len()
        invariant
            from <= candidates.len(),
            level < levels@.len() <= 4,
            all == levels_view(levels@),
            all[level as int] == candidates@,
            bounded(all),
            -0x2_0000_0000 * level <= score <= 0x2_0000_0000 * level,
            last_view == match last {
                Some(last) => Some(last@),
                None => None,
            },
            evolutions_view(out@) + evolutions(
                all,
                level as int,
                from as int,
                last_view,
                steps@,
                score as int,
            ) == start + evolutions(all, level as int, 0, last_view, steps@, score as int),
        decreases candidates.len() - from,
    {
        let next = &candidates[from];
        let ghost before = evolutions_view(out@);
        let ghost rest = evolutions(all, level as int, from + 1, last_view, steps@, score as int);
        let goes_on = match last {
            Some(last) => is_subset(last, &next.config),
            None => true,
        };
        assert(goes_on == follows(last_view, next.config@));
        assert(-0x2_0000_0000 <= all[level as int][from as int].score <= 0x2_0000_0000);
        if goes_on {
            let mut taken: Vec<usize> = Vec::new();
            let mut i: usize = 0;
            while i < steps.len()
                invariant
                    i <= steps.len(),
                    taken@ == steps@.subrange(0, i as int),
                decreases steps.len() - i,
            {
                taken.push(steps[i]);
                assert(taken@ =~= steps@.subrange(0, i + 1));
                i = i + 1;
            }
            assert(steps@.subrange(0, i as int) =~= steps@);
            taken.push(from);
            grow(levels, level + 1, Some(&next.config), &taken, score + next.score, out);
            assert(evolutions_view(out@) + rest == before + (evolutions(
                all,
                level + 1,
                0,
                Some(next.config@),
                steps@.push(from),
                score + next.score,
            ) + rest)) by {
                assert((before + evolutions(
                    all,
                    level + 1,
                    0,
                    Some(next.config@),
                    steps@.push(from),
                    score + next.score,
                )) + rest =~= before + (evolutions(
                    all,
                    level + 1,
                    0,
                    Some(next.config@),
                    steps@.push(from),
                    score + next.score,
                ) + rest));
            }
        } else {
            assert(Seq::<EvolutionView>::empty() + rest =~= rest);
        }
        from = from + 1;
    }
    assert(evolutions_view(out@) + Seq::<EvolutionView>::empty() =~= evolutions_view(out@));
    proof {
        let whole = evolutions(all, level as int, 0, last_view, steps@, score as int);
        assert(evolutions_view(out@) == start + whole);
    }
}

/// The configurations of size `n` among `all`, if that size was searched.
pub open spec fn configs_of(all: Seq<(usize, Vec<Scored>)>, n: usize) -> Option<Seq<Scored>>
    decreases all.len(),
{
    if all.len() == 0 {
        None
    } else if all[0].0 == n {
        Some(all[0].1@)
    } else {
        configs_of(all.drop_first(), n)
    }
}

/// The search.
pub struct Search {
    params: SearchParams,
    // for each size searched, the configurations kept
    all_configs: Vec<(usize, Vec<Scored>)>,
}

/// Mathematical model of a `Search`.
pub struct SearchView {
    pub params: SearchParams,
    /// For each size searched, the configurations kept, in the order in
    /// which they were measured.
    pub all_configs: Seq<(usize, Vec<Scored>)>,
}

impl View for Search {
    type V = SearchView;

    closed spec fn view(&self) -> SearchView {
        SearchView { params: self.params, all_configs: self.all_configs@ }
    }
}

/// The regions of the eleven clients.
pub open spec fn eleven_clients() -> Seq<Seq<char>> {
    seq![
        "asia-east2"@,
        "asia-northeast1"@,
        "asia-south1"@,
        "asia-southeast1"@,
        "australia-southeast1"@,
        "europe-north1"@,
        "europe-west2"@,
        "northamerica-northeast1"@,
        "southamerica-east1"@,
        "us-east1"@,
        "us-west2"@,
    ]
}

/// The regions of the nine clients.
pub open spec fn nine_clients() -> Seq<Seq<char>> {
    seq![
        "asia-east2"@,
        "asia-northeast1"@,
        "asia-south1"@,
        "australia-southeast1"@,
        "europe-north1"@,
        "europe-west2"@,
        "southamerica-east1"@,
        "us-east1"@,
        "us-west2"@,
    ]
}

/// The names of a list of regions.
pub open spec fn names(regions: Seq<Region>) -> Seq<Seq<char>> {
    regions.map_values(|region: Region| region@)
}

/// A copy of a list of regions.
fn copy_of(regions: &Vec<Region>) -> (copy: Vec<Region>)
    ensures
        names(copy@) == names(regions@),
{
    let mut copy: Vec<Region> = Vec::new();
    let mut i: usize = 0;
    while i < regions.len()
        invariant
            i <= regions.len(),
            copy@.len() == i,
            forall|k: int| 0 <= k < i ==> (#[trigger] copy@[k])@ == regions@[k]@,
        decreases regions.len() - i,
    {
        copy.push(regions[i].clone());
        i = i + 1;
    }
    assert(names(copy@) =~= names(regions@));
    copy
}

/// A list in the opposite order.
fn reversed<T>(list: Vec<T>) -> (res: Vec<T>)
    ensures
        res@ == list@.reverse(),
{
    let mut list = list;
    let ghost all = list@;
    let mut res: Vec<T> = Vec::new();
    while list.len() > 0
        invariant
            list@.len() + res@.len() == all.len(),
            list@ == all.subrange(0, list@.len() as int),
            forall|k: int| 0 <= k < res@.len() ==> #[trigger] res@[k] == all[all.len() - 1 - k],
        decreases list.len(),
    {
        let last = list.pop().unwrap();
        res.push(last);
    }
    assert(res@ =~= all.reverse());
    res
}

impl Search {
    /// The invariant of the search: every score is within the bounds of a
    /// score.
    #[verifier::type_invariant]
    spec fn scores_are_bounded(&self) -> bool {
        forall|k: int, i: int|
            0 <= k < self.all_configs@.len() && 0 <= i < self.all_configs@[k].1@.len()
                ==> -0x2_0000_0000 <= (#[trigger] self.all_configs@[k].1@[i]).score
                <= 0x2_0000_0000
    }

    /// The regions of the clients and the regions that are searched, given
    /// the regions that latencies are known for, in the order of their
    /// names.
    pub fn search_regions(search_input: &SearchInput, regions: Vec<Region>) -> (res: (
        Vec<Region>,
        Vec<Region>,
    ))
        ensures
            names(res.0@) == match *search_input {
                SearchInput::C20R20 => names(regions@),
                SearchInput::C11R20 => eleven_clients(),
                SearchInput::C11R11 => eleven_clients(),
                SearchInput::C09R09 => nine_clients(),
            },
            names(res.1@) == match *search_input {
                SearchInput::C20R20 => names(regions@),
                SearchInput::C11R20 => names(regions@),
                SearchInput::C11R11 => eleven_clients(),
                SearchInput::C09R09 => nine_clients(),
            },
    {
        // compute clients11
        let mut clients11: Vec<Region> = Vec::new();
        clients11.push("asia-east2".to_owned());
        clients11.push("asia-northeast1".to_owned());
        clients11.push("asia-south1".to_owned());
        clients11.push("asia-southeast1".to_owned());
        clients11.push("australia-southeast1".to_owned());
        clients11.push("europe-north1".to_owned());
        clients11.push("europe-west2".to_owned());
        clients11.push("northamerica-northeast1".to_owned());
        clients11.push("southamerica-east1".to_owned());
        clients11.push("us-east1".to_owned());
        clients11.push("us-west2".to_owned());
        assert(names(clients11@) =~= eleven_clients());

        // compute clients9
        let mut clients9: Vec<Region> = Vec::new();
        clients9.push("asia-east2".to_owned());
        clients9.push("asia-northeast1".to_owned());
        clients9.push("asia-south1".to_owned());
        clients9.push("australia-southeast1".to_owned());
        clients9.push("europe-north1".to_owned());
        clients9.push("europe-west2".to_owned());
        clients9.push("southamerica-east1".to_owned());
        clients9.push("us-east1".to_owned());
        clients9.push("us-west2".to_owned());
        assert(names(clients9@) =~= nine_clients());

        match search_input {
            SearchInput::C20R20 => (copy_of(&regions), regions),
            SearchInput::C11R20 => (clients11, regions),
            SearchInput::C11R11 => (copy_of(&clients11), clients11),
            SearchInput::C09R09 => (copy_of(&clients9), clients9),
        }
    }

    /// Lists, for each size that is searched, the configurations of that
    /// size among `regions` regions. There is no result if the
    /// configurations of one of the sizes cannot be listed.
    pub fn all_configs(regions: usize, max_n: usize) -> (res: Option<Vec<(usize, Vec<RegionSet>)>>)
        ensures
            res matches Some(lists) ==> lists@.len() == sizes(max_n).len(),
            res matches Some(lists) ==> forall|k: int|
                0 <= k < lists@.len() ==> {
                    &&& (#[trigger] lists@[k]).0 == sizes(max_n)[k]
                    &&& listable(regions, sizes(max_n)[k])
                    &&& sets_view(lists@[k].1@) == combinations_of(
                        positions(regions),
                        lists@[k].0,
                    )
                },
            res is None ==> exists|k: int|
                0 <= k < sizes(max_n).len() && !listable(regions, #[trigger] sizes(max_n)[k]),
    {
        let mut items: Vec<usize> = Vec::new();
        let mut i: usize = 0;
        while i < regions
            invariant
                i <= regions,
                items@ == positions(i),
            decreases regions - i,
        {
            items.push(i);
            assert(items@ =~= positions((i + 1) as usize));
            i = i + 1;
        }
        let count = if max_n < 3 {
            0
        } else {
            (max_n - 3) / 2 + 1
        };
        let mut lists: Vec<(usize, Vec<RegionSet>)> = Vec::new();
        let mut k: usize = 0;
        while k < count
            invariant
                k <= count == sizes(max_n).len(),
                items@ == positions(regions),
                lists@.len() == k,
                forall|j: int|
                    0 <= j < k ==> {
                        &&& (#[trigger] lists@[j]).0 == sizes(max_n)[j]
                        &&& listable(regions, sizes(max_n)[j])
                        &&& sets_view(lists@[j].1@) == combinations_of(
                            positions(regions),
                            lists@[j].0,
                        )
                    },
            decreases count - k,
        {
            let n = 3 + 2 * k;
            assert(n == sizes(max_n)[k as int]);
            if n > regions {
                return None;
            }
            if !is_countable(regions, n) {
                return None;
            }
            assert(listable(regions, sizes(max_n)[k as int]));
            let configs = combinations(&items, n);
            let ghost listed = lists@;
            lists.push((n, configs));
            proof {
                assert forall|j: int| 0 <= j < k + 1 implies {
                    &&& (#[trigger] lists@[j]).0 == sizes(max_n)[j]
                    &&& listable(regions, sizes(max_n)[j])
                    &&& sets_view(lists@[j].1@) == combinations_of(positions(regions), lists@[j].0)
                } by {
                    if j < k {
                        assert(lists@[j] == listed[j]);
                    }
                }
            }
            k = k + 1;
        }
        assert(forall|k: int|
            0 <= k < lists@.len() ==> {
                &&& (#[trigger] lists@[k]).0 == sizes(max_n)[k]
                &&& listable(regions, sizes(max_n)[k])
                &&& sets_view(lists@[k].1@) == combinations_of(positions(regions), lists@[k].0)
            });
        Some(lists)
    }

    /// Creates the search from the figures measured for each
    /// configuration: the configurations that are valid are kept, each
    /// with its score. There is no result if the figures of a
    /// configuration are not those of a configuration of its size.
    pub fn new(params: SearchParams, figures: Vec<(usize, Vec<(RegionSet, AllStats)>)>) -> (res:
        Option<Search>)
        ensures
            match res {
                Some(search) => {
                    &&& search@.params == params
                    &&& search@.all_configs.len() == figures@.len()
                    &&& forall|k: int|
                        0 <= k < figures@.len() ==> {
                            &&& (#[trigger] search@.all_configs[k]).0 == figures@[k].0
                            &&& measured(figures@[k].0, figures@[k].1@)
                            &&& search@.all_configs[k].1@ == kept(
                                params,
                                figures@[k].0,
                                figures@[k].1@,
                                figures@[k].1@.len() as int,
                            )
                        }
                },
                None => exists|k: int|
                    0 <= k < figures@.len() && !measured(
                        (#[trigger] figures@[k]).0,
                        figures@[k].1@,
                    ),
            },
    {
        let ghost all = figures@;
        let mut left = reversed(figures);
        let mut all_configs: Vec<(usize, Vec<Scored>)> = Vec::new();
        while left.len() > 0
            invariant
                all == figures@,
                left@.len() + all_configs@.len() == all.len(),
                forall|j: int| 0 <= j < left@.len() ==> #[trigger] left@[j] == all[all.len() - 1 - j],
                forall|k: int|
                    0 <= k < all_configs@.len() ==> (#[trigger] all_configs@[k]).0 == all[k].0,
                forall|k: int|
                    0 <= k < all_configs@.len() ==> measured(
                        (#[trigger] all_configs@[k]).0,
                        all[k].1@,
                    ),
                forall|k: int|
                    0 <= k < all_configs@.len() ==> (#[trigger] all_configs@[k]).1@ == kept(
                        params,
                        all[k].0,
                        all[k].1@,
                        all[k].1@.len() as int,
                    ),
                forall|k: int, i: int|
                    0 <= k < all_configs@.len() && 0 <= i < all_configs@[k].1@.len()
                        ==> -0x2_0000_0000 <= (#[trigger] all_configs@[k].1@[i]).score
                        <= 0x2_0000_0000,
            decreases left.len(),
        {
            let ghost at = all_configs@.len() as int;
            let (n, entries) = left.pop().unwrap();
            assert((n, entries) == all[at]);
            let ghost measures = entries@;
            if n < 3 {
                assert(0 <= at < figures@.len());
                assert(!measured(figures@[at].0, figures@[at].1@));
                return None;
            }
            let mut waiting = reversed(entries);
            let mut configs: Vec<Scored> = Vec::new();
            while waiting.len() > 0
                invariant
                    n >= 3,
                    all == figures@,
                    0 <= at < all.len(),
                    all[at].0 == n,
                    all[at].1@ == measures,
                    waiting@.len() <= measures.len(),
                    forall|j: int|
                        0 <= j < waiting@.len() ==> #[trigger] waiting@[j] == measures[measures.len()
                            - 1 - j],
                    forall|j: int|
                        0 <= j < measures.len() - waiting@.len() ==> (#[trigger] measures[j]).1.by_faults@.len()
                            == spec_max_f(n),
                    configs@ == kept(params, n, measures, measures.len() - waiting@.len()),
                    forall|i: int|
                        0 <= i < configs@.len() ==> -0x2_0000_0000 <= (#[trigger] configs@[i]).score
                            <= 0x2_0000_0000,
                decreases waiting.len(),
            {
                let ghost done = measures.len() - waiting@.len();
                let (config, stats) = waiting.pop().unwrap();
                assert((config, stats) == measures[done]);
                if stats.by_faults.len() != Self::max_f(n) {
                    assert(0 <= at < figures@.len());
                    assert(!measured(figures@[at].0, figures@[at].1@));
                    return None;
                }
                // compute config score
                let (valid, score, stats) = Self::compute_score(n, &params, stats);
                if valid {
                    configs.push(Scored { score, config, stats });
                }
            }
            assert(measured(n, measures));
            let ghost listed = all_configs@;
            all_configs.push((n, configs));
            proof {
                assert forall|k: int| 0 <= k < all_configs@.len() implies {
                    &&& (#[trigger] all_configs@[k]).0 == all[k].0
                    &&& measured(all_configs@[k].0, all[k].1@)
                    &&& all_configs@[k].1@ == kept(
                        params,
                        all[k].0,
                        all[k].1@,
                        all[k].1@.len() as int,
                    )
                } by {
                    if k < at {
                        assert(all_configs@[k] == listed[k]);
                    }
                }
                assert forall|k: int, i: int|
                    0 <= k < all_configs@.len() && 0 <= i < all_configs@[k].1@.len() implies -0x2_0000_0000
                    <= (#[trigger] all_configs@[k].1@[i]).score <= 0x2_0000_0000 by {
                    if k < at {
                        assert(all_configs@[k] == listed[k]);
                    }
                }
            }
        }
        let search = Search { params, all_configs };
        Some(search)
    }

    /// What the search goes by.
    pub fn params(&self) -> (params: &SearchParams)
        ensures
            *params == self@.params,
    {
        &self.params
    }

    /// Where the configurations of size `n` stand, if that size was
    /// searched.
    fn size_at(&self, n: usize) -> (found: Option<usize>)
        ensures
            match found {
                Some(at) => at < self.all_configs@.len() && configs_of(self.all_configs@, n)
                    == Some(self.all_configs@[at as int].1@),
                None => configs_of(self.all_configs@, n).is_none(),
            },
    {
        let mut at: usize = 0;
        assert(self.all_configs@.subrange(0, self.all_configs@.len() as int) =~= self.all_configs@);
        while at < self.all_configs.len()
            invariant
                at <= self.all_configs.len(),
                configs_of(self.all_configs@, n) == configs_of(
                    self.all_configs@.subrange(at as int, self.all_configs@.len() as int),
                    n,
                ),
            decreases self.all_configs.len() - at,
        {
            let ghost rest = self.all_configs@.subrange(at as int, self.all_configs@.len() as int);
            assert(rest[0] == self.all_configs@[at as int]);
            if self.all_configs[at].0 == n {
                return Some(at);
            }
            assert(rest.drop_first() =~= self.all_configs@.subrange(
                at + 1,
                self.all_configs@.len() as int,
            ));
            at = at + 1;
        }
        assert(self.all_configs@.subrange(at as int, self.all_configs@.len() as int).len() == 0);
        None
    }

    /// The configurations of size `n` that were kept, if that size was
    /// searched.
    pub fn superset_configs(&self, n: usize) -> (configs: Option<&Vec<Scored>>)
        ensures
            match configs {
                Some(configs) => configs_of(self@.all_configs, n) == Some(configs@),
                None => configs_of(self@.all_configs, n).is_none(),
            },
    {
        match self.size_at(n) {
            Some(at) => Some(&self.all_configs[at].1),
            None => None,
        }
    }

    /// Finds the ways in which a configuration of 3 regions can grow to
    /// one of 5, of 7 and of 9, each a part of the next, among the
    /// configurations kept; each comes with the sum of the scores of its
    /// configurations. There is no result if one of these sizes was not
    /// searched.
    pub fn evolving_configs(&self) -> (res: Option<Vec<Evolution>>)
        ensures
            match res {
                Some(found) => {
                    &&& configs_of(self@.all_configs, 3) matches Some(configs3)
                    &&& configs_of(self@.all_configs, 5) matches Some(configs5)
                    &&& configs_of(self@.all_configs, 7) matches Some(configs7)
                    &&& configs_of(self@.all_configs, 9) matches Some(configs9)
                    &&& evolutions_view(found@) == evolutions(
                        seq![configs3, configs5, configs7, configs9],
                        0,
                        0,
                        None,
                        Seq::empty(),
                        0,
                    )
                },
                None => configs_of(self@.all_configs, 3).is_none() || configs_of(
                    self@.all_configs,
                    5,
                ).is_none() || configs_of(self@.all_configs, 7).is_none() || configs_of(
                    self@.all_configs,
                    9,
                ).is_none(),
            },
    {
        proof {
            use_type_invariant(self);
        }
        let at3 = match self.size_at(3) {
            Some(at) => at,
            None => {
                return None;
            },
        };
        let at5 = match self.size_at(5) {
            Some(at) => at,
            None => {
                return None;
            },
        };
        let at7 = match self.size_at(7) {
            Some(at) => at,
            None => {
                return None;
            },
        };
        let at9 = match self.size_at(9) {
            Some(at) => at,
            None => {
                return None;
            },
        };
        let mut levels: Vec<&Vec<Scored>> = Vec::new();
        levels.push(&self.all_configs[at3].1);
        levels.push(&self.all_configs[at5].1);
        levels.push(&self.all_configs[at7].1);
        levels.push(&self.all_configs[at9].1);
        proof {
            let all = levels_view(levels@);
            assert(all =~= seq![
                self.all_configs@[at3 as int].1@,
                self.all_configs@[at5 as int].1@,
                self.all_configs@[at7 as int].1@,
                self.all_configs@[at9 as int].1@,
            ]);
            assert forall|level: int, at: int|
                0 <= level < all.len() && 0 <= at < all[level].len() implies -0x2_0000_0000 <= (
            #[trigger] all[level][at]).score <= 0x2_0000_0000 by {
                if level == 0 {
                    assert(all[level][at] == self.all_configs@[at3 as int].1@[at]);
                } else if level == 1 {
                    assert(all[level][at] == self.all_configs@[at5 as int].1@[at]);
                } else if level == 2 {
                    assert(all[level][at] == self.all_configs@[at7 as int].1@[at]);
                } else {
                    assert(all[level][at] == self.all_configs@[at9 as int].1@[at]);
                }
            }
        }
        let mut found: Vec<Evolution> = Vec::new();
        let steps: Vec<usize> = Vec::new();
        grow(&levels, 0, None, &steps, 0, &mut found);
        assert(evolutions_view(Seq::<Evolution>::empty()) =~= Seq::<EvolutionView>::empty());
        Some(found)
    }

    /// The highest number of faults that figures are wanted for in a set
    /// of `n` regions.
    pub fn max_f(n: usize) -> (max_f: usize)
        ensures
            max_f == spec_max_f(n),
    {
        let max_f: usize = 3;
        if n / 2 <= max_f {
            n / 2
        } else {
            max_f
        }
    }

    /// The figures wanted for a set of `n` regions, in the order in which
    /// they are asked for.
    pub fn compute_stats(n: usize) -> (requests: Vec<StatsRequest>)
        ensures
            requests@ == wanted(n),
    {
        let mut requests: Vec<StatsRequest> = Vec::new();
        let faults = Self::max_f(n);
        let mut f: usize = 1;
        while f <= faults
            invariant
                1 <= f <= faults + 1,
                faults == spec_max_f(n),
                requests@ == wanted_up_to(n, f - 1),
            decreases faults + 1 - f,
        {
            // atlas stats
            requests.push(
                StatsRequest {
                    protocol: Protocol::Atlas,
                    f,
                    quorum_size: Protocol::Atlas.quorum_size(n, f),
                },
            );
            // fpaxos stats
            requests.push(
                StatsRequest {
                    protocol: Protocol::FPaxos,
                    f,
                    quorum_size: Protocol::FPaxos.quorum_size(n, f),
                },
            );
            f = f + 1;
        }
        // epaxos stats
        requests.push(
            StatsRequest {
                protocol: Protocol::EPaxos,
                f: 0,
                quorum_size: Protocol::EPaxos.quorum_size(n, 0),
            },
        );
        requests
    }

    /// Says whether a configuration of `n` regions with figures `stats` is
    /// valid, and computes its score.
    pub fn compute_score(n: usize, params: &SearchParams, stats: AllStats) -> (res: (
        bool,
        i64,
        AllStats,
    ))
        requires
            n >= 3,
            stats.by_faults@.len() == spec_max_f(n),
        ensures
            res.0 == valid(*params, n, stats),
            res.1 == score_of(*params, n, stats),
            res.2 == stats,
            -0x2_0000_0000 <= res.1 <= 0x2_0000_0000,
    {
        // compute score and check if it is a valid configuration
        let mut valid = true;
        let mut score: i64 = 0;
        let mut count: i64 = 0;

        // f values accounted for when computing score and config validity
        let fs = params.search_ft_filter.fs(n);
        let mut i: usize = 0;
        while i < fs.len()
            invariant
                i <= fs.len() <= 2,
                count == i,
                n >= 3,
                fs@ == params.search_ft_filter.spec_fs(n),
                stats.by_faults@.len() == spec_max_f(n),
                valid == improves(*params, stats.by_faults@, fs@, i as int),
                score == improvements(params.search_metric, stats.by_faults@, fs@, i as int),
                -0x2_0000_0000 * i <= score <= 0x2_0000_0000 * i,
            decreases fs.len() - i,
        {
            let f = fs[i];
            let atlas = stats.by_faults[f - 1].0;
            let fpaxos = stats.by_faults[f - 1].1;

            // compute improvements of atlas wrto to fpaxos
            let lat_improv: i64 = (fpaxos.mean as i64) - (atlas.mean as i64);
            let fairness_improv: i64 = (fpaxos.fairness as i64) - (atlas.fairness as i64);
            let min_max_dist_improv: i64 = (fpaxos.min_max_dist as i64) - (
            atlas.min_max_dist as i64);

            // compute its score depending on the search metric
            let gain: i64 = match params.search_metric {
                SearchMetric::Latency => lat_improv,
                SearchMetric::Fairness => fairness_improv,
                SearchMetric::MinMaxDistance => min_max_dist_improv,
                SearchMetric::LatencyAndFairness => lat_improv + fairness_improv,
            };
            score = score + gain;
            count = count + 1;

            // check if this config is valid
            valid = valid && lat_improv >= params.min_lat_improv && fairness_improv
                >= params.min_fairness_improv;
            i = i + 1;
        }

        // get score average
        assert(count == 1 || count == 2);
        let mean: i64 = if score >= 0 {
            score / count
        } else {
            -((-score) / count)
        };
        (valid, mean, stats)
    }
}

} // verus!
