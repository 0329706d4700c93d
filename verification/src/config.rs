//! Configuration of a process.

use vstd::prelude::*;

verus! {

/// Configuration of a process and of the runtime that drives it.
#[derive(Debug, Clone, Copy, PartialEq, Eq, Structural)]
pub struct Config {
    /// Number of replicas.
    pub n: usize,
    /// Number of tolerated failures.
    pub f: usize,
    /// Milliseconds between two garbage collections.
    pub garbage_collection_interval: usize,
    /// Whether `TCP_NODELAY` is set on the connections.
    pub tcp_nodelay: bool,
    /// Size of the buffers of a connection.
    pub tcp_buffer_size: usize,
    /// Milliseconds between two flushes of a connection; when unset, each
    /// write is flushed.
    pub tcp_flush_interval: Option<usize>,
    /// Number of connections to each peer.
    pub multiplexing: usize,
    /// Size of the channels between tasks.
    pub channel_buffer_size: usize,
    /// Number of times a connection is tried before boot fails.
    pub connect_retries: usize,
}

/// The number of failures that a leaderless system of `n` replicas
/// tolerates: a minority.
pub open spec fn spec_minority(n: usize) -> usize {
    n / 2
}

/// Size of the fast quorum when `f` failures are tolerated.
pub open spec fn spec_fast_quorum_size(f: usize) -> int {
    f + (f + 1) / 2
}

/// Size of the write quorum when `f` failures are tolerated.
pub open spec fn spec_write_quorum_size(f: usize) -> int {
    f + 1
}

impl Config {
    /// Configuration of a system of `n` replicas that tolerates `f` failures,
    /// with the other settings at their defaults.
    pub fn new(n: usize, f: usize) -> (config: Config)
        ensures
            config == (Config {
                n,
                f,
                garbage_collection_interval: 500,
                tcp_nodelay: true,
                tcp_buffer_size: 8192,
                tcp_flush_interval: None,
                multiplexing: 1,
                channel_buffer_size: 10000,
                connect_retries: 100,
            }),
    {
        Config {
            n,
            f,
            garbage_collection_interval: 500,
            tcp_nodelay: true,
            tcp_buffer_size: 8192,
            tcp_flush_interval: None,
            multiplexing: 1,
            channel_buffer_size: 10000,
            connect_retries: 100,
        }
    }

    /// Number of replicas.
    pub fn n(&self) -> (n: usize)
        ensures
            n == self.n,
    {
        self.n
    }

    /// Number of tolerated failures.
    pub fn f(&self) -> (f: usize)
        ensures
            f == self.f,
    {
        self.f
    }

    /// Milliseconds between two garbage collections.
    pub fn garbage_collection_interval(&self) -> (interval: usize)
        ensures
            interval == self.garbage_collection_interval,
    {
        self.garbage_collection_interval
    }

    /// Sets the milliseconds between two garbage collections.
    pub fn set_garbage_collection_interval(&mut self, interval: usize)
        ensures
            *final(self) == (Config { garbage_collection_interval: interval, ..*old(self) }),
    {
        self.garbage_collection_interval = interval;
    }

    /// Sets the flush interval of the connections.
    pub fn set_tcp_flush_interval(&mut self, interval: Option<usize>)
        ensures
            *final(self) == (Config { tcp_flush_interval: interval, ..*old(self) }),
    {
        self.tcp_flush_interval = interval;
    }

    /// Sets the number of connections to each peer.
    pub fn set_multiplexing(&mut self, multiplexing: usize)
        ensures
            *final(self) == (Config { multiplexing, ..*old(self) }),
    {
        self.multiplexing = multiplexing;
    }

    /// Whether a leaderless system of `n` replicas can run: it tolerates at
    /// least one failure.
    pub open spec fn spec_leaderless_ready(&self) -> bool {
        spec_minority(self.n) >= 1
    }

    /// Whether a leaderless system of `n` replicas can run.
    #[verifier::when_used_as_spec(spec_leaderless_ready)]
    pub fn leaderless_ready(&self) -> (ready: bool)
        ensures
            ready == self.spec_leaderless_ready(),
    {
        self.n / 2 >= 1
    }

    /// Whether the fast quorum of a leaderless system of `n` replicas fits
    /// among the replicas that are left when as many as tolerated have
    /// failed.
    pub open spec fn spec_fast_quorum_fits(&self) -> bool {
        spec_fast_quorum_size(spec_minority(self.n)) <= self.n - spec_minority(self.n)
    }

    /// Whether the fast quorum fits among the replicas that are left when
    /// as many as tolerated have failed.
    #[verifier::when_used_as_spec(spec_fast_quorum_fits)]
    pub fn fast_quorum_fits(&self) -> (fits: bool)
        ensures
            fits == self.spec_fast_quorum_fits(),
    {
        let f = self.n / 2;
        let (fast_quorum_size, _) = self.epaxos_quorum_sizes();
        fast_quorum_size <= self.n - f
    }

    /// The sizes of the fast quorum and of the write quorum of the leaderless
    /// protocol. The protocol always tolerates a minority of failures,
    /// whatever `f` is set to.
    pub fn epaxos_quorum_sizes(&self) -> (sizes: (usize, usize))
        ensures
            sizes.0 == spec_fast_quorum_size(spec_minority(self.n)),
            sizes.1 == spec_write_quorum_size(spec_minority(self.n)),
    {
        let f = self.n / 2;
        let fast_quorum_size = f + ((f + 1) / 2);
        let write_quorum_size = f + 1;
        (fast_quorum_size, write_quorum_size)
    }
}

/// With a minority of failures tolerated the quorums are never larger than
/// the system, the write quorum is a majority, and the fast quorum is at
/// least as large as the write quorum once two failures are tolerated.
pub proof fn law_quorum_sizes(n: usize)
    requires
        n >= 2,
    ensures
        1 <= spec_write_quorum_size(spec_minority(n)) <= n,
        1 <= spec_fast_quorum_size(spec_minority(n)) <= n,
        2 * spec_write_quorum_size(spec_minority(n)) > n,
        spec_minority(n) >= 2 ==> spec_fast_quorum_size(spec_minority(n))
            >= spec_write_quorum_size(spec_minority(n)),
{
}

/// Among the systems that tolerate a failure, the fast quorum fits among
/// the replicas left after a minority has failed in those of three and of
/// five replicas, and in no other.
pub proof fn law_fast_quorum_fits(config: Config)
    requires
        config.leaderless_ready(),
    ensures
        config.fast_quorum_fits() <==> config.n == 3 || config.n == 5,
{
}

} // verus!
