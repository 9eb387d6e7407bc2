//! A fuzzing monitor in the libFuzzer style: formats cumulative stats into
//! one line per display tick and hands each line to an injected output sink.

use vstd::prelude::*;
use vstd::string::StringExecFns;

use crate::decimal::{dec_rep, u64_to_decimal};

verus! {

/// An output sink: receives one formatted line per display tick. An
/// implementation says through `received` what it has been handed so far;
/// `emit` appends exactly the given line to it.
pub trait StatsSink {
    /// The lines this sink has received so far, in order.
    spec fn received(&self) -> Seq<Seq<char>>;

    fn emit(&mut self, line: &str)
        ensures
            final (self).received() == old(self).received().push(line@),
    ;
}

/// Edge coverage counters, when the fuzzer knows them.
#[derive(Clone, Copy, Debug, PartialEq, Eq)]
pub struct EdgesCoverage {
    pub edges_hit: u64,
    pub edges_total: u64,
}

/// The aggregate counters one display tick reports.
#[derive(Clone, Copy, Debug)]
pub struct StatsSnapshot {
    pub total_execs: u64,
    pub corpus_size: u64,
    pub execs_per_sec: u64,
    pub edges_coverage: Option<EdgesCoverage>,
}

/// The displayed line: run count, event label, coverage when known (omitted
/// entirely otherwise), corpus size, executions per second — in that fixed
/// order.
pub open spec fn stats_line(stats: StatsSnapshot, event: Seq<char>) -> Seq<char> {
    "#"@ + dec_rep(stats.total_execs as nat) + "\t"@ + event + (match stats.edges_coverage {
        Some(c) => " cov: "@ + dec_rep(c.edges_hit as nat) + " ft: "@ + dec_rep(
            c.edges_total as nat,
        ),
        None => Seq::<char>::empty(),
    }) + " corp: "@ + dec_rep(stats.corpus_size as nat) + " exec/s: "@ + dec_rep(
        stats.execs_per_sec as nat,
    )
}

/// Formats one stats line exactly as `stats_line` lays it out.
pub fn format_stats_line(stats: &StatsSnapshot, event_msg: &str) -> (line: String)
    ensures
        line@ == stats_line(*stats, event_msg@),
{
    let mut line = "#".to_owned();
    let execs = u64_to_decimal(stats.total_execs);
    line.append(execs.as_str());
    line.append("\t");
    line.append(event_msg);
    match &stats.edges_coverage {
        Some(c) => {
            line.append(" cov: ");
            let hit = u64_to_decimal(c.edges_hit);
            line.append(hit.as_str());
            line.append(" ft: ");
            let total = u64_to_decimal(c.edges_total);
            line.append(total.as_str());
        },
        None => {},
    }
    line.append(" corp: ");
    let corp = u64_to_decimal(stats.corpus_size);
    line.append(corp.as_str());
    line.append(" exec/s: ");
    let eps = u64_to_decimal(stats.execs_per_sec);
    line.append(eps.as_str());
    proof {
        assert(line@ =~= stats_line(*stats, event_msg@));
    }
    line
}

/// Tracking monitor during fuzzing: displays cumulative info through the
/// sink it was created over.
#[derive(Clone)]
pub struct LibFuzzerMonitor<S: StatsSink> {
    pub print_fn: S,
}

impl<S: StatsSink> LibFuzzerMonitor<S> {
    /// Creates the monitor over the given output sink.
    pub fn new(print_fn: S) -> (r: Self)
        ensures
            r.print_fn == print_fn,
    {
        LibFuzzerMonitor { print_fn }
    }

    /// Formats the current stats and emits them through the sink: the sink
    /// receives exactly one line, `stats_line(*stats, event_msg@)`.
    pub fn display(&mut self, stats: &StatsSnapshot, event_msg: &str)
        ensures
            final (self).print_fn.received() == old(self).print_fn.received().push(
                stats_line(*stats, event_msg@),
            ),
    {
        let line = format_stats_line(stats, event_msg);
        self.print_fn.emit(line.as_str());
    }
}

/// A sink that keeps every line it receives, in order.
pub struct VecSink {
    pub lines: Vec<String>,
}

impl VecSink {
    /// An empty sink.
    pub fn new() -> (r: VecSink)
        ensures
            r.lines@.len() == 0,
            r.received() == Seq::<Seq<char>>::empty(),
    {
        let r = VecSink { lines: Vec::new() };
        proof {
            assert(r.received() =~= Seq::<Seq<char>>::empty());
        }
        r
    }
}

impl StatsSink for VecSink {
    open spec fn received(&self) -> Seq<Seq<char>> {
        self.lines.deep_view()
    }

    fn emit(&mut self, line: &str) {
        let ghost prior = self.lines.deep_view();
        self.lines.push(line.to_owned());
        proof {
            assert(self.lines.deep_view() =~= prior.push(line@));
        }
    }
}

} // verus!
