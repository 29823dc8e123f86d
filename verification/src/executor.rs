//! The speed test as a state machine.
//!
//! The executor holds the state of one speed test at a time: the services
//! under test, how many of them were probed, and what the probes gave.
//! Whoever does the probing asks `next_probe` which service is next and
//! hands its samples to `record_result`; whoever watches polls
//! `get_speed_test_state`. Every step replaces the state as a whole, so a
//! watcher that takes turns with the prober under a lock sees the state
//! before a step or after it, never between.
//!
//! Every result that the executor holds or hands out holds the mean of its
//! own samples for its average.

use crate::providers::{copy_provider, copy_providers, provider_views, DNSProvider, ProviderView};
use crate::speedtest::{
    all_well_formed, is_ranking_of, mean_nanos, rank_results, ranking_keeps_well_formed,
    result_views, ResultView, SpeedTestResult,
};
use vstd::prelude::*;

verus! {

/// Where a speed test stands.
#[derive(Clone, Debug)]
pub enum SpeedTestState {
    /// No test was started, or the last one was cleared away.
    Idle,
    /// `progress` of `total` services have been probed.
    Running { progress: usize, total: usize },
    /// Every service was probed; the results are ranked.
    Completed(Vec<SpeedTestResult>),
    /// The test was given up for the reason given.
    Failed(String),
}

/// The mathematical value of a `SpeedTestState`.
pub enum StateView {
    Idle,
    Running { progress: nat, total: nat },
    Completed(Seq<ResultView>),
    Failed(Seq<char>),
}

impl View for SpeedTestState {
    type V = StateView;

    open spec fn view(&self) -> StateView {
        match self {
            SpeedTestState::Idle => StateView::Idle,
            SpeedTestState::Running { progress, total } => StateView::Running {
                progress: *progress as nat,
                total: *total as nat,
            },
            SpeedTestState::Completed(results) => StateView::Completed(result_views(results@)),
            SpeedTestState::Failed(reason) => StateView::Failed(reason@),
        }
    }
}

/// The result that the samples given stand for.
pub open spec fn measured_view(
    provider: Seq<char>,
    primary_ping: Option<u32>,
    secondary_ping: Option<u32>,
) -> ResultView {
    ResultView {
        provider,
        primary_ping,
        secondary_ping,
        avg_ping: mean_nanos(primary_ping, secondary_ping),
    }
}

/// The state that a test of `total` services starts in. A test of no
/// service is complete at once, with no result.
pub open spec fn started(total: nat) -> StateView {
    if total == 0 {
        StateView::Completed(Seq::empty())
    } else {
        StateView::Running { progress: 0, total }
    }
}

/// Whether the results of `state`, where it is complete, hold the means of
/// their samples.
pub open spec fn holds_means(state: StateView) -> bool {
    state matches StateView::Completed(results) ==> all_well_formed(results)
}

/// The state of one speed test.
pub struct AsyncExecutor {
    state: SpeedTestState,
    providers: Vec<DNSProvider>,
    collected: Vec<SpeedTestResult>,
}

impl View for AsyncExecutor {
    type V = StateView;

    closed spec fn view(&self) -> StateView {
        self.state@
    }
}

impl AsyncExecutor {
    #[verifier::type_invariant]
    spec fn consistent(&self) -> bool {
        &&& all_well_formed(result_views(self.collected@))
        &&& holds_means(self.state@)
        &&& match self.state {
            SpeedTestState::Running { progress, total } => self.collected@.len() == progress
                && progress < total && self.providers@.len() == total,
            _ => self.collected@.len() == 0,
        }
    }

    /// The services of the test that was started last, in the order they
    /// are probed in; none before the first test and after a reset.
    pub closed spec fn providers(&self) -> Seq<ProviderView> {
        provider_views(self.providers@)
    }

    /// The results recorded so far in a running test, in the order they
    /// came in; empty in every other state.
    pub closed spec fn collected(&self) -> Seq<ResultView> {
        result_views(self.collected@)
    }

    /// An executor with no test under way.
    pub fn new() -> (out: AsyncExecutor)
        ensures
            out@ == StateView::Idle,
            out.providers() == Seq::<ProviderView>::empty(),
            out.collected() == Seq::<ResultView>::empty(),
    {
        let out = AsyncExecutor {
            state: SpeedTestState::Idle,
            providers: Vec::new(),
            collected: Vec::new(),
        };
        assert(out.collected() =~= Seq::<ResultView>::empty());
        assert(out.providers() =~= Seq::<ProviderView>::empty());
        out
    }

    /// Starts a test of `providers`, unless one is running: then nothing
    /// changes and `false` is returned.
    pub fn start_speed_test(&mut self, providers: &Vec<DNSProvider>) -> (did_start: bool)
        ensures
            did_start == !(old(self)@ is Running),
            old(self)@ is Running ==> {
                &&& final(self)@ == old(self)@
                &&& final(self).providers() == old(self).providers()
                &&& final(self).collected() == old(self).collected()
            },
            !(old(self)@ is Running) ==> {
                &&& final(self)@ == started(providers@.len())
                &&& final(self).providers() == provider_views(providers@)
                &&& final(self).collected() == Seq::<ResultView>::empty()
            },
            holds_means(final(self)@),
            all_well_formed(final(self).collected()),
    {
        proof {
            use_type_invariant(&*self);
        }
        if let SpeedTestState::Running { .. } = self.state {
            return false;
        }
        let total = providers.len();
        let kept = copy_providers(providers);
        assert(kept@.len() == provider_views(kept@).len());
        if total == 0 {
            let results: Vec<SpeedTestResult> = Vec::new();
            assert(result_views(results@) =~= Seq::<ResultView>::empty());
            *self = AsyncExecutor {
                state: SpeedTestState::Completed(results),
                providers: kept,
                collected: Vec::new(),
            };
        } else {
            *self = AsyncExecutor {
                state: SpeedTestState::Running { progress: 0, total },
                providers: kept,
                collected: Vec::new(),
            };
        }
        assert(self.collected() =~= Seq::<ResultView>::empty());
        true
    }

    /// The service that is to be probed next: in a running test the one
    /// after those whose results were recorded, in every other state none.
    pub fn next_probe(&self) -> (r: Option<DNSProvider>)
        ensures
            match self@ {
                StateView::Running { progress, total } => {
                    &&& progress < total
                    &&& self.providers().len() == total
                    &&& r matches Some(p) && p@ == self.providers()[progress as int]
                },
                _ => r is None,
            },
    {
        proof {
            use_type_invariant(self);
        }
        match self.state {
            SpeedTestState::Running { progress, total } => Some(
                copy_provider(&self.providers[progress]),
            ),
            _ => None,
        }
    }

    /// Clears the test away, whatever its state.
    pub fn reset_speed_test(&mut self)
        ensures
            final(self)@ == StateView::Idle,
            final(self).providers() == Seq::<ProviderView>::empty(),
            final(self).collected() == Seq::<ResultView>::empty(),
    {
        *self = AsyncExecutor {
            state: SpeedTestState::Idle,
            providers: Vec::new(),
            collected: Vec::new(),
        };
        assert(self.collected() =~= Seq::<ResultView>::empty());
        assert(self.providers() =~= Seq::<ProviderView>::empty());
    }

    /// Gives a running test up for `reason`. In any other state nothing
    /// changes.
    pub fn fail(&mut self, reason: String)
        ensures
            old(self)@ is Running ==> final(self)@ == StateView::Failed(reason@)
                && final(self).collected() == Seq::<ResultView>::empty(),
            !(old(self)@ is Running) ==> final(self)@ == old(self)@ && final(self).collected()
                == old(self).collected(),
            final(self).providers() == old(self).providers(),
            holds_means(final(self)@),
            all_well_formed(final(self).collected()),
    {
        proof {
            use_type_invariant(&*self);
        }
        if let SpeedTestState::Running { .. } = self.state {
            let mut taken = AsyncExecutor {
                state: SpeedTestState::Idle,
                providers: Vec::new(),
                collected: Vec::new(),
            };
            core::mem::swap(self, &mut taken);
            let AsyncExecutor { state: _, providers, collected: _ } = taken;
            *self = AsyncExecutor {
                state: SpeedTestState::Failed(reason),
                providers,
                collected: Vec::new(),
            };
            assert(self.collected() =~= Seq::<ResultView>::empty());
        }
    }

    /// Records what probing the next service gave, under that service's
    /// name. In a running test the result joins those recorded before it;
    /// with the last service's result the test is complete and holds the
    /// ranking of all of them. In any other state nothing changes.
    pub fn record_result(&mut self, primary_ping: Option<u32>, secondary_ping: Option<u32>)
        ensures
            match old(self)@ {
                StateView::Running { progress, total } => {
                    let all = old(self).collected().push(
                        measured_view(
                            old(self).providers()[progress as int].name,
                            primary_ping,
                            secondary_ping,
                        ),
                    );
                    if progress + 1 < total {
                        &&& final(self)@ == (StateView::Running { progress: progress + 1, total })
                        &&& final(self).collected() == all
                    } else {
                        &&& final(self)@ matches StateView::Completed(ranked)
                        &&& is_ranking_of(all, ranked)
                        &&& final(self).collected() == Seq::<ResultView>::empty()
                    }
                },
                _ => final(self)@ == old(self)@ && final(self).collected() == old(self).collected(),
            },
            final(self).providers() == old(self).providers(),
            holds_means(final(self)@),
            all_well_formed(final(self).collected()),
    {
        proof {
            use_type_invariant(&*self);
        }
        if let SpeedTestState::Running { progress, total } = self.state {
            let name = self.providers[progress].name.clone();
            let result = SpeedTestResult::measured(name, primary_ping, secondary_ping);
            let ghost all = self.collected().push(result@);
            let mut taken = AsyncExecutor {
                state: SpeedTestState::Idle,
                providers: Vec::new(),
                collected: Vec::new(),
            };
            core::mem::swap(self, &mut taken);
            let AsyncExecutor { state: _, providers, collected } = taken;
            let mut collected = collected;
            collected.push(result);
            proof {
                assert(result_views(collected@) =~= all);
                assert(all_well_formed(all)) by {
                    assert forall|i: int| 0 <= i < all.len() implies crate::speedtest::is_well_formed(
                        #[trigger] all[i],
                    ) by {
                        if i < all.len() - 1 {
                            assert(all[i] == old(self).collected()[i]);
                        }
                    }
                }
            }
            if progress + 1 < total {
                *self = AsyncExecutor {
                    state: SpeedTestState::Running { progress: progress + 1, total },
                    providers,
                    collected,
                };
            } else {
                let ranked = rank_results(collected);
                proof {
                    ranking_keeps_well_formed(all, result_views(ranked@));
                }
                *self = AsyncExecutor {
                    state: SpeedTestState::Completed(ranked),
                    providers,
                    collected: Vec::new(),
                };
                assert(self.collected() =~= Seq::<ResultView>::empty());
            }
        }
    }

    /// The state as it stands. Where a test is complete, each of its results
    /// holds the mean of its samples.
    pub fn get_speed_test_state(&self) -> (state: SpeedTestState)
        ensures
            state@ == self@,
            holds_means(state@),
    {
        proof {
            use_type_invariant(self);
        }
        match &self.state {
            SpeedTestState::Idle => SpeedTestState::Idle,
            SpeedTestState::Running { progress, total } => SpeedTestState::Running {
                progress: *progress,
                total: *total,
            },
            SpeedTestState::Completed(results) => SpeedTestState::Completed(copy_results(results)),
            SpeedTestState::Failed(reason) => SpeedTestState::Failed(reason.clone()),
        }
    }
}

/// A copy of `results`.
pub fn copy_results(results: &Vec<SpeedTestResult>) -> (out: Vec<SpeedTestResult>)
    ensures
        result_views(out@) == result_views(results@),
{
    let mut out: Vec<SpeedTestResult> = Vec::new();
    let mut i: usize = 0;
    while i < results.len()
        invariant
            i <= results.len(),
            out@.len() == i,
            forall|j: int| 0 <= j < i ==> (#[trigger] out@[j])@ == results@[j]@,
        decreases results.len() - i,
    {
        let r = &results[i];
        out.push(
            SpeedTestResult {
                provider: r.provider.clone(),
                primary_ping: r.primary_ping,
                secondary_ping: r.secondary_ping,
                avg_ping: r.avg_ping,
            },
        );
        i += 1;
    }
    assert(result_views(out@) =~= result_views(results@));
    out
}

impl Default for AsyncExecutor {
    /// An executor with no test under way.
    fn default() -> (out: AsyncExecutor)
        ensures
            out@ == StateView::Idle,
            out.providers() == Seq::<ProviderView>::empty(),
            out.collected() == Seq::<ResultView>::empty(),
    {
        AsyncExecutor::new()
    }
}

} // verus!
