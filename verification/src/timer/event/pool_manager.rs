//! Pools for several kinds of events.

use vstd::prelude::*;

use crate::timer::event::pool::{PoolConfig, PoolStats, TimerEventPool};
use crate::timer::event::traits::EventDataTrait;

verus! {

/// The pool of one kind of events.
pub type TypedPool<E> = TimerEventPool<E>;

/// One pool for each kind of events, made when it is first asked for.
#[verifier::reject_recursive_types(E)]
pub struct PoolManager<E> {
    pools: Vec<(u64, TypedPool<E>)>,
    default_config: PoolConfig,
}

impl<E: EventDataTrait> PoolManager<E> {
    /// No kind has two pools.
    pub closed spec fn wf(&self) -> bool {
        forall|i: int, j: int|
            0 <= i < j < self.pools@.len() ==> (#[trigger] self.pools@[i]).0 != (
            #[trigger] self.pools@[j]).0
    }

    /// The kinds that have a pool, in the order in which the pools were made.
    pub closed spec fn kinds(&self) -> Seq<u64> {
        self.pools@.map_values(|entry: (u64, TypedPool<E>)| entry.0)
    }

    /// The pools, in the same order.
    pub closed spec fn pools(&self) -> Seq<TypedPool<E>> {
        self.pools@.map_values(|entry: (u64, TypedPool<E>)| entry.1)
    }

    pub closed spec fn spec_default_config(&self) -> PoolConfig {
        self.default_config
    }

    /// Figures on the pool of `kind`, where there is one.
    pub open spec fn stats_for(&self, kind: u64) -> Option<PoolStats> {
        if self.kinds().contains(kind) {
            let pool = self.pools()[self.kinds().index_of(kind)];
            Some(
                PoolStats {
                    current_size: pool@.len() as usize,
                    max_size: pool.spec_config().max_size,
                    initial_size: pool.spec_config().initial_size,
                },
            )
        } else {
            None
        }
    }

    /// Whether every pool has the default configuration.
    pub open spec fn uniform(&self) -> bool {
        forall|i: int|
            0 <= i < self.pools().len() ==> (#[trigger] self.pools()[i]).spec_config()
                == self.spec_default_config()
    }

    /// There are as many pools as kinds, and no kind occurs twice.
    pub proof fn law_one_pool_for_each_kind(&self)
        requires
            self.wf(),
        ensures
            self.pools().len() == self.kinds().len(),
            self.kinds().no_duplicates(),
    {
        assert forall|i: int, j: int|
            0 <= i < self.kinds().len() && 0 <= j < self.kinds().len() && i
                != j implies self.kinds()[i] != self.kinds()[j] by {
            if i < j {
                assert(self.pools@[i].0 != self.pools@[j].0);
            } else {
                assert(self.pools@[j].0 != self.pools@[i].0);
            }
        }
    }

    /// The figures on a pool show the default configuration.
    pub proof fn law_figures_show_the_configuration(&self, kind: u64)
        requires
            self.wf(),
            self.uniform(),
        ensures
            self.stats_for(kind) is Some <==> self.kinds().contains(kind),
            self.stats_for(kind) matches Some(s) ==> s.max_size
                == self.spec_default_config().max_size && s.initial_size
                == self.spec_default_config().initial_size,
    {
        if self.kinds().contains(kind) {
            let i = self.kinds().index_of(kind);
            assert(self.pools()[i].spec_config() == self.spec_default_config());
        }
    }

    /// Using the pool at a position changes the figures on its own kind alone,
    /// and a pool that keeps its configuration leaves the manager uniform.
    pub proof fn law_use_of_a_pool_shows_in_its_figures(
        &self,
        position: int,
        pool: TypedPool<E>,
        after: Self,
    )
        requires
            self.wf(),
            0 <= position < self.kinds().len(),
            after.wf(),
            after.kinds() == self.kinds(),
            after.pools() == self.pools().update(position, pool),
            after.spec_default_config() == self.spec_default_config(),
        ensures
            after.stats_for(self.kinds()[position]) == Some(
                PoolStats {
                    current_size: pool@.len() as usize,
                    max_size: pool.spec_config().max_size,
                    initial_size: pool.spec_config().initial_size,
                },
            ),
            forall|other: u64|
                other != self.kinds()[position] ==> #[trigger] after.stats_for(other)
                    == self.stats_for(other),
            self.uniform() && pool.spec_config() == self.pools()[position].spec_config()
                ==> after.uniform(),
    {
        self.law_one_pool_for_each_kind();
        assert forall|i: int|
            0 <= i < after.pools().len() && i != position implies #[trigger] after.pools()[i]
            == self.pools()[i] by {}
    }

    /// A manager without pools.
    pub fn new(default_config: PoolConfig) -> (manager: Self)
        ensures
            manager.wf(),
            manager.kinds() == Seq::<u64>::empty(),
            manager.pools() == Seq::<TypedPool<E>>::empty(),
            manager.spec_default_config() == default_config,
            manager.uniform(),
    {
        let manager = PoolManager { pools: Vec::new(), default_config };
        assert(manager.kinds() =~= Seq::<u64>::empty());
        assert(manager.pools() =~= Seq::<TypedPool<E>>::empty());
        manager
    }

    /// The position of the pool of `kind`.
    fn find(&self, kind: u64) -> (position: Option<usize>)
        ensures
            match position {
                Some(p) => p < self.pools@.len() && self.pools@[p as int].0 == kind,
                None => !self.kinds().contains(kind),
            },
    {
        let mut i: usize = 0;
        while i < self.pools.len()
            invariant
                i <= self.pools@.len(),
                forall|j: int| 0 <= j < i ==> (#[trigger] self.pools@[j]).0 != kind,
            decreases self.pools@.len() - i,
        {
            if self.pools[i].0 == kind {
                return Some(i);
            }
            i = i + 1;
        }
        proof {
            if self.kinds().contains(kind) {
                let j = choose|j: int| 0 <= j < self.kinds().len() && self.kinds()[j] == kind;
                assert(self.pools@[j].0 == kind);
            }
        }
        None
    }

    /// The position of the pool of `kind`. It is always the same pool; the first
    /// time, it is made with the default configuration.
    pub fn get_or_create_pool(&mut self, kind: u64) -> (position: usize)
        requires
            old(self).wf(),
        ensures
            final(self).wf(),
            final(self).spec_default_config() == old(self).spec_default_config(),
            position < final(self).kinds().len(),
            final(self).kinds()[position as int] == kind,
            final(self).pools().len() == final(self).kinds().len(),
            if old(self).kinds().contains(kind) {
                &&& final(self).kinds() == old(self).kinds()
                &&& final(self).pools() == old(self).pools()
            } else {
                &&& final(self).kinds() == old(self).kinds().push(kind)
                &&& final(self).pools() == old(self).pools().push(final(self).pools().last())
                &&& final(self).pools().last().spec_config() == old(self).spec_default_config()
                &&& final(self).pools().last()@.len()
                    == old(self).spec_default_config().initial_size
            },
            old(self).uniform() ==> final(self).uniform(),
            final(self).stats_for(kind) == (if old(self).kinds().contains(kind) {
                old(self).stats_for(kind)
            } else {
                Some(
                    PoolStats {
                        current_size: old(self).spec_default_config().initial_size,
                        max_size: old(self).spec_default_config().max_size,
                        initial_size: old(self).spec_default_config().initial_size,
                    },
                )
            }),
            forall|other: u64|
                other != kind ==> #[trigger] final(self).stats_for(other) == old(self).stats_for(
                    other,
                ),
    {
        match self.find(kind) {
            Some(position) => {
                assert(self.kinds()[position as int] == kind);
                position
            },
            None => {
                let position = self.pools.len();
                let pool: TypedPool<E> = TypedPool::new(self.default_config);
                let ghost before = *self;
                self.pools.push((kind, pool));
                proof {
                    assert(self.kinds() =~= before.kinds().push(kind));
                    assert(self.pools() =~= before.pools().push(pool));
                    assert forall|i: int, j: int| 0 <= i < j < self.pools@.len() implies (
                    #[trigger] self.pools@[i]).0 != (#[trigger] self.pools@[j]).0 by {
                        if j == position {
                            assert(before.kinds()[i] == before.pools@[i].0);
                        }
                    }
                    self.law_one_pool_for_each_kind();
                    assert(self.kinds()[position as int] == kind);
                    assert forall|other: u64| other != kind implies #[trigger] self.stats_for(other)
                        == before.stats_for(other) by {
                        lemma_push_keeps_index(before.kinds(), kind, other);
                    }
                }
                position
            },
        }
    }

    /// The pool at a position.
    pub fn pool_mut(&mut self, position: usize) -> (pool: &mut TypedPool<E>)
        requires
            old(self).wf(),
            position < old(self).kinds().len(),
        ensures
            *pool == old(self).pools()[position as int],
            final(self).kinds() == old(self).kinds(),
            final(self).pools() == old(self).pools().update(position as int, *final(pool)),
            final(self).spec_default_config() == old(self).spec_default_config(),
            final(self).wf(),
    {
        &mut self.pools[position].1
    }

    /// Figures on the pool of `kind`, where there is one.
    pub fn get_pool_stats(&self, kind: u64) -> (stats: Option<PoolStats>)
        requires
            self.wf(),
        ensures
            stats == self.stats_for(kind),
    {
        match self.find(kind) {
            Some(position) => {
                assert(self.kinds()[position as int] == kind);
                assert(self.pools()[position as int] == self.pools@[position as int].1);
                proof {
                    self.law_one_pool_for_each_kind();
                }
                Some(self.pools[position].1.stats())
            },
            None => None,
        }
    }
}

/// A further element at the end moves no other element.
proof fn lemma_push_keeps_index(kinds: Seq<u64>, kind: u64, other: u64)
    requires
        other != kind,
    ensures
        kinds.push(kind).contains(other) == kinds.contains(other),
        kinds.no_duplicates() && kinds.contains(other) ==> kinds.push(kind).index_of(other)
            == kinds.index_of(other),
{
    let longer = kinds.push(kind);
    if kinds.contains(other) {
        assert(longer[kinds.index_of(other)] == other);
    }
    if longer.contains(other) {
        let i = longer.index_of(other);
        assert(kinds[i] == other);
    }
}

} // verus!
