//! The registry of watched files and the observer lifecycle.
//!
//! The monitor owns the per-path configurations, keyed uniquely by path, and
//! the Idle/Monitoring state of the background observer.  Starting hands the
//! caller a snapshot of the enabled entries; the caller runs the watch engine
//! over that snapshot and is insulated from any later edits here.

use vstd::prelude::*;

use crate::config::ConfigView;
use crate::config::HoneyFileConfig;

verus! {

/// Honey file monitoring system: the registry of configurations plus the
/// observer lifecycle state.
#[derive(Debug)]
pub struct HoneyFileMonitor {
    configs: Vec<HoneyFileConfig>,
    monitoring: bool,
}

/// The predicate that keeps the enabled entries of a snapshot.
pub open spec fn enabled_entry() -> spec_fn(ConfigView) -> bool {
    |c: ConfigView| c.enabled
}

impl HoneyFileMonitor {
    /// The registered configurations, in insertion order.
    pub closed spec fn configs_spec(self) -> Seq<HoneyFileConfig> {
        self.configs@
    }

    /// The registered configurations as their mathematical models.
    pub closed spec fn views(self) -> Seq<ConfigView> {
        self.configs.deep_view()
    }

    /// Whether a background observer has been started and not stopped.
    pub closed spec fn monitoring_spec(self) -> bool {
        self.monitoring
    }

    /// No two entries share a path.
    pub open spec fn wf(self) -> bool {
        forall|i: int, j: int|
            0 <= i < j < self.configs_spec().len() ==> (#[trigger] self.configs_spec()[i])@.file_path
                != (#[trigger] self.configs_spec()[j])@.file_path
    }

    /// Whether some entry holds the given path.
    pub open spec fn has_path(self, path: Seq<char>) -> bool {
        exists|i: int|
            0 <= i < self.configs_spec().len() && (#[trigger] self.configs_spec()[i])@.file_path
                == path
    }

    pub fn new() -> (r: HoneyFileMonitor)
        ensures
            r.configs_spec() == Seq::<HoneyFileConfig>::empty(),
            !r.monitoring_spec(),
            r.wf(),
    {
        let r = HoneyFileMonitor { configs: Vec::new(), monitoring: false };
        proof {
            assert(r.configs_spec() =~= Seq::<HoneyFileConfig>::empty());
        }
        r
    }

    /// The index of the entry holding the given path, if any.
    fn find_path(&self, path: &str) -> (r: Option<usize>)
        ensures
            match r {
                Some(i) => i < self.configs_spec().len() && self.configs_spec()[i as int]@.file_path
                    == path@ && forall|j: int|
                    0 <= j < i ==> (#[trigger] self.configs_spec()[j])@.file_path != path@,
                None => !self.has_path(path@),
            },
    {
        let mut i: usize = 0;
        while i < self.configs.len()
            invariant
                i <= self.configs@.len(),
                forall|j: int| 0 <= j < i ==> (#[trigger] self.configs@[j])@.file_path != path@,
            decreases self.configs@.len() - i,
        {
            if crate::chars::str_eq(self.configs[i].file_path.as_str(), path) {
                return Some(i);
            }
            i += 1;
        }
        None
    }

    /// Inserts the configuration, or replaces the entry already registered
    /// for its path: an idempotent upsert.  The registry never ends up with
    /// two entries for one path.
    pub fn add_file(&mut self, config: HoneyFileConfig)
        requires
            old(self).wf(),
        ensures
            final(self).wf(),
            final(self).monitoring_spec() == old(self).monitoring_spec(),
            final(self).has_path(config@.file_path),
            !old(self).has_path(config@.file_path) ==> final(self).configs_spec() == old(
                self,
            ).configs_spec().push(config),
            old(self).has_path(config@.file_path) ==> exists|i: int|
                0 <= i < old(self).configs_spec().len() && (#[trigger] old(
                    self,
                ).configs_spec()[i])@.file_path == config@.file_path && final(self).configs_spec()
                    == old(self).configs_spec().update(i, config),
    {
        let found = self.find_path(config.file_path.as_str());
        match found {
            Some(i) => {
                self.configs[i] = config;
                proof {
                    let olds = old(self).configs_spec();
                    assert(olds[i as int]@.file_path == config@.file_path);
                    assert(self.configs_spec() == olds.update(i as int, config));
                    assert(self.configs_spec()[i as int]@.file_path == config@.file_path);
                }
            },
            None => {
                self.configs.push(config);
                proof {
                    let n = old(self).configs_spec().len();
                    assert(self.configs_spec()[n as int] == config);
                }
            },
        }
    }

    /// Deletes the entry for the given path; a no-op if none is registered.
    pub fn remove_file(&mut self, path: &str)
        requires
            old(self).wf(),
        ensures
            final(self).wf(),
            final(self).monitoring_spec() == old(self).monitoring_spec(),
            !old(self).has_path(path@) ==> final(self).configs_spec() == old(self).configs_spec(),
            old(self).has_path(path@) ==> exists|i: int|
                0 <= i < old(self).configs_spec().len() && (#[trigger] old(
                    self,
                ).configs_spec()[i])@.file_path == path@ && final(self).configs_spec() == old(
                    self,
                ).configs_spec().remove(i),
            !final(self).has_path(path@),
    {
        let found = self.find_path(path);
        match found {
            Some(i) => {
                self.configs.remove(i);
                proof {
                    let olds = old(self).configs_spec();
                    assert(self.configs_spec() =~= olds.remove(i as int));
                    assert forall|k: int| 0 <= k < self.configs_spec().len() implies (
                    #[trigger] self.configs_spec()[k])@.file_path != path@ by {
                        if k < i {
                            assert(self.configs_spec()[k] == olds[k]);
                        } else {
                            assert(self.configs_spec()[k] == olds[k + 1]);
                        }
                    }
                }
            },
            None => {},
        }
    }

    /// Read access to every registered configuration.
    pub fn get_configs(&self) -> (r: &Vec<HoneyFileConfig>)
        ensures
            r@ == self.configs_spec(),
    {
        &self.configs
    }

    /// Mutable access to the registered configurations, for in-place edits.
    /// Edits are visible to later `start_monitoring` calls, never to an
    /// already-running engine.  An edit that rewrites paths may break the
    /// registry's uniqueness; the other operations ask for it back.
    pub fn get_configs_mut(&mut self) -> (r: &mut Vec<HoneyFileConfig>)
        ensures
            (*r)@ == old(self).configs_spec(),
            final(self).configs_spec() == (*final(r))@,
            final(self).monitoring_spec() == old(self).monitoring_spec(),
    {
        &mut self.configs
    }

    /// Whether the observer is in the Monitoring state.
    pub fn is_monitoring(&self) -> (r: bool)
        ensures
            r == self.monitoring_spec(),
    {
        self.monitoring
    }

    /// Moves the observer from Idle to Monitoring and hands back the
    /// snapshot of enabled entries the watch engine is to run over.  When
    /// already Monitoring this is a guarded no-op: the caller must stop
    /// first, so a second engine is never spawned over a stale channel.
    pub fn start_monitoring(&mut self) -> (r: Option<Vec<HoneyFileConfig>>)
        ensures
            final(self).configs_spec() == old(self).configs_spec(),
            final(self).monitoring_spec(),
            old(self).monitoring_spec() ==> r is None,
            !old(self).monitoring_spec() ==> match r {
                Some(snapshot) => snapshot.deep_view() == old(self).views().filter(
                    enabled_entry(),
                ),
                None => false,
            },
    {
        if self.monitoring {
            return None;
        }
        self.monitoring = true;
        let mut snapshot: Vec<HoneyFileConfig> = Vec::new();
        let ghost all = self.configs.deep_view();
        proof {
            reveal(Seq::filter);
            assert(snapshot.deep_view() =~= all.subrange(0, 0).filter(enabled_entry()));
        }
        let mut i: usize = 0;
        while i < self.configs.len()
            invariant
                i <= self.configs@.len(),
                all == self.configs.deep_view(),
                snapshot.deep_view() == all.subrange(0, i as int).filter(enabled_entry()),
            decreases self.configs@.len() - i,
        {
            if self.configs[i].enabled {
                let copy = self.configs[i].clone();
                snapshot.push(copy);
            }
            proof {
                reveal(Seq::filter);
                let big = all.subrange(0, i as int + 1);
                assert(big.drop_last() =~= all.subrange(0, i as int));
                assert(big.last() == all[i as int]);
                assert(all[i as int] == self.configs@[i as int]@);
                assert(snapshot.deep_view() =~= big.filter(enabled_entry()));
            }
            i += 1;
        }
        proof {
            assert(all.subrange(0, all.len() as int) =~= all);
        }
        Some(snapshot)
    }

    /// Moves the observer back to Idle.  The caller drops its receiving end;
    /// the running engine notices the disconnected channel at its next
    /// emission attempt and terminates.
    pub fn stop_monitoring(&mut self)
        ensures
            final(self).configs_spec() == old(self).configs_spec(),
            !final(self).monitoring_spec(),
    {
        self.monitoring = false;
    }
}

impl Default for HoneyFileMonitor {
    fn default() -> (r: Self)
        ensures
            r.configs_spec() == Seq::<HoneyFileConfig>::empty(),
            !r.monitoring_spec(),
            r.wf(),
    {
        HoneyFileMonitor::new()
    }
}

} // verus!
