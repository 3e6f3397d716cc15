//! The store of the rule set: what is in force, where the next rule set is
//! asked for, and what becomes of an answer.
//!
//! The store decides; its owner asks the datastore or the network and hands
//! the answer back. A rule set is put in force whole or not at all, and
//! only one that is newer than the one in force.

use crate::data_types::{
    layers_view, specs_view, APIDownloadedConfigsResponse, APIDownloadedConfigsWithUpdates, APISpec,
    AnswerView, SpecView,
};
use crate::eval_details::{EvalDetails, EvaluationReason};
use crate::specs::{find_spec, list_of_kind, spec_at, spec_named, Specs, SpecsView};
use crate::statsig_options::StatsigOptions;
use crate::text::{
    entry_value, opt_view, pair_index, pair_value, pairs_view, set_entry, strings_view, with_pair,
};
use vstd::prelude::*;

verus! {

/// The key under which a datastore keeps the rule set.
pub const CONFIG_SPEC_KEY: &'static str = "statsig.cache";

pub struct StatsigStore {
    pub specs: Specs,
    pub sync_interval_ms: u32,
    /// Whether the embedder has supplied a datastore.
    pub has_datastore: bool,
    /// Whether that datastore is to be asked for updates in place of the
    /// network.
    pub datastore_answers_updates: bool,
    /// Where the rule set in force came from.
    pub reason: EvaluationReason,
    /// When the first rule set was put in force.
    pub init_time: u64,
}

/// Where a rule set is asked for.
#[derive(Debug, Clone, Copy, PartialEq, Eq, Structural)]
pub enum SyncSource {
    Datastore,
    Network { since_time: u64 },
}

/// What became of an answer from the network.
#[derive(Debug, Clone, Copy, PartialEq, Eq, Structural)]
pub enum SyncOutcome {
    /// The rule set in force stays.
    Unchanged,
    /// A new rule set is in force; `write_back` says whether the owner has
    /// to save it to the datastore.
    Updated { write_back: bool },
}

/// The experiments of one layer from index `j` on, set among `acc` with
/// the layer's name.
pub open spec fn with_experiments_from(
    acc: Seq<(Seq<char>, Seq<char>)>,
    layer: Seq<char>,
    experiments: Seq<Seq<char>>,
    j: int,
) -> Seq<(Seq<char>, Seq<char>)>
    decreases experiments.len() - j,
{
    if j < 0 || j >= experiments.len() {
        acc
    } else {
        with_experiments_from(with_pair(acc, experiments[j], layer), layer, experiments, j + 1)
    }
}

/// The layer of each experiment, from layer `i` of the answer on, set among
/// `acc`. A layer that the answer holds no config for is passed over; of
/// two layers that hold one experiment the later one counts.
pub open spec fn experiment_layers_from(
    acc: Seq<(Seq<char>, Seq<char>)>,
    layers: Seq<(Seq<char>, Seq<Seq<char>>)>,
    layer_configs: Seq<SpecView>,
    i: int,
) -> Seq<(Seq<char>, Seq<char>)>
    decreases layers.len() - i,
{
    if i < 0 || i >= layers.len() {
        acc
    } else if spec_named(layer_configs, layers[i].0) is Some {
        experiment_layers_from(
            with_experiments_from(acc, layers[i].0, layers[i].1, 0),
            layers,
            layer_configs,
            i + 1,
        )
    } else {
        experiment_layers_from(acc, layers, layer_configs, i + 1)
    }
}

/// The layer of each experiment under an answer.
pub open spec fn experiment_layers(d: AnswerView) -> Seq<(Seq<char>, Seq<char>)> {
    match d.layers {
        Some(l) => experiment_layers_from(Seq::empty(), l, d.layer_configs, 0),
        None => Seq::empty(),
    }
}

/// A reference to a spec, if there is one.
pub open spec fn as_reference(spec: Option<APISpec>) -> Option<&'static APISpec> {
    match spec {
        Some(s) => Some(&s),
        None => None,
    }
}

/// Every layer that a list of pairs names has a config.
pub open spec fn layers_exist(pairs: Seq<(Seq<char>, Seq<char>)>, layer_configs: Seq<SpecView>) -> bool {
    forall|k: int| 0 <= k < pairs.len() ==> spec_named(layer_configs, (#[trigger] pairs[k]).1) is Some
}

/// Whether an answer is newer than the rule set in force.
pub open spec fn is_newer(d: AnswerView, specs: SpecsView) -> bool {
    d.time > specs.last_sync_time
}

/// The rule set that an answer holds.
pub open spec fn rule_set_of(d: AnswerView) -> SpecsView {
    SpecsView {
        last_sync_time: d.time,
        gates: d.feature_gates,
        configs: d.dynamic_configs,
        layers: d.layer_configs,
        experiment_to_layer: experiment_layers(d),
    }
}

/// Whether a rule set is the one that an answer holds.
pub open spec fn installed(specs: SpecsView, d: AnswerView) -> bool {
    specs == rule_set_of(d)
}

proof fn lemma_with_pair_keeps_layers(
    pairs: Seq<(Seq<char>, Seq<char>)>,
    key: Seq<char>,
    layer: Seq<char>,
    layer_configs: Seq<SpecView>,
)
    requires
        layers_exist(pairs, layer_configs),
        spec_named(layer_configs, layer) is Some,
    ensures
        layers_exist(with_pair(pairs, key, layer), layer_configs),
{
    let w = with_pair(pairs, key, layer);
    crate::text::lemma_pair_index(pairs, key);
    assert forall|k: int| 0 <= k < w.len() implies spec_named(layer_configs, (#[trigger] w[k]).1)
        is Some by {
        if pair_index(pairs, key) < pairs.len() {
            if k != pair_index(pairs, key) {
                assert(w[k] == pairs[k]);
            }
        } else {
            if k < pairs.len() {
                assert(w[k] == pairs[k]);
            }
        }
    }
}

/// Where a list of pairs gives a layer for an experiment, that layer has a
/// config, provided that every layer in the list has one.
pub proof fn lemma_layer_of_experiment_exists(
    pairs: Seq<(Seq<char>, Seq<char>)>,
    layer_configs: Seq<SpecView>,
    experiment: Seq<char>,
)
    requires
        layers_exist(pairs, layer_configs),
        pair_value(pairs, experiment) is Some,
    ensures
        spec_named(layer_configs, pair_value(pairs, experiment)->0) is Some,
{
    crate::text::lemma_pair_index(pairs, experiment);
}

fn build_experiment_layers(layers: &Option<Vec<(String, Vec<String>)>>, layer_configs: &Vec<APISpec>) -> (r:
    Vec<(String, String)>)
    ensures
        pairs_view(r@) == match *layers {
            Some(l) => experiment_layers_from(
                Seq::empty(),
                layers_view(l@),
                specs_view(layer_configs@),
                0,
            ),
            None => Seq::empty(),
        },
        layers_exist(pairs_view(r@), specs_view(layer_configs@)),
{
    let mut out: Vec<(String, String)> = Vec::new();
    assert(pairs_view(out@) =~= Seq::empty());
    let layers = match layers {
        Some(l) => l,
        None => {
            return out;
        },
    };
    let mut i: usize = 0;
    while i < layers.len()
        invariant
            i <= layers.len(),
            layers_exist(pairs_view(out@), specs_view(layer_configs@)),
            experiment_layers_from(Seq::empty(), layers_view(layers@), specs_view(layer_configs@), 0)
                == experiment_layers_from(
                pairs_view(out@),
                layers_view(layers@),
                specs_view(layer_configs@),
                i as int,
            ),
        decreases layers.len() - i,
    {
        let layer_name = &layers[i].0;
        let experiments = &layers[i].1;
        assert(layers_view(layers@)[i as int] == (layer_name@, strings_view(experiments@)));
        if find_spec(layer_configs, layer_name.as_str()).is_some() {
            let ghost start = pairs_view(out@);
            let ghost names = strings_view(experiments@);
            let mut j: usize = 0;
            while j < experiments.len()
                invariant
                    j <= experiments.len(),
                    names == strings_view(experiments@),
                    spec_named(specs_view(layer_configs@), layer_name@) is Some,
                    layers_exist(pairs_view(out@), specs_view(layer_configs@)),
                    with_experiments_from(start, layer_name@, names, 0) == with_experiments_from(
                        pairs_view(out@),
                        layer_name@,
                        names,
                        j as int,
                    ),
                decreases experiments.len() - j,
            {
                assert(names[j as int] == experiments@[j as int]@);
                proof {
                    lemma_with_pair_keeps_layers(
                        pairs_view(out@),
                        experiments@[j as int]@,
                        layer_name@,
                        specs_view(layer_configs@),
                    );
                }
                set_entry(&mut out, experiments[j].as_str(), layer_name.as_str());
                j += 1;
            }
        }
        i += 1;
    }
    out
}

impl StatsigStore {
    /// A store with nothing in force.
    pub fn new(options: &StatsigOptions, has_datastore: bool, datastore_answers_updates: bool) -> (r:
        Self)
        ensures
            r.specs.last_sync_time == 0,
            r.specs.gates@.len() == 0,
            r.specs.configs@.len() == 0,
            r.specs.layers@.len() == 0,
            r.specs.experiment_to_layer@.len() == 0,
            r.sync_interval_ms == options.rulesets_sync_interval_ms,
            r.has_datastore == has_datastore,
            r.datastore_answers_updates == datastore_answers_updates,
            r.reason == EvaluationReason::Uninitialized,
            r.init_time == 0,
    {
        StatsigStore {
            specs: Specs::new(),
            sync_interval_ms: options.rulesets_sync_interval_ms,
            has_datastore,
            datastore_answers_updates,
            reason: EvaluationReason::Uninitialized,
            init_time: 0,
        }
    }

    /// Hands the spec of a kind and a name, or `None`, to a function, and
    /// gives back what the function returns.
    pub fn use_spec<T, F: Fn(Option<&APISpec>) -> T>(
        &self,
        spec_type: &str,
        spec_name: &str,
        func: F,
    ) -> (r: T)
        requires
            forall|s: Option<&APISpec>| func.requires((s,)),
        ensures
            func.ensures(
                (as_reference(spec_at(list_of_kind(self.specs, spec_type@), spec_name@)),),
                r,
            ),
    {
        let s = self.specs.get(spec_type, spec_name);
        func(s)
    }

    /// The layer that an experiment belongs to.
    pub fn get_layer_name_for_experiment(&self, experiment_name: &String) -> (r: Option<String>)
        ensures
            opt_view(r) == entry_value(self.specs.experiment_to_layer@, experiment_name@),
    {
        self.specs.get_layer_name_for_experiment(experiment_name)
    }

    /// The details that an evaluation made now bears.
    pub fn eval_details(&self, now: u64) -> (r: EvalDetails)
        ensures
            r == (EvalDetails {
                reason: self.reason,
                config_sync_time: self.specs.last_sync_time,
                init_time: self.init_time,
                server_time: now,
            }),
    {
        EvalDetails {
            reason: self.reason,
            config_sync_time: self.specs.last_sync_time,
            init_time: self.init_time,
            server_time: now,
        }
    }

    /// Where the first rule set is asked for: the datastore where there is
    /// one, else the network.
    pub fn initial_source(&self) -> (r: SyncSource)
        ensures
            r == if self.has_datastore {
                SyncSource::Datastore
            } else {
                SyncSource::Network { since_time: self.specs.last_sync_time }
            },
    {
        if self.has_datastore {
            SyncSource::Datastore
        } else {
            SyncSource::Network { since_time: self.specs.last_sync_time }
        }
    }

    /// Where the first rule set is asked for next, once the datastore has
    /// been asked: the network where the datastore held no rule set, else
    /// nowhere.
    pub fn fallback_source(&self, held: bool) -> (r: Option<SyncSource>)
        ensures
            r == if held {
                None
            } else {
                Some(SyncSource::Network { since_time: self.specs.last_sync_time })
            },
    {
        if held {
            None
        } else {
            Some(SyncSource::Network { since_time: self.specs.last_sync_time })
        }
    }

    /// What the network is asked about: what has changed since the rule set
    /// in force.
    pub fn network_source(&self) -> (r: SyncSource)
        ensures
            r == (SyncSource::Network { since_time: self.specs.last_sync_time }),
    {
        SyncSource::Network { since_time: self.specs.last_sync_time }
    }

    /// Where the periodic sync asks: the datastore where there is one that
    /// answers updates, else the network, about what has changed since the
    /// rule set in force.
    pub fn sync_source(&self) -> (r: SyncSource)
        ensures
            r == if self.has_datastore && self.datastore_answers_updates {
                SyncSource::Datastore
            } else {
                SyncSource::Network { since_time: self.specs.last_sync_time }
            },
    {
        if self.has_datastore && self.datastore_answers_updates {
            SyncSource::Datastore
        } else {
            SyncSource::Network { since_time: self.specs.last_sync_time }
        }
    }

    /// Takes the answer of the network. A rule set that is newer than the
    /// one in force is put in force, and is to be written back to the
    /// datastore where there is one; any other answer, and none, changes
    /// nothing.
    pub fn fetch_and_process_configs_from_network(
        &mut self,
        response: Option<APIDownloadedConfigsResponse>,
        now: u64,
    ) -> (r: SyncOutcome)
        ensures
            match response {
                Some(APIDownloadedConfigsResponse::WithUpdates(d)) => if is_newer(
                    d@,
                    old(self).specs@,
                ) {
                    &&& r == (SyncOutcome::Updated { write_back: old(self).has_datastore })
                    &&& installed(final(self).specs@, d@)
                    &&& final(self).reason == EvaluationReason::Network
                    &&& final(self).init_time == if old(self).reason
                        == EvaluationReason::Uninitialized {
                        now
                    } else {
                        old(self).init_time
                    }
                } else {
                    r == SyncOutcome::Unchanged && *final(self) == *old(self)
                },
                _ => r == SyncOutcome::Unchanged && *final(self) == *old(self),
            },
            final(self).specs.last_sync_time >= old(self).specs.last_sync_time,
            final(self).sync_interval_ms == old(self).sync_interval_ms,
            final(self).has_datastore == old(self).has_datastore,
            final(self).datastore_answers_updates == old(self).datastore_answers_updates,
    {
        match response {
            Some(APIDownloadedConfigsResponse::WithUpdates(d)) => {
                if Self::set_downloaded_config_specs(&mut self.specs, d) {
                    if let EvaluationReason::Uninitialized = self.reason {
                        self.init_time = now;
                    }
                    self.reason = EvaluationReason::Network;
                    SyncOutcome::Updated { write_back: self.has_datastore }
                } else {
                    SyncOutcome::Unchanged
                }
            },
            _ => SyncOutcome::Unchanged,
        }
    }

    /// Takes the answer of the datastore. A rule set that is newer than the
    /// one in force is put in force. The result says whether the datastore
    /// held a rule set at all, newer or not: where it did not, the owner
    /// turns to the network.
    pub fn fetch_and_process_configs_from_datstore(
        &mut self,
        response: Option<APIDownloadedConfigsResponse>,
        now: u64,
    ) -> (r: bool)
        ensures
            r == (response matches Some(APIDownloadedConfigsResponse::WithUpdates(_))),
            match response {
                Some(APIDownloadedConfigsResponse::WithUpdates(d)) => if is_newer(
                    d@,
                    old(self).specs@,
                ) {
                    &&& installed(final(self).specs@, d@)
                    &&& final(self).reason == EvaluationReason::DataAdapter
                    &&& final(self).init_time == if old(self).reason
                        == EvaluationReason::Uninitialized {
                        now
                    } else {
                        old(self).init_time
                    }
                } else {
                    *final(self) == *old(self)
                },
                _ => *final(self) == *old(self),
            },
            final(self).specs.last_sync_time >= old(self).specs.last_sync_time,
            final(self).sync_interval_ms == old(self).sync_interval_ms,
            final(self).has_datastore == old(self).has_datastore,
            final(self).datastore_answers_updates == old(self).datastore_answers_updates,
    {
        match response {
            Some(APIDownloadedConfigsResponse::WithUpdates(d)) => {
                if Self::set_downloaded_config_specs(&mut self.specs, d) {
                    if let EvaluationReason::Uninitialized = self.reason {
                        self.init_time = now;
                    }
                    self.reason = EvaluationReason::DataAdapter;
                }
                true
            },
            _ => false,
        }
    }

    /// Puts the rule set of an answer in force, if it is newer than the one
    /// in force: all of it, with the layer of each experiment worked out;
    /// else nothing changes. In a rule set so installed every layer that an
    /// experiment is said to belong to has a config.
    pub fn set_downloaded_config_specs(
        specs: &mut Specs,
        downloaded_configs: APIDownloadedConfigsWithUpdates,
    ) -> (r: bool)
        ensures
            r == is_newer(downloaded_configs@, old(specs)@),
            r ==> installed(final(specs)@, downloaded_configs@),
            r ==> layers_exist(final(specs)@.experiment_to_layer, final(specs)@.layers),
            !r ==> *final(specs) == *old(specs),
            final(specs).last_sync_time >= old(specs).last_sync_time,
    {
        if downloaded_configs.time <= specs.last_sync_time {
            return false;
        }
        let experiment_to_layer = build_experiment_layers(
            &downloaded_configs.layers,
            &downloaded_configs.layer_configs,
        );
        let new_specs = Specs {
            last_sync_time: downloaded_configs.time,
            gates: downloaded_configs.feature_gates,
            configs: downloaded_configs.dynamic_configs,
            layers: downloaded_configs.layer_configs,
            experiment_to_layer,
        };
        specs.update(new_specs);
        true
    }
}


/// Answers that hold the same rule set, put in force, give rule sets that
/// hold the same; and so it makes no difference to any evaluation whether
/// an answer is put in force as it came or after it was written down and
/// read again.
pub proof fn lemma_equal_answers_give_equal_rule_sets(
    first: APIDownloadedConfigsWithUpdates,
    second: APIDownloadedConfigsWithUpdates,
    from_first: Specs,
    from_second: Specs,
)
    requires
        first@ == second@,
        installed(from_first@, first@),
        installed(from_second@, second@),
    ensures
        from_first@ == from_second@,
{
}

} // verus!
