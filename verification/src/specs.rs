//! The rule set in force: gates, configs and layers by name, and the layer
//! that each experiment belongs to.

use crate::data_types::{opt_spec_view, specs_view, APISpec, SpecView};
use crate::text::{entry_value, find_entry, pairs_view, text_is};
use vstd::prelude::*;

verus! {

pub struct Specs {
    pub last_sync_time: u64,
    pub gates: Vec<APISpec>,
    pub configs: Vec<APISpec>,
    pub layers: Vec<APISpec>,
    pub experiment_to_layer: Vec<(String, String)>,
}

/// What a rule set holds.
pub struct SpecsView {
    pub last_sync_time: u64,
    pub gates: Seq<SpecView>,
    pub configs: Seq<SpecView>,
    pub layers: Seq<SpecView>,
    pub experiment_to_layer: Seq<(Seq<char>, Seq<char>)>,
}

impl View for Specs {
    type V = SpecsView;

    open spec fn view(&self) -> SpecsView {
        SpecsView {
            last_sync_time: self.last_sync_time,
            gates: specs_view(self.gates@),
            configs: specs_view(self.configs@),
            layers: specs_view(self.layers@),
            experiment_to_layer: pairs_view(self.experiment_to_layer@),
        }
    }
}

/// The index of the last spec of a list that bears a name, or -1. Of two
/// specs with one name the later one counts.
pub open spec fn spec_index(list: Seq<SpecView>, name: Seq<char>) -> int
    decreases list.len(),
{
    if list.len() == 0 {
        -1
    } else if list.last().name == name {
        list.len() - 1
    } else {
        spec_index(list.drop_last(), name)
    }
}

/// The index lies within the list or is -1; the spec at it, if any, bears
/// the name, and none behind it does.
pub proof fn lemma_spec_index(list: Seq<SpecView>, name: Seq<char>)
    ensures
        -1 <= spec_index(list, name) < list.len(),
        spec_index(list, name) >= 0 ==> list[spec_index(list, name)].name == name,
        forall|k: int| spec_index(list, name) < k < list.len() ==> (#[trigger] list[k]).name != name,
    decreases list.len(),
{
    if list.len() > 0 && list.last().name != name {
        let t = list.drop_last();
        lemma_spec_index(t, name);
        let n = spec_index(t, name);
        assert forall|k: int| n < k < list.len() implies (#[trigger] list[k]).name != name by {
            if k < t.len() {
                assert(t[k] == list[k]);
            }
        }
        if n >= 0 {
            assert(t[n] == list[n]);
        }
    }
}

/// An index behind which no spec bears the name, and at which one does or
/// which is -1, is the index of the name.
pub proof fn lemma_spec_index_is(list: Seq<SpecView>, name: Seq<char>, i: int)
    requires
        -1 <= i < list.len(),
        forall|k: int| i < k < list.len() ==> (#[trigger] list[k]).name != name,
        i >= 0 ==> list[i].name == name,
    ensures
        spec_index(list, name) == i,
{
    lemma_spec_index(list, name);
}

/// The spec that a list holds under a name.
pub open spec fn spec_named(list: Seq<SpecView>, name: Seq<char>) -> Option<SpecView> {
    if spec_index(list, name) >= 0 {
        Some(list[spec_index(list, name)])
    } else {
        None
    }
}

/// The spec of a list that bears a name, as the list holds it.
pub open spec fn spec_at(list: Seq<APISpec>, name: Seq<char>) -> Option<APISpec> {
    if spec_index(specs_view(list), name) >= 0 {
        Some(list[spec_index(specs_view(list), name)])
    } else {
        None
    }
}

/// Looks a spec up by its name.
pub fn find_spec<'a>(list: &'a Vec<APISpec>, name: &str) -> (r: Option<&'a APISpec>)
    ensures
        opt_spec_view(r) == spec_named(specs_view(list@), name@),
        r is Some == spec_at(list@, name@) is Some,
        r is Some ==> *r->0 == spec_at(list@, name@)->0,
{
    let ghost v = specs_view(list@);
    let mut i: usize = list.len();
    while i > 0
        invariant
            i <= list.len(),
            v == specs_view(list@),
            forall|k: int| i <= k < list.len() ==> (#[trigger] v[k]).name != name@,
        decreases i,
    {
        assert(v[i - 1] == list@[i - 1]@);
        if text_is(list[i - 1].name.as_str(), name) {
            proof {
                lemma_spec_index_is(v, name@, i - 1);
            }
            return Some(&list[i - 1]);
        }
        i -= 1;
    }
    proof {
        lemma_spec_index_is(v, name@, -1);
    }
    None
}

/// The list that a kind of spec is kept in: `config`, `layer`, and for any
/// other word the gates.
pub open spec fn specs_of_kind(specs: SpecsView, kind: Seq<char>) -> Seq<SpecView> {
    if kind == "config"@ {
        specs.configs
    } else if kind == "layer"@ {
        specs.layers
    } else {
        specs.gates
    }
}

/// The list that a kind of spec is kept in, as the rule set holds it.
pub open spec fn list_of_kind(specs: Specs, kind: Seq<char>) -> Seq<APISpec> {
    if kind == "config"@ {
        specs.configs@
    } else if kind == "layer"@ {
        specs.layers@
    } else {
        specs.gates@
    }
}

impl Specs {
    /// The rule set that holds nothing.
    pub fn new() -> (r: Specs)
        ensures
            r.last_sync_time == 0,
            r.gates@.len() == 0,
            r.configs@.len() == 0,
            r.layers@.len() == 0,
            r.experiment_to_layer@.len() == 0,
    {
        Specs {
            last_sync_time: 0,
            gates: Vec::new(),
            configs: Vec::new(),
            layers: Vec::new(),
            experiment_to_layer: Vec::new(),
        }
    }

    /// Puts another rule set in the place of this one, whole.
    pub fn update(&mut self, new_specs: Specs)
        ensures
            *final(self) == new_specs,
    {
        self.last_sync_time = new_specs.last_sync_time;
        self.gates = new_specs.gates;
        self.configs = new_specs.configs;
        self.layers = new_specs.layers;
        self.experiment_to_layer = new_specs.experiment_to_layer;
    }

    /// The spec of a kind and a name.
    pub fn get<'a>(&'a self, spec_type: &str, spec_name: &str) -> (r: Option<&'a APISpec>)
        ensures
            opt_spec_view(r) == spec_named(specs_of_kind(self@, spec_type@), spec_name@),
            r is Some == spec_at(list_of_kind(*self, spec_type@), spec_name@) is Some,
            r is Some ==> *r->0 == spec_at(list_of_kind(*self, spec_type@), spec_name@)->0,
    {
        if text_is(spec_type, "config") {
            find_spec(&self.configs, spec_name)
        } else if text_is(spec_type, "layer") {
            find_spec(&self.layers, spec_name)
        } else {
            find_spec(&self.gates, spec_name)
        }
    }

    /// The layer that an experiment belongs to.
    pub fn get_layer_name_for_experiment(&self, experiment_name: &String) -> (r: Option<String>)
        ensures
            crate::text::opt_view(r) == entry_value(self.experiment_to_layer@, experiment_name@),
    {
        match find_entry(&self.experiment_to_layer, experiment_name.as_str()) {
            Some(i) => Some(self.experiment_to_layer[i].1.clone()),
            None => None,
        }
    }
}

} // verus!
