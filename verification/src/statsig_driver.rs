//! The driver: a check is made for the user as the options normalize it,
//! its exposure is queued, and the result is shaped for the caller.

use crate::client_init_response_formatter::{formatted_response, ClientInitResponseFormatter};
use crate::dynamic_config::DynamicConfig;
use crate::eval_details::EvalDetails;
use crate::eval_result::{opt_json_view, EvalResultView};
use crate::feature_gate::FeatureGate;
use crate::json::{duplicate_members, members_view, JsonMember, JsonValue, JsonView, MemberView};
use crate::layer::{Layer, LayerLogData};
use crate::statsig_evaluator::{evaluation, EvalContext, StatsigEvaluator};
use crate::statsig_event::StatsigEvent;
use crate::statsig_event_internal::{
    config_exposure, finalize_event, finalized, gate_exposure, layer_exposure, make_config_exposure,
    make_gate_exposure, make_layer_exposure, EventView,
};
use crate::statsig_logger::{ShutdownPlan, StatsigLogger};
use crate::statsig_options::StatsigOptions;
use crate::statsig_store::StatsigStore;
use crate::statsig_user::{copy_pairs, StatsigUser, UserView};
use crate::text::{opt_pairs_view};
use vstd::prelude::*;

verus! {

pub struct StatsigDriver {
    pub secret_key: String,
    pub options: StatsigOptions,
    pub store: StatsigStore,
    pub evaluator: StatsigEvaluator,
    pub logger: StatsigLogger,
}

/// The user as checks are made for it: with the environment of the options
/// where they name one.
pub open spec fn normalized(user: UserView, environment: Option<Seq<(Seq<char>, Seq<char>)>>) -> UserView {
    UserView {
        statsig_environment: match environment {
            Some(e) => Some(e),
            None => user.statsig_environment,
        },
        ..user
    }
}

/// The parameters of a layer: the members of its value where that is an
/// object, else none.
pub open spec fn layer_value(value: Option<JsonView>) -> Seq<MemberView> {
    match value {
        Some(JsonView::Object(m)) => m,
        _ => Seq::empty(),
    }
}

impl StatsigDriver {
    /// The evaluator's table of address ranges is in order.
    pub open spec fn wf(&self) -> bool {
        self.evaluator.wf()
    }

    /// The environment that the options name.
    pub open spec fn environment(&self) -> Option<Seq<(Seq<char>, Seq<char>)>> {
        opt_pairs_view(self.options.environment)
    }

    /// What an evaluation made at `now` for a user depends on.
    pub open spec fn context(&self, user: UserView, now: u64) -> EvalContext {
        EvalContext {
            evaluator: self.evaluator@,
            specs: self.store.specs@,
            user: normalized(user, self.environment()),
            details: EvalDetails {
                reason: self.store.reason,
                config_sync_time: self.store.specs.last_sync_time,
                init_time: self.store.init_time,
                server_time: now,
            },
        }
    }

    /// What a gate of that name comes to for a user at `now`.
    pub open spec fn gate_result(&self, user: UserView, name: Seq<char>, now: u64) -> EvalResultView {
        evaluation(self.context(user, now), self.store.specs@.gates, name)
    }

    /// What the config of a name comes to for a user at `now`.
    pub open spec fn config_result(&self, user: UserView, name: Seq<char>, now: u64) -> EvalResultView {
        evaluation(self.context(user, now), self.store.specs@.configs, name)
    }

    /// What the layer of a name comes to for a user at `now`.
    pub open spec fn layer_result(&self, user: UserView, name: Seq<char>, now: u64) -> EvalResultView {
        evaluation(self.context(user, now), self.store.specs@.layers, name)
    }

    /// Whether this driver is `before` with one more event in its queue,
    /// and a flush due where the queue has outgrown its limit.
    pub open spec fn has_queued(&self, before: StatsigDriver, event: EventView) -> bool {
        &&& self.logger.events@.len() == before.logger.events@.len() + 1
        &&& self.logger.events@.drop_last() == before.logger.events@
        &&& self.logger.events@.last()@ == event
        &&& self.logger.flush_due == (before.logger.flush_due || before.logger.events@.len() + 1
            > before.logger.max_queue_size)
        &&& self.logger.running_jobs == before.logger.running_jobs
        &&& self.logger.max_queue_size == before.logger.max_queue_size
        &&& self.logger.flush_interval_ms == before.logger.flush_interval_ms
        &&& self.logger.is_shutdown == before.logger.is_shutdown
        &&& self.secret_key == before.secret_key
        &&& self.options == before.options
        &&& self.store == before.store
        &&& self.evaluator == before.evaluator
    }

    /// A driver with no rule set in force and an empty queue.
    pub fn new(
        secret_key: &str,
        options: StatsigOptions,
        ip_table: &[u8],
        ua_table: &[u8],
        has_datastore: bool,
        datastore_answers_updates: bool,
    ) -> (r: Self)
        ensures
            r.wf(),
            r.secret_key@ == secret_key@,
            r.options == options,
            r.logger.events@.len() == 0,
            r.logger.max_queue_size == options.logger_max_queue_size,
            r.logger.flush_interval_ms == options.logger_flush_interval_ms,
            !r.logger.flush_due,
            r.logger.running_jobs == 0,
            !r.logger.is_shutdown,
            r.store.specs.last_sync_time == 0,
            r.store.specs.gates@.len() == 0,
            r.store.specs.configs@.len() == 0,
            r.store.specs.layers@.len() == 0,
            r.store.specs.experiment_to_layer@.len() == 0,
            r.store.sync_interval_ms == options.rulesets_sync_interval_ms,
            r.store.has_datastore == has_datastore,
            r.store.datastore_answers_updates == datastore_answers_updates,
            r.store.reason == crate::eval_details::EvaluationReason::Uninitialized,
            r.store.init_time == 0,
            r.evaluator@.table == crate::country_lookup::table_of(ip_table@),
            r.evaluator@.agent_table == if !options.disable_user_agent_support
                && crate::ua_parser::table_loads(ua_table@) {
                Some(ua_table@)
            } else {
                None
            },
    {
        let logger = StatsigLogger::new(&options);
        let store = StatsigStore::new(&options, has_datastore, datastore_answers_updates);
        let evaluator = StatsigEvaluator::new(
            ip_table,
            ua_table,
            options.disable_user_agent_support,
        );
        StatsigDriver { secret_key: secret_key.to_owned(), options, store, evaluator, logger }
    }

    /// Shuts the logger down; see `StatsigLogger::shutdown`.
    pub fn shutdown(&mut self) -> (plan: ShutdownPlan)
        ensures
            final(self).logger.is_shutdown,
            final(self).logger.events@.len() == 0,
            final(self).logger.running_jobs == 0,
            plan.jobs_to_await == old(self).logger.running_jobs,
            plan.batch is Some == (old(self).logger.events@.len() > 0),
            plan.batch is Some ==> plan.batch->0 == old(self).logger.events,
            final(self).store == old(self).store,
            final(self).evaluator == old(self).evaluator,
    {
        self.logger.shutdown()
    }

    /// Whether a gate passes for the user; the exposure is queued.
    pub fn check_gate(&mut self, user: &StatsigUser, gate_name: &str, now: u64) -> (r: bool)
        requires
            old(self).wf(),
        ensures
            r == old(self).gate_result(user@, gate_name@, now).bool_value,
            final(self).has_queued(
                *old(self),
                gate_exposure(
                    normalized(user@, old(self).environment()),
                    gate_name@,
                    old(self).gate_result(user@, gate_name@, now),
                    old(self).environment(),
                    now,
                ),
            ),
    {
        let normalized_user = self.get_normalized_user_copy(user);
        let eval_result = self.evaluator.check_gate(
            &self.store.specs,
            &normalized_user,
            gate_name,
            self.store.eval_details(now),
        );
        let event = make_gate_exposure(
            &normalized_user,
            gate_name,
            &eval_result,
            &self.options.environment,
            now,
        );
        self.logger.enqueue(event);
        proof {
            assert(self.logger.events@.drop_last() =~= old(self).logger.events@);
        }
        eval_result.bool_value
    }

    /// A feature gate as it comes out for the user; the exposure is queued.
    pub fn get_feature_gate(&mut self, user: &StatsigUser, gate_name: &str, now: u64) -> (r:
        FeatureGate)
        requires
            old(self).wf(),
        ensures
            r.name@ == gate_name@,
            r.value == old(self).gate_result(user@, gate_name@, now).bool_value,
            r.rule_id@ == old(self).gate_result(user@, gate_name@, now).rule_id,
            r.evaluation_details == old(self).gate_result(
                user@,
                gate_name@,
                now,
            ).evaluation_details,
            final(self).has_queued(
                *old(self),
                gate_exposure(
                    normalized(user@, old(self).environment()),
                    gate_name@,
                    old(self).gate_result(user@, gate_name@, now),
                    old(self).environment(),
                    now,
                ),
            ),
    {
        let normalized_user = self.get_normalized_user_copy(user);
        let eval_result = self.evaluator.check_gate(
            &self.store.specs,
            &normalized_user,
            gate_name,
            self.store.eval_details(now),
        );
        let event = make_gate_exposure(
            &normalized_user,
            gate_name,
            &eval_result,
            &self.options.environment,
            now,
        );
        self.logger.enqueue(event);
        proof {
            assert(self.logger.events@.drop_last() =~= old(self).logger.events@);
        }
        FeatureGate {
            value: eval_result.bool_value,
            name: gate_name.to_owned(),
            rule_id: eval_result.rule_id,
            evaluation_details: eval_result.evaluation_details,
        }
    }

    /// The config as it comes out for the user; the exposure is queued.
    pub fn get_config(&mut self, user: &StatsigUser, config_name: &str, now: u64) -> (r:
        DynamicConfig)
        requires
            old(self).wf(),
        ensures
            r.name@ == config_name@,
            opt_json_view(r.value) == old(self).config_result(user@, config_name@, now).json_value,
            r.rule_id@ == old(self).config_result(user@, config_name@, now).rule_id,
            r.evaluation_details == old(self).config_result(
                user@,
                config_name@,
                now,
            ).evaluation_details,
            final(self).has_queued(
                *old(self),
                config_exposure(
                    normalized(user@, old(self).environment()),
                    config_name@,
                    old(self).config_result(user@, config_name@, now),
                    old(self).environment(),
                    now,
                ),
            ),
    {
        let normalized_user = self.get_normalized_user_copy(user);
        let eval_result = self.evaluator.get_config(
            &self.store.specs,
            &normalized_user,
            config_name,
            self.store.eval_details(now),
        );
        let event = make_config_exposure(
            &normalized_user,
            config_name,
            &eval_result,
            &self.options.environment,
            now,
        );
        self.logger.enqueue(event);
        proof {
            assert(self.logger.events@.drop_last() =~= old(self).logger.events@);
        }
        DynamicConfig {
            name: config_name.to_owned(),
            value: eval_result.json_value,
            rule_id: eval_result.rule_id,
            evaluation_details: eval_result.evaluation_details,
        }
    }

    /// The experiment as it comes out for the user: a config under another
    /// word.
    pub fn get_experiment(&mut self, user: &StatsigUser, experiment_name: &str, now: u64) -> (r:
        DynamicConfig)
        requires
            old(self).wf(),
        ensures
            r.name@ == experiment_name@,
            opt_json_view(r.value) == old(self).config_result(
                user@,
                experiment_name@,
                now,
            ).json_value,
            r.rule_id@ == old(self).config_result(user@, experiment_name@, now).rule_id,
            r.evaluation_details == old(self).config_result(
                user@,
                experiment_name@,
                now,
            ).evaluation_details,
            final(self).has_queued(
                *old(self),
                config_exposure(
                    normalized(user@, old(self).environment()),
                    experiment_name@,
                    old(self).config_result(user@, experiment_name@, now),
                    old(self).environment(),
                    now,
                ),
            ),
    {
        self.get_config(user, experiment_name, now)
    }

    /// The layer as it comes out for the user. Nothing is queued: the
    /// exposure of a parameter is logged when the parameter is read.
    pub fn get_layer(&self, user: &StatsigUser, layer_name: &str, now: u64) -> (r: Layer)
        requires
            self.wf(),
        ensures
            r.name@ == layer_name@,
            r.rule_id@ == self.layer_result(user@, layer_name@, now).rule_id,
            r.evaluation_details == self.layer_result(user@, layer_name@, now).evaluation_details,
            members_view(r.value@) == layer_value(
                self.layer_result(user@, layer_name@, now).json_value,
            ),
            r.log_data.user@ == normalized(user@, self.environment()),
            r.log_data.eval_result@ == self.layer_result(user@, layer_name@, now),
    {
        let normalized_user = self.get_normalized_user_copy(user);
        let eval_result = self.evaluator.get_layer(
            &self.store.specs,
            &normalized_user,
            layer_name,
            self.store.eval_details(now),
        );
        let value: Vec<JsonMember> = match &eval_result.json_value {
            Some(JsonValue::Object(members)) => {
                proof {
                    crate::json::lemma_object_view(*members);
                }
                duplicate_members(members)
            },
            _ => crate::json::new_members(),
        };
        Layer {
            name: layer_name.to_owned(),
            value,
            rule_id: eval_result.rule_id.clone(),
            evaluation_details: eval_result.evaluation_details,
            log_data: LayerLogData { user: normalized_user, eval_result },
        }
    }

    /// Queues an event of the caller, stamped with `now`.
    pub fn log_event(&mut self, user: &StatsigUser, event: StatsigEvent, now: u64)
        ensures
            final(self).has_queued(
                *old(self),
                finalized(user@, event, old(self).environment(), None, now),
            ),
    {
        let finalized_event = finalize_event(user, event, &self.options.environment, now);
        self.logger.enqueue(finalized_event);
        proof {
            assert(self.logger.events@.drop_last() =~= old(self).logger.events@);
        }
    }

    /// The bootstrap document of the user.
    pub fn get_client_initialize_response(&self, user: &StatsigUser, now: u64) -> (r: JsonValue)
        requires
            self.wf(),
        ensures
            r@ == formatted_response(self.context(user@, now)),
    {
        let normalized_user = self.get_normalized_user_copy(user);
        ClientInitResponseFormatter::get_formatted_response(
            &self.evaluator,
            &normalized_user,
            &self.store.specs,
            self.store.eval_details(now),
        )
    }

    /// Queues the exposure of a parameter of a layer.
    pub fn log_layer_parameter_exposure(
        &mut self,
        layer: &Layer,
        parameter_name: &str,
        log_data: &LayerLogData,
        now: u64,
    )
        ensures
            final(self).has_queued(
                *old(self),
                layer_exposure(
                    log_data.user@,
                    layer.name@,
                    parameter_name@,
                    log_data.eval_result@,
                    old(self).environment(),
                    now,
                ),
            ),
    {
        let event = make_layer_exposure(
            &log_data.user,
            layer.name.as_str(),
            parameter_name,
            &log_data.eval_result,
            &self.options.environment,
            now,
        );
        self.logger.enqueue(event);
        proof {
            assert(self.logger.events@.drop_last() =~= old(self).logger.events@);
        }
    }

    /// A copy of the user with the environment of the options, where they
    /// name one.
    pub fn get_normalized_user_copy(&self, user: &StatsigUser) -> (r: StatsigUser)
        ensures
            r@ == normalized(user@, self.environment()),
    {
        let mut normalized_user = user.duplicate();
        if let Some(env) = &self.options.environment {
            normalized_user.statsig_environment = Some(copy_pairs(env));
        }
        normalized_user
    }
}

} // verus!
