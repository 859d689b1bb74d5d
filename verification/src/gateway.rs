use vstd::prelude::*;
use std::time::{Instant, SystemTime};
use crate::ctxt::{instance_ports, DaemonCtxt};
use crate::engine::{
    EngineInstance, EngineRequestResponderHandle, EngineState, PendingEngineRequest, PendingEngineRequestId,
};
use crate::config::EngineKind;
use crate::text::{decimal, push_decimal, push_text, str_equal, string_of};

verus! {

/// A model as the OpenAI-compatible `/v1/models` endpoint lists it.
pub struct ModelObject {
    pub id: String,
    pub owned_by: String,
    pub created: u64,
    pub max_model_len: usize,
}

/// The answer of the `/v1/models` endpoint.
pub struct ModelsResponse {
    pub data: Vec<ModelObject>,
}

/// The name under which an engine kind owns its models.
pub open spec fn engine_kind_name(kind: EngineKind) -> Seq<char> {
    match kind {
        EngineKind::Vllm => "vllm"@,
    }
}

/// Whether an instance is running.
pub open spec fn is_running(e: EngineInstance) -> bool {
    e.engine_state == EngineState::Running
}

/// Whether `i` is the first running instance serving the model `name`.
pub open spec fn is_first_running(instances: Seq<EngineInstance>, name: Seq<char>, i: int) -> bool {
    &&& 0 <= i < instances.len()
    &&& instances[i].model_config.name@ == name
    &&& is_running(instances[i])
    &&& forall|j: int| 0 <= j < i ==> !(instances[j].model_config.name@ == name && is_running(#[trigger] instances[j]))
}

/// Whether some running instance serves the model `name`.
pub open spec fn has_running(instances: Seq<EngineInstance>, name: Seq<char>) -> bool {
    exists|i: int| 0 <= i < instances.len() && instances[i].model_config.name@ == name && is_running(#[trigger] instances[i])
}

/// The address of the engine on `port`.
pub open spec fn engine_authority_spec(port: u16) -> Seq<char> {
    "127.0.0.1:"@ + decimal(port as nat)
}

/// The answer to a request for a model that no engine serves.
pub open spec fn model_not_loaded_spec(model: Seq<char>) -> Seq<char> {
    "model `"@ + model + "` not loaded"@
}

/// The address of the engine on `port`.
pub fn engine_authority(port: u16) -> (authority: String)
    ensures
        authority@ == engine_authority_spec(port),
{
    let mut authority = string_of("127.0.0.1:");
    push_decimal(&mut authority, port as u128);
    authority
}

/// The answer to a request for a model that no engine serves.
pub fn model_not_loaded_message(model: &str) -> (msg: String)
    ensures
        msg@ == model_not_loaded_spec(model@),
{
    let mut msg = string_of("model `");
    push_text(&mut msg, model);
    push_text(&mut msg, "` not loaded");
    msg
}

impl DaemonCtxt {
    /// The running models, in the order of their instances.
    pub fn models_response(&self) -> (response: ModelsResponse)
        ensures
            ({
                let running = self.engine_instances@.filter(|e: EngineInstance| is_running(e));
                &&& response.data@.len() == running.len()
                &&& forall|k: int| 0 <= k < running.len() ==> {
                    let d = #[trigger] response.data@[k];
                    let e = running[k];
                    &&& d.id@ == e.model_config.name@
                    &&& d.owned_by@ == engine_kind_name(e.engine_config.kind)
                    &&& d.created == 0
                    &&& d.max_model_len == e.model_config.max_context_tokens
                }
            }),
    {
        let ghost pred = |e: EngineInstance| is_running(e);
        let mut data: Vec<ModelObject> = Vec::new();
        let mut i: usize = 0;
        while i < self.engine_instances.len()
            invariant
                0 <= i <= self.engine_instances.len(),
                pred == (|e: EngineInstance| is_running(e)),
                data@.len() == self.engine_instances@.take(i as int).filter(pred).len(),
                forall|k: int| 0 <= k < data@.len() ==> {
                    let d = #[trigger] data@[k];
                    let e = self.engine_instances@.take(i as int).filter(pred)[k];
                    &&& d.id@ == e.model_config.name@
                    &&& d.owned_by@ == engine_kind_name(e.engine_config.kind)
                    &&& d.created == 0
                    &&& d.max_model_len == e.model_config.max_context_tokens
                },
            decreases self.engine_instances.len() - i,
        {
            let e = &self.engine_instances[i];
            proof {
                assert(self.engine_instances@.take(i as int + 1) =~= self.engine_instances@.take(i as int).push(*e));
                self.engine_instances@.take(i as int).lemma_filter_push(*e, pred);
            }
            if e.engine_state == EngineState::Running {
                let owned_by = match e.engine_config.kind {
                    EngineKind::Vllm => string_of("vllm"),
                };
                data.push(ModelObject {
                    id: e.model_config.name.clone(),
                    owned_by,
                    created: 0,
                    max_model_len: e.model_config.max_context_tokens,
                });
            }
            i = i + 1;
        }
        proof {
            assert(self.engine_instances@.take(self.engine_instances.len() as int) =~= self.engine_instances@);
        }
        ModelsResponse { data }
    }

    /// Routes a request for the model `model` to the first running instance
    /// serving it, and records the request as pending there, started at
    /// `now`. None when no running instance serves the model.
    pub fn route_engine_request(&mut self, model: &str, start_time: Instant, now: SystemTime) -> (handle: Option<EngineRequestResponderHandle>)
        requires
            old(self).wf(),
        ensures
            final(self).wf(),
            final(self).reserved_ports == old(self).reserved_ports,
            final(self).loaded_config == old(self).loaded_config,
            final(self).config_file_path == old(self).config_file_path,
            match handle {
                None => {
                    &&& !has_running(old(self).engine_instances@, model@)
                    &&& *final(self) == *old(self)
                },
                Some(h) => exists|i: int| #![trigger is_first_running(old(self).engine_instances@, model@, i)] {
                    let e = old(self).engine_instances@[i];
                    &&& is_first_running(old(self).engine_instances@, model@, i)
                    &&& h.engine_port == e.engine_port
                    &&& h.request_id.0 == old(self).next_request_id
                    &&& h.request.start_time == start_time
                    &&& final(self).next_request_id == (if old(self).next_request_id == u64::MAX { 0 } else { (old(self).next_request_id + 1) as u64 })
                    &&& final(self).engine_instances@.len() == old(self).engine_instances@.len()
                    &&& forall|j: int| 0 <= j < final(self).engine_instances@.len() && j != i ==> final(self).engine_instances@[j] == old(self).engine_instances@[j]
                    &&& final(self).engine_instances@[i].engine_port == e.engine_port
                    &&& final(self).engine_instances@[i].model_config == e.model_config
                    &&& final(self).engine_instances@[i].engine_state == e.engine_state
                    &&& final(self).engine_instances@[i].engine_activity.pending_engine_requests@
                        == e.engine_activity.pending_engine_requests@.insert(h.request_id.0, h.request)
                    &&& final(self).engine_instances@[i].engine_activity.latest_request_start_time == Some(now)
                    &&& final(self).engine_instances@[i].engine_activity.latest_response_end_time
                        == e.engine_activity.latest_response_end_time
                },
            },
    {
        let mut i: usize = 0;
        while i < self.engine_instances.len()
            invariant
                0 <= i <= self.engine_instances.len(),
                *self == *old(self),
                self.wf(),
                forall|j: int| 0 <= j < i ==> !(self.engine_instances@[j].model_config.name@ == model@ && is_running(#[trigger] self.engine_instances@[j])),
            decreases self.engine_instances.len() - i,
        {
            if str_equal(self.engine_instances[i].model_name(), model) && self.engine_instances[i].engine_state == EngineState::Running {
                let id = PendingEngineRequestId::new(&mut self.next_request_id);
                let request = PendingEngineRequest { start_time };
                let ghost before = self.engine_instances@;
                let mut e = self.engine_instances.remove(i);
                e.engine_activity.begin_request(id, request, now);
                let engine_port = e.engine_port;
                self.engine_instances.insert(i, e);
                proof {
                    assert(self.engine_instances@ =~= before.update(i as int, e));
                    assert(instance_ports(self.engine_instances@) =~= instance_ports(before));
                    assert forall|p: u16| #[trigger] self.reserved_ports@.contains(p) implies !instance_ports(self.engine_instances@).contains(p) by {
                        assert(old(self).reserved_ports@.contains(p));
                        assert(!instance_ports(old(self).engine_instances@).contains(p));
                    }
                    assert(is_first_running(old(self).engine_instances@, model@, i as int));
                }
                return Some(EngineRequestResponderHandle { request_id: id, engine_port, request });
            }
            i = i + 1;
        }
        None
    }

    /// The response to a routed request has ended at `now`: the request is no
    /// longer pending on the instance on the handle's port, if it is still there.
    pub fn complete_engine_request(&mut self, handle: EngineRequestResponderHandle, now: SystemTime)
        requires
            old(self).wf(),
        ensures
            final(self).wf(),
            final(self).reserved_ports == old(self).reserved_ports,
            final(self).loaded_config == old(self).loaded_config,
            final(self).config_file_path == old(self).config_file_path,
            final(self).next_request_id == old(self).next_request_id,
            final(self).engine_instances@.len() == old(self).engine_instances@.len(),
            forall|j: int| 0 <= j < old(self).engine_instances@.len() ==> {
                let e = old(self).engine_instances@[j];
                let f = #[trigger] final(self).engine_instances@[j];
                if e.engine_port == handle.engine_port {
                    &&& f.engine_port == e.engine_port
                    &&& f.model_config == e.model_config
                    &&& f.engine_state == e.engine_state
                    &&& f.engine_activity.pending_engine_requests@ == e.engine_activity.pending_engine_requests@.remove(handle.request_id.0)
                    &&& f.engine_activity.latest_response_end_time == Some(now)
                    &&& f.engine_activity.latest_request_start_time == e.engine_activity.latest_request_start_time
                } else {
                    f == e
                }
            },
    {
        let mut i: usize = 0;
        while i < self.engine_instances.len()
            invariant
                0 <= i <= self.engine_instances.len(),
                *self == *old(self),
                self.wf(),
                forall|j: int| 0 <= j < i ==> self.engine_instances@[j].engine_port != handle.engine_port,
            decreases self.engine_instances.len() - i,
        {
            if self.engine_instances[i].engine_port == handle.engine_port {
                let ghost before = self.engine_instances@;
                let mut e = self.engine_instances.remove(i);
                e.engine_activity.end_request(handle.request_id, now);
                self.engine_instances.insert(i, e);
                proof {
                    assert(self.engine_instances@ =~= before.update(i as int, e));
                    assert(instance_ports(self.engine_instances@) =~= instance_ports(before));
                    assert forall|p: u16| #[trigger] self.reserved_ports@.contains(p) implies !instance_ports(self.engine_instances@).contains(p) by {
                        assert(old(self).reserved_ports@.contains(p));
                    }
                    assert forall|j: int| 0 <= j < before.len() && j != i implies before[j].engine_port != handle.engine_port by {
                        if j > i {
                            assert(instance_ports(before)[j] != instance_ports(before)[i as int]);
                        }
                    }
                }
                return;
            }
            i = i + 1;
        }
    }
}

} // verus!
