use vstd::prelude::*;
use crate::config::{duplicate_strings, string_views, Config, Engine, Model, ModelView};
use crate::ctxt::{
    engine_names, find_engine, find_instance, find_model, first_index, instance_names, instance_ports,
    is_first_name, lemma_first_index_unique, model_names, DaemonCtxt, PortReservation,
};
use crate::engine::{is_first_free_port, EngineActivity, EngineInstance, EngineState, OutputStream};
use crate::ipc::{
    Completion, ConfigWarning, EngineStartupFailureReason, GetConfigResponse, GetModelsResponse, LoadError,
    LoadMilestone, LoadProgress, LoadRequestError, LoadedModel, ModelActivity, ModelState, UnloadRequestError,
};
use crate::ipc::Model as ReportedModel;
use crate::text::{
    contains, contains_text, decimal, join_path, path_join, push_char, push_decimal, push_signed_decimal,
    push_text, signed_decimal, str_equal, string_of,
};

verus! {

/// The arguments an engine is started with to serve `model` on `port`.
pub open spec fn engine_args_for(model: ModelView, port: u16) -> Seq<Seq<char>> {
    seq![
        "serve"@,
        model.path,
        "--served-model-name="@ + model.name,
        "--port="@ + decimal(port as nat),
        "--max-model-len="@ + decimal(model.max_context_tokens as nat),
    ] + model.engine_args
}

/// The message of a model whose engine is not configured.
pub open spec fn missing_engine_message(engine: Seq<char>, model: Seq<char>) -> Seq<char> {
    "cannot find engine `"@ + engine + "` referenced by model `"@ + model + "`"@
}

/// Everything needed to start an engine for a model, with its port held back.
pub struct LoadPlan {
    pub model_config: Model,
    pub engine_config: Engine,
    pub port_reservation: PortReservation,
    pub logs_dir_path: String,
    pub log_file_path: String,
    pub program: String,
    pub args: Vec<String>,
}

impl LoadPlan {
    /// The milestone that reports the engine's invocation: no working
    /// directory and no environment of its own.
    pub fn invoked_milestone(&self) -> (progress: LoadProgress)
        ensures
            progress matches LoadProgress::Milestone(LoadMilestone::Invoked { cwd, program, args, envs })
                && cwd is None && program@ == self.program@ && string_views(args@) == string_views(self.args@)
                && envs@.len() == 0,
    {
        LoadProgress::Milestone(LoadMilestone::Invoked {
            cwd: None,
            program: self.program.clone(),
            args: duplicate_strings(&self.args),
            envs: Vec::new(),
        })
    }
}

impl DaemonCtxt {
    /// Whether a load of `name` gets past the request checks: the model is
    /// configured, not loaded, and its engine is configured.
    pub open spec fn load_is_ready(self, name: Seq<char>) -> bool {
        let models = self.loaded_config.models@;
        &&& model_names(models).contains(name)
        &&& !instance_names(self.engine_instances@).contains(name)
        &&& engine_names(self.loaded_config.engines@).contains(models[first_index(model_names(models), name)].engine@)
    }

    /// Whether a load of `model_name` gets past the request checks.
    pub fn load_is_ready_exec(&self, model_name: &str) -> (ready: bool)
        ensures
            ready == self.load_is_ready(model_name@),
    {
        match find_model(&self.loaded_config.models, model_name) {
            None => false,
            Some(i) => {
                proof {
                    lemma_first_index_unique(model_names(self.loaded_config.models@), model_name@, i as int);
                }
                if find_instance(&self.engine_instances, model_name).is_some() {
                    false
                } else {
                    find_engine(&self.loaded_config.engines, self.loaded_config.models[i].engine.as_str()).is_some()
                }
            },
        }
    }

    /// The configured model named `name` (meaningful when there is one).
    pub open spec fn configured_model(self, name: Seq<char>) -> Model {
        self.loaded_config.models@[first_index(model_names(self.loaded_config.models@), name)]
    }

    /// The configured engine named `name` (meaningful when there is one).
    pub open spec fn configured_engine(self, name: Seq<char>) -> Engine {
        self.loaded_config.engines@[first_index(engine_names(self.loaded_config.engines@), name)]
    }

    /// Checks a load request for `model_name` and plans the engine's start:
    /// the first configured model of that name, the first engine of the
    /// model's engine name, a reserved port, the log file in the logs
    /// directory, and the engine's command line.
    pub fn prepare_load(&mut self, model_name: &str) -> (plan: Result<LoadPlan, LoadRequestError>)
        requires
            old(self).wf(),
            old(self).load_is_ready(model_name@) ==> old(self).can_reserve_port(),
        ensures
            final(self).wf(),
            match plan {
                Err(LoadRequestError::UnknownModel) => {
                    &&& !model_names(old(self).loaded_config.models@).contains(model_name@)
                    &&& *final(self) == *old(self)
                },
                Err(LoadRequestError::AlreadyLoadedModel) => {
                    &&& model_names(old(self).loaded_config.models@).contains(model_name@)
                    &&& instance_names(old(self).engine_instances@).contains(model_name@)
                    &&& *final(self) == *old(self)
                },
                Err(LoadRequestError::BadConfig { msg }) => {
                    let model = old(self).configured_model(model_name@);
                    &&& model_names(old(self).loaded_config.models@).contains(model_name@)
                    &&& !instance_names(old(self).engine_instances@).contains(model_name@)
                    &&& !engine_names(old(self).loaded_config.engines@).contains(model.engine@)
                    &&& msg@ == missing_engine_message(model.engine@, model_name@)
                    &&& *final(self) == *old(self)
                },
                Ok(plan) => {
                    let model = old(self).configured_model(model_name@);
                    let engine = old(self).configured_engine(model.engine@);
                    let port = plan.port_reservation.spec_port();
                    let logs_dir = old(self).loaded_config.spec_logs_dir_path();
                    &&& old(self).load_is_ready(model_name@)
                    &&& plan.model_config@ == model@
                    &&& plan.engine_config@ == engine@
                    &&& is_first_free_port(old(self).loaded_config.spec_engine_base_port(), old(self).allocated_ports(), port)
                    &&& final(self).reserved_ports@ == old(self).reserved_ports@.push(port)
                    &&& final(self).engine_instances == old(self).engine_instances
                    &&& final(self).loaded_config == old(self).loaded_config
                    &&& final(self).config_file_path == old(self).config_file_path
                    &&& final(self).next_request_id == old(self).next_request_id
                    &&& plan.logs_dir_path@ == logs_dir
                    &&& plan.log_file_path@ == path_join(logs_dir, model_name@ + ".log"@)
                    &&& plan.program@ == engine.path@
                    &&& string_views(plan.args@) == engine_args_for(model@, port)
                },
            },
    {
        let model_index = match find_model(&self.loaded_config.models, model_name) {
            Some(i) => i,
            None => {
                return Err(LoadRequestError::UnknownModel);
            },
        };
        proof {
            lemma_first_index_unique(model_names(self.loaded_config.models@), model_name@, model_index as int);
        }
        if find_instance(&self.engine_instances, model_name).is_some() {
            return Err(LoadRequestError::AlreadyLoadedModel);
        }
        let model_config = self.loaded_config.models[model_index].duplicate();
        let engine_index = match find_engine(&self.loaded_config.engines, model_config.engine.as_str()) {
            Some(i) => i,
            None => {
                let mut msg = string_of("cannot find engine `");
                push_text(&mut msg, model_config.engine.as_str());
                push_text(&mut msg, "` referenced by model `");
                push_text(&mut msg, model_name);
                push_text(&mut msg, "`");
                return Err(LoadRequestError::BadConfig { msg });
            },
        };
        proof {
            lemma_first_index_unique(engine_names(self.loaded_config.engines@), model_config.engine@, engine_index as int);
        }
        let engine_config = self.loaded_config.engines[engine_index].duplicate();
        let port_reservation = self.next_available_port();
        let port = port_reservation.port();

        let logs_dir_path = self.loaded_config.logs_dir_path();
        let mut log_file_name = string_of(model_name);
        push_text(&mut log_file_name, ".log");
        let log_file_path = join_path(logs_dir_path.as_str(), log_file_name.as_str());

        let program = engine_config.path.clone();
        let mut args: Vec<String> = Vec::new();
        args.push(string_of("serve"));
        args.push(model_config.path.clone());
        let mut served_name = string_of("--served-model-name=");
        push_text(&mut served_name, model_name);
        args.push(served_name);
        let mut port_arg = string_of("--port=");
        push_decimal(&mut port_arg, port as u128);
        args.push(port_arg);
        let mut max_len_arg = string_of("--max-model-len=");
        push_decimal(&mut max_len_arg, model_config.max_context_tokens as u128);
        args.push(max_len_arg);
        let ghost fixed_args = string_views(args@);
        proof {
            assert(model_config.name@ == model_name@);
            assert(fixed_args =~= seq![
                "serve"@,
                model_config@.path,
                "--served-model-name="@ + model_config@.name,
                "--port="@ + decimal(port as nat),
                "--max-model-len="@ + decimal(model_config@.max_context_tokens as nat),
            ]);
        }
        let mut k: usize = 0;
        while k < model_config.engine_args.len()
            invariant
                0 <= k <= model_config.engine_args.len(),
                args.len() == 5 + k,
                forall|j: int| 0 <= j < 5 ==> args@[j]@ == fixed_args[j],
                fixed_args.len() == 5,
                forall|j: int| 0 <= j < k ==> args@[5 + j]@ == model_config.engine_args@[j]@,
            decreases model_config.engine_args.len() - k,
        {
            args.push(model_config.engine_args[k].clone());
            k = k + 1;
        }
        proof {
            let expected = engine_args_for(model_config@, port);
            assert forall|j: int| 0 <= j < args@.len() implies string_views(args@)[j] == expected[j] by {
                if j < 5 {
                    assert(args@[j]@ == fixed_args[j]);
                } else {
                    assert(args@[j]@ == model_config.engine_args@[j - 5]@);
                    assert(expected[j] == model_config@.engine_args[j - 5]);
                }
            }
            assert(string_views(args@) =~= expected);
        }
        Ok(LoadPlan {
            model_config,
            engine_config,
            port_reservation,
            logs_dir_path,
            log_file_path,
            program,
            args,
        })
    }

    /// Gives up a planned load: its port is released.
    pub fn abort_load(&mut self, plan: LoadPlan)
        requires
            old(self).wf(),
        ensures
            final(self).wf(),
            final(self).reserved_ports@ == old(self).reserved_ports@.filter(|p: u16| p != plan.port_reservation.spec_port()),
            final(self).engine_instances == old(self).engine_instances,
            final(self).loaded_config == old(self).loaded_config,
    {
        self.release_port(plan.port_reservation);
    }

    /// Adds the engine instance of a planned load, starting, and releases its
    /// port reservation, the port now belonging to the instance.
    pub fn register_engine_instance(&mut self, plan: LoadPlan) -> (engine_port: u16)
        requires
            old(self).wf(),
            old(self).reserved_ports@.contains(plan.port_reservation.spec_port()),
        ensures
            final(self).wf(),
            engine_port == plan.port_reservation.spec_port(),
            final(self).engine_instances@.len() == old(self).engine_instances@.len() + 1,
            final(self).engine_instances@.drop_last() == old(self).engine_instances@,
            final(self).engine_instances@.last().model_config@ == plan.model_config@,
            final(self).engine_instances@.last().engine_config@ == plan.engine_config@,
            final(self).engine_instances@.last().log_file_path@ == plan.log_file_path@,
            final(self).engine_instances@.last().engine_port == engine_port,
            final(self).engine_instances@.last().engine_state == EngineState::Starting,
            final(self).engine_instances@.last().engine_process_id is None,
            final(self).engine_instances@.last().engine_activity.pending_engine_requests@.is_empty(),
            final(self).engine_instances@.last().engine_activity.latest_request_start_time is None,
            final(self).engine_instances@.last().engine_activity.latest_response_end_time is None,
            final(self).reserved_ports@ == old(self).reserved_ports@.filter(|p: u16| p != engine_port),
            final(self).loaded_config == old(self).loaded_config,
            final(self).config_file_path == old(self).config_file_path,
            final(self).next_request_id == old(self).next_request_id,
    {
        let LoadPlan { model_config, engine_config, port_reservation, logs_dir_path: _, log_file_path, program: _, args: _ } = plan;
        let engine_port = port_reservation.port();
        let ghost before = self.engine_instances@;
        self.release_port(port_reservation);
        let instance = EngineInstance {
            engine_config,
            model_config,
            log_file_path,
            engine_port,
            engine_state: EngineState::Starting,
            engine_process_id: None,
            engine_activity: EngineActivity::new(),
        };
        self.engine_instances.push(instance);
        proof {
            assert(self.engine_instances@.drop_last() =~= before);
            let ip_old = instance_ports(before);
            let ip = instance_ports(self.engine_instances@);
            assert(ip =~= ip_old.push(engine_port));
            assert(!ip_old.contains(engine_port)) by {
                assert(old(self).reserved_ports@.contains(engine_port));
            }
            assert forall|a: int, b: int| 0 <= a < b < ip.len() implies ip[a] != ip[b] by {
                if b == ip_old.len() {
                    assert(ip_old.contains(ip[a]));
                }
            }
            assert forall|p: u16| #[trigger] self.reserved_ports@.contains(p) implies !ip.contains(p) by {
                old(self).reserved_ports@.lemma_filter_contains_rev(|q: u16| q != engine_port, p);
                assert(old(self).reserved_ports@.contains(p));
                if ip.contains(p) {
                    let k = choose|k: int| 0 <= k < ip.len() && ip[k] == p;
                    if k < ip_old.len() {
                        assert(ip_old.contains(p));
                    }
                }
            }
        }
        engine_port
    }
}

/// What an engine's startup output line says of why startup fails, given
/// what earlier lines said: error lines that match a known cause name it.
pub open spec fn failure_reason_after(
    line: Seq<char>,
    current: Option<EngineStartupFailureReason>,
) -> Option<EngineStartupFailureReason> {
    if !contains_text(line, "ERROR"@) {
        current
    } else if contains_text(line, "Free memory on device"@)
        && contains_text(line, "on startup is less than desired GPU memory utilization"@) {
        Some(EngineStartupFailureReason::InsufficientGpuMemAvailableForReservation)
    } else if contains_text(line, "Failed to load model - not enough GPU memory."@) {
        Some(EngineStartupFailureReason::InsufficientGpuMemAvailableForReservation)
    } else if contains_text(line, "No available memory for the cache blocks."@) {
        Some(EngineStartupFailureReason::GpuMemReservationInsufficientForModel)
    } else if contains_text(line, "To serve at least one request with the models's max seq len"@)
        && contains_text(line, "KV cache is needed, which is larger than the available KV cache memory"@) {
        Some(EngineStartupFailureReason::GpuMemReservationInsufficientForContext)
    } else {
        current
    }
}

/// The log text of a line an engine wrote.
pub open spec fn output_log_text_spec(stream: OutputStream, line: Seq<char>) -> Seq<char> {
    match stream {
        OutputStream::Stdout => "stdout: "@ + line + "\n"@,
        OutputStream::Stderr => "stderr: "@ + line + "\n"@,
    }
}

/// The log text of an engine's exit.
pub open spec fn exit_log_text_spec(exit_code: Option<i32>) -> Seq<char> {
    match exit_code {
        Some(code) => "process exited with exit code "@ + signed_decimal(code as int) + "\n"@,
        None => "process exited with unknown exit code\n"@,
    }
}

/// The log text of a line an engine wrote.
pub fn output_log_text(stream: OutputStream, line: &str) -> (text: String)
    ensures
        text@ == output_log_text_spec(stream, line@),
{
    let mut text = match stream {
        OutputStream::Stdout => string_of("stdout: "),
        OutputStream::Stderr => string_of("stderr: "),
    };
    push_text(&mut text, line);
    push_text(&mut text, "\n");
    text
}

/// The log text of an engine's exit.
pub fn exit_log_text(exit_code: Option<i32>) -> (text: String)
    ensures
        text@ == exit_log_text_spec(exit_code),
{
    match exit_code {
        Some(code) => {
            let mut text = string_of("process exited with exit code ");
            push_signed_decimal(&mut text, code);
            push_text(&mut text, "\n");
            text
        },
        None => string_of("process exited with unknown exit code\n"),
    }
}

/// What to do after one event of an engine that is starting.
pub struct StartupStep {
    /// The message to send to the client.
    pub progress: LoadProgress,
    /// The text to append to the engine's log.
    pub log_text: String,
    /// Whether the engine has finished starting.
    pub startup_complete: bool,
}

/// Follows the output of a starting engine.
pub struct EngineStartupMonitor {
    pub failure_reason: Option<EngineStartupFailureReason>,
}

impl EngineStartupMonitor {
    /// Nothing seen yet.
    pub fn new() -> (monitor: EngineStartupMonitor)
        ensures
            monitor.failure_reason is None,
    {
        EngineStartupMonitor { failure_reason: None }
    }

    /// A line on the engine's standard output: passed on and logged, and
    /// looked at for the cause of a failing startup.
    pub fn on_stdout_line(&mut self, line: String) -> (step: StartupStep)
        ensures
            final(self).failure_reason == failure_reason_after(line@, old(self).failure_reason),
            step.progress matches LoadProgress::StdoutLine { line: l } && l@ == line@,
            step.log_text@ == output_log_text_spec(OutputStream::Stdout, line@),
            !step.startup_complete,
    {
        let log_text = output_log_text(OutputStream::Stdout, line.as_str());
        let l = line.as_str();
        if contains(l, "ERROR") {
            if contains(l, "Free memory on device")
                && contains(l, "on startup is less than desired GPU memory utilization") {
                self.failure_reason = Some(EngineStartupFailureReason::InsufficientGpuMemAvailableForReservation);
            } else if contains(l, "Failed to load model - not enough GPU memory.") {
                self.failure_reason = Some(EngineStartupFailureReason::InsufficientGpuMemAvailableForReservation);
            } else if contains(l, "No available memory for the cache blocks.") {
                self.failure_reason = Some(EngineStartupFailureReason::GpuMemReservationInsufficientForModel);
            } else if contains(l, "To serve at least one request with the models's max seq len")
                && contains(l, "KV cache is needed, which is larger than the available KV cache memory") {
                self.failure_reason = Some(EngineStartupFailureReason::GpuMemReservationInsufficientForContext);
            }
        }
        StartupStep { progress: LoadProgress::StdoutLine { line }, log_text, startup_complete: false }
    }

    /// A line on the engine's standard error: passed on and logged; the
    /// engine has started once it reports that startup is complete.
    pub fn on_stderr_line(&self, line: String) -> (step: StartupStep)
        ensures
            step.progress matches LoadProgress::StderrLine { line: l } && l@ == line@,
            step.log_text@ == output_log_text_spec(OutputStream::Stderr, line@),
            step.startup_complete == contains_text(line@, "Application startup complete."@),
    {
        let log_text = output_log_text(OutputStream::Stderr, line.as_str());
        let startup_complete = contains(line.as_str(), "Application startup complete.");
        StartupStep { progress: LoadProgress::StderrLine { line }, log_text, startup_complete }
    }

    /// The engine exited before it finished starting: the load fails with the
    /// exit code and the cause seen in its output.
    pub fn on_exit(&self, exit_code: Option<i32>) -> (step: StartupStep)
        ensures
            step.progress matches LoadProgress::Completion(Completion::Failure(LoadError::ProcessExit { exit_code: c, reason }))
                && c == exit_code && reason == self.failure_reason,
            step.log_text@ == exit_log_text_spec(exit_code),
            !step.startup_complete,
    {
        StartupStep {
            progress: LoadProgress::Completion(Completion::Failure(LoadError::ProcessExit { exit_code, reason: self.failure_reason })),
            log_text: exit_log_text(exit_code),
            startup_complete: false,
        }
    }
}

/// Whether an instance serves the model `name` and is in `state`.
pub open spec fn instance_matches(e: EngineInstance, name: Seq<char>, state: EngineState) -> bool {
    e.model_config.name@ == name && e.engine_state == state
}

/// The ports of a filtered sequence of instances are among the unfiltered
/// ports, and stay free of repeats.
pub proof fn lemma_filter_instance_ports(s: Seq<EngineInstance>, pred: spec_fn(EngineInstance) -> bool)
    ensures
        forall|p: u16| instance_ports(s.filter(pred)).contains(p) ==> instance_ports(s).contains(p),
        instance_ports(s).no_duplicates() ==> instance_ports(s.filter(pred)).no_duplicates(),
    decreases s.len(),
{
    reveal(Seq::filter);
    if s.len() > 0 {
        let init = s.drop_last();
        lemma_filter_instance_ports(init, pred);
        assert(instance_ports(s) =~= instance_ports(init).push(s.last().engine_port));
        if pred(s.last()) {
            assert(s.filter(pred) =~= init.filter(pred).push(s.last()));
            assert(instance_ports(s.filter(pred)) =~= instance_ports(init.filter(pred)).push(s.last().engine_port));
        } else {
            assert(s.filter(pred) =~= init.filter(pred));
        }
        assert forall|p: u16| instance_ports(s.filter(pred)).contains(p) implies instance_ports(s).contains(p) by {
            if instance_ports(init.filter(pred)).contains(p) {
                assert(instance_ports(init).contains(p));
                let k = choose|k: int| 0 <= k < instance_ports(init).len() && instance_ports(init)[k] == p;
                assert(instance_ports(s)[k] == p);
            } else {
                assert(instance_ports(s)[s.len() - 1] == p);
            }
        }
        if instance_ports(s).no_duplicates() {
            assert(instance_ports(init).no_duplicates()) by {
                assert forall|a: int, b: int| 0 <= a < b < instance_ports(init).len() implies instance_ports(init)[a] != instance_ports(init)[b] by {
                    assert(instance_ports(s)[a] == instance_ports(init)[a]);
                    assert(instance_ports(s)[b] == instance_ports(init)[b]);
                }
            }
            if pred(s.last()) {
                let fp = instance_ports(s.filter(pred));
                let ip = instance_ports(init.filter(pred));
                assert(!ip.contains(s.last().engine_port)) by {
                    if ip.contains(s.last().engine_port) {
                        assert(instance_ports(init).contains(s.last().engine_port));
                        let k = choose|k: int| 0 <= k < instance_ports(init).len() && instance_ports(init)[k] == s.last().engine_port;
                        assert(instance_ports(s)[k] == instance_ports(s)[s.len() - 1]);
                    }
                }
                assert forall|a: int, b: int| 0 <= a < b < fp.len() implies fp[a] != fp[b] by {
                    if b == fp.len() - 1 {
                        assert(ip.contains(fp[a]));
                    }
                }
            }
        }
    } else {
        assert(s.filter(pred) =~= s);
    }
}

/// Removing an instance keeps the ports free of repeats, and takes no new one.
pub proof fn lemma_remove_instance_ports(s: Seq<EngineInstance>, i: int)
    requires
        0 <= i < s.len(),
    ensures
        instance_ports(s.remove(i)) == instance_ports(s).remove(i),
        forall|p: u16| instance_ports(s.remove(i)).contains(p) ==> instance_ports(s).contains(p),
        instance_ports(s).no_duplicates() ==> instance_ports(s.remove(i)).no_duplicates(),
{
    let ports = instance_ports(s);
    assert(instance_ports(s.remove(i)) =~= ports.remove(i));
    assert forall|p: u16| ports.remove(i).contains(p) implies ports.contains(p) by {
        let k = choose|k: int| 0 <= k < ports.remove(i).len() && ports.remove(i)[k] == p;
        if k < i {
            assert(ports[k] == p);
        } else {
            assert(ports[k + 1] == p);
        }
    }
    if ports.no_duplicates() {
        let r = ports.remove(i);
        assert forall|a: int, b: int| 0 <= a < b < r.len() implies r[a] != r[b] by {
            let a2 = if a < i { a } else { a + 1 };
            let b2 = if b < i { b } else { b + 1 };
            assert(r[a] == ports[a2]);
            assert(r[b] == ports[b2]);
        }
    }
}

/// The first instance serving the model `name`, if any.
pub open spec fn first_instance(instances: Seq<EngineInstance>, name: Seq<char>) -> Option<EngineInstance> {
    if instance_names(instances).contains(name) {
        Some(instances[first_index(instance_names(instances), name)])
    } else {
        None
    }
}

impl DaemonCtxt {
    /// The first instance serving the model `name`, if any.
    pub open spec fn instance_for(self, name: Seq<char>) -> Option<EngineInstance> {
        first_instance(self.engine_instances@, name)
    }

    /// Removes the instances that serve the model `model_name` and are in `state`.
    pub fn remove_engine_instances_in_state(&mut self, model_name: &str, state: EngineState)
        requires
            old(self).wf(),
        ensures
            final(self).wf(),
            final(self).engine_instances@ == old(self).engine_instances@.filter(|e: EngineInstance| !instance_matches(e, model_name@, state)),
            final(self).reserved_ports == old(self).reserved_ports,
            final(self).loaded_config == old(self).loaded_config,
            final(self).config_file_path == old(self).config_file_path,
            final(self).next_request_id == old(self).next_request_id,
    {
        let ghost pred = |e: EngineInstance| !instance_matches(e, model_name@, state);
        let ghost orig = self.engine_instances@;
        let mut rest: Vec<EngineInstance> = Vec::new();
        std::mem::swap(&mut rest, &mut self.engine_instances);
        let total = rest.len();
        let mut kept: Vec<EngineInstance> = Vec::new();
        let mut consumed: usize = 0;
        while rest.len() > 0
            invariant
                pred == (|e: EngineInstance| !instance_matches(e, model_name@, state)),
                0 <= consumed <= orig.len(),
                consumed + rest.len() == orig.len(),
                orig.len() == total,
                rest@ == orig.skip(consumed as int),
                kept@ =~= orig.take(consumed as int).filter(pred),
            decreases rest.len(),
        {
            let e = rest.remove(0);
            proof {
                assert(e == orig[consumed as int]);
                assert(orig.take(consumed as int + 1) =~= orig.take(consumed as int).push(e));
                orig.take(consumed as int).lemma_filter_push(e, pred);
                assert(rest@ =~= orig.skip(consumed as int + 1));
            }
            let matched = str_equal(e.model_name(), model_name) && e.engine_state == state;
            if !matched {
                kept.push(e);
            }
            consumed = consumed + 1;
        }
        proof {
            assert(orig.take(consumed as int) =~= orig);
            lemma_filter_instance_ports(orig, pred);
        }
        self.engine_instances = kept;
        proof {
            assert forall|p: u16| #[trigger] self.reserved_ports@.contains(p) implies !instance_ports(self.engine_instances@).contains(p) by {
                assert(old(self).reserved_ports@.contains(p));
            }
        }
    }

    /// Marks the instance on `engine_port` as running in the process
    /// `process_id`; returns whether there is one.
    pub fn mark_engine_running(&mut self, engine_port: u16, process_id: Option<u32>) -> (found: bool)
        requires
            old(self).wf(),
        ensures
            final(self).wf(),
            found == instance_ports(old(self).engine_instances@).contains(engine_port),
            found ==> exists|i: int| 0 <= i < old(self).engine_instances@.len()
                && old(self).engine_instances@[i].engine_port == engine_port
                && final(self).engine_instances@ == old(self).engine_instances@.update(i, EngineInstance {
                    engine_state: EngineState::Running,
                    engine_process_id: process_id,
                    ..old(self).engine_instances@[i]
                }),
            !found ==> final(self).engine_instances == old(self).engine_instances,
            final(self).reserved_ports == old(self).reserved_ports,
            final(self).loaded_config == old(self).loaded_config,
            final(self).config_file_path == old(self).config_file_path,
            final(self).next_request_id == old(self).next_request_id,
    {
        let mut i: usize = 0;
        while i < self.engine_instances.len()
            invariant
                0 <= i <= self.engine_instances.len(),
                *self == *old(self),
                self.wf(),
                forall|j: int| 0 <= j < i ==> self.engine_instances@[j].engine_port != engine_port,
            decreases self.engine_instances.len() - i,
        {
            if self.engine_instances[i].engine_port == engine_port {
                let ghost before = self.engine_instances@;
                let mut e = self.engine_instances.remove(i);
                e.engine_state = EngineState::Running;
                e.engine_process_id = process_id;
                self.engine_instances.insert(i, e);
                proof {
                    assert(self.engine_instances@ =~= before.update(i as int, e));
                    assert(instance_ports(self.engine_instances@) =~= instance_ports(before));
                    assert(instance_ports(before)[i as int] == engine_port);
                    assert forall|p: u16| #[trigger] self.reserved_ports@.contains(p) implies !instance_ports(self.engine_instances@).contains(p) by {
                        assert(old(self).reserved_ports@.contains(p));
                    }
                }
                return true;
            }
            i = i + 1;
        }
        proof {
            assert forall|k: int| 0 <= k < instance_ports(self.engine_instances@).len() implies instance_ports(self.engine_instances@)[k] != engine_port by {}
        }
        false
    }

    /// Takes the instance serving `model_name` out of service for unloading.
    /// A model that is not loaded, or still loading, cannot be unloaded (a
    /// loading one is dropped from the instances); nor, unless `force`, can
    /// one with pending requests. The instance taken out is stopping.
    pub fn begin_unload(&mut self, model_name: &str, force: bool) -> (result: Result<EngineInstance, UnloadRequestError>)
        requires
            old(self).wf(),
        ensures
            final(self).wf(),
            final(self).reserved_ports == old(self).reserved_ports,
            final(self).loaded_config == old(self).loaded_config,
            final(self).config_file_path == old(self).config_file_path,
            final(self).next_request_id == old(self).next_request_id,
            ({
                let names = instance_names(old(self).engine_instances@);
                let i = first_index(names, model_name@);
                let e = old(self).engine_instances@[i];
                match result {
                    Err(UnloadRequestError::ModelNotLoaded) => {
                        &&& !names.contains(model_name@)
                        &&& final(self).engine_instances == old(self).engine_instances
                    },
                    Err(UnloadRequestError::ModelLoading) => {
                        &&& names.contains(model_name@)
                        &&& e.engine_state != EngineState::Running
                        &&& final(self).engine_instances@ == old(self).engine_instances@.remove(i)
                    },
                    Err(UnloadRequestError::ModelPendingRequests) => {
                        &&& names.contains(model_name@)
                        &&& e.engine_state == EngineState::Running
                        &&& !force
                        &&& !e.engine_activity.pending_engine_requests@.is_empty()
                        &&& final(self).engine_instances == old(self).engine_instances
                    },
                    Ok(instance) => {
                        &&& names.contains(model_name@)
                        &&& e.engine_state == EngineState::Running
                        &&& (force || e.engine_activity.pending_engine_requests@.is_empty())
                        &&& final(self).engine_instances@ == old(self).engine_instances@.remove(i)
                        &&& instance == EngineInstance { engine_state: EngineState::Stopping, ..e }
                    },
                }
            }),
    {
        let i = match find_instance(&self.engine_instances, model_name) {
            Some(i) => i,
            None => {
                return Err(UnloadRequestError::ModelNotLoaded);
            },
        };
        proof {
            lemma_first_index_unique(instance_names(self.engine_instances@), model_name@, i as int);
            lemma_remove_instance_ports(self.engine_instances@, i as int);
        }
        if self.engine_instances[i].engine_state != EngineState::Running {
            self.engine_instances.remove(i);
            proof {
                assert forall|p: u16| #[trigger] self.reserved_ports@.contains(p) implies !instance_ports(self.engine_instances@).contains(p) by {
                    assert(old(self).reserved_ports@.contains(p));
                }
            }
            return Err(UnloadRequestError::ModelLoading);
        }
        if !force && self.engine_instances[i].engine_activity.has_pending_requests() {
            return Err(UnloadRequestError::ModelPendingRequests);
        }
        let mut instance = self.engine_instances.remove(i);
        instance.engine_state = EngineState::Stopping;
        proof {
            assert forall|p: u16| #[trigger] self.reserved_ports@.contains(p) implies !instance_ports(self.engine_instances@).contains(p) by {
                assert(old(self).reserved_ports@.contains(p));
            }
        }
        Ok(instance)
    }
}

/// How a configured model is reported, given the instance that serves it.
pub open spec fn reported_state_matches(state: ModelState, instance: Option<EngineInstance>) -> bool {
    match instance {
        None => state is NotLoaded,
        Some(e) => match e.engine_state {
            EngineState::Starting => state is Loading,
            EngineState::Running => state matches ModelState::Loaded(loaded)
                && loaded.model_activity.pending_requests_count == e.engine_activity.pending_engine_requests@.len()
                && loaded.model_activity.latest_response_end_time == e.engine_activity.latest_response_end_time,
            EngineState::Stopping => state is Unloading,
        },
    }
}

impl DaemonCtxt {
    /// The configured models, in order, each with where it stands.
    pub fn models_overview(&self) -> (response: GetModelsResponse)
        ensures
            response.models@.len() == self.loaded_config.models@.len(),
            forall|k: int| 0 <= k < response.models@.len() ==> {
                let m = #[trigger] response.models@[k];
                let c = self.loaded_config.models@[k];
                &&& m.name@ == c.name@
                &&& m.max_context_tokens == c.max_context_tokens
                &&& reported_state_matches(m.model_state, self.instance_for(c.name@))
            },
    {
        let mut models: Vec<ReportedModel> = Vec::new();
        let mut k: usize = 0;
        while k < self.loaded_config.models.len()
            invariant
                0 <= k <= self.loaded_config.models.len(),
                models@.len() == k,
                forall|j: int| 0 <= j < k ==> {
                    let m = #[trigger] models@[j];
                    let c = self.loaded_config.models@[j];
                    &&& m.name@ == c.name@
                    &&& m.max_context_tokens == c.max_context_tokens
                    &&& reported_state_matches(m.model_state, self.instance_for(c.name@))
                },
            decreases self.loaded_config.models.len() - k,
        {
            let config_model = &self.loaded_config.models[k];
            let model_state = match find_instance(&self.engine_instances, config_model.name.as_str()) {
                None => ModelState::NotLoaded,
                Some(i) => {
                    proof {
                        lemma_first_index_unique(instance_names(self.engine_instances@), config_model.name@, i as int);
                    }
                    let e = &self.engine_instances[i];
                    match e.engine_state {
                        EngineState::Starting => ModelState::Loading,
                        EngineState::Running => ModelState::Loaded(LoadedModel {
                            model_activity: ModelActivity {
                                pending_requests_count: e.engine_activity.pending_requests_count(),
                                latest_response_end_time: e.engine_activity.latest_response_end_time,
                            },
                        }),
                        EngineState::Stopping => ModelState::Unloading,
                    }
                },
            };
            models.push(ReportedModel {
                name: config_model.name.clone(),
                max_context_tokens: config_model.max_context_tokens,
                model_state,
            });
            k = k + 1;
        }
        GetModelsResponse { models }
    }

    /// Puts a newly read configuration in place. The daemon port cannot
    /// change while the daemon runs: it is kept, with a warning when the new
    /// configuration asks for another one.
    pub fn apply_reloaded_config(&mut self, new_config: Config) -> (warnings: Vec<ConfigWarning>)
        requires
            old(self).wf(),
        ensures
            final(self).wf(),
            final(self).loaded_config.daemon_port == old(self).loaded_config.daemon_port,
            final(self).loaded_config.engine_base_port == new_config.engine_base_port,
            final(self).loaded_config.logs_dir_path == new_config.logs_dir_path,
            final(self).loaded_config.engines == new_config.engines,
            final(self).loaded_config.models == new_config.models,
            warnings@ == (if new_config.daemon_port != old(self).loaded_config.daemon_port {
                seq![ConfigWarning::PortChangeRequiresRestart]
            } else {
                Seq::<ConfigWarning>::empty()
            }),
            final(self).engine_instances == old(self).engine_instances,
            final(self).reserved_ports == old(self).reserved_ports,
            final(self).config_file_path == old(self).config_file_path,
            final(self).next_request_id == old(self).next_request_id,
    {
        let mut warnings: Vec<ConfigWarning> = Vec::new();
        let mut new_config = new_config;
        if new_config.daemon_port != self.loaded_config.daemon_port {
            warnings.push(ConfigWarning::PortChangeRequiresRestart);
            new_config.daemon_port = self.loaded_config.daemon_port;
        }
        self.loaded_config = new_config;
        proof {
            if warnings@.len() == 0 {
                assert(warnings@ =~= Seq::<ConfigWarning>::empty());
            } else {
                assert(warnings@ =~= seq![ConfigWarning::PortChangeRequiresRestart]);
            }
        }
        warnings
    }

    /// The configuration in use.
    pub fn get_config_response(&self) -> (response: GetConfigResponse)
        ensures
            response.config@ == self.loaded_config@,
    {
        GetConfigResponse { config: self.loaded_config.duplicate() }
    }
}

/// A model whose engine instance was added cannot be loaded again: a new
/// load of it is refused as already loaded until its instance is removed.
pub proof fn lemma_registered_model_not_ready(instances: Seq<EngineInstance>, added: EngineInstance, name: Seq<char>)
    requires
        added.model_config.name@ == name,
    ensures
        instance_names(instances.push(added)).contains(name),
{
    assert(instance_names(instances.push(added))[instances.len() as int] == name);
}

/// An engine line without "ERROR" leaves the known cause of a failing
/// startup as it was; a later error line with a known cause replaces it.
pub proof fn lemma_failure_reason_only_from_error_lines(line: Seq<char>, current: Option<EngineStartupFailureReason>)
    ensures
        !contains_text(line, "ERROR"@) ==> failure_reason_after(line, current) == current,
        failure_reason_after(line, current) != current ==> failure_reason_after(line, current) is Some,
{
}

/// A model whose engine instance has just been added, starting, while no
/// other instance served it, is reported as loading.
pub proof fn lemma_added_model_reported_loading(instances: Seq<EngineInstance>, added: EngineInstance, name: Seq<char>, state: ModelState)
    requires
        !instance_names(instances).contains(name),
        added.model_config.name@ == name,
        added.engine_state == EngineState::Starting,
        reported_state_matches(state, first_instance(instances.push(added), name)),
    ensures
        state is Loading,
{
    let all = instances.push(added);
    let names = instance_names(all);
    let i = instances.len() as int;
    assert(names[i] == name);
    assert forall|j: int| 0 <= j < i implies names[j] != name by {
        assert(names[j] == instance_names(instances)[j]);
    }
    assert(is_first_name(names, name, i));
    lemma_first_index_unique(names, name, i);
}

/// An engine is started with `serve`, the model's path, its served name, the
/// port and the maximum length, followed by the model's own engine arguments,
/// all of them, in the order the configuration gives them.
pub proof fn lemma_engine_args_keep_config_order(model: ModelView, port: u16)
    ensures
        engine_args_for(model, port).len() == 5 + model.engine_args.len(),
        engine_args_for(model, port)[0] == "serve"@,
        engine_args_for(model, port)[1] == model.path,
        engine_args_for(model, port)[2] == "--served-model-name="@ + model.name,
        engine_args_for(model, port)[3] == "--port="@ + decimal(port as nat),
        engine_args_for(model, port)[4] == "--max-model-len="@ + decimal(model.max_context_tokens as nat),
        forall|k: int| 0 <= k < model.engine_args.len() ==> #[trigger] engine_args_for(model, port)[5 + k] == model.engine_args[k],
{
}

/// Dropping the instances of one model in one state keeps every instance of
/// another model, and every instance of that model in another state, and
/// leaves none of that model in that state.
pub proof fn lemma_removal_keeps_other_instances(instances: Seq<EngineInstance>, name: Seq<char>, state: EngineState)
    ensures
        forall|i: int| 0 <= i < instances.len() && (#[trigger] instances[i]).model_config.name@ != name ==>
            instances.filter(|e: EngineInstance| !instance_matches(e, name, state)).contains(instances[i]),
        forall|i: int| 0 <= i < instances.len() && (#[trigger] instances[i]).engine_state != state ==>
            instances.filter(|e: EngineInstance| !instance_matches(e, name, state)).contains(instances[i]),
        forall|e: EngineInstance| instances.filter(|e: EngineInstance| !instance_matches(e, name, state)).contains(e) ==>
            instances.contains(e) && !(e.model_config.name@ == name && e.engine_state == state),
{
    let pred = |e: EngineInstance| !instance_matches(e, name, state);
    assert forall|i: int| 0 <= i < instances.len() && (#[trigger] instances[i]).model_config.name@ != name implies
        instances.filter(pred).contains(instances[i]) by {
        instances.lemma_filter_contains(pred, i);
    }
    assert forall|i: int| 0 <= i < instances.len() && (#[trigger] instances[i]).engine_state != state implies
        instances.filter(pred).contains(instances[i]) by {
        instances.lemma_filter_contains(pred, i);
    }
    assert forall|e: EngineInstance| instances.filter(pred).contains(e) implies
        instances.contains(e) && !(e.model_config.name@ == name && e.engine_state == state) by {
        instances.lemma_filter_contains_rev(pred, e);
        let j = choose|j: int| 0 <= j < instances.filter(pred).len() && instances.filter(pred)[j] == e;
        instances.lemma_filter_pred(pred, j);
    }
}

} // verus!
