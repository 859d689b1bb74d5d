use std::time::{Instant, SystemTime};

use mll::config::{Config, Engine, EngineKind, MemoryRequirement, MemorySpec, Model};
use mll::ctxt::DaemonCtxt;
use mll::daemon::{exit_log_text, output_log_text, EngineStartupMonitor};
use mll::engine::{EngineState, OutputStream};
use mll::ipc::{
    Completion, ConfigWarning, EngineStartupFailureReason, LoadError, LoadMilestone, LoadProgress, LoadRequestError,
    ModelState, UnloadRequestError,
};

fn model(name: &str, engine: &str) -> Model {
    Model {
        name: name.to_owned(),
        engine: engine.to_owned(),
        path: format!("/models/{}", name),
        gpu_memory: MemoryRequirement::Absolute(MemorySpec { gib_bits: None, mib_bits: None, kib_bits: None, bytes: Some(1024) }),
        max_context_tokens: 8192,
        engine_args: vec!["--enforce-eager".to_owned()],
    }
}

fn config() -> Config {
    Config {
        daemon_port: 8000,
        engine_base_port: None,
        logs_dir_path: Some("/var/log/mll".to_owned()),
        engines: vec![Engine { name: "vllm".to_owned(), kind: EngineKind::Vllm, path: "/opt/vllm/bin/vllm".to_owned() }],
        models: vec![model("qwen", "vllm"), model("llama", "vllm"), model("orphan", "missing")],
    }
}

fn ctxt() -> DaemonCtxt {
    DaemonCtxt::new("/etc/mll/mll.toml".to_owned(), config())
}

#[test]
fn load_of_unknown_model_is_refused() {
    let mut dcx = ctxt();
    assert!(matches!(dcx.prepare_load("nope"), Err(LoadRequestError::UnknownModel)));
    assert!(dcx.reserved_ports.is_empty());
}

#[test]
fn load_with_missing_engine_is_refused_with_message() {
    let mut dcx = ctxt();
    match dcx.prepare_load("orphan") {
        Err(LoadRequestError::BadConfig { msg }) => {
            assert_eq!("cannot find engine `missing` referenced by model `orphan`", msg);
        }
        _ => panic!("expected a bad configuration"),
    }
    assert!(dcx.reserved_ports.is_empty());
}

#[test]
fn load_plan_holds_command_line_and_log_path() {
    let mut dcx = ctxt();
    let plan = match dcx.prepare_load("qwen") {
        Ok(plan) => plan,
        _ => panic!("expected a plan"),
    };
    assert_eq!(8001, plan.port_reservation.port());
    assert_eq!(vec![8001], dcx.reserved_ports);
    assert_eq!("/opt/vllm/bin/vllm", plan.program);
    assert_eq!(
        vec!["serve", "/models/qwen", "--served-model-name=qwen", "--port=8001", "--max-model-len=8192", "--enforce-eager"],
        plan.args
    );
    assert_eq!("/var/log/mll/qwen.log", plan.log_file_path);
    match plan.invoked_milestone() {
        LoadProgress::Milestone(LoadMilestone::Invoked { cwd, program, args, envs }) => {
            assert!(cwd.is_none());
            assert_eq!("/opt/vllm/bin/vllm", program);
            assert_eq!(6, args.len());
            assert!(envs.is_empty());
        }
        _ => panic!("expected the invocation milestone"),
    }
}

#[test]
fn registered_model_is_loading_then_loaded_then_refused_again() {
    let mut dcx = ctxt();
    let plan = match dcx.prepare_load("qwen") { Ok(p) => p, _ => panic!() };
    let port = dcx.register_engine_instance(plan);
    assert_eq!(8001, port);
    assert!(dcx.reserved_ports.is_empty());
    assert!(matches!(dcx.models_overview().models[0].model_state, ModelState::Loading));
    assert!(matches!(dcx.prepare_load("qwen"), Err(LoadRequestError::AlreadyLoadedModel)));
    assert!(dcx.mark_engine_running(port, Some(4242)));
    let overview = dcx.models_overview();
    assert_eq!("qwen", overview.models[0].name);
    assert_eq!(8192, overview.models[0].max_context_tokens);
    match &overview.models[0].model_state {
        ModelState::Loaded(loaded) => {
            assert_eq!(0, loaded.model_activity.pending_requests_count);
            assert!(loaded.model_activity.latest_response_end_time.is_none());
        }
        _ => panic!("expected a loaded model"),
    }
    assert!(matches!(overview.models[1].model_state, ModelState::NotLoaded));
}

#[test]
fn second_load_gets_the_next_port() {
    let mut dcx = ctxt();
    let p1 = match dcx.prepare_load("qwen") { Ok(p) => p, _ => panic!() };
    let p2 = match dcx.prepare_load("llama") { Ok(p) => p, _ => panic!() };
    assert_eq!(8001, p1.port_reservation.port());
    assert_eq!(8002, p2.port_reservation.port());
    dcx.abort_load(p1);
    assert_eq!(vec![8002], dcx.reserved_ports);
    let p3 = match dcx.prepare_load("qwen") { Ok(p) => p, _ => panic!() };
    assert_eq!(8001, p3.port_reservation.port());
}

#[test]
fn unload_variants() {
    let mut dcx = ctxt();
    assert!(matches!(dcx.begin_unload("qwen", false), Err(UnloadRequestError::ModelNotLoaded)));

    let plan = match dcx.prepare_load("qwen") { Ok(p) => p, _ => panic!() };
    dcx.register_engine_instance(plan);
    assert!(matches!(dcx.begin_unload("qwen", false), Err(UnloadRequestError::ModelLoading)));
    assert!(dcx.engine_instances.is_empty());

    let plan = match dcx.prepare_load("qwen") { Ok(p) => p, _ => panic!() };
    let port = dcx.register_engine_instance(plan);
    dcx.mark_engine_running(port, None);
    let handle = dcx.route_engine_request("qwen", Instant::now(), SystemTime::now()).expect("routed");
    assert_eq!(port, handle.engine_port);
    assert!(matches!(dcx.begin_unload("qwen", false), Err(UnloadRequestError::ModelPendingRequests)));
    assert_eq!(1, dcx.engine_instances.len());
    match dcx.begin_unload("qwen", true) {
        Ok(instance) => {
            assert!(instance.engine_state == EngineState::Stopping);
            assert_eq!("qwen", instance.model_name());
        }
        _ => panic!("expected the instance"),
    }
    assert!(dcx.engine_instances.is_empty());
}

#[test]
fn pending_requests_are_counted_and_completed() {
    let mut dcx = ctxt();
    assert!(dcx.route_engine_request("qwen", Instant::now(), SystemTime::now()).is_none());
    let plan = match dcx.prepare_load("qwen") { Ok(p) => p, _ => panic!() };
    let port = dcx.register_engine_instance(plan);
    assert!(dcx.route_engine_request("qwen", Instant::now(), SystemTime::now()).is_none(), "not routed while starting");
    dcx.mark_engine_running(port, None);
    let h1 = dcx.route_engine_request("qwen", Instant::now(), SystemTime::now()).unwrap();
    let h2 = dcx.route_engine_request("qwen", Instant::now(), SystemTime::now()).unwrap();
    assert_ne!(h1.request_id, h2.request_id);
    match &dcx.models_overview().models[0].model_state {
        ModelState::Loaded(l) => assert_eq!(2, l.model_activity.pending_requests_count),
        _ => panic!(),
    }
    dcx.complete_engine_request(h1, SystemTime::now());
    dcx.complete_engine_request(h2, SystemTime::now());
    match &dcx.models_overview().models[0].model_state {
        ModelState::Loaded(l) => {
            assert_eq!(0, l.model_activity.pending_requests_count);
            assert!(l.model_activity.latest_response_end_time.is_some());
        }
        _ => panic!(),
    }
    assert!(!dcx.engine_instances[0].engine_activity.has_pending_requests());
    assert!(dcx.begin_unload("qwen", false).is_ok());
}

#[test]
fn failed_startup_removes_the_starting_instance() {
    let mut dcx = ctxt();
    let plan = match dcx.prepare_load("qwen") { Ok(p) => p, _ => panic!() };
    dcx.register_engine_instance(plan);
    dcx.remove_engine_instances_in_state("qwen", EngineState::Running);
    assert_eq!(1, dcx.engine_instances.len());
    dcx.remove_engine_instances_in_state("qwen", EngineState::Starting);
    assert!(dcx.engine_instances.is_empty());
    assert!(matches!(dcx.models_overview().models[0].model_state, ModelState::NotLoaded));
}

#[test]
fn reload_keeps_the_daemon_port_and_warns() {
    let mut dcx = ctxt();
    let mut new_config = config();
    new_config.daemon_port = 9000;
    new_config.engine_base_port = Some(9100);
    let warnings = dcx.apply_reloaded_config(new_config);
    assert_eq!(1, warnings.len());
    assert!(warnings[0] == ConfigWarning::PortChangeRequiresRestart);
    assert_eq!(8000, dcx.loaded_config.daemon_port);
    assert_eq!(Some(9100), dcx.loaded_config.engine_base_port);
    let warnings = dcx.apply_reloaded_config(config());
    assert!(warnings.is_empty());
    assert_eq!(8000, dcx.get_config_response().config.daemon_port);
    assert_eq!(3, dcx.get_config_response().config.models.len());
}

#[test]
fn startup_monitor_classifies_failures() {
    let mut monitor = EngineStartupMonitor::new();
    let step = monitor.on_stdout_line("INFO loading weights".to_owned());
    assert!(monitor.failure_reason.is_none());
    assert_eq!("stdout: INFO loading weights\n", step.log_text);
    assert!(!step.startup_complete);
    monitor.on_stdout_line("ERROR No available memory for the cache blocks.".to_owned());
    assert!(monitor.failure_reason == Some(EngineStartupFailureReason::GpuMemReservationInsufficientForModel));
    monitor.on_stdout_line("No available memory for the cache blocks. but no error tag".to_owned());
    assert!(monitor.failure_reason == Some(EngineStartupFailureReason::GpuMemReservationInsufficientForModel));
    monitor.on_stdout_line("ERROR Free memory on device (1.0/80.0 GiB) on startup is less than desired GPU memory utilization (0.9)".to_owned());
    assert!(monitor.failure_reason == Some(EngineStartupFailureReason::InsufficientGpuMemAvailableForReservation));
    monitor.on_stdout_line("ERROR To serve at least one request with the models's max seq len (8192), 1 GiB KV cache is needed, which is larger than the available KV cache memory".to_owned());
    assert!(monitor.failure_reason == Some(EngineStartupFailureReason::GpuMemReservationInsufficientForContext));
    monitor.on_stdout_line("ERROR Failed to load model - not enough GPU memory.".to_owned());
    assert!(monitor.failure_reason == Some(EngineStartupFailureReason::InsufficientGpuMemAvailableForReservation));
    match monitor.on_exit(Some(1)).progress {
        LoadProgress::Completion(Completion::Failure(LoadError::ProcessExit { exit_code, reason })) => {
            assert_eq!(Some(1), exit_code);
            assert!(reason == Some(EngineStartupFailureReason::InsufficientGpuMemAvailableForReservation));
        }
        _ => panic!(),
    }
}

#[test]
fn startup_completes_on_the_stderr_marker() {
    let monitor = EngineStartupMonitor::new();
    assert!(!monitor.on_stderr_line("INFO Started server process".to_owned()).startup_complete);
    let step = monitor.on_stderr_line("INFO:     Application startup complete.".to_owned());
    assert!(step.startup_complete);
    assert_eq!("stderr: INFO:     Application startup complete.\n", step.log_text);
}

#[test]
fn log_texts() {
    assert_eq!("process exited with exit code 1\n", exit_log_text(Some(1)));
    assert_eq!("process exited with exit code -9\n", exit_log_text(Some(-9)));
    assert_eq!("process exited with unknown exit code\n", exit_log_text(None));
    assert_eq!("stderr: x\n", output_log_text(OutputStream::Stderr, "x"));
}

#[test]
fn load_readiness_and_port_availability() {
    let mut dcx = ctxt();
    assert!(dcx.load_is_ready_exec("qwen"));
    assert!(!dcx.load_is_ready_exec("orphan"));
    assert!(!dcx.load_is_ready_exec("nope"));
    assert!(dcx.has_available_port());
    dcx.loaded_config.engine_base_port = Some(65535);
    assert!(dcx.has_available_port());
    let r = dcx.next_available_port();
    assert_eq!(65535, r.port());
    assert!(!dcx.has_available_port());
    dcx.release_port(r);
    assert!(dcx.has_available_port());
    dcx.loaded_config.engine_base_port = None;
    dcx.loaded_config.daemon_port = 65535;
    assert!(!dcx.has_available_port());
}
