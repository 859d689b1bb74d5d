use std::time::{Instant, SystemTime};

use mll::config::{Config, Engine, EngineKind, MemoryRequirement, MemorySpec, Model, DEFAULT_LOGS_DIR_PATH};
use mll::ctxt::DaemonCtxt;
use mll::engine::{
    EngineActivity, EngineInstance, EngineState, LogWriteGate, PendingEngineRequest, PendingEngineRequestId,
};
use mll::gateway::{engine_authority, model_not_loaded_message};
use mll::host::{process_owner, GpuAllocation, GpuAllocationOwner, GpuDevice, GpuMonitoringSnapshot};
use mll::ipc::{self, frame_message, SendGate, SendOutcome};
use mll::launch::opencode_config;
use mll::text::{contains, join_path};

fn model(name: &str) -> Model {
    Model {
        name: name.to_owned(),
        engine: "vllm".to_owned(),
        path: format!("/models/{}", name),
        gpu_memory: MemoryRequirement::Relative { pct_bits: 0.9f64.to_bits() },
        max_context_tokens: 32768,
        engine_args: vec![],
    }
}

fn config() -> Config {
    Config {
        daemon_port: 7000,
        engine_base_port: None,
        logs_dir_path: None,
        engines: vec![Engine { name: "vllm".to_owned(), kind: EngineKind::Vllm, path: "vllm".to_owned() }],
        models: vec![model("qwen"), model("llama")],
    }
}

#[test]
fn config_defaults() {
    let mut c = config();
    assert_eq!(7001, c.engine_base_port());
    assert_eq!(DEFAULT_LOGS_DIR_PATH, c.logs_dir_path());
    assert_eq!("/tmp/mlld/logs", c.logs_dir_path());
    c.engine_base_port = Some(9000);
    c.logs_dir_path = Some("/logs".to_owned());
    assert_eq!(9000, c.engine_base_port());
    assert_eq!("/logs", c.logs_dir_path());
}

#[test]
fn memory_spec_total() {
    let spec = MemorySpec { gib_bits: None, mib_bits: None, kib_bits: None, bytes: Some(10) };
    assert_eq!(10, spec.total_bytes(None, None, None));
    assert_eq!(1024 + 2048 + 15 + 10, spec.total_bytes(Some(1024), Some(2048), Some(15)));
}

#[test]
fn ports_are_reserved_until_released() {
    let mut dcx = DaemonCtxt::new("/etc/mll/mll.toml".to_owned(), config());
    let r1 = dcx.next_available_port();
    let r2 = dcx.next_available_port();
    assert_eq!(7001, r1.port());
    assert_eq!(7002, r2.port());
    dcx.release_port(r1);
    let r3 = dcx.next_available_port();
    assert_eq!(7001, r3.port());
    assert_eq!(vec![7002, 7001], dcx.reserved_ports);
    assert!(dcx.model_engine_instance("qwen").is_none());
}

#[test]
fn request_ids_wrap() {
    let mut next = u64::MAX;
    let id = PendingEngineRequestId::new(&mut next);
    assert_eq!(PendingEngineRequestId(u64::MAX), id);
    assert_eq!(0, next);
    let id = PendingEngineRequestId::new(&mut next);
    assert_eq!(PendingEngineRequestId(0), id);
    assert_eq!(1, next);
}

#[test]
fn activity_round_trip() {
    let mut activity = EngineActivity::new();
    assert!(!activity.has_pending_requests());
    let request = PendingEngineRequest { start_time: Instant::now() };
    let _ = request.elapsed_since_start();
    activity.begin_request(PendingEngineRequestId(7), request, SystemTime::now());
    assert!(activity.has_pending_requests());
    assert_eq!(1, activity.pending_requests_count());
    assert!(activity.latest_request_start_time.is_some());
    activity.end_request(PendingEngineRequestId(7), SystemTime::now());
    assert!(!activity.has_pending_requests());
    assert!(activity.latest_response_end_time.is_some());
}

#[test]
fn gates() {
    let mut gate = LogWriteGate::new();
    assert!(gate.should_write());
    gate.record(true);
    assert!(gate.should_write());
    gate.record(false);
    assert!(!gate.should_write());
    gate.record(true);
    assert!(!gate.should_write());

    let mut send = SendGate::new();
    send.record(SendOutcome::IoFailed);
    send.record(SendOutcome::SerializationFailed);
    assert!(send.should_send());
    send.record(SendOutcome::BrokenPipe);
    assert!(!send.should_send());
    send.record(SendOutcome::Sent);
    assert!(!send.should_send());
}

#[test]
fn framing_appends_one_line_break() {
    assert_eq!("{\"action\":\"get_models\"}\n", frame_message("{\"action\":\"get_models\"}".to_owned()));
    assert_eq!("\n", frame_message(String::new()));
}

#[test]
fn gateway_texts() {
    assert_eq!("127.0.0.1:8001", engine_authority(8001));
    assert_eq!("model `qwen` not loaded", model_not_loaded_message("qwen"));
}

#[test]
fn models_endpoint_lists_running_models() {
    let mut dcx = DaemonCtxt::new("/etc/mll/mll.toml".to_owned(), config());
    let plan = match dcx.prepare_load("qwen") { Ok(p) => p, _ => panic!() };
    let port = dcx.register_engine_instance(plan);
    let plan = match dcx.prepare_load("llama") { Ok(p) => p, _ => panic!() };
    dcx.register_engine_instance(plan);
    assert!(dcx.models_response().data.is_empty());
    dcx.mark_engine_running(port, Some(99));
    let response = dcx.models_response();
    assert_eq!(1, response.data.len());
    assert_eq!("qwen", response.data[0].id);
    assert_eq!("vllm", response.data[0].owned_by);
    assert_eq!(0, response.data[0].created);
    assert_eq!(32768, response.data[0].max_model_len);

    assert!(matches!(process_owner(&dcx.engine_instances, 99), GpuAllocationOwner::EngineInstance { ref model_name } if model_name == "qwen"));
    assert!(matches!(process_owner(&dcx.engine_instances, 100), GpuAllocationOwner::Other { process_id: 100 }));
}

#[test]
fn gpu_snapshot() {
    let instances: Vec<EngineInstance> = vec![EngineInstance {
        engine_config: Engine { name: "vllm".to_owned(), kind: EngineKind::Vllm, path: "vllm".to_owned() },
        model_config: model("qwen"),
        log_file_path: "/tmp/qwen.log".to_owned(),
        engine_port: 7001,
        engine_state: EngineState::Running,
        engine_process_id: Some(5),
        engine_activity: EngineActivity::new(),
    }];
    let mut snapshot = GpuMonitoringSnapshot::new(Instant::now());
    assert!(GpuMonitoringSnapshot::is_fresh(0));
    assert!(!GpuMonitoringSnapshot::is_fresh(1));
    snapshot.record_device(GpuDevice { index: 0, name: "H100".to_owned(), total_memory_bytes: 8, free_memory_bytes: 4, reserved_memory_bytes: 1, used_memory_bytes: 3 });
    assert!(snapshot.record_process(&instances, 0, 5, Some(100)));
    assert!(snapshot.record_process(&instances, 0, 6, Some(200)));
    assert!(!snapshot.record_process(&instances, 0, 7, None));
    assert_eq!(2, snapshot.gpu_allocations.len());
    let own: Vec<&GpuAllocation> = snapshot.model_gpu_allocations("qwen");
    assert_eq!(1, own.len());
    assert_eq!(100, own[0].memory_bytes);
    let usage = snapshot.to_usage();
    assert_eq!(1, usage.gpu_devices.len());
    assert!(matches!(usage.gpu_allocations[0].owner, ipc::GpuAllocationOwner::Model { ref model_name } if model_name == "qwen"));
    assert!(matches!(usage.gpu_allocations[1].owner, ipc::GpuAllocationOwner::Other { process_id: 6 }));
}

#[test]
fn opencode_configuration() {
    let oc = opencode_config(&config());
    assert_eq!("https://opencode.ai/config.json", oc.schema);
    assert_eq!(1, oc.provider.len());
    let (key, provider) = &oc.provider[0];
    assert_eq!("mll", key);
    assert_eq!("@ai-sdk/openai-compatible", provider.npm);
    assert_eq!("MLL (Local)", provider.name);
    assert_eq!("http://localhost:7000/v1", provider.options.base_uri);
    assert_eq!(2, provider.models.len());
    assert_eq!("qwen", provider.models[0].0);
    let limit = provider.models[0].1.limit.as_ref().unwrap();
    assert_eq!(32768, limit.context);
    assert_eq!(65536, limit.output);
}

#[test]
fn paths_and_text() {
    assert_eq!("/var/log/qwen.log", join_path("/var/log", "qwen.log"));
    assert_eq!("/var/log/qwen.log", join_path("/var/log/", "qwen.log"));
    assert_eq!("/abs.log", join_path("/var/log", "/abs.log"));
    assert_eq!("qwen.log", join_path("", "qwen.log"));
    assert_eq!(std::path::PathBuf::from("/var/log").join("x.log").to_str().unwrap(), join_path("/var/log", "x.log"));
    assert!(contains("abc ERROR def", "ERROR"));
    assert!(!contains("abc", "abcd"));
    assert!(contains("abc", ""));
}
