use std::time::SystemTime;

use mll::ctl::{
    filter_models, load_progress_step, model_list_line, model_name_width, reload_config_step, unload_progress_step,
    usage_step, ListModelsOpts, ModelListFilter,
};
use mll::display::DurationDisplayImpreciseAgo;
use mll::host::GpuDevice;
use mll::ipc::{
    Completion, ConfigWarning, EngineStartupFailureReason, GetUsageResponse, GpuAllocation, GpuAllocationOwner, GpuUsage,
    LoadError, LoadMilestone, LoadProgress, LoadRequestError, LoadedModel, Model, ModelActivity, ModelState,
    ReloadConfigError, ReloadConfigProgress, UnloadProgress, UnloadRequestError,
};

#[test]
fn load_steps() {
    let s = load_progress_step("qwen", LoadProgress::BadRequest(LoadRequestError::UnknownModel));
    assert_eq!(("", "error: unknown model `qwen`\n", Some(1)), (s.stdout.as_str(), s.stderr.as_str(), s.exit_code));
    let s = load_progress_step("qwen", LoadProgress::BadRequest(LoadRequestError::AlreadyLoadedModel));
    assert_eq!(("model `qwen` already loaded\n", Some(0)), (s.stderr.as_str(), s.exit_code));
    let s = load_progress_step("qwen", LoadProgress::BadRequest(LoadRequestError::BadConfig { msg: "oops".to_owned() }));
    assert_eq!(("error: bad configuration: oops\n", Some(1)), (s.stderr.as_str(), s.exit_code));
    let s = load_progress_step("qwen", LoadProgress::Milestone(LoadMilestone::Invoked {
        cwd: None,
        program: "vllm".to_owned(),
        args: vec!["serve".to_owned(), "--port=8001".to_owned()],
        envs: vec![],
    }));
    assert_eq!(("invoking engine \"vllm\" \"serve\" \"--port=8001\"\n", None), (s.stderr.as_str(), s.exit_code));
    let s = load_progress_step("qwen", LoadProgress::Milestone(LoadMilestone::WeightsLoaded));
    assert_eq!(("", "", None), (s.stdout.as_str(), s.stderr.as_str(), s.exit_code));
    let s = load_progress_step("qwen", LoadProgress::StdoutLine { line: "hello".to_owned() });
    assert_eq!(("engine: hello\n", "", None), (s.stdout.as_str(), s.stderr.as_str(), s.exit_code));
    let s = load_progress_step("qwen", LoadProgress::StderrLine { line: "warn".to_owned() });
    assert_eq!(("", "engine: warn\n", None), (s.stdout.as_str(), s.stderr.as_str(), s.exit_code));
    let s = load_progress_step("qwen", LoadProgress::Completion(Completion::Success(())));
    assert_eq!(("model `qwen` loaded successfully\n", Some(0)), (s.stderr.as_str(), s.exit_code));
}

#[test]
fn load_failure_steps() {
    let s = load_progress_step("qwen", LoadProgress::Completion(Completion::Failure(LoadError::AuxFileCreate {
        path: "/tmp/x".to_owned(),
        inner_error: "denied".to_owned(),
    })));
    assert_eq!("failed to load model `qwen`: cannot create auxiliary filesystem entry `/tmp/x`: denied\n", s.stderr);
    assert_eq!(Some(1), s.exit_code);
    let s = load_progress_step("qwen", LoadProgress::Completion(Completion::Failure(LoadError::ProcessSpawn {
        inner_error: "not found".to_owned(),
    })));
    assert_eq!("failed to load model `qwen`: cannot spawn engine process: not found\n", s.stderr);
    let s = load_progress_step("qwen", LoadProgress::Completion(Completion::Failure(LoadError::ProcessExit {
        exit_code: Some(1),
        reason: Some(EngineStartupFailureReason::GpuMemReservationInsufficientForModel),
    })));
    assert_eq!(
        "failed to load model `qwen`: the requested GPU memory reservation is insufficient to load the model weights: engine process exited with exit code 1\n",
        s.stderr
    );
    let s = load_progress_step("qwen", LoadProgress::Completion(Completion::Failure(LoadError::ProcessExit {
        exit_code: None,
        reason: None,
    })));
    assert_eq!("failed to load model `qwen`: engine process exited with unknown exit code\n", s.stderr);
}

#[test]
fn unload_steps() {
    let s = unload_progress_step("qwen", UnloadProgress::BadRequest(UnloadRequestError::ModelNotLoaded));
    assert_eq!(("error: model `qwen` not loaded\n", Some(1)), (s.stderr.as_str(), s.exit_code));
    let s = unload_progress_step("qwen", UnloadProgress::BadRequest(UnloadRequestError::ModelLoading));
    assert_eq!(("model `qwen` loading\n", Some(1)), (s.stderr.as_str(), s.exit_code));
    let s = unload_progress_step("qwen", UnloadProgress::BadRequest(UnloadRequestError::ModelPendingRequests));
    assert_eq!(("model `qwen` has pending requests: use the `--force` flag to override\n", Some(1)), (s.stderr.as_str(), s.exit_code));
    let s = unload_progress_step("qwen", UnloadProgress::StdoutLine { line: "bye".to_owned() });
    assert_eq!(("engine: bye\n", None), (s.stdout.as_str(), s.exit_code));
    let s = unload_progress_step("qwen", UnloadProgress::Completion(Completion::Success(())));
    assert_eq!(("model `qwen` unloaded successfully\n", Some(0)), (s.stderr.as_str(), s.exit_code));
}

#[test]
fn reload_steps() {
    let s = reload_config_step(ReloadConfigProgress::Completion(Completion::Success((
        "/etc/mll/mll.toml".to_owned(),
        vec![ConfigWarning::PortChangeRequiresRestart],
    ))));
    assert_eq!(
        "warning: detected a change to the daemon port: this configuration change requires a daemon restart\nreloaded configuration options from `/etc/mll/mll.toml`\n",
        s.stderr
    );
    assert_eq!(Some(0), s.exit_code);
    let s = reload_config_step(ReloadConfigProgress::Completion(Completion::Failure((
        "/etc/mll/mll.toml".to_owned(),
        ReloadConfigError::Parsing { inner_error: "bad toml".to_owned() },
    ))));
    assert_eq!("error: cannot parse configuration file: bad toml\nfailed to reload configuration options from `/etc/mll/mll.toml`\n", s.stderr);
    assert_eq!(Some(1), s.exit_code);
    let s = reload_config_step(ReloadConfigProgress::Completion(Completion::Failure((
        "/etc/mll/mll.toml".to_owned(),
        ReloadConfigError::Io { inner_error: "gone".to_owned() },
    ))));
    assert_eq!("error: cannot read configuration file: gone\nfailed to reload configuration options from `/etc/mll/mll.toml`\n", s.stderr);
}

fn loaded(name: &str, pending: usize, ended: Option<SystemTime>) -> Model {
    Model {
        name: name.to_owned(),
        max_context_tokens: 4096,
        model_state: ModelState::Loaded(LoadedModel {
            model_activity: ModelActivity { pending_requests_count: pending, latest_response_end_time: ended },
        }),
    }
}

fn plain(name: &str, model_state: ModelState) -> Model {
    Model { name: name.to_owned(), max_context_tokens: 4096, model_state }
}

#[test]
fn list_filters_and_lines() {
    let models = vec![
        plain("a", ModelState::NotLoaded),
        loaded("busy", 2, None),
        loaded("idle", 0, Some(SystemTime::now())),
        plain("starting", ModelState::Loading),
    ];
    let opts = ListModelsOpts { filters: vec![ModelListFilter::Loaded], show_activity: true };
    assert!(opts.show_activity);
    let kept = filter_models(models, &opts.filters);
    assert_eq!(vec!["busy", "idle"], kept.iter().map(|m| m.name.as_str()).collect::<Vec<_>>());
    let active = filter_models(kept, &vec![ModelListFilter::Active]);
    assert_eq!(1, active.len());
    assert_eq!("busy", active[0].name);

    let models = vec![plain("a", ModelState::NotLoaded), loaded("idle", 0, Some(SystemTime::now())), plain("u", ModelState::Unloading)];
    assert!(filter_models(vec![plain("a", ModelState::NotLoaded)], &vec![ModelListFilter::Inactive]).is_empty());
    assert_eq!(4, model_name_width(&models));
    let ago = DurationDisplayImpreciseAgo(120);
    assert_eq!("a   \n", model_list_line(&models[0], 4, true, &ago));
    assert_eq!("idle   last active 2 minutes ago\n", model_list_line(&models[1], 4, true, &ago));
    assert_eq!("idle\n", model_list_line(&models[1], 4, false, &ago));
    assert_eq!("u      unloading\n", model_list_line(&models[2], 4, true, &ago));
    assert_eq!("busy   active now (2 pending requests)\n", model_list_line(&loaded("busy", 2, None), 4, true, &ago));
    assert_eq!("busy   active now (1 pending request)\n", model_list_line(&loaded("busy", 1, None), 4, true, &ago));
    assert_eq!("new    never active\n", model_list_line(&loaded("new", 0, None), 4, true, &ago));
    assert_eq!("s      loading\n", model_list_line(&plain("s", ModelState::Loading), 4, true, &ago));
    assert_eq!(0, model_name_width(&vec![]));
}

#[test]
fn usage_report() {
    let response = GetUsageResponse { gpu_usage: None };
    let s = usage_step(&response);
    assert_eq!(("", "error: cannot read resource usage metrics\n", Some(1)), (s.stdout.as_str(), s.stderr.as_str(), s.exit_code));

    let gib = 1024u64 * 1024 * 1024;
    let usage = GpuUsage {
        gpu_devices: vec![
            GpuDevice { index: 0, name: "H100".to_owned(), total_memory_bytes: 80 * gib, free_memory_bytes: 40 * gib, reserved_memory_bytes: gib / 2, used_memory_bytes: 39 * gib + gib / 2 },
            GpuDevice { index: 1, name: "A10".to_owned(), total_memory_bytes: 24 * gib, free_memory_bytes: 24 * gib, reserved_memory_bytes: 0, used_memory_bytes: 0 },
        ],
        gpu_allocations: vec![
            GpuAllocation { owner: GpuAllocationOwner::Model { model_name: "qwen".to_owned() }, gpu_index: 0, memory_bytes: 30 * gib },
            GpuAllocation { owner: GpuAllocationOwner::Other { process_id: 1234 }, gpu_index: 0, memory_bytes: 512 * 1024 * 1024 },
        ],
    };
    let s = usage_step(&GetUsageResponse { gpu_usage: Some(usage) });
    assert_eq!(Some(0), s.exit_code);
    assert_eq!(
        "GPU 0: H100 (40.0 GiB / 80.0 GiB)\n\
         qwen           30.0 GiB\n\
         other (1234)   512.0 MiB\n\
         <free>         40.0 GiB\n\
         \n\
         GPU 1: A10 (0.0 GiB / 24.0 GiB)\n\
         <free>         24.0 GiB\n",
        s.stdout
    );
}
