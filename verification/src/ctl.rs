use vstd::prelude::*;
use crate::display::{imprecise_ago_text, memory_text, DurationDisplayImpreciseAgo, MemoryDisplay, MemoryUnit};
use crate::ipc::{
    Completion, ConfigWarning, EngineStartupFailureReason, GetUsageResponse, GpuAllocation, GpuAllocationOwner,
    GpuUsage, LoadError, LoadMilestone, LoadProgress, LoadRequestError, Model, ModelState, ReloadConfigError,
    ReloadConfigProgress, UnloadProgress, UnloadRequestError,
};
use crate::text::{
    byte_len, decimal, pad_right, push_decimal, push_padded, push_signed_decimal, push_text, signed_decimal,
    string_of,
};

verus! {

/// What the client prints after one message from the daemon, and whether it
/// then exits, with which code.
pub struct ClientStep {
    pub stdout: String,
    pub stderr: String,
    pub exit_code: Option<i32>,
}

/// A step with the given output and exit.
pub open spec fn step_is(step: ClientStep, stdout: Seq<char>, stderr: Seq<char>, exit_code: Option<i32>) -> bool {
    &&& step.stdout@ == stdout
    &&& step.stderr@ == stderr
    &&& step.exit_code == exit_code
}

fn step(stdout: String, stderr: String, exit_code: Option<i32>) -> (s: ClientStep)
    ensures
        step_is(s, stdout@, stderr@, exit_code),
{
    ClientStep { stdout, stderr, exit_code }
}

/// The engine's arguments, each quoted and preceded by a space.
pub open spec fn quoted_args(args: Seq<String>) -> Seq<char>
    decreases args.len(),
{
    if args.len() == 0 {
        Seq::empty()
    } else {
        quoted_args(args.drop_last()) + " \""@ + args.last()@ + "\""@
    }
}

/// How a cause of a failed engine startup is explained.
pub open spec fn startup_failure_text(reason: EngineStartupFailureReason) -> Seq<char> {
    match reason {
        EngineStartupFailureReason::InsufficientGpuMemAvailableForReservation =>
            "the model requested a larger GPU memory reservation than the free GPU memory available: "@,
        EngineStartupFailureReason::GpuMemReservationInsufficientForModel =>
            "the requested GPU memory reservation is insufficient to load the model weights: "@,
        EngineStartupFailureReason::GpuMemReservationInsufficientForContext =>
            "the requested GPU memory reservation is insufficient to serve requests with the specified model context length: "@,
    }
}

/// How a failed load is explained, after "failed to load model `NAME`: ".
pub open spec fn load_error_text(error: LoadError) -> Seq<char> {
    match error {
        LoadError::AuxFileCreate { path, inner_error } =>
            "cannot create auxiliary filesystem entry `"@ + path@ + "`: "@ + inner_error@ + "\n"@,
        LoadError::ProcessSpawn { inner_error } => "cannot spawn engine process: "@ + inner_error@ + "\n"@,
        LoadError::ProcessExit { exit_code, reason } => {
            let cause = match reason {
                Some(r) => startup_failure_text(r),
                None => Seq::empty(),
            };
            let exit = match exit_code {
                Some(code) => "engine process exited with exit code "@ + signed_decimal(code as int) + "\n"@,
                None => "engine process exited with unknown exit code\n"@,
            };
            cause + exit
        },
    }
}

/// What the client prints, and whether it exits, after a load progress message.
pub open spec fn load_step_spec(name: Seq<char>, progress: LoadProgress) -> (Seq<char>, Seq<char>, Option<i32>) {
    match progress {
        LoadProgress::BadRequest(LoadRequestError::UnknownModel) =>
            (Seq::empty(), "error: unknown model `"@ + name + "`\n"@, Some(1i32)),
        LoadProgress::BadRequest(LoadRequestError::AlreadyLoadedModel) =>
            (Seq::empty(), "model `"@ + name + "` already loaded\n"@, Some(0i32)),
        LoadProgress::BadRequest(LoadRequestError::BadConfig { msg }) =>
            (Seq::empty(), "error: bad configuration: "@ + msg@ + "\n"@, Some(1i32)),
        LoadProgress::Milestone(LoadMilestone::Invoked { program, args, .. }) =>
            (Seq::empty(), "invoking engine \""@ + program@ + "\""@ + quoted_args(args@) + "\n"@, None),
        LoadProgress::Milestone(_) => (Seq::empty(), Seq::empty(), None),
        LoadProgress::StdoutLine { line } => ("engine: "@ + line@ + "\n"@, Seq::empty(), None),
        LoadProgress::StderrLine { line } => (Seq::empty(), "engine: "@ + line@ + "\n"@, None),
        LoadProgress::Completion(Completion::Success(_)) =>
            (Seq::empty(), "model `"@ + name + "` loaded successfully\n"@, Some(0i32)),
        LoadProgress::Completion(Completion::Failure(error)) =>
            (Seq::empty(), "failed to load model `"@ + name + "`: "@ + load_error_text(error), Some(1i32)),
    }
}

/// The client's step after a load progress message about the model `model_name`.
pub fn load_progress_step(model_name: &str, progress: LoadProgress) -> (s: ClientStep)
    ensures
        step_is(s, load_step_spec(model_name@, progress).0, load_step_spec(model_name@, progress).1, load_step_spec(model_name@, progress).2),
{
    let ghost p = progress;
    let mut err = String::new();
    let mut out = String::new();
    let exit_code: Option<i32>;
    match progress {
        LoadProgress::BadRequest(LoadRequestError::UnknownModel) => {
            push_text(&mut err, "error: unknown model `");
            push_text(&mut err, model_name);
            push_text(&mut err, "`\n");
            exit_code = Some(1);
        },
        LoadProgress::BadRequest(LoadRequestError::AlreadyLoadedModel) => {
            push_text(&mut err, "model `");
            push_text(&mut err, model_name);
            push_text(&mut err, "` already loaded\n");
            exit_code = Some(0);
        },
        LoadProgress::BadRequest(LoadRequestError::BadConfig { msg }) => {
            push_text(&mut err, "error: bad configuration: ");
            push_text(&mut err, msg.as_str());
            push_text(&mut err, "\n");
            exit_code = Some(1);
        },
        LoadProgress::Milestone(LoadMilestone::Invoked { program, args, .. }) => {
            push_text(&mut err, "invoking engine \"");
            push_text(&mut err, program.as_str());
            push_text(&mut err, "\"");
            let ghost start = err@;
            let mut i: usize = 0;
            while i < args.len()
                invariant
                    0 <= i <= args.len(),
                    err@ == start + quoted_args(args@.take(i as int)),
                decreases args.len() - i,
            {
                push_text(&mut err, " \"");
                push_text(&mut err, args[i].as_str());
                push_text(&mut err, "\"");
                proof {
                    assert(args@.take(i as int + 1).drop_last() =~= args@.take(i as int));
                }
                i = i + 1;
            }
            proof {
                assert(args@.take(args.len() as int) =~= args@);
            }
            push_text(&mut err, "\n");
            exit_code = None;
        },
        LoadProgress::Milestone(_) => {
            exit_code = None;
        },
        LoadProgress::StdoutLine { line } => {
            push_text(&mut out, "engine: ");
            push_text(&mut out, line.as_str());
            push_text(&mut out, "\n");
            exit_code = None;
        },
        LoadProgress::StderrLine { line } => {
            push_text(&mut err, "engine: ");
            push_text(&mut err, line.as_str());
            push_text(&mut err, "\n");
            exit_code = None;
        },
        LoadProgress::Completion(Completion::Success(_)) => {
            push_text(&mut err, "model `");
            push_text(&mut err, model_name);
            push_text(&mut err, "` loaded successfully\n");
            exit_code = Some(0);
        },
        LoadProgress::Completion(Completion::Failure(error)) => {
            push_text(&mut err, "failed to load model `");
            push_text(&mut err, model_name);
            push_text(&mut err, "`: ");
            match error {
                LoadError::AuxFileCreate { path, inner_error } => {
                    push_text(&mut err, "cannot create auxiliary filesystem entry `");
                    push_text(&mut err, path.as_str());
                    push_text(&mut err, "`: ");
                    push_text(&mut err, inner_error.as_str());
                    push_text(&mut err, "\n");
                },
                LoadError::ProcessSpawn { inner_error } => {
                    push_text(&mut err, "cannot spawn engine process: ");
                    push_text(&mut err, inner_error.as_str());
                    push_text(&mut err, "\n");
                },
                LoadError::ProcessExit { exit_code, reason } => {
                    match reason {
                        Some(EngineStartupFailureReason::InsufficientGpuMemAvailableForReservation) => {
                            push_text(&mut err, "the model requested a larger GPU memory reservation than the free GPU memory available: ");
                        },
                        Some(EngineStartupFailureReason::GpuMemReservationInsufficientForModel) => {
                            push_text(&mut err, "the requested GPU memory reservation is insufficient to load the model weights: ");
                        },
                        Some(EngineStartupFailureReason::GpuMemReservationInsufficientForContext) => {
                            push_text(&mut err, "the requested GPU memory reservation is insufficient to serve requests with the specified model context length: ");
                        },
                        None => {},
                    }
                    match exit_code {
                        Some(code) => {
                            push_text(&mut err, "engine process exited with exit code ");
                            push_signed_decimal(&mut err, code);
                            push_text(&mut err, "\n");
                        },
                        None => {
                            push_text(&mut err, "engine process exited with unknown exit code\n");
                        },
                    }
                },
            }
            exit_code = Some(1);
        },
    }
    proof {
        assert(out@ =~= load_step_spec(model_name@, p).0);
        assert(err@ =~= load_step_spec(model_name@, p).1);
    }
    step(out, err, exit_code)
}

/// What the client prints, and whether it exits, after an unload progress
/// message. No failure of an unload can be reported (its error type has no
/// values); such a message would end the client with code 1 and no text.
pub open spec fn unload_step_spec(name: Seq<char>, progress: UnloadProgress) -> (Seq<char>, Seq<char>, Option<i32>) {
    match progress {
        UnloadProgress::BadRequest(UnloadRequestError::ModelNotLoaded) =>
            (Seq::empty(), "error: model `"@ + name + "` not loaded\n"@, Some(1i32)),
        UnloadProgress::BadRequest(UnloadRequestError::ModelLoading) =>
            (Seq::empty(), "model `"@ + name + "` loading\n"@, Some(1i32)),
        UnloadProgress::BadRequest(UnloadRequestError::ModelPendingRequests) =>
            (Seq::empty(), "model `"@ + name + "` has pending requests: use the `--force` flag to override\n"@, Some(1i32)),
        UnloadProgress::StdoutLine { line } => ("engine: "@ + line@ + "\n"@, Seq::empty(), None),
        UnloadProgress::StderrLine { line } => (Seq::empty(), "engine: "@ + line@ + "\n"@, None),
        UnloadProgress::Completion(Completion::Success(_)) =>
            (Seq::empty(), "model `"@ + name + "` unloaded successfully\n"@, Some(0i32)),
        UnloadProgress::Completion(Completion::Failure(_)) => (Seq::empty(), Seq::empty(), Some(1i32)),
    }
}

/// The client's step after an unload progress message about the model `model_name`.
pub fn unload_progress_step(model_name: &str, progress: UnloadProgress) -> (s: ClientStep)
    ensures
        step_is(s, unload_step_spec(model_name@, progress).0, unload_step_spec(model_name@, progress).1, unload_step_spec(model_name@, progress).2),
{
    let ghost p = progress;
    let mut err = String::new();
    let mut out = String::new();
    let exit_code: Option<i32>;
    match progress {
        UnloadProgress::BadRequest(UnloadRequestError::ModelNotLoaded) => {
            push_text(&mut err, "error: model `");
            push_text(&mut err, model_name);
            push_text(&mut err, "` not loaded\n");
            exit_code = Some(1);
        },
        UnloadProgress::BadRequest(UnloadRequestError::ModelLoading) => {
            push_text(&mut err, "model `");
            push_text(&mut err, model_name);
            push_text(&mut err, "` loading\n");
            exit_code = Some(1);
        },
        UnloadProgress::BadRequest(UnloadRequestError::ModelPendingRequests) => {
            push_text(&mut err, "model `");
            push_text(&mut err, model_name);
            push_text(&mut err, "` has pending requests: use the `--force` flag to override\n");
            exit_code = Some(1);
        },
        UnloadProgress::StdoutLine { line } => {
            push_text(&mut out, "engine: ");
            push_text(&mut out, line.as_str());
            push_text(&mut out, "\n");
            exit_code = None;
        },
        UnloadProgress::StderrLine { line } => {
            push_text(&mut err, "engine: ");
            push_text(&mut err, line.as_str());
            push_text(&mut err, "\n");
            exit_code = None;
        },
        UnloadProgress::Completion(Completion::Success(_)) => {
            push_text(&mut err, "model `");
            push_text(&mut err, model_name);
            push_text(&mut err, "` unloaded successfully\n");
            exit_code = Some(0);
        },
        UnloadProgress::Completion(Completion::Failure(_)) => {
            exit_code = Some(1);
        },
    }
    proof {
        assert(out@ =~= unload_step_spec(model_name@, p).0);
        assert(err@ =~= unload_step_spec(model_name@, p).1);
    }
    step(out, err, exit_code)
}

/// The warnings of a configuration reload, one line each.
pub open spec fn warnings_text(warnings: Seq<ConfigWarning>) -> Seq<char>
    decreases warnings.len(),
{
    if warnings.len() == 0 {
        Seq::empty()
    } else {
        warnings_text(warnings.drop_last())
            + "warning: detected a change to the daemon port: this configuration change requires a daemon restart\n"@
    }
}

/// What the client prints, and how it exits, after a reload progress message.
pub open spec fn reload_step_spec(progress: ReloadConfigProgress) -> (Seq<char>, Seq<char>, Option<i32>) {
    match progress {
        ReloadConfigProgress::Completion(Completion::Success((path, warnings))) =>
            (Seq::empty(), warnings_text(warnings@) + "reloaded configuration options from `"@ + path@ + "`\n"@, Some(0i32)),
        ReloadConfigProgress::Completion(Completion::Failure((path, error))) => {
            let reason = match error {
                ReloadConfigError::Io { inner_error } => "error: cannot read configuration file: "@ + inner_error@ + "\n"@,
                ReloadConfigError::Parsing { inner_error } => "error: cannot parse configuration file: "@ + inner_error@ + "\n"@,
            };
            (Seq::empty(), reason + "failed to reload configuration options from `"@ + path@ + "`\n"@, Some(1i32))
        },
    }
}

/// The client's step after the reload progress message.
pub fn reload_config_step(progress: ReloadConfigProgress) -> (s: ClientStep)
    ensures
        step_is(s, reload_step_spec(progress).0, reload_step_spec(progress).1, reload_step_spec(progress).2),
{
    let ghost p = progress;
    let mut err = String::new();
    let exit_code: Option<i32>;
    match progress {
        ReloadConfigProgress::Completion(Completion::Success((path, warnings))) => {
            let mut i: usize = 0;
            while i < warnings.len()
                invariant
                    0 <= i <= warnings.len(),
                    err@ == warnings_text(warnings@.take(i as int)),
                decreases warnings.len() - i,
            {
                match warnings[i] {
                    ConfigWarning::PortChangeRequiresRestart => {
                        push_text(&mut err, "warning: detected a change to the daemon port: this configuration change requires a daemon restart\n");
                    },
                }
                proof {
                    assert(warnings@.take(i as int + 1).drop_last() =~= warnings@.take(i as int));
                }
                i = i + 1;
            }
            proof {
                assert(warnings@.take(warnings.len() as int) =~= warnings@);
            }
            push_text(&mut err, "reloaded configuration options from `");
            push_text(&mut err, path.as_str());
            push_text(&mut err, "`\n");
            exit_code = Some(0);
        },
        ReloadConfigProgress::Completion(Completion::Failure((path, error))) => {
            match error {
                ReloadConfigError::Io { inner_error } => {
                    push_text(&mut err, "error: cannot read configuration file: ");
                    push_text(&mut err, inner_error.as_str());
                    push_text(&mut err, "\n");
                },
                ReloadConfigError::Parsing { inner_error } => {
                    push_text(&mut err, "error: cannot parse configuration file: ");
                    push_text(&mut err, inner_error.as_str());
                    push_text(&mut err, "\n");
                },
            }
            push_text(&mut err, "failed to reload configuration options from `");
            push_text(&mut err, path.as_str());
            push_text(&mut err, "`\n");
            exit_code = Some(1);
        },
    }
    proof {
        assert(err@ =~= reload_step_spec(p).1);
    }
    step(String::new(), err, exit_code)
}

/// Which models `list` shows.
#[derive(Copy, Clone, PartialEq, Eq, Structural)]
pub enum ModelListFilter {
    Loaded,
    Active,
    Inactive,
}

/// The options of `list`: the filters a model must all pass, and whether to
/// show the models' activity.
pub struct ListModelsOpts {
    pub filters: Vec<ModelListFilter>,
    pub show_activity: bool,
}

/// Whether a model passes a filter: loaded; loaded with a pending request;
/// loaded with none.
pub open spec fn passes_filter(model: Model, filter: ModelListFilter) -> bool {
    match filter {
        ModelListFilter::Loaded => model.model_state is Loaded,
        ModelListFilter::Active => model.model_state matches ModelState::Loaded(l) && l.model_activity.pending_requests_count >= 1,
        ModelListFilter::Inactive => model.model_state matches ModelState::Loaded(l) && l.model_activity.pending_requests_count == 0,
    }
}

/// Whether a model passes all the filters.
pub open spec fn passes_filters(model: Model, filters: Seq<ModelListFilter>) -> bool {
    forall|k: int| 0 <= k < filters.len() ==> passes_filter(model, #[trigger] filters[k])
}

/// Whether a model passes all the filters.
pub fn model_passes_filters(model: &Model, filters: &Vec<ModelListFilter>) -> (passes: bool)
    ensures
        passes == passes_filters(*model, filters@),
{
    let mut k: usize = 0;
    while k < filters.len()
        invariant
            0 <= k <= filters.len(),
            forall|j: int| 0 <= j < k ==> passes_filter(*model, #[trigger] filters@[j]),
        decreases filters.len() - k,
    {
        let passes = match filters[k] {
            ModelListFilter::Loaded => match &model.model_state {
                ModelState::Loaded(_) => true,
                _ => false,
            },
            ModelListFilter::Active => match &model.model_state {
                ModelState::Loaded(l) => l.model_activity.pending_requests_count >= 1,
                _ => false,
            },
            ModelListFilter::Inactive => match &model.model_state {
                ModelState::Loaded(l) => l.model_activity.pending_requests_count == 0,
                _ => false,
            },
        };
        if !passes {
            return false;
        }
        k = k + 1;
    }
    true
}

/// The models that pass all the filters, in order.
pub fn filter_models(models: Vec<Model>, filters: &Vec<ModelListFilter>) -> (kept: Vec<Model>)
    ensures
        kept@ == models@.filter(|m: Model| passes_filters(m, filters@)),
{
    let ghost pred = |m: Model| passes_filters(m, filters@);
    let ghost orig = models@;
    let mut rest = models;
    let total = rest.len();
    let mut kept: Vec<Model> = Vec::new();
    let mut consumed: usize = 0;
    while rest.len() > 0
        invariant
            pred == (|m: Model| passes_filters(m, filters@)),
            0 <= consumed <= orig.len(),
            orig.len() == total,
            consumed + rest.len() == orig.len(),
            rest@ == orig.skip(consumed as int),
            kept@ =~= orig.take(consumed as int).filter(pred),
        decreases rest.len(),
    {
        let m = rest.remove(0);
        proof {
            assert(m == orig[consumed as int]);
            assert(orig.take(consumed as int + 1) =~= orig.take(consumed as int).push(m));
            orig.take(consumed as int).lemma_filter_push(m, pred);
            assert(rest@ =~= orig.skip(consumed as int + 1));
        }
        if model_passes_filters(&m, filters) {
            kept.push(m);
        }
        consumed = consumed + 1;
    }
    proof {
        assert(orig.take(consumed as int) =~= orig);
    }
    kept
}

/// The widest model name, in bytes, or 0 with no models.
pub open spec fn max_name_width(models: Seq<Model>) -> nat
    decreases models.len(),
{
    if models.len() == 0 {
        0
    } else {
        let rest = max_name_width(models.drop_last());
        let w = byte_len(models.last().name@);
        if w > rest { w } else { rest }
    }
}

/// The width of the model name column: the widest name, in bytes.
pub fn model_name_width(models: &Vec<Model>) -> (width: usize)
    ensures
        width == max_name_width(models@),
{
    let mut width: usize = 0;
    let mut i: usize = 0;
    while i < models.len()
        invariant
            0 <= i <= models.len(),
            width == max_name_width(models@.take(i as int)),
        decreases models.len() - i,
    {
        let w = models[i].name.as_str().len();
        proof {
            assert(models@.take(i as int + 1).drop_last() =~= models@.take(i as int));
            assert(models@.take(i as int + 1).last() == models@[i as int]);
            assert(w == byte_len(models@[i as int].name@));
        }
        if w > width {
            width = w;
        }
        i = i + 1;
    }
    proof {
        assert(models@.take(models.len() as int) =~= models@);
    }
    width
}

/// The activity column of a model in `list --activity`; `ago` is the time
/// since its latest response ended.
pub open spec fn activity_text(state: ModelState, ago: u64) -> Seq<char> {
    match state {
        ModelState::NotLoaded => Seq::empty(),
        ModelState::Loading => "   loading"@,
        ModelState::Loaded(loaded) => {
            let count = loaded.model_activity.pending_requests_count;
            if count >= 1 {
                if count == 1 {
                    "   active now (1 pending request)"@
                } else {
                    "   active now ("@ + decimal(count as nat) + " pending requests)"@
                }
            } else if loaded.model_activity.latest_response_end_time is Some {
                "   last active "@ + imprecise_ago_text(ago)
            } else {
                "   never active"@
            }
        },
        ModelState::Unloading => "   unloading"@,
    }
}

/// The line of a model in `list`: its name padded to the column width, then
/// its activity when asked for.
pub open spec fn model_line_spec(model: Model, width: nat, show_activity: bool, ago: u64) -> Seq<char> {
    pad_right(model.name@, width) + (if show_activity { activity_text(model.model_state, ago) } else { Seq::empty() }) + "\n"@
}

/// The line of a model in `list`; `last_active_ago` is the time since the
/// model's latest response ended (read only when it has one).
pub fn model_list_line(model: &Model, width: usize, show_activity: bool, last_active_ago: &DurationDisplayImpreciseAgo) -> (line: String)
    ensures
        line@ == model_line_spec(*model, width as nat, show_activity, last_active_ago.0),
{
    let mut line = String::new();
    push_padded(&mut line, model.name.as_str(), width);
    if show_activity {
        match &model.model_state {
            ModelState::NotLoaded => {},
            ModelState::Loading => push_text(&mut line, "   loading"),
            ModelState::Loaded(loaded) => {
                let count = loaded.model_activity.pending_requests_count;
                if count >= 1 {
                    if count == 1 {
                        push_text(&mut line, "   active now (1 pending request)");
                    } else {
                        push_text(&mut line, "   active now (");
                        push_decimal(&mut line, count as u128);
                        push_text(&mut line, " pending requests)");
                    }
                } else if loaded.model_activity.latest_response_end_time.is_some() {
                    push_text(&mut line, "   last active ");
                    let ago = last_active_ago.to_string();
                    push_text(&mut line, ago.as_str());
                } else {
                    push_text(&mut line, "   never active");
                }
            },
            ModelState::Unloading => push_text(&mut line, "   unloading"),
        }
    }
    push_text(&mut line, "\n");
    proof {
        assert(line@ =~= model_line_spec(*model, width as nat, show_activity, last_active_ago.0));
    }
    line
}

/// How an allocation's owner is shown.
pub open spec fn owner_text(owner: GpuAllocationOwner) -> Seq<char> {
    match owner {
        GpuAllocationOwner::Model { model_name } => model_name@,
        GpuAllocationOwner::Other { process_id } => "other ("@ + decimal(process_id as nat) + ")"@,
    }
}

/// The width an owner needs in the owner column: a model name's length in
/// bytes; for another process, the length of "other ()" and its number of digits.
pub open spec fn owner_width(owner: GpuAllocationOwner) -> nat {
    match owner {
        GpuAllocationOwner::Model { model_name } => byte_len(model_name@),
        GpuAllocationOwner::Other { process_id } => 8 + decimal(process_id as nat).len(),
    }
}

/// The widest owner of the allocations, or 0 with none.
pub open spec fn max_owner_width(allocations: Seq<GpuAllocation>) -> nat
    decreases allocations.len(),
{
    if allocations.len() == 0 {
        0
    } else {
        let rest = max_owner_width(allocations.drop_last());
        let w = owner_width(allocations.last().owner);
        if w > rest { w } else { rest }
    }
}

/// The width of the owner column: the widest owner, and at least that of "<free>".
pub open spec fn owner_column_width(allocations: Seq<GpuAllocation>) -> nat {
    let w = max_owner_width(allocations);
    if w > 6 { w } else { 6 }
}

/// The lines of the allocations on the device `gpu_index`, in order.
pub open spec fn allocation_lines(allocations: Seq<GpuAllocation>, gpu_index: usize, width: nat) -> Seq<char>
    decreases allocations.len(),
{
    if allocations.len() == 0 {
        Seq::empty()
    } else {
        let a = allocations.last();
        allocation_lines(allocations.drop_last(), gpu_index, width) + if a.gpu_index == gpu_index {
            pad_right(owner_text(a.owner), width) + "   "@ + memory_text(a.memory_bytes, crate::display::automatic_unit(a.memory_bytes), 1) + "\n"@
        } else {
            Seq::empty()
        }
    }
}

/// The block of one device: its header line, its allocations, its free memory.
pub open spec fn device_block(d: crate::host::GpuDevice, allocations: Seq<GpuAllocation>, width: nat) -> Seq<char> {
    "GPU "@ + decimal(d.index as nat) + ": "@ + d.name@ + " ("@
        + memory_text((d.used_memory_bytes + d.reserved_memory_bytes) as u64, MemoryUnit::GiB, 1) + " / "@
        + memory_text(d.total_memory_bytes, MemoryUnit::GiB, 1) + ")\n"@
        + allocation_lines(allocations, d.index, width)
        + pad_right("<free>"@, width) + "   "@
        + memory_text(d.free_memory_bytes, crate::display::automatic_unit(d.free_memory_bytes), 1) + "\n"@
}

/// The blocks of the devices, with a blank line between two blocks.
pub open spec fn usage_report(devices: Seq<crate::host::GpuDevice>, allocations: Seq<GpuAllocation>, width: nat) -> Seq<char>
    decreases devices.len(),
{
    if devices.len() == 0 {
        Seq::empty()
    } else {
        usage_report(devices.drop_last(), allocations, width)
            + (if devices.len() > 1 { "\n"@ } else { Seq::empty() })
            + device_block(devices.last(), allocations, width)
    }
}

/// Whether the used and reserved memory of every device add up within `u64`.
pub open spec fn usage_sums_fit(usage: GpuUsage) -> bool {
    forall|k: int| 0 <= k < usage.gpu_devices@.len() ==>
        (#[trigger] usage.gpu_devices@[k]).used_memory_bytes + usage.gpu_devices@[k].reserved_memory_bytes <= u64::MAX
}

/// Appends the text of `n` bytes as `display_memory` shows it.
fn push_memory(s: &mut String, n: u64, unit: Option<MemoryUnit>)
    ensures
        final(s)@ == old(s)@ + memory_text(n, match unit { Some(u) => u, None => crate::display::automatic_unit(n) }, 1),
{
    let text = MemoryDisplay(n, unit).to_string();
    push_text(s, text.as_str());
}

/// The width of the owner column.
fn owner_column_width_exec(allocations: &Vec<GpuAllocation>) -> (width: usize)
    ensures
        width == owner_column_width(allocations@),
{
    let mut width: usize = 0;
    let mut i: usize = 0;
    while i < allocations.len()
        invariant
            0 <= i <= allocations.len(),
            width == max_owner_width(allocations@.take(i as int)),
        decreases allocations.len() - i,
    {
        let w = match &allocations[i].owner {
            GpuAllocationOwner::Model { model_name } => model_name.as_str().len(),
            GpuAllocationOwner::Other { process_id } => {
                let digits = crate::text::decimal_string(*process_id as u128);
                let n = crate::text::char_count(digits.as_str());
                proof {
                    crate::text::lemma_decimal_len_small(*process_id as nat);
                }
                8 + n
            },
        };
        proof {
            assert(allocations@.take(i as int + 1).drop_last() =~= allocations@.take(i as int));
            assert(allocations@.take(i as int + 1).last() == allocations@[i as int]);
        }
        if w > width {
            width = w;
        }
        i = i + 1;
    }
    proof {
        assert(allocations@.take(allocations.len() as int) =~= allocations@);
    }
    if width > 6 { width } else { 6 }
}

/// Appends the block of one device.
fn push_device_block(out: &mut String, d: &crate::host::GpuDevice, allocations: &Vec<GpuAllocation>, width: usize)
    requires
        d.used_memory_bytes + d.reserved_memory_bytes <= u64::MAX,
    ensures
        final(out)@ == old(out)@ + device_block(*d, allocations@, width as nat),
{
    let ghost allocs = allocations@;
    push_text(out, "GPU ");
    push_decimal(out, d.index as u128);
    push_text(out, ": ");
    push_text(out, d.name.as_str());
    push_text(out, " (");
    push_memory(out, d.used_memory_bytes + d.reserved_memory_bytes, Some(MemoryUnit::GiB));
    push_text(out, " / ");
    push_memory(out, d.total_memory_bytes, Some(MemoryUnit::GiB));
    push_text(out, ")\n");
    let ghost header_end = out@;
    let mut j: usize = 0;
    while j < allocations.len()
        invariant
            0 <= j <= allocations.len(),
            allocs == allocations@,
            out@ == header_end + allocation_lines(allocs.take(j as int), d.index, width as nat),
        decreases allocations.len() - j,
    {
        let a = &allocations[j];
        if a.gpu_index == d.index {
            match &a.owner {
                GpuAllocationOwner::Model { model_name } => {
                    push_padded(out, model_name.as_str(), width);
                },
                GpuAllocationOwner::Other { process_id } => {
                    let mut owner = string_of("other (");
                    push_decimal(&mut owner, *process_id as u128);
                    push_text(&mut owner, ")");
                    push_padded(out, owner.as_str(), width);
                },
            }
            push_text(out, "   ");
            push_memory(out, a.memory_bytes, None);
            push_text(out, "\n");
        }
        proof {
            assert(allocs.take(j as int + 1).drop_last() =~= allocs.take(j as int));
            assert(allocs.take(j as int + 1).last() == allocs[j as int]);
            assert(out@ =~= header_end + allocation_lines(allocs.take(j as int + 1), d.index, width as nat));
        }
        j = j + 1;
    }
    proof {
        assert(allocs.take(allocations.len() as int) =~= allocs);
    }
    push_padded(out, "<free>", width);
    push_text(out, "   ");
    push_memory(out, d.free_memory_bytes, None);
    push_text(out, "\n");
    proof {
        assert(out@ =~= old(out)@ + device_block(*d, allocs, width as nat));
    }
}

/// The client's step after the usage answer: the report of each device, or
/// an error when the daemon could not read the GPUs.
pub fn usage_step(response: &GetUsageResponse) -> (s: ClientStep)
    requires
        response.gpu_usage is Some ==> usage_sums_fit(response.gpu_usage->0),
    ensures
        match response.gpu_usage {
            None => step_is(s, Seq::empty(), "error: cannot read resource usage metrics\n"@, Some(1i32)),
            Some(usage) => step_is(s, usage_report(usage.gpu_devices@, usage.gpu_allocations@, owner_column_width(usage.gpu_allocations@)), Seq::empty(), Some(0i32)),
        },
{
    let usage = match &response.gpu_usage {
        None => {
            return step(String::new(), string_of("error: cannot read resource usage metrics\n"), Some(1));
        },
        Some(usage) => usage,
    };
    let width = owner_column_width_exec(&usage.gpu_allocations);
    let ghost allocs = usage.gpu_allocations@;
    let mut out = String::new();
    let mut k: usize = 0;
    while k < usage.gpu_devices.len()
        invariant
            0 <= k <= usage.gpu_devices.len(),
            usage_sums_fit(*usage),
            allocs == usage.gpu_allocations@,
            out@ == usage_report(usage.gpu_devices@.take(k as int), allocs, width as nat),
        decreases usage.gpu_devices.len() - k,
    {
        let d = &usage.gpu_devices[k];
        if k > 0 {
            push_text(&mut out, "\n");
        }
        proof {
            assert(usage.gpu_devices@[k as int].used_memory_bytes + usage.gpu_devices@[k as int].reserved_memory_bytes <= u64::MAX);
        }
        push_device_block(&mut out, d, &usage.gpu_allocations, width);
        proof {
            let devs = usage.gpu_devices@.take(k as int + 1);
            assert(devs.drop_last() =~= usage.gpu_devices@.take(k as int));
            assert(devs.last() == usage.gpu_devices@[k as int]);
            assert(out@ =~= usage_report(devs, allocs, width as nat));
        }
        k = k + 1;
    }
    proof {
        assert(usage.gpu_devices@.take(usage.gpu_devices.len() as int) =~= usage.gpu_devices@);
    }
    step(out, String::new(), Some(0))
}

/// `--inactive` lists only loaded models with no pending request, `--active`
/// only loaded models with some; the two split the loaded models between them,
/// and several filters together ask for all of them at once.
pub proof fn lemma_activity_filters(model: Model, filters: Seq<ModelListFilter>, more: Seq<ModelListFilter>)
    ensures
        passes_filters(model, seq![ModelListFilter::Inactive]) ==>
            (model.model_state matches ModelState::Loaded(l) && l.model_activity.pending_requests_count == 0),
        passes_filters(model, seq![ModelListFilter::Active]) ==>
            (model.model_state matches ModelState::Loaded(l) && l.model_activity.pending_requests_count > 0),
        passes_filters(model, seq![ModelListFilter::Loaded]) <==> model.model_state is Loaded,
        !(passes_filters(model, seq![ModelListFilter::Active]) && passes_filters(model, seq![ModelListFilter::Inactive])),
        passes_filters(model, seq![ModelListFilter::Loaded]) <==>
            (passes_filters(model, seq![ModelListFilter::Active]) || passes_filters(model, seq![ModelListFilter::Inactive])),
        passes_filters(model, Seq::empty()),
        passes_filters(model, filters + more) <==> (passes_filters(model, filters) && passes_filters(model, more)),
{
    assert(seq![ModelListFilter::Inactive][0] == ModelListFilter::Inactive);
    assert(seq![ModelListFilter::Active][0] == ModelListFilter::Active);
    assert(seq![ModelListFilter::Loaded][0] == ModelListFilter::Loaded);
    let all = filters + more;
    if passes_filters(model, filters) && passes_filters(model, more) {
        assert forall|k: int| 0 <= k < all.len() implies passes_filter(model, #[trigger] all[k]) by {
            if k < filters.len() {
                assert(all[k] == filters[k]);
            } else {
                assert(all[k] == more[k - filters.len()]);
            }
        }
    }
    if passes_filters(model, all) {
        assert forall|k: int| 0 <= k < filters.len() implies passes_filter(model, #[trigger] filters[k]) by {
            assert(all[k] == filters[k]);
        }
        assert forall|k: int| 0 <= k < more.len() implies passes_filter(model, #[trigger] more[k]) by {
            assert(all[k + filters.len()] == more[k]);
        }
    }
}

/// An allocation on another device adds nothing to a device's lines; one on
/// the device adds its own line after the others.
pub proof fn lemma_allocation_lines_only_own_device(allocations: Seq<GpuAllocation>, a: GpuAllocation, gpu_index: usize, width: nat)
    ensures
        a.gpu_index != gpu_index ==> allocation_lines(allocations.push(a), gpu_index, width) == allocation_lines(allocations, gpu_index, width),
        a.gpu_index == gpu_index ==> allocation_lines(allocations.push(a), gpu_index, width) == allocation_lines(allocations, gpu_index, width)
            + pad_right(owner_text(a.owner), width) + "   "@ + memory_text(a.memory_bytes, crate::display::automatic_unit(a.memory_bytes), 1) + "\n"@,
{
    assert(allocations.push(a).drop_last() =~= allocations);
    assert(allocations.push(a).last() == a);
    if a.gpu_index != gpu_index {
        assert(allocation_lines(allocations.push(a), gpu_index, width) =~= allocation_lines(allocations, gpu_index, width));
    }
}

/// A device with no allocation on it shows none.
pub proof fn lemma_allocation_lines_none_on_device(allocations: Seq<GpuAllocation>, gpu_index: usize, width: nat)
    requires
        forall|k: int| 0 <= k < allocations.len() ==> (#[trigger] allocations[k]).gpu_index != gpu_index,
    ensures
        allocation_lines(allocations, gpu_index, width) == Seq::<char>::empty(),
    decreases allocations.len(),
{
    if allocations.len() > 0 {
        let init = allocations.drop_last();
        assert forall|k: int| 0 <= k < init.len() implies (#[trigger] init[k]).gpu_index != gpu_index by {
            assert(init[k] == allocations[k]);
        }
        lemma_allocation_lines_none_on_device(init, gpu_index, width);
        assert(allocations[allocations.len() - 1] == allocations.last());
        assert(allocation_lines(allocations, gpu_index, width) =~= Seq::<char>::empty());
    }
}

/// A device's block shows only the allocations on that device: one on another
/// device never appears in it, and a device with none shows only its header
/// and free memory.
pub proof fn lemma_device_block_only_own_allocations(
    d: crate::host::GpuDevice,
    allocations: Seq<GpuAllocation>,
    other: GpuAllocation,
    width: nat,
)
    ensures
        other.gpu_index != d.index ==> device_block(d, allocations.push(other), width) == device_block(d, allocations, width),
        (forall|k: int| 0 <= k < allocations.len() ==> (#[trigger] allocations[k]).gpu_index != d.index)
            ==> device_block(d, allocations, width) == device_block(d, Seq::empty(), width),
{
    lemma_allocation_lines_only_own_device(allocations, other, d.index, width);
    if forall|k: int| 0 <= k < allocations.len() ==> (#[trigger] allocations[k]).gpu_index != d.index {
        lemma_allocation_lines_none_on_device(allocations, d.index, width);
        assert(allocation_lines(Seq::<GpuAllocation>::empty(), d.index, width) == Seq::<char>::empty());
    }
}

/// While a model unloads, engine output is relayed and the client keeps
/// waiting: only a refused request or the completion ends it.
pub proof fn lemma_unload_waits_through_engine_output(name: Seq<char>, progress: UnloadProgress)
    ensures
        unload_step_spec(name, progress).2 is None <==> (progress is StdoutLine || progress is StderrLine),
        progress matches UnloadProgress::StdoutLine { line } ==> unload_step_spec(name, progress).0 == "engine: "@ + line@ + "\n"@,
        progress matches UnloadProgress::StderrLine { line } ==> unload_step_spec(name, progress).1 == "engine: "@ + line@ + "\n"@,
        progress is BadRequest ==> unload_step_spec(name, progress).2 == Some(1i32),
{
}

} // verus!
