use vstd::prelude::*;
use crate::config::Config;
use crate::host::GpuDevice;
use std::time::SystemTime;

verus! {

/// How a request ended.
pub enum Completion<T, E> {
    Success(T),
    Failure(E),
}

/// A request that the client sends to the daemon.
pub enum ControlMessage {
    Load { model_name: String },
    Unload { model_name: String, force: bool },
    GetModels,
    GetUsage,
    ReloadConfig,
    GetConfig,
}

/// Why a load request is refused before anything is started.
pub enum LoadRequestError {
    UnknownModel,
    AlreadyLoadedModel,
    BadConfig { msg: String },
}

/// A stage reached while loading a model.
pub enum LoadMilestone {
    Invoked { cwd: Option<String>, program: String, args: Vec<String>, envs: Vec<(String, Option<String>)> },
    PlatformDetected,
    Started,
    WeightsLoaded,
    GraphsCaptured,
    Complete,
}

/// What an engine's output says about why it failed to start.
#[derive(Copy, Clone, PartialEq, Eq, Structural)]
pub enum EngineStartupFailureReason {
    /// The model requested a larger GPU memory reservation than the free GPU memory available.
    InsufficientGpuMemAvailableForReservation,
    /// The requested GPU memory reservation is insufficient to load the model weights.
    GpuMemReservationInsufficientForModel,
    /// The requested GPU memory reservation is insufficient to serve requests with the specified model context length.
    GpuMemReservationInsufficientForContext,
}

/// Why loading a model failed after it began.
pub enum LoadError {
    AuxFileCreate { path: String, inner_error: String },
    ProcessSpawn { inner_error: String },
    ProcessExit { exit_code: Option<i32>, reason: Option<EngineStartupFailureReason> },
}

/// A message the daemon sends while it loads a model.
pub enum LoadProgress {
    BadRequest(LoadRequestError),
    Milestone(LoadMilestone),
    StdoutLine { line: String },
    StderrLine { line: String },
    Completion(Completion<(), LoadError>),
}

/// Why an unload request is refused.
#[derive(Copy, Clone, PartialEq, Eq, Structural)]
pub enum UnloadRequestError {
    ModelNotLoaded,
    ModelLoading,
    ModelPendingRequests,
}

/// Why unloading failed after it began: it cannot, the type has no values.
pub type UnloadError = core::convert::Infallible;

/// A message the daemon sends while it unloads a model.
pub enum UnloadProgress {
    BadRequest(UnloadRequestError),
    StdoutLine { line: String },
    StderrLine { line: String },
    Completion(Completion<(), UnloadError>),
}

/// The requests a loaded model is serving.
pub struct ModelActivity {
    pub pending_requests_count: usize,
    pub latest_response_end_time: Option<SystemTime>,
}

/// What is known of a loaded model.
pub struct LoadedModel {
    pub model_activity: ModelActivity,
}

/// Where a configured model stands.
pub enum ModelState {
    NotLoaded,
    Loading,
    Loaded(LoadedModel),
    Unloading,
}

/// A configured model as the daemon reports it.
pub struct Model {
    pub name: String,
    pub max_context_tokens: usize,
    pub model_state: ModelState,
}

/// The answer to [`ControlMessage::GetModels`].
pub struct GetModelsResponse {
    pub models: Vec<Model>,
}

/// A configuration change that does not take effect at once.
#[derive(Copy, Clone, PartialEq, Eq, Structural)]
pub enum ConfigWarning {
    PortChangeRequiresRestart,
}

/// Why reloading the configuration failed.
pub enum ReloadConfigError {
    Io { inner_error: String },
    Parsing { inner_error: String },
}

/// The message the daemon sends when it has reloaded its configuration.
pub enum ReloadConfigProgress {
    Completion(Completion<(String, Vec<ConfigWarning>), (String, ReloadConfigError)>),
}

/// The answer to [`ControlMessage::GetConfig`].
pub struct GetConfigResponse {
    pub config: Config,
}

/// Who holds an allocation of GPU memory.
pub enum GpuAllocationOwner {
    Model { model_name: String },
    Other { process_id: u32 },
}

/// GPU memory held by one process on one device.
pub struct GpuAllocation {
    pub owner: GpuAllocationOwner,
    pub gpu_index: usize,
    pub memory_bytes: u64,
}

/// The GPU devices and what holds their memory.
pub struct GpuUsage {
    pub gpu_devices: Vec<GpuDevice>,
    pub gpu_allocations: Vec<GpuAllocation>,
}

/// The answer to [`ControlMessage::GetUsage`]: none when the GPUs cannot be read.
pub struct GetUsageResponse {
    pub gpu_usage: Option<GpuUsage>,
}

/// One message on the control socket: its serialized text and a line break.
pub fn frame_message(payload: String) -> (line: String)
    ensures
        line@ == payload@.push('\n'),
{
    let mut line = payload;
    crate::text::push_char(&mut line, '\n');
    line
}

/// How an attempt to send a message ended.
#[derive(Copy, Clone, PartialEq, Eq, Structural)]
pub enum SendOutcome {
    Sent,
    SerializationFailed,
    BrokenPipe,
    IoFailed,
}

/// Whether messages may still be sent: once the other end has closed the
/// connection, sending stops for good.
pub struct SendGate {
    pub other_end_closed: bool,
}

impl SendGate {
    /// A gate for a fresh connection.
    pub fn new() -> (gate: SendGate)
        ensures
            !gate.other_end_closed,
    {
        SendGate { other_end_closed: false }
    }

    /// Whether a message should be sent.
    pub fn should_send(&self) -> (send: bool)
        ensures
            send == !self.other_end_closed,
    {
        !self.other_end_closed
    }

    /// After a send that failed because the peer hung up, no further sends are made.
    pub fn record(&mut self, outcome: SendOutcome)
        ensures
            final(self).other_end_closed == (old(self).other_end_closed || outcome == SendOutcome::BrokenPipe),
    {
        if outcome == SendOutcome::BrokenPipe {
            self.other_end_closed = true;
        }
    }
}

} // verus!
