use vstd::prelude::*;

verus! {

/// Where the daemon listens for control connections.
pub const DAEMON_SOCKET_PATH: &'static str = "/tmp/mlld/socket.sock";
/// Where the daemon reads its configuration when none is given.
pub const DEFAULT_CONFIG_FILE_PATH: &'static str = "/etc/mll/mll.toml";
/// Where engine logs go when the configuration names no directory.
pub const DEFAULT_LOGS_DIR_PATH: &'static str = "/tmp/mlld/logs";

/// The inference engines the daemon knows how to drive.
#[derive(Copy, Clone, PartialEq, Eq, Structural)]
pub enum EngineKind {
    Vllm,
}

/// An inference engine installation.
pub struct Engine {
    pub name: String,
    pub kind: EngineKind,
    pub path: String,
}

/// The abstract value of an [`Engine`].
pub struct EngineView {
    pub name: Seq<char>,
    pub kind: EngineKind,
    pub path: Seq<char>,
}

impl View for Engine {
    type V = EngineView;

    open spec fn view(&self) -> EngineView {
        EngineView { name: self.name@, kind: self.kind, path: self.path@ }
    }
}

impl Engine {
    /// A copy with the same value.
    pub fn duplicate(&self) -> (copy: Engine)
        ensures
            copy@ == self@,
    {
        Engine { name: self.name.clone(), kind: self.kind, path: self.path.clone() }
    }
}

/// An absolute amount of memory, as the sum of the parts given in each unit.
/// The fractional amounts are carried as the bit patterns of their `f64`
/// values (`f64::to_bits`); the library never computes with them.
#[derive(Copy, Clone, PartialEq, Eq, Structural)]
pub struct MemorySpec {
    pub gib_bits: Option<u64>,
    pub mib_bits: Option<u64>,
    pub kib_bits: Option<u64>,
    pub bytes: Option<u64>,
}

/// How much GPU memory a model asks for: a share of the device (the
/// percentage's `f64` bit pattern), or an absolute amount.
#[derive(Copy, Clone, PartialEq, Eq, Structural)]
pub enum MemoryRequirement {
    Relative { pct_bits: u64 },
    Absolute(MemorySpec),
}

/// The sum of the parts of a memory amount that are present, each already in bytes.
pub open spec fn memory_parts_total(gib_bytes: Option<u64>, mib_bytes: Option<u64>, kib_bytes: Option<u64>, bytes: Option<u64>) -> int {
    option_amount(gib_bytes) + option_amount(mib_bytes) + option_amount(kib_bytes) + option_amount(bytes)
}

/// An optional amount, absent counting as zero.
pub open spec fn option_amount(part: Option<u64>) -> int {
    match part {
        Some(v) => v as int,
        None => 0,
    }
}

impl MemorySpec {
    /// The total number of bytes, given the gib, mib and kib parts already
    /// converted to bytes (the conversion of the fractional amounts is `f64`
    /// arithmetic, done by the caller).
    pub fn total_bytes(&self, gib_bytes: Option<u64>, mib_bytes: Option<u64>, kib_bytes: Option<u64>) -> (total: u64)
        requires
            memory_parts_total(gib_bytes, mib_bytes, kib_bytes, self.bytes) <= u64::MAX,
        ensures
            total == memory_parts_total(gib_bytes, mib_bytes, kib_bytes, self.bytes),
    {
        let mut total_bytes: u64 = 0;
        if let Some(v) = gib_bytes {
            total_bytes = total_bytes + v;
        }
        if let Some(v) = mib_bytes {
            total_bytes = total_bytes + v;
        }
        if let Some(v) = kib_bytes {
            total_bytes = total_bytes + v;
        }
        if let Some(v) = self.bytes {
            total_bytes = total_bytes + v;
        }
        total_bytes
    }
}

/// A model that the daemon can serve.
pub struct Model {
    pub name: String,
    pub engine: String,
    pub path: String,
    pub gpu_memory: MemoryRequirement,
    pub max_context_tokens: usize,
    pub engine_args: Vec<String>,
}

/// The abstract value of a [`Model`].
pub struct ModelView {
    pub name: Seq<char>,
    pub engine: Seq<char>,
    pub path: Seq<char>,
    pub gpu_memory: MemoryRequirement,
    pub max_context_tokens: usize,
    pub engine_args: Seq<Seq<char>>,
}

/// The views of a sequence of strings.
pub open spec fn string_views(strings: Seq<String>) -> Seq<Seq<char>> {
    strings.map_values(|s: String| s@)
}

impl View for Model {
    type V = ModelView;

    open spec fn view(&self) -> ModelView {
        ModelView {
            name: self.name@,
            engine: self.engine@,
            path: self.path@,
            gpu_memory: self.gpu_memory,
            max_context_tokens: self.max_context_tokens,
            engine_args: string_views(self.engine_args@),
        }
    }
}

/// A copy of a vector of strings.
pub fn duplicate_strings(strings: &Vec<String>) -> (copy: Vec<String>)
    ensures
        string_views(copy@) == string_views(strings@),
{
    let mut copy: Vec<String> = Vec::new();
    let mut i: usize = 0;
    while i < strings.len()
        invariant
            0 <= i <= strings.len(),
            copy.len() == i,
            forall|k: int| 0 <= k < i ==> copy@[k]@ == strings@[k]@,
        decreases strings.len() - i,
    {
        copy.push(strings[i].clone());
        i = i + 1;
    }
    proof {
        assert(string_views(copy@) =~= string_views(strings@));
    }
    copy
}

impl Model {
    /// A copy with the same value.
    pub fn duplicate(&self) -> (copy: Model)
        ensures
            copy@ == self@,
    {
        Model {
            name: self.name.clone(),
            engine: self.engine.clone(),
            path: self.path.clone(),
            gpu_memory: self.gpu_memory,
            max_context_tokens: self.max_context_tokens,
            engine_args: duplicate_strings(&self.engine_args),
        }
    }
}

/// The daemon's configuration.
pub struct Config {
    pub daemon_port: u16,
    pub engine_base_port: Option<u16>,
    pub logs_dir_path: Option<String>,
    pub engines: Vec<Engine>,
    pub models: Vec<Model>,
}

/// The abstract value of a [`Config`].
pub struct ConfigView {
    pub daemon_port: u16,
    pub engine_base_port: Option<u16>,
    pub logs_dir_path: Option<Seq<char>>,
    pub engines: Seq<EngineView>,
    pub models: Seq<ModelView>,
}

/// The view of an optional string.
pub open spec fn option_string_view(s: Option<String>) -> Option<Seq<char>> {
    match s {
        Some(v) => Some(v@),
        None => None,
    }
}

impl View for Config {
    type V = ConfigView;

    open spec fn view(&self) -> ConfigView {
        ConfigView {
            daemon_port: self.daemon_port,
            engine_base_port: self.engine_base_port,
            logs_dir_path: option_string_view(self.logs_dir_path),
            engines: self.engines@.map_values(|e: Engine| e@),
            models: self.models@.map_values(|m: Model| m@),
        }
    }
}

impl Config {
    /// Whether the first engine port can be computed: a configured one, or
    /// the daemon port has a successor.
    pub open spec fn has_engine_base_port(self) -> bool {
        self.engine_base_port is Some || self.daemon_port < u16::MAX
    }

    /// The first port handed to engines: the configured one, else the one after the daemon's.
    pub open spec fn spec_engine_base_port(self) -> u16 {
        match self.engine_base_port {
            Some(port) => port,
            None => (self.daemon_port + 1) as u16,
        }
    }

    /// The directory for engine logs: the configured one, else the default.
    pub open spec fn spec_logs_dir_path(self) -> Seq<char> {
        match self.logs_dir_path {
            Some(path) => path@,
            None => DEFAULT_LOGS_DIR_PATH@,
        }
    }

    /// The first port handed to engines.
    pub fn engine_base_port(&self) -> (port: u16)
        requires
            self.has_engine_base_port(),
        ensures
            port == self.spec_engine_base_port(),
    {
        match self.engine_base_port {
            Some(port) => port,
            None => self.daemon_port + 1,
        }
    }

    /// The directory for engine logs.
    pub fn logs_dir_path(&self) -> (path: String)
        ensures
            path@ == self.spec_logs_dir_path(),
    {
        match &self.logs_dir_path {
            Some(path) => path.clone(),
            None => DEFAULT_LOGS_DIR_PATH.to_owned(),
        }
    }

    /// A copy with the same value.
    pub fn duplicate(&self) -> (copy: Config)
        ensures
            copy@ == self@,
    {
        let mut engines: Vec<Engine> = Vec::new();
        let mut i: usize = 0;
        while i < self.engines.len()
            invariant
                0 <= i <= self.engines.len(),
                engines.len() == i,
                forall|k: int| 0 <= k < i ==> engines@[k]@ == self.engines@[k]@,
            decreases self.engines.len() - i,
        {
            engines.push(self.engines[i].duplicate());
            i = i + 1;
        }
        let mut models: Vec<Model> = Vec::new();
        let mut j: usize = 0;
        while j < self.models.len()
            invariant
                0 <= j <= self.models.len(),
                models.len() == j,
                forall|k: int| 0 <= k < j ==> models@[k]@ == self.models@[k]@,
            decreases self.models.len() - j,
        {
            models.push(self.models[j].duplicate());
            j = j + 1;
        }
        proof {
            assert(engines@.map_values(|e: Engine| e@) =~= self.engines@.map_values(|e: Engine| e@));
            assert(models@.map_values(|m: Model| m@) =~= self.models@.map_values(|m: Model| m@));
        }
        let logs_dir_path = match &self.logs_dir_path {
            Some(path) => Some(path.clone()),
            None => None,
        };
        Config {
            daemon_port: self.daemon_port,
            engine_base_port: self.engine_base_port,
            logs_dir_path,
            engines,
            models,
        }
    }
}

} // verus!
