use vstd::prelude::*;
use crate::config::{Config, Engine, Model};
use crate::engine::{
    first_free_port, has_free_port_from, is_first_free_port, next_available_port as first_port_from,
    EngineInstance,
};
use crate::text::str_equal;

verus! {

/// Whether `i` is the first position of `name` in `names`.
pub open spec fn is_first_name(names: Seq<Seq<char>>, name: Seq<char>, i: int) -> bool {
    &&& 0 <= i < names.len()
    &&& names[i] == name
    &&& forall|j: int| 0 <= j < i ==> names[j] != name
}

/// The first position of `name` in `names` (meaningful when it occurs).
pub open spec fn first_index(names: Seq<Seq<char>>, name: Seq<char>) -> int {
    choose|i: int| is_first_name(names, name, i)
}

/// The first position of a name is unique.
pub proof fn lemma_first_index_unique(names: Seq<Seq<char>>, name: Seq<char>, i: int)
    requires
        is_first_name(names, name, i),
    ensures
        first_index(names, name) == i,
{
    let k = first_index(names, name);
    assert(is_first_name(names, name, k));
    if k < i {
        assert(names[k] == name);
    } else if i < k {
        assert(names[i] == name);
    }
}

/// The names of the models of a configuration.
pub open spec fn model_names(models: Seq<Model>) -> Seq<Seq<char>> {
    models.map_values(|m: Model| m.name@)
}

/// The names of the engines of a configuration.
pub open spec fn engine_names(engines: Seq<Engine>) -> Seq<Seq<char>> {
    engines.map_values(|e: Engine| e.name@)
}

/// The names of the models that engine instances serve.
pub open spec fn instance_names(instances: Seq<EngineInstance>) -> Seq<Seq<char>> {
    instances.map_values(|e: EngineInstance| e.model_config.name@)
}

/// The ports of engine instances.
pub open spec fn instance_ports(instances: Seq<EngineInstance>) -> Seq<u16> {
    instances.map_values(|e: EngineInstance| e.engine_port)
}

/// The first model named `name`, if any.
pub fn find_model(models: &Vec<Model>, name: &str) -> (index: Option<usize>)
    ensures
        match index {
            Some(i) => is_first_name(model_names(models@), name@, i as int),
            None => !model_names(models@).contains(name@),
        },
{
    let mut i: usize = 0;
    while i < models.len()
        invariant
            0 <= i <= models.len(),
            forall|j: int| 0 <= j < i ==> model_names(models@)[j] != name@,
        decreases models.len() - i,
    {
        if str_equal(models[i].name.as_str(), name) {
            return Some(i);
        }
        i = i + 1;
    }
    proof {
        assert forall|j: int| 0 <= j < model_names(models@).len() implies model_names(models@)[j] != name@ by {}
    }
    None
}

/// The first engine named `name`, if any.
pub fn find_engine(engines: &Vec<Engine>, name: &str) -> (index: Option<usize>)
    ensures
        match index {
            Some(i) => is_first_name(engine_names(engines@), name@, i as int),
            None => !engine_names(engines@).contains(name@),
        },
{
    let mut i: usize = 0;
    while i < engines.len()
        invariant
            0 <= i <= engines.len(),
            forall|j: int| 0 <= j < i ==> engine_names(engines@)[j] != name@,
        decreases engines.len() - i,
    {
        if str_equal(engines[i].name.as_str(), name) {
            return Some(i);
        }
        i = i + 1;
    }
    proof {
        assert forall|j: int| 0 <= j < engine_names(engines@).len() implies engine_names(engines@)[j] != name@ by {}
    }
    None
}

/// The first engine instance serving the model named `name`, if any.
pub fn find_instance(instances: &Vec<EngineInstance>, name: &str) -> (index: Option<usize>)
    ensures
        match index {
            Some(i) => is_first_name(instance_names(instances@), name@, i as int),
            None => !instance_names(instances@).contains(name@),
        },
{
    let mut i: usize = 0;
    while i < instances.len()
        invariant
            0 <= i <= instances.len(),
            forall|j: int| 0 <= j < i ==> instance_names(instances@)[j] != name@,
        decreases instances.len() - i,
    {
        if str_equal(instances[i].model_name(), name) {
            return Some(i);
        }
        i = i + 1;
    }
    proof {
        assert forall|j: int| 0 <= j < instance_names(instances@).len() implies instance_names(instances@)[j] != name@ by {}
    }
    None
}

/// A port held back for an engine that is being set up: it is not handed out
/// again until the reservation is released.
pub struct PortReservation {
    port: u16,
}

impl PortReservation {
    /// The reserved port.
    pub closed spec fn spec_port(self) -> u16 {
        self.port
    }

    /// The reserved port.
    pub fn port(&self) -> (port: u16)
        ensures
            port == self.spec_port(),
    {
        self.port
    }
}

/// The daemon's state: its configuration, the ports held back for engines
/// being set up, and the engine instances.
pub struct DaemonCtxt {
    pub config_file_path: String,
    pub loaded_config: Config,
    pub reserved_ports: Vec<u16>,
    pub engine_instances: Vec<EngineInstance>,
    pub next_request_id: u64,
}

impl DaemonCtxt {
    /// The ports in use: those of the engine instances, then the reserved ones.
    pub open spec fn allocated_ports(self) -> Seq<u16> {
        instance_ports(self.engine_instances@) + self.reserved_ports@
    }

    /// No port is held twice: engine instances have distinct ports, reserved
    /// ports are distinct, and no reserved port belongs to an engine instance.
    pub open spec fn wf(self) -> bool {
        &&& instance_ports(self.engine_instances@).no_duplicates()
        &&& self.reserved_ports@.no_duplicates()
        &&& forall|p: u16| #[trigger] self.reserved_ports@.contains(p) ==> !instance_ports(self.engine_instances@).contains(p)
    }

    /// Whether a port can be reserved: the first engine port is defined and
    /// some port from it up is free.
    pub open spec fn can_reserve_port(self) -> bool {
        &&& self.loaded_config.has_engine_base_port()
        &&& has_free_port_from(self.loaded_config.spec_engine_base_port(), self.allocated_ports())
    }

    /// A fresh state for the configuration read from `config_file_path`.
    pub fn new(config_file_path: String, config: Config) -> (dcx: DaemonCtxt)
        ensures
            dcx.wf(),
            dcx.config_file_path == config_file_path,
            dcx.loaded_config == config,
            dcx.reserved_ports@ == Seq::<u16>::empty(),
            dcx.engine_instances@ == Seq::<EngineInstance>::empty(),
    {
        let dcx = DaemonCtxt {
            config_file_path,
            loaded_config: config,
            reserved_ports: Vec::new(),
            engine_instances: Vec::new(),
            next_request_id: 1,
        };
        proof {
            assert(instance_ports(dcx.engine_instances@) =~= Seq::<u16>::empty());
        }
        dcx
    }

    /// The first engine instance serving the model named `model_name`.
    pub fn model_engine_instance(&self, model_name: &str) -> (instance: Option<&EngineInstance>)
        ensures
            match instance {
                Some(e) => instance_names(self.engine_instances@).contains(model_name@)
                    && *e == self.engine_instances@[first_index(instance_names(self.engine_instances@), model_name@)],
                None => !instance_names(self.engine_instances@).contains(model_name@),
            },
    {
        match find_instance(&self.engine_instances, model_name) {
            Some(i) => {
                proof {
                    lemma_first_index_unique(instance_names(self.engine_instances@), model_name@, i as int);
                }
                Some(&self.engine_instances[i])
            },
            None => None,
        }
    }

    /// The ports in use, as a vector.
    fn allocated_ports_vec(&self) -> (ports: Vec<u16>)
        ensures
            ports@ == self.allocated_ports(),
    {
        let mut ports: Vec<u16> = Vec::new();
        let mut i: usize = 0;
        while i < self.engine_instances.len()
            invariant
                0 <= i <= self.engine_instances.len(),
                ports@ =~= instance_ports(self.engine_instances@).take(i as int),
            decreases self.engine_instances.len() - i,
        {
            ports.push(self.engine_instances[i].engine_port);
            i = i + 1;
        }
        let mut j: usize = 0;
        while j < self.reserved_ports.len()
            invariant
                0 <= j <= self.reserved_ports.len(),
                ports@ =~= instance_ports(self.engine_instances@) + self.reserved_ports@.take(j as int),
            decreases self.reserved_ports.len() - j,
        {
            ports.push(self.reserved_ports[j]);
            j = j + 1;
        }
        proof {
            assert(self.reserved_ports@.take(self.reserved_ports.len() as int) =~= self.reserved_ports@);
        }
        ports
    }

    /// Whether a port can be reserved now.
    pub fn has_available_port(&self) -> (available: bool)
        ensures
            available == self.can_reserve_port(),
    {
        if self.loaded_config.engine_base_port.is_none() && self.loaded_config.daemon_port == u16::MAX {
            return false;
        }
        let base_port = self.loaded_config.engine_base_port();
        let ports = self.allocated_ports_vec();
        first_free_port(base_port, &ports).is_some()
    }

    /// Reserves the first free engine port at or above the configured base:
    /// the port is not handed out again until the reservation is released.
    pub fn next_available_port(&mut self) -> (reservation: PortReservation)
        requires
            old(self).wf(),
            old(self).can_reserve_port(),
        ensures
            final(self).wf(),
            is_first_free_port(old(self).loaded_config.spec_engine_base_port(), old(self).allocated_ports(), reservation.spec_port()),
            final(self).reserved_ports@ == old(self).reserved_ports@.push(reservation.spec_port()),
            final(self).engine_instances == old(self).engine_instances,
            final(self).loaded_config == old(self).loaded_config,
            final(self).config_file_path == old(self).config_file_path,
            final(self).next_request_id == old(self).next_request_id,
    {
        let base_port = self.loaded_config.engine_base_port();
        let mut allocated_ports = self.allocated_ports_vec();
        let port = first_port_from(base_port, &mut allocated_ports);
        self.reserved_ports.push(port);
        proof {
            let ip = instance_ports(self.engine_instances@);
            assert(!old(self).allocated_ports().contains(port));
            assert forall|p: u16| ip.contains(p) implies old(self).allocated_ports().contains(p) by {
                let k = choose|k: int| 0 <= k < ip.len() && ip[k] == p;
                assert(old(self).allocated_ports()[k] == p);
            }
            assert forall|p: u16| old(self).reserved_ports@.contains(p) implies old(self).allocated_ports().contains(p) by {
                let k = choose|k: int| 0 <= k < old(self).reserved_ports@.len() && old(self).reserved_ports@[k] == p;
                assert(old(self).allocated_ports()[ip.len() + k] == p);
            }
            assert forall|p: u16| #[trigger] self.reserved_ports@.contains(p) implies !ip.contains(p) by {
                let k = choose|k: int| 0 <= k < self.reserved_ports@.len() && self.reserved_ports@[k] == p;
                if k < old(self).reserved_ports@.len() {
                    assert(old(self).reserved_ports@[k] == p);
                    assert(old(self).reserved_ports@.contains(p));
                } else {
                    assert(p == port);
                    if ip.contains(port) {
                        assert(old(self).allocated_ports().contains(port));
                    }
                }
            }
            assert forall|a: int, b: int| 0 <= a < b < self.reserved_ports@.len() implies self.reserved_ports@[a] != self.reserved_ports@[b] by {
                if b == old(self).reserved_ports@.len() {
                    assert(old(self).reserved_ports@.contains(self.reserved_ports@[a]));
                }
            }
        }
        PortReservation { port }
    }

    /// Releases a reservation: its port may be handed out again.
    pub fn release_port(&mut self, reservation: PortReservation)
        requires
            old(self).wf(),
        ensures
            final(self).wf(),
            final(self).reserved_ports@ == old(self).reserved_ports@.filter(|p: u16| p != reservation.spec_port()),
            final(self).engine_instances == old(self).engine_instances,
            final(self).loaded_config == old(self).loaded_config,
            final(self).config_file_path == old(self).config_file_path,
            final(self).next_request_id == old(self).next_request_id,
    {
        let port = reservation.port;
        let mut kept: Vec<u16> = Vec::new();
        let mut i: usize = 0;
        let ghost pred = |p: u16| p != port;
        while i < self.reserved_ports.len()
            invariant
                0 <= i <= self.reserved_ports.len(),
                pred == (|p: u16| p != port),
                kept@ =~= self.reserved_ports@.take(i as int).filter(pred),
            decreases self.reserved_ports.len() - i,
        {
            let p = self.reserved_ports[i];
            proof {
                assert(self.reserved_ports@.take(i as int + 1) =~= self.reserved_ports@.take(i as int).push(p));
                self.reserved_ports@.take(i as int).lemma_filter_push(p, pred);
            }
            if p != port {
                kept.push(p);
            }
            i = i + 1;
        }
        proof {
            assert(self.reserved_ports@.take(self.reserved_ports.len() as int) =~= self.reserved_ports@);
            let old_r = self.reserved_ports@;
            assert forall|p: u16| kept@.contains(p) implies old_r.contains(p) by {
                old_r.lemma_filter_contains_rev(pred, p);
            }
            lemma_filter_no_duplicates(old_r, pred);
        }
        self.reserved_ports = kept;
        proof {
            let ip = instance_ports(self.engine_instances@);
            assert forall|p: u16| #[trigger] self.reserved_ports@.contains(p) implies !ip.contains(p) by {
                assert(old(self).reserved_ports@.contains(p));
            }
        }
    }
}

/// Filtering keeps a sequence free of repeats.
pub proof fn lemma_filter_no_duplicates(s: Seq<u16>, pred: spec_fn(u16) -> bool)
    requires
        s.no_duplicates(),
    ensures
        s.filter(pred).no_duplicates(),
    decreases s.len(),
{
    reveal(Seq::filter);
    if s.len() > 0 {
        let init = s.drop_last();
        assert(init.no_duplicates());
        lemma_filter_no_duplicates(init, pred);
        if pred(s.last()) {
            assert(!init.contains(s.last()));
            if init.filter(pred).contains(s.last()) {
                init.lemma_filter_contains_rev(pred, s.last());
            }
            assert(s.filter(pred) =~= init.filter(pred).push(s.last()));
        } else {
            assert(s.filter(pred) =~= init.filter(pred));
        }
    }
}

/// A reserved port is not handed out again: the port found after reserving
/// `first` (the ports in use then include it) differs from `first`.
pub proof fn lemma_reserved_port_not_handed_out_again(base: u16, in_use: Seq<u16>, first: u16, second: u16)
    requires
        is_first_free_port(base, in_use, first),
        is_first_free_port(base, in_use.push(first), second),
    ensures
        first != second,
{
    assert(in_use.push(first)[in_use.len() as int] == first);
    assert(in_use.push(first).contains(first));
}

/// Which port is handed out depends only on which ports are in use, not on
/// their order or on repeats.
pub proof fn lemma_first_free_port_depends_on_set(base: u16, a: Seq<u16>, b: Seq<u16>, p: u16, q: u16)
    requires
        forall|x: u16| a.contains(x) <==> b.contains(x),
        is_first_free_port(base, a, p),
        is_first_free_port(base, b, q),
    ensures
        p == q,
{
    if p < q {
        assert(b.contains(p));
    } else if q < p {
        assert(a.contains(q));
    }
}

/// A released port may be handed out again: it is no longer reserved.
pub proof fn lemma_released_port_is_free(reserved: Seq<u16>, port: u16)
    ensures
        !reserved.filter(|p: u16| p != port).contains(port),
{
    if reserved.filter(|p: u16| p != port).contains(port) {
        reserved.lemma_filter_contains_rev(|p: u16| p != port, port);
    }
}

} // verus!
