//! Start-up of the trigger: from the components' trigger tables to the set of
//! listeners, and the supervision policy that decides when the run ends.
//!
//! Every listener runs as its own task; the first one to finish decides the
//! outcome of the whole run, and the others are abandoned with it.
use vstd::prelude::*;
use crate::config::{
    component_of, config_fault, field_fault, first_fault, key_before, key_name, FieldName, get_settings, parse_trigger_config, port_of, Component,
    FieldError, RawField,
};
use crate::listener::{Listener, ListenerPhase};
use crate::supervisor::Supervisor;
use crate::text::address_of;

verus! {

/// Why the set of trigger tables was refused; `entry` indexes the tables.
#[derive(Clone, Copy, Debug, PartialEq, Eq, Structural)]
pub enum ConfigError {
    Entry { entry: usize, error: FieldError },
    DuplicateComponent { entry: usize },
}

/// One component and the port its listener binds.
pub struct ComponentBinding {
    pub component_id: String,
    pub settings: Component,
}

/// The first refused table among the first `n`.
pub open spec fn entries_fault(entries: Seq<Vec<RawField>>, n: int) -> Option<ConfigError>
    decreases n,
{
    if n <= 0 {
        None
    } else if entries_fault(entries, n - 1) is Some {
        entries_fault(entries, n - 1)
    } else {
        match config_fault(entries[n - 1]@) {
            Some(e) => Some(ConfigError::Entry { entry: (n - 1) as usize, error: e }),
            None => None,
        }
    }
}

/// Table `k` names a component that an earlier table already named.
pub open spec fn repeats_earlier(entries: Seq<Vec<RawField>>, k: int) -> bool {
    exists|j: int| 0 <= j < k && component_of(entries[j]@) == component_of(entries[k]@)
}

/// The first table among the first `n` that repeats a component.
pub open spec fn first_repeat(entries: Seq<Vec<RawField>>, n: int) -> Option<ConfigError>
    decreases n,
{
    if n <= 0 {
        None
    } else if first_repeat(entries, n - 1) is Some {
        first_repeat(entries, n - 1)
    } else if repeats_earlier(entries, n - 1) {
        Some(ConfigError::DuplicateComponent { entry: (n - 1) as usize })
    } else {
        None
    }
}

/// Why start-up is refused, or `None`: each table is checked on its own
/// first, then the component names across tables.
pub open spec fn startup_fault(entries: Seq<Vec<RawField>>) -> Option<ConfigError> {
    if entries_fault(entries, entries.len() as int) is Some {
        entries_fault(entries, entries.len() as int)
    } else {
        first_repeat(entries, entries.len() as int)
    }
}

proof fn lemma_entries_fault_persists(entries: Seq<Vec<RawField>>, k: int, n: int)
    requires
        0 < k <= n,
        entries_fault(entries, k) is Some,
    ensures
        entries_fault(entries, n) == entries_fault(entries, k),
    decreases n - k,
{
    if k < n {
        lemma_entries_fault_persists(entries, k, n - 1);
    }
}

proof fn lemma_repeat_persists(entries: Seq<Vec<RawField>>, k: int, n: int)
    requires
        0 < k <= n,
        first_repeat(entries, k) is Some,
    ensures
        first_repeat(entries, n) == first_repeat(entries, k),
    decreases n - k,
{
    if k < n {
        lemma_repeat_persists(entries, k, n - 1);
    }
}

/// The validated set of components that a run serves.
pub struct Executor {
    pub bindings: Vec<ComponentBinding>,
}

impl Executor {
    /// Binding `k` is the component and port of table `k`.
    pub open spec fn binds(&self, entries: Seq<Vec<RawField>>) -> bool {
        &&& self.bindings@.len() == entries.len()
        &&& forall|k: int|
            0 <= k < entries.len() ==> (#[trigger] self.bindings@[k]).component_id@
                == component_of(entries[k]@) && self.bindings@[k].settings.port as int
                == port_of(entries[k]@)
    }

    /// No two bindings name the same component.
    pub open spec fn wf(&self) -> bool {
        forall|j: int, k: int|
            0 <= j < k < self.bindings@.len() ==> (#[trigger] self.bindings@[j]).component_id@
                != (#[trigger] self.bindings@[k]).component_id@
    }

    /// Validates every component's trigger table and collects the bindings.
    /// Nothing is bound here: a refused configuration ends start-up before
    /// any socket is opened.
    pub fn from_entries(entries: &Vec<Vec<RawField>>) -> (r: Result<Executor, ConfigError>)
        ensures
            r is Ok <==> startup_fault(entries@) is None,
            r matches Err(e) ==> startup_fault(entries@) == Some(e),
            r matches Ok(ex) ==> ex.binds(entries@) && ex.wf(),
    {
        let mut bindings: Vec<ComponentBinding> = Vec::new();
        let mut k: usize = 0;
        while k < entries.len()
            invariant
                0 <= k <= entries.len(),
                entries_fault(entries@, k as int) is None,
                bindings@.len() == k,
                forall|i: int|
                    0 <= i < k ==> (#[trigger] bindings@[i]).component_id@ == component_of(
                        entries@[i]@,
                    ) && bindings@[i].settings.port as int == port_of(entries@[i]@),
            decreases entries.len() - k,
        {
            match parse_trigger_config(&entries[k]) {
                Ok(config) => {
                    let settings = get_settings(&config);
                    bindings.push(ComponentBinding { component_id: config.component, settings });
                },
                Err(error) => {
                    proof {
                        lemma_entries_fault_persists(entries@, k + 1, entries@.len() as int);
                    }
                    return Err(ConfigError::Entry { entry: k, error });
                },
            }
            k = k + 1;
        }
        let mut k: usize = 0;
        while k < bindings.len()
            invariant
                0 <= k <= bindings.len() == entries.len(),
                entries_fault(entries@, entries@.len() as int) is None,
                first_repeat(entries@, k as int) is None,
                forall|i: int|
                    0 <= i < bindings.len() ==> (#[trigger] bindings@[i]).component_id@
                        == component_of(entries@[i]@) && bindings@[i].settings.port as int
                        == port_of(entries@[i]@),
                forall|i: int, l: int|
                    0 <= i < l < k ==> (#[trigger] bindings@[i]).component_id@
                        != (#[trigger] bindings@[l]).component_id@,
            decreases bindings.len() - k,
        {
            let mut j: usize = 0;
            while j < k
                invariant
                    0 <= j <= k < bindings.len() == entries.len(),
                    entries_fault(entries@, entries@.len() as int) is None,
                    first_repeat(entries@, k as int) is None,
                    forall|i: int|
                        0 <= i < bindings.len() ==> (#[trigger] bindings@[i]).component_id@
                            == component_of(entries@[i]@),
                    forall|i: int|
                        0 <= i < j ==> (#[trigger] bindings@[i]).component_id@ != bindings@[k as int].component_id@,
                decreases k - j,
            {
                if bindings[j].component_id == bindings[k].component_id {
                    proof {
                        assert(bindings@[j as int].component_id@ == bindings@[k as int].component_id@);
                        assert(repeats_earlier(entries@, k as int));
                        lemma_repeat_persists(entries@, k + 1, entries@.len() as int);
                    }
                    return Err(ConfigError::DuplicateComponent { entry: k });
                }
                j = j + 1;
            }
            proof {
                assert(!repeats_earlier(entries@, k as int)) by {
                    if repeats_earlier(entries@, k as int) {
                        let i = choose|i: int|
                            0 <= i < k && component_of(entries@[i]@) == component_of(
                                entries@[k as int]@,
                            );
                        assert(bindings@[i].component_id@ != bindings@[k as int].component_id@);
                    }
                }
            }
            k = k + 1;
        }
        Ok(Executor { bindings })
    }

    /// One listener per binding, in order, each about to bind `host:port`.
    pub fn listeners(&self, host: &str) -> (r: Vec<Listener>)
        ensures
            r@.len() == self.bindings@.len(),
            forall|k: int|
                0 <= k < r@.len() ==> (#[trigger] r@[k]).component_id@
                    == self.bindings@[k].component_id@ && r@[k].address@ == address_of(
                    host@,
                    self.bindings@[k].settings.port,
                ) && r@[k].phase == ListenerPhase::Binding,
    {
        let mut r: Vec<Listener> = Vec::new();
        let mut k: usize = 0;
        while k < self.bindings.len()
            invariant
                0 <= k <= self.bindings@.len(),
                r@.len() == k,
                forall|i: int|
                    0 <= i < k ==> (#[trigger] r@[i]).component_id@
                        == self.bindings@[i].component_id@ && r@[i].address@ == address_of(
                        host@,
                        self.bindings@[i].settings.port,
                    ) && r@[i].phase == ListenerPhase::Binding,
            decreases self.bindings@.len() - k,
        {
            r.push(Listener::new(&self.bindings[k], host));
            k = k + 1;
        }
        r
    }

    /// Supervision of this run's listeners: one per binding.
    pub fn supervisor(&self) -> (r: Supervisor)
        ensures
            r.listeners == self.bindings@.len(),
            r.outcome is None <==> self.bindings@.len() > 0,
    {
        Supervisor::new(self.bindings.len())
    }
}

proof fn lemma_field_fault_is_reported(fields: Seq<RawField>, i: int, n: int)
    requires
        0 <= i < n,
        field_fault(fields, i) is Some,
    ensures
        first_fault(fields, n) is Some,
    decreases n,
{
    if n - 1 > i {
        lemma_field_fault_is_reported(fields, i, n - 1);
    }
}

proof fn lemma_entry_fault_is_reported(entries: Seq<Vec<RawField>>, k: int, n: int)
    requires
        0 <= k < n,
        config_fault(entries[k]@) is Some,
    ensures
        entries_fault(entries, n) is Some,
    decreases n,
{
    if n - 1 > k {
        lemma_entry_fault_is_reported(entries, k, n - 1);
    }
}

/// A trigger table with an unknown key, or with no port, refuses the whole
/// start-up: no listener is created for any component.
pub proof fn lemma_bad_table_stops_startup(entries: Seq<Vec<RawField>>, k: int)
    requires
        0 <= k < entries.len(),
        (exists|i: int| 0 <= i < entries[k]@.len() && key_name(#[trigger] entries[k]@[i].key@) is None)
            || !key_before(entries[k]@, entries[k]@.len() as int, FieldName::Port),
    ensures
        startup_fault(entries) is Some,
{
    let fields = entries[k]@;
    if exists|i: int| 0 <= i < fields.len() && key_name(#[trigger] fields[i].key@) is None {
        let i = choose|i: int| 0 <= i < fields.len() && key_name(#[trigger] fields[i].key@) is None;
        lemma_field_fault_is_reported(fields, i, fields.len() as int);
    }
    assert(config_fault(fields) is Some);
    lemma_entry_fault_is_reported(entries, k, entries.len() as int);
}

} // verus!
