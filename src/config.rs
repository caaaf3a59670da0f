//! Per-component trigger settings and their validation.
//!
//! The manifest loader hands each component's trigger table over as a list of
//! key/value fields. A table is accepted only when it names the component
//! once, gives a port once, and holds no other key.
use vstd::prelude::*;

verus! {

/// A setting's value as the manifest loader delivers it.
pub enum RawValue {
    Text(String),
    Integer(i64),
    Other,
}

/// One `key = value` line of a component's trigger table.
pub struct RawField {
    pub key: String,
    pub value: RawValue,
}

/// The keys that a trigger table may hold.
#[derive(Clone, Copy, Debug, PartialEq, Eq, Structural)]
pub enum FieldName {
    Component,
    Port,
}

/// Why one trigger table was refused; indices point into its field list.
#[derive(Clone, Copy, Debug, PartialEq, Eq, Structural)]
pub enum FieldError {
    Unknown(usize),
    Duplicate(usize),
    Invalid(usize),
    Missing(FieldName),
}

/// A component's trigger settings once validated.
pub struct TriggerConfig {
    pub component: String,
    pub port: u16,
}

/// The settings a listener needs for one component.
#[derive(Clone, Copy, Debug, PartialEq, Eq, Structural)]
pub struct Component {
    pub port: u16,
}

pub open spec fn key_name(k: Seq<char>) -> Option<FieldName> {
    if k == "component"@ {
        Some(FieldName::Component)
    } else if k == "port"@ {
        Some(FieldName::Port)
    } else {
        None
    }
}

pub open spec fn value_fits(name: FieldName, v: RawValue) -> bool {
    match name {
        FieldName::Component => v is Text,
        FieldName::Port => v matches RawValue::Integer(n) && 0 <= n <= 65535,
    }
}

/// Some field before index `n` carries the key `name`.
pub open spec fn key_before(fields: Seq<RawField>, n: int, name: FieldName) -> bool {
    exists|j: int| 0 <= j < n && #[trigger] key_name(fields[j].key@) == Some(name)
}

/// What is wrong with field `i` alone, given the fields before it.
pub open spec fn field_fault(fields: Seq<RawField>, i: int) -> Option<FieldError> {
    match key_name(fields[i].key@) {
        None => Some(FieldError::Unknown(i as usize)),
        Some(name) => if key_before(fields, i, name) {
            Some(FieldError::Duplicate(i as usize))
        } else if !value_fits(name, fields[i].value) {
            Some(FieldError::Invalid(i as usize))
        } else {
            None
        },
    }
}

/// The fault of the first faulty field among the first `n`.
pub open spec fn first_fault(fields: Seq<RawField>, n: int) -> Option<FieldError>
    decreases n,
{
    if n <= 0 {
        None
    } else if first_fault(fields, n - 1) is Some {
        first_fault(fields, n - 1)
    } else {
        field_fault(fields, n - 1)
    }
}

/// Why a trigger table is refused, or `None` when it is accepted: fields are
/// judged in order, then a missing component, then a missing port.
pub open spec fn config_fault(fields: Seq<RawField>) -> Option<FieldError> {
    if first_fault(fields, fields.len() as int) is Some {
        first_fault(fields, fields.len() as int)
    } else if !key_before(fields, fields.len() as int, FieldName::Component) {
        Some(FieldError::Missing(FieldName::Component))
    } else if !key_before(fields, fields.len() as int, FieldName::Port) {
        Some(FieldError::Missing(FieldName::Port))
    } else {
        None
    }
}

/// The value given under `name` (in an accepted table there is exactly one).
pub open spec fn value_of(fields: Seq<RawField>, name: FieldName) -> RawValue {
    fields[choose|j: int| 0 <= j < fields.len() && #[trigger] key_name(fields[j].key@) == Some(name)].value
}

pub open spec fn component_of(fields: Seq<RawField>) -> Seq<char> {
    match value_of(fields, FieldName::Component) {
        RawValue::Text(t) => t@,
        _ => Seq::empty(),
    }
}

pub open spec fn port_of(fields: Seq<RawField>) -> int {
    match value_of(fields, FieldName::Port) {
        RawValue::Integer(n) => n as int,
        _ => 0,
    }
}

/// With no faulty field, each known key stands at most once.
proof fn lemma_key_unique(fields: Seq<RawField>, j: int, name: FieldName)
    requires
        first_fault(fields, fields.len() as int) is None,
        0 <= j < fields.len(),
        key_name(fields[j].key@) == Some(name),
    ensures
        forall|k: int|
            0 <= k < fields.len() && #[trigger] key_name(fields[k].key@) == Some(name) ==> k == j,
        value_fits(name, fields[j].value),
        value_of(fields, name) == fields[j].value,
{
    lemma_no_fault_upto(fields, fields.len() as int);
    assert forall|k: int|
        0 <= k < fields.len() && #[trigger] key_name(fields[k].key@) == Some(name) implies k == j by {
        if k < j {
            assert(field_fault(fields, j) is None);
            assert(key_before(fields, j, name));
        } else if j < k {
            assert(field_fault(fields, k) is None);
            assert(key_before(fields, k, name));
        }
    }
    assert(field_fault(fields, j) is None);
    let c = choose|i: int| 0 <= i < fields.len() && #[trigger] key_name(fields[i].key@) == Some(name);
    assert(c == j);
}

proof fn lemma_fault_found(fields: Seq<RawField>, i: int)
    requires
        0 <= i < fields.len(),
        first_fault(fields, i) is None,
        field_fault(fields, i) is Some,
    ensures
        config_fault(fields) == field_fault(fields, i),
{
    lemma_fault_persists(fields, i + 1, fields.len() as int);
}

proof fn lemma_fault_persists(fields: Seq<RawField>, k: int, n: int)
    requires
        0 < k <= n,
        first_fault(fields, k) is Some,
    ensures
        first_fault(fields, n) == first_fault(fields, k),
    decreases n - k,
{
    if k < n {
        lemma_fault_persists(fields, k, n - 1);
    }
}

proof fn lemma_no_fault_upto(fields: Seq<RawField>, n: int)
    requires
        first_fault(fields, n) is None,
    ensures
        forall|i: int| 0 <= i < n ==> #[trigger] field_fault(fields, i) is None,
    decreases n,
{
    if n > 0 {
        lemma_no_fault_upto(fields, n - 1);
    }
}

/// Validates one component's trigger table.
pub fn parse_trigger_config(fields: &Vec<RawField>) -> (r: Result<TriggerConfig, FieldError>)
    ensures
        r is Ok <==> config_fault(fields@) is None,
        r matches Err(e) ==> config_fault(fields@) == Some(e),
        r matches Ok(c) ==> c.component@ == component_of(fields@) && c.port as int == port_of(
            fields@,
        ),
{
    let component_key = String::from_str("component");
    let port_key = String::from_str("port");
    let mut component: Option<String> = None;
    let mut port: Option<u16> = None;
    let mut i: usize = 0;
    while i < fields.len()
        invariant
            0 <= i <= fields.len(),
            component_key@ == "component"@,
            port_key@ == "port"@,
            first_fault(fields@, i as int) is None,
            component is Some <==> key_before(fields@, i as int, FieldName::Component),
            port is Some <==> key_before(fields@, i as int, FieldName::Port),
            component matches Some(t) ==> exists|j: int|
                0 <= j < i && #[trigger] key_name(fields@[j].key@) == Some(FieldName::Component)
                    && (fields@[j].value matches RawValue::Text(u) && u@ == t@),
            port matches Some(p) ==> exists|j: int|
                0 <= j < i && #[trigger] key_name(fields@[j].key@) == Some(FieldName::Port)
                    && fields@[j].value == RawValue::Integer(p as i64),
        decreases fields.len() - i,
    {
        let f = &fields[i];
        let ghost prefix = i as int;
        let fault = if f.key == component_key {
            assert(key_name(f.key@) == Some(FieldName::Component));
            if component.is_some() {
                Some(FieldError::Duplicate(i))
            } else {
                match &f.value {
                    RawValue::Text(t) => {
                        component = Some(t.clone());
                        None
                    },
                    _ => Some(FieldError::Invalid(i)),
                }
            }
        } else if f.key == port_key {
            assert(key_name(f.key@) == Some(FieldName::Port));
            if port.is_some() {
                Some(FieldError::Duplicate(i))
            } else {
                match &f.value {
                    RawValue::Integer(n) if 0 <= *n && *n <= 65535 => {
                        port = Some(*n as u16);
                        None
                    },
                    _ => Some(FieldError::Invalid(i)),
                }
            }
        } else {
            assert(key_name(f.key@) is None);
            Some(FieldError::Unknown(i))
        };
        if let Some(e) = fault {
            proof {
                lemma_fault_found(fields@, prefix);
            }
            return Err(e);
        }
        assert(field_fault(fields@, prefix) is None);
        i = i + 1;
        assert(key_name(fields@[prefix].key@) is Some);
    }
    match (component, port) {
        (None, _) => Err(FieldError::Missing(FieldName::Component)),
        (_, None) => Err(FieldError::Missing(FieldName::Port)),
        (Some(c), Some(p)) => {
            proof {
                let jc = choose|j: int|
                    0 <= j < fields.len() && #[trigger] key_name(fields@[j].key@) == Some(
                        FieldName::Component,
                    ) && (fields@[j].value matches RawValue::Text(u) && u@ == c@);
                lemma_key_unique(fields@, jc, FieldName::Component);
                let jp = choose|j: int|
                    0 <= j < fields.len() && #[trigger] key_name(fields@[j].key@) == Some(
                        FieldName::Port,
                    ) && fields@[j].value == RawValue::Integer(p as i64);
                lemma_key_unique(fields@, jp, FieldName::Port);
            }
            Ok(TriggerConfig { component: c, port: p })
        },
    }
}

/// The listener settings of one validated component.
pub fn get_settings(config: &TriggerConfig) -> (r: Component)
    ensures
        r.port == config.port,
{
    Component { port: config.port }
}

} // verus!
