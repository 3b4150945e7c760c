//! The inventory of pools that the worker manager is configured with: how a
//! pool is read from the properties of its vertex, and what each command on a
//! pool writes.

use vstd::prelude::*;
use crate::cli::ConfigCommands;

verus! {

/// The name of the property that holds a pool's name.
pub fn prop_pool_name() -> (name: String)
    ensures
        name@ == "name"@,
{
    "name".to_owned()
}

/// The name of the property that holds a pool's pid.
pub fn prop_pool_pid() -> (name: String)
    ensures
        name@ == "pid"@,
{
    "pid".to_owned()
}

/// The name of the property that tells whether a pool is enabled.
pub fn prop_pool_enabled() -> (name: String)
    ensures
        name@ == "enabled"@,
{
    "enabled".to_owned()
}

/// The name of the property that tells whether a pool only synchronises.
pub fn prop_pool_sync_only() -> (name: String)
    ensures
        name@ == "sync_only"@,
{
    "sync_only".to_owned()
}

/// The names of the properties that the inventory indexes, in the order in
/// which it does so: those of a worker, then those of a pool.
pub fn indexed_properties() -> (names: Vec<String>)
    ensures
        names@.len() == 7,
        names@[0]@ == "name"@,
        names@[1]@ == "enabled"@,
        names@[2]@ == "sync_only"@,
        names@[3]@ == "name"@,
        names@[4]@ == "pid"@,
        names@[5]@ == "enabled"@,
        names@[6]@ == "sync_only"@,
{
    let mut names: Vec<String> = Vec::new();
    names.push(prop_pool_name());
    names.push(prop_pool_enabled());
    names.push(prop_pool_sync_only());
    names.push(prop_pool_name());
    names.push(prop_pool_pid());
    names.push(prop_pool_enabled());
    names.push(prop_pool_sync_only());
    names
}

/// A pool, as the inventory shows it.
#[derive(Debug)]
pub struct Pool {
    pub id: String,
    pub name: String,
    pub pid: u64,
    pub enabled: bool,
    pub sync_only: bool,
}

/// A worker, as far as the manager reads it.
#[derive(Debug)]
pub struct Worker {
    pub name: String,
    pub enabled: bool,
}

impl Clone for Worker {
    fn clone(&self) -> (copy: Worker)
        ensures
            copy == *self,
    {
        Worker { name: self.name.clone(), enabled: self.enabled }
    }
}

/// The value of a property of a vertex.
#[derive(Debug)]
pub enum PropertyValue {
    Text(String),
    Number(u64),
    Flag(bool),
    /// Any value that is neither text, nor an unsigned number, nor a flag.
    Other,
}

/// A named property of a vertex.
#[derive(Debug)]
pub struct Property {
    pub name: String,
    pub value: PropertyValue,
}

impl Property {
    /// Whether the value has the type that a pool expects under this name.
    /// A property under another name can hold anything.
    pub open spec fn fits_pool(self) -> bool {
        if self.name@ == "name"@ {
            self.value is Text
        } else if self.name@ == "pid"@ {
            self.value is Number
        } else if self.name@ == "enabled"@ {
            self.value is Flag
        } else if self.name@ == "sync_only"@ {
            self.value is Flag
        } else {
            true
        }
    }

    /// Whether the value has the type that a pool expects under this name.
    pub fn check_fits_pool(&self) -> (fits: bool)
        ensures
            fits == self.fits_pool(),
    {
        if self.name == prop_pool_name() {
            matches!(self.value, PropertyValue::Text(_))
        } else if self.name == prop_pool_pid() {
            matches!(self.value, PropertyValue::Number(_))
        } else if self.name == prop_pool_enabled() {
            matches!(self.value, PropertyValue::Flag(_))
        } else if self.name == prop_pool_sync_only() {
            matches!(self.value, PropertyValue::Flag(_))
        } else {
            true
        }
    }
}

/// What a [`Pool`] is.
pub struct PoolView {
    pub id: Seq<char>,
    pub name: Seq<char>,
    pub pid: u64,
    pub enabled: bool,
    pub sync_only: bool,
}

impl View for Pool {
    type V = PoolView;

    open spec fn view(&self) -> PoolView {
        PoolView {
            id: self.id@,
            name: self.name@,
            pid: self.pid,
            enabled: self.enabled,
            sync_only: self.sync_only,
        }
    }
}

impl PoolView {
    /// A pool as it is before any property is read: without a name, with pid
    /// 0, enabled, not restricted to synchronising.
    pub open spec fn blank(id: Seq<char>) -> PoolView {
        PoolView { id, name: Seq::empty(), pid: 0, enabled: true, sync_only: false }
    }

    /// The pool with `property` taken over, if it is one of a pool's.
    pub open spec fn with(self, property: Property) -> PoolView {
        if property.name@ == "name"@ {
            match property.value {
                PropertyValue::Text(name) => PoolView { name: name@, ..self },
                _ => self,
            }
        } else if property.name@ == "pid"@ {
            match property.value {
                PropertyValue::Number(pid) => PoolView { pid, ..self },
                _ => self,
            }
        } else if property.name@ == "enabled"@ {
            match property.value {
                PropertyValue::Flag(enabled) => PoolView { enabled, ..self },
                _ => self,
            }
        } else if property.name@ == "sync_only"@ {
            match property.value {
                PropertyValue::Flag(sync_only) => PoolView { sync_only, ..self },
                _ => self,
            }
        } else {
            self
        }
    }

    /// The pool with `properties` taken over one after the other.
    pub open spec fn with_all(self, properties: Seq<Property>) -> PoolView
        decreases properties.len(),
    {
        if properties.len() == 0 {
            self
        } else {
            self.with_all(properties.drop_last()).with(properties.last())
        }
    }
}

impl Pool {
    /// The pool that the vertex `id` with `properties` stands for. Of two
    /// properties with one name the later counts; properties under other
    /// names are passed over.
    pub fn from_properties(id: String, properties: &Vec<Property>) -> (pool: Pool)
        requires
            forall|i: int| 0 <= i < properties.len() ==> (#[trigger] properties[i]).fits_pool(),
        ensures
            pool@ == PoolView::blank(id@).with_all(properties@),
    {
        let ghost blank = PoolView::blank(id@);
        let mut pool = Pool { id, name: String::new(), pid: 0, enabled: true, sync_only: false };
        let mut i: usize = 0;
        assert(properties@.take(0) =~= Seq::empty());
        while i < properties.len()
            invariant
                i <= properties.len(),
                forall|k: int| 0 <= k < properties.len() ==> (#[trigger] properties[k]).fits_pool(),
                pool@ == blank.with_all(properties@.take(i as int)),
            decreases properties.len() - i,
        {
            let property = &properties[i];
            proof {
                let upto = properties@.take(i + 1);
                assert(upto.drop_last() =~= properties@.take(i as int));
                assert(upto.last() == properties[i as int]);
                assert(properties[i as int].fits_pool());
            }
            if property.name == prop_pool_name() {
                match &property.value {
                    PropertyValue::Text(name) => {
                        pool.name = name.clone();
                    },
                    _ => {},
                }
            } else if property.name == prop_pool_pid() {
                match &property.value {
                    PropertyValue::Number(pid) => {
                        pool.pid = *pid;
                    },
                    _ => {},
                }
            } else if property.name == prop_pool_enabled() {
                match &property.value {
                    PropertyValue::Flag(enabled) => {
                        pool.enabled = *enabled;
                    },
                    _ => {},
                }
            } else if property.name == prop_pool_sync_only() {
                match &property.value {
                    PropertyValue::Flag(sync_only) => {
                        pool.sync_only = *sync_only;
                    },
                    _ => {},
                }
            }
            i += 1;
        }
        assert(properties@.take(i as int) =~= properties@);
        pool
    }
}

/// Why a command on a pool fails.
#[derive(Debug, PartialEq, Eq, Structural)]
pub enum PoolError {
    AlreadyExists,
    NotFound,
    InvalidCommand,
}

impl PoolError {
    /// The error in words.
    pub fn message(&self) -> (text: String)
        ensures
            text@ == match self {
                PoolError::AlreadyExists => "Pool already exists!"@,
                PoolError::NotFound => "Pool not found!"@,
                PoolError::InvalidCommand => "Invalid command!"@,
            },
    {
        match self {
            PoolError::AlreadyExists => "Pool already exists!".to_owned(),
            PoolError::NotFound => "Pool not found!".to_owned(),
            PoolError::InvalidCommand => "Invalid command!".to_owned(),
        }
    }
}

/// Whether `property` is the text `text` under `name`.
pub open spec fn is_text(property: Property, name: Seq<char>, text: Seq<char>) -> bool {
    property.name@ == name && match property.value {
        PropertyValue::Text(held) => held@ == text,
        _ => false,
    }
}

/// Whether `property` is the number `number` under `name`.
pub open spec fn is_number(property: Property, name: Seq<char>, number: u64) -> bool {
    property.name@ == name && property.value == PropertyValue::Number(number)
}

/// Whether `property` is the flag `flag` under `name`.
pub open spec fn is_flag(property: Property, name: Seq<char>, flag: bool) -> bool {
    property.name@ == name && property.value == PropertyValue::Flag(flag)
}

/// The pid of the pool that `command` adds. Any other command is refused.
pub fn pool_to_add(command: &ConfigCommands) -> (pid: Result<u64, PoolError>)
    ensures
        pid == match *command {
            ConfigCommands::AddPool { pid, .. } => Ok::<u64, PoolError>(pid),
            _ => Err::<u64, PoolError>(PoolError::InvalidCommand),
        },
{
    match command {
        ConfigCommands::AddPool { pid, .. } => Ok(*pid),
        _ => Err(PoolError::InvalidCommand),
    }
}

/// The pid of the pool that `command` updates. Any other command is refused.
pub fn pool_to_update(command: &ConfigCommands) -> (pid: Result<u64, PoolError>)
    ensures
        pid == match *command {
            ConfigCommands::UpdatePool { pid, .. } => Ok::<u64, PoolError>(pid),
            _ => Err::<u64, PoolError>(PoolError::InvalidCommand),
        },
{
    match command {
        ConfigCommands::UpdatePool { pid, .. } => Ok(*pid),
        _ => Err(PoolError::InvalidCommand),
    }
}

/// The properties to write for the pool that `command` adds: its name, its
/// pid, whether it is enabled, whether it only synchronises. Only the command
/// that adds a pool is served, and only while no pool has its pid:
/// `exists` tells whether one has.
pub fn add_pool(command: ConfigCommands, exists: bool) -> (writes: Result<
    Vec<Property>,
    PoolError,
>)
    ensures
        match command {
            ConfigCommands::AddPool { name, pid, disabled, sync_only } => if exists {
                writes == Err::<Vec<Property>, PoolError>(PoolError::AlreadyExists)
            } else {
                &&& writes is Ok
                &&& writes->Ok_0@.len() == 4
                &&& is_text(writes->Ok_0@[0], "name"@, name@)
                &&& is_number(writes->Ok_0@[1], "pid"@, pid)
                &&& is_flag(writes->Ok_0@[2], "enabled"@, !disabled)
                &&& is_flag(writes->Ok_0@[3], "sync_only"@, sync_only)
            },
            _ => writes == Err::<Vec<Property>, PoolError>(PoolError::InvalidCommand),
        },
{
    match command {
        ConfigCommands::AddPool { name, pid, disabled, sync_only } => {
            if exists {
                Err(PoolError::AlreadyExists)
            } else {
                let mut writes: Vec<Property> = Vec::new();
                writes.push(Property { name: prop_pool_name(), value: PropertyValue::Text(name) });
                writes.push(Property { name: prop_pool_pid(), value: PropertyValue::Number(pid) });
                writes.push(
                    Property { name: prop_pool_enabled(), value: PropertyValue::Flag(!disabled) },
                );
                writes.push(
                    Property { name: prop_pool_sync_only(), value: PropertyValue::Flag(sync_only) },
                );
                Ok(writes)
            }
        },
        _ => Err(PoolError::InvalidCommand),
    }
}

/// The properties to write for the pool that `command` updates: its name,
/// whether it is enabled, whether it only synchronises; the pid stays. Only
/// the command that updates a pool is served, and only where a pool has its
/// pid: `found` tells whether one has.
pub fn update_pool(command: ConfigCommands, found: bool) -> (writes: Result<
    Vec<Property>,
    PoolError,
>)
    ensures
        match command {
            ConfigCommands::UpdatePool { name, pid, disabled, sync_only } => if found {
                &&& writes is Ok
                &&& writes->Ok_0@.len() == 3
                &&& is_text(writes->Ok_0@[0], "name"@, name@)
                &&& is_flag(writes->Ok_0@[1], "enabled"@, !disabled)
                &&& is_flag(writes->Ok_0@[2], "sync_only"@, sync_only)
            } else {
                writes == Err::<Vec<Property>, PoolError>(PoolError::NotFound)
            },
            _ => writes == Err::<Vec<Property>, PoolError>(PoolError::InvalidCommand),
        },
{
    match command {
        ConfigCommands::UpdatePool { name, pid, disabled, sync_only } => {
            if found {
                let mut writes: Vec<Property> = Vec::new();
                writes.push(Property { name: prop_pool_name(), value: PropertyValue::Text(name) });
                writes.push(
                    Property { name: prop_pool_enabled(), value: PropertyValue::Flag(!disabled) },
                );
                writes.push(
                    Property { name: prop_pool_sync_only(), value: PropertyValue::Flag(sync_only) },
                );
                Ok(writes)
            } else {
                Err(PoolError::NotFound)
            }
        },
        _ => Err(PoolError::InvalidCommand),
    }
}

/// Whether a pool can be removed: only one that was found.
pub fn remove_pool(found: bool) -> (removal: Result<(), PoolError>)
    ensures
        removal == if found {
            Ok::<(), PoolError>(())
        } else {
            Err::<(), PoolError>(PoolError::NotFound)
        },
{
    if found {
        Ok(())
    } else {
        Err(PoolError::NotFound)
    }
}

} // verus!
