//! The command line of the worker manager and of its configurator: the
//! arguments, the commands, and what the configurator does for each command.

use vstd::prelude::*;

verus! {

/// The arguments of the worker manager.
#[derive(Debug)]
pub struct WorkerManagerCliArgs {
    /// Path to the local database
    pub db_path: String,
    pub data_source_config_path: String,
    /// Use persisted cache index
    pub use_persisted_cache_index: bool,
    /// Listen address of management interface
    pub mgmt_listen_address: String,
    /// Listen port of management interface
    pub mgmt_listen_port: u16,
    /// Enable mDNS broadcast of management interface information
    pub mgmt_disable_mdns: bool,
}

/// The arguments of the configurator.
#[derive(Debug)]
pub struct ConfigCliArgs {
    /// Path to the local database
    pub db_path: String,
    pub command: ConfigCommands,
}

/// The commands of the configurator.
#[derive(Debug)]
pub enum ConfigCommands {
    /// Add a pool
    AddPool { name: String, pid: u64, disabled: bool, sync_only: bool },
    /// Remove a pool
    RemovePool { pid: u64 },
    /// Update a pool
    UpdatePool { name: String, pid: u64, disabled: bool, sync_only: bool },
    /// Get a pool
    GetPool { pid: u64 },
    /// Get a pool with all workers belonged to
    GetPoolWithWorkers { pid: u64 },
    /// Get all pools
    GetAllPools,
    /// Get all pools with workers
    GetAllPoolsWithWorkers,
    /// Add a worker
    AddWorker {
        name: String,
        endpoint: String,
        stake: String,
        pid: u64,
        disabled: bool,
        sync_only: bool,
    },
    /// Update a worker
    UpdateWorker {
        name: String,
        new_name: Option<String>,
        endpoint: String,
        stake: String,
        pid: u64,
        disabled: bool,
        sync_only: bool,
    },
    /// Remove a worker
    RemoveWorker { name: String },
}

/// What the configurator does for a command.
#[derive(Debug, PartialEq, Eq, Structural)]
pub enum CliPlan {
    /// Add the pool, then show it.
    AddThenShow { pid: u64 },
    /// Remove the pool.
    Remove { pid: u64 },
    /// Update the pool, then show it.
    UpdateThenShow { pid: u64 },
    /// Show the pool.
    Show { pid: u64 },
    /// Show all pools.
    ShowAll,
    /// Nothing: the command is not served.
    Nothing,
}

impl Clone for ConfigCommands {
    fn clone(&self) -> (copy: ConfigCommands)
        ensures
            copy == *self,
    {
        match self {
            ConfigCommands::AddPool { name, pid, disabled, sync_only } => ConfigCommands::AddPool {
                name: name.clone(),
                pid: *pid,
                disabled: *disabled,
                sync_only: *sync_only,
            },
            ConfigCommands::RemovePool { pid } => ConfigCommands::RemovePool { pid: *pid },
            ConfigCommands::UpdatePool {
                name,
                pid,
                disabled,
                sync_only,
            } => ConfigCommands::UpdatePool {
                name: name.clone(),
                pid: *pid,
                disabled: *disabled,
                sync_only: *sync_only,
            },
            ConfigCommands::GetPool { pid } => ConfigCommands::GetPool { pid: *pid },
            ConfigCommands::GetPoolWithWorkers { pid } => ConfigCommands::GetPoolWithWorkers {
                pid: *pid,
            },
            ConfigCommands::GetAllPools => ConfigCommands::GetAllPools,
            ConfigCommands::GetAllPoolsWithWorkers => ConfigCommands::GetAllPoolsWithWorkers,
            ConfigCommands::AddWorker {
                name,
                endpoint,
                stake,
                pid,
                disabled,
                sync_only,
            } => ConfigCommands::AddWorker {
                name: name.clone(),
                endpoint: endpoint.clone(),
                stake: stake.clone(),
                pid: *pid,
                disabled: *disabled,
                sync_only: *sync_only,
            },
            ConfigCommands::UpdateWorker {
                name,
                new_name,
                endpoint,
                stake,
                pid,
                disabled,
                sync_only,
            } => {
                let new_name = match new_name {
                    Some(new_name) => Some(new_name.clone()),
                    None => None,
                };
                ConfigCommands::UpdateWorker {
                    name: name.clone(),
                    new_name,
                    endpoint: endpoint.clone(),
                    stake: stake.clone(),
                    pid: *pid,
                    disabled: *disabled,
                    sync_only: *sync_only,
                }
            },
            ConfigCommands::RemoveWorker { name } => ConfigCommands::RemoveWorker {
                name: name.clone(),
            },
        }
    }
}

impl ConfigCommands {
    /// What the configurator does for this command.
    pub open spec fn plan_of(self) -> CliPlan {
        match self {
            ConfigCommands::AddPool { pid, .. } => CliPlan::AddThenShow { pid },
            ConfigCommands::RemovePool { pid } => CliPlan::Remove { pid },
            ConfigCommands::UpdatePool { pid, .. } => CliPlan::UpdateThenShow { pid },
            ConfigCommands::GetPool { pid } => CliPlan::Show { pid },
            ConfigCommands::GetAllPools => CliPlan::ShowAll,
            _ => CliPlan::Nothing,
        }
    }

    /// What the configurator does for this command.
    pub fn plan(&self) -> (plan: CliPlan)
        ensures
            plan == self.plan_of(),
    {
        match self {
            ConfigCommands::AddPool { pid, .. } => CliPlan::AddThenShow { pid: *pid },
            ConfigCommands::RemovePool { pid } => CliPlan::Remove { pid: *pid },
            ConfigCommands::UpdatePool { pid, .. } => CliPlan::UpdateThenShow { pid: *pid },
            ConfigCommands::GetPool { pid } => CliPlan::Show { pid: *pid },
            ConfigCommands::GetAllPools => CliPlan::ShowAll,
            _ => CliPlan::Nothing,
        }
    }
}

} // verus!
