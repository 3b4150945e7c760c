use phala_mq::cli::{CliPlan, ConfigCommands};
use phala_mq::inventory::{
    add_pool, remove_pool, update_pool, Pool, PoolError, Property, PropertyValue, Worker,
};
use phala_mq::worker_manager::{enabled_workers, message_loop, LoopAction, WorkerManagerMessage};
use phala_mq::xcm_handler::{
    handle_downward_message, handle_hrmp_message, route, Decoded, Inbound, Junction, Route,
};

fn text(name: &str, value: &str) -> Property {
    Property { name: name.to_string(), value: PropertyValue::Text(value.to_string()) }
}

fn number(name: &str, value: u64) -> Property {
    Property { name: name.to_string(), value: PropertyValue::Number(value) }
}

fn flag(name: &str, value: bool) -> Property {
    Property { name: name.to_string(), value: PropertyValue::Flag(value) }
}

fn shown(property: &Property) -> String {
    format!("{:?}", property)
}

#[test]
fn a_pool_is_read_from_its_properties() {
    let properties = vec![
        text("name", "first"),
        number("pid", 42),
        flag("enabled", false),
        flag("sync_only", true),
        Property { name: "created_at".to_string(), value: PropertyValue::Other },
        text("name", "second"),
    ];
    assert!(properties.iter().all(|p| p.check_fits_pool()));
    let pool = Pool::from_properties("id-1".to_string(), &properties);
    assert_eq!(pool.id, "id-1");
    assert_eq!(pool.name, "second");
    assert_eq!(pool.pid, 42);
    assert!(!pool.enabled);
    assert!(pool.sync_only);
}

#[test]
fn the_inventory_indexes_worker_and_pool_properties() {
    assert_eq!(
        phala_mq::inventory::indexed_properties(),
        vec!["name", "enabled", "sync_only", "name", "pid", "enabled", "sync_only"]
    );
}

#[test]
fn a_pool_without_properties_is_blank() {
    let pool = Pool::from_properties("x".to_string(), &vec![]);
    assert_eq!(pool.id, "x");
    assert_eq!(pool.name, "");
    assert_eq!(pool.pid, 0);
    assert!(pool.enabled);
    assert!(!pool.sync_only);
}

#[test]
fn a_property_of_the_wrong_type_does_not_fit() {
    assert!(!number("name", 1).check_fits_pool());
    assert!(!text("pid", "1").check_fits_pool());
    assert!(!text("enabled", "yes").check_fits_pool());
    assert!(!number("sync_only", 0).check_fits_pool());
    assert!(number("other", 0).check_fits_pool());
}

#[test]
fn adding_a_pool_writes_four_properties() {
    let command =
        ConfigCommands::AddPool { name: "n".to_string(), pid: 5, disabled: true, sync_only: false };
    let writes = add_pool(command.clone(), false).unwrap();
    let got: Vec<String> = writes.iter().map(shown).collect();
    let want: Vec<String> =
        [text("name", "n"), number("pid", 5), flag("enabled", false), flag("sync_only", false)]
            .iter()
            .map(shown)
            .collect();
    assert_eq!(got, want);
    assert_eq!(add_pool(command, true).unwrap_err(), PoolError::AlreadyExists);
    assert_eq!(
        add_pool(ConfigCommands::GetAllPools, false).unwrap_err(),
        PoolError::InvalidCommand
    );
    assert_eq!(
        add_pool(ConfigCommands::RemovePool { pid: 5 }, true).unwrap_err(),
        PoolError::InvalidCommand
    );
}

#[test]
fn updating_a_pool_leaves_the_pid() {
    let command = ConfigCommands::UpdatePool {
        name: "m".to_string(),
        pid: 5,
        disabled: false,
        sync_only: true,
    };
    let writes = update_pool(command.clone(), true).unwrap();
    let got: Vec<String> = writes.iter().map(shown).collect();
    let want: Vec<String> = [text("name", "m"), flag("enabled", true), flag("sync_only", true)]
        .iter()
        .map(shown)
        .collect();
    assert_eq!(got, want);
    assert_eq!(update_pool(command, false).unwrap_err(), PoolError::NotFound);
    assert_eq!(
        update_pool(ConfigCommands::GetPool { pid: 5 }, true).unwrap_err(),
        PoolError::InvalidCommand
    );
}

#[test]
fn only_a_pool_that_was_found_is_removed() {
    assert_eq!(remove_pool(true), Ok(()));
    assert_eq!(remove_pool(false), Err(PoolError::NotFound));
}

#[test]
fn pool_errors_in_words() {
    assert_eq!(PoolError::AlreadyExists.message(), "Pool already exists!");
    assert_eq!(PoolError::NotFound.message(), "Pool not found!");
    assert_eq!(PoolError::InvalidCommand.message(), "Invalid command!");
}

#[test]
fn the_configurator_serves_the_pool_commands() {
    let add =
        ConfigCommands::AddPool { name: "n".to_string(), pid: 1, disabled: false, sync_only: false };
    let update = ConfigCommands::UpdatePool {
        name: "n".to_string(),
        pid: 2,
        disabled: false,
        sync_only: false,
    };
    assert_eq!(add.plan(), CliPlan::AddThenShow { pid: 1 });
    assert_eq!(update.plan(), CliPlan::UpdateThenShow { pid: 2 });
    assert_eq!(ConfigCommands::RemovePool { pid: 3 }.plan(), CliPlan::Remove { pid: 3 });
    assert_eq!(ConfigCommands::GetPool { pid: 4 }.plan(), CliPlan::Show { pid: 4 });
    assert_eq!(ConfigCommands::GetAllPools.plan(), CliPlan::ShowAll);
    assert_eq!(ConfigCommands::GetPoolWithWorkers { pid: 4 }.plan(), CliPlan::Nothing);
    assert_eq!(ConfigCommands::GetAllPoolsWithWorkers.plan(), CliPlan::Nothing);
    assert_eq!(ConfigCommands::RemoveWorker { name: "w".to_string() }.plan(), CliPlan::Nothing);
}

#[test]
fn only_enabled_workers_run() {
    let workers = vec![
        Worker { name: "a".to_string(), enabled: true },
        Worker { name: "b".to_string(), enabled: false },
        Worker { name: "c".to_string(), enabled: true },
    ];
    let running = enabled_workers(workers);
    let names: Vec<&str> = running.iter().map(|w| w.name.as_str()).collect();
    assert_eq!(names, vec!["a", "c"]);
    assert!(enabled_workers(vec![Worker { name: "b".to_string(), enabled: false }]).is_empty());
}

#[test]
fn the_message_loop_decides_by_message() {
    let worker = Worker { name: "a".to_string(), enabled: true };
    assert_eq!(message_loop(&WorkerManagerMessage::ShouldBreakMessageLoop, false), LoopAction::Break);
    assert_eq!(
        message_loop(&WorkerManagerMessage::LifecycleManagerStarted, false),
        LoopAction::NoteStarted
    );
    assert_eq!(
        message_loop(&WorkerManagerMessage::ShouldResetLifecycleManager, true),
        LoopAction::Reload
    );
    assert_eq!(
        message_loop(&WorkerManagerMessage::ShouldStartWorkerLifecycle(worker), true),
        LoopAction::AnswerOk
    );
    assert_eq!(message_loop(&WorkerManagerMessage::Okay, false), LoopAction::Skip);
}

#[test]
fn outbound_messages_are_routed_by_their_first_junction() {
    assert_eq!(route(&vec![Junction::Parent]), Route::Upward);
    assert_eq!(route(&vec![Junction::Parent, Junction::Other]), Route::Unhandled);
    assert_eq!(route(&vec![Junction::Parachain { id: 7 }]), Route::Hrmp { recipient: 7 });
    assert_eq!(
        route(&vec![Junction::Parachain { id: 7 }, Junction::Other]),
        Route::Hrmp { recipient: 7 }
    );
    assert_eq!(route(&vec![Junction::Other]), Route::Unhandled);
    assert_eq!(route(&vec![]), Route::Unhandled);
}

#[test]
fn inbound_messages_are_executed_or_reported() {
    assert_eq!(
        handle_downward_message(Decoded::Message),
        Inbound::Execute { origin: Junction::Parent }
    );
    assert_eq!(handle_downward_message(Decoded::BadVersion), Inbound::ReportBadVersion);
    assert_eq!(handle_downward_message(Decoded::BadFormat), Inbound::ReportBadFormat);
    assert_eq!(
        handle_hrmp_message(9, Decoded::Message),
        Inbound::Execute { origin: Junction::Parachain { id: 9 } }
    );
    assert_eq!(handle_hrmp_message(9, Decoded::BadVersion), Inbound::ReportBadVersion);
    assert_eq!(handle_hrmp_message(9, Decoded::BadFormat), Inbound::ReportBadFormat);
}

#[test]
fn a_sibling_origin_comes_from_its_id() {
    let origin: phala_mq::xcm_handler::Origin = 2000u32.into();
    assert_eq!(origin, phala_mq::xcm_handler::Origin::SiblingParachain(2000));
    assert_ne!(origin, phala_mq::xcm_handler::Origin::Relay);
}
