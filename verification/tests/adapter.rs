use contextswitch_api::api::{error_chain_fmt, tasks_from_taskwarrior, ContextswitchError};
use contextswitch_api::ids::{parse_uuid, uuid_text, TaskwarriorTaskId, TaskwarriorTaskLocalId};
use contextswitch_api::routes::{definition_tokens, filter_tokens, split_spaces, update_path_matches, TaskQuery};
use contextswitch_api::task::{NewTask, Status, TaskId};
use contextswitch_api::taskwarrior::{
    add_command_args, default_config_entries, export_command_args, extract_created_task_id,
    load_config_plan, modify_command_args, require_created_task, require_updated_task,
    select_unique_task, tasks_from_export, ConfigPlan, RawTask, TaskwarriorAction,
    TaskwarriorError, TaskwarriorTask,
};
use contextswitch_api::configuration::{
    config_file_choice, ApplicationSettings, Settings, TaskwarriorSettings,
};

fn raw(uuid: &str, id: u64, description: &str, contextswitch: Option<&str>) -> RawTask {
    RawTask {
        uuid: uuid.to_string(),
        id,
        entry: "20220101T010000Z".to_string(),
        modified: "20220101T010001Z".to_string(),
        status: "pending".to_string(),
        description: description.to_string(),
        urgency: "0.5".to_string(),
        due: None,
        start: None,
        end: None,
        wait: None,
        parent: None,
        project: None,
        priority: None,
        recur: None,
        tags: None,
        contextswitch: contextswitch.map(|s| s.to_string()),
    }
}

const UUID_A: &str = "5e2e696c-dcd5-4b5d-8ab5-e2c2f4b0e2a1";

#[test]
fn scraper_recovers_the_generated_id() {
    let id = extract_created_task_id("Created task 42.\n").unwrap();
    assert_eq!(TaskwarriorTaskLocalId(42), id);
    let id = extract_created_task_id("noise before Created task 7. noise after").unwrap();
    assert_eq!(TaskwarriorTaskLocalId(7), id);
}

#[test]
fn scraper_needs_one_character_after_the_digits() {
    // With nothing after the digit run, the pattern's trailing wildcard
    // consumes the last digit itself, so a single digit cannot match.
    assert_eq!(
        TaskwarriorTaskLocalId(4),
        extract_created_task_id("Created task 42").unwrap()
    );
    assert!(extract_created_task_id("Created task 5").is_err());
    assert!(extract_created_task_id("Created task 5\n").is_err());
}

#[test]
fn scraper_reports_a_missing_marker() {
    let err = extract_created_task_id("The task could not be created").unwrap_err();
    assert!(matches!(err, TaskwarriorError::UnexpectedError { .. }));
    let err = extract_created_task_id("Created task no-number.").unwrap_err();
    assert!(matches!(err, TaskwarriorError::UnexpectedError { .. }));
}

#[test]
fn scraper_rejects_an_id_out_of_range() {
    let err = extract_created_task_id("Created task 99999999999999999999.").unwrap_err();
    assert!(matches!(err, TaskwarriorError::UnexpectedError { .. }));
}

#[test]
fn unique_lookup_discipline() {
    let rows = vec![raw(UUID_A, 1, "one", None)];
    let tasks = tasks_from_export(&rows).unwrap();
    let t = tasks[0].clone();

    let none = select_unique_task(vec![], "more than one").unwrap();
    assert!(none.is_none());

    let one = select_unique_task(vec![t.clone()], "more than one").unwrap();
    assert_eq!(Some(t.clone()), one);

    let err = select_unique_task(vec![t.clone(), t.clone()], "more than one").unwrap_err();
    assert!(matches!(err, TaskwarriorError::UnexpectedError { .. }));
}

#[test]
fn refetch_must_find_the_mutated_task() {
    let rows = vec![raw(UUID_A, 3, "buy milk", None)];
    let t = tasks_from_export(&rows).unwrap().remove(0);

    assert!(require_created_task(&TaskwarriorTaskLocalId(3), Some(t.clone())).is_ok());
    let err = require_created_task(&TaskwarriorTaskLocalId(3), None).unwrap_err();
    assert!(matches!(err, TaskwarriorError::UnexpectedError { .. }));

    assert!(require_updated_task(&t.uuid.clone(), Some(t.clone())).is_ok());
    let err = require_updated_task(&t.uuid, None).unwrap_err();
    assert!(matches!(err, TaskwarriorError::UnexpectedError { .. }));
}

#[test]
fn create_protocol_scenario() {
    // The full decision chain of `create`, with the external store's two
    // process invocations simulated by their observable outputs.
    let definition = NewTask {
        definition: "buy milk contextswitch:{\"bookmarks\":[{\"uri\":\"https://example.com\"}]}"
            .to_string(),
    };
    let tokens = definition_tokens(&definition);
    let args = add_command_args(&tokens);
    assert_eq!("add", args[0]);
    assert_eq!("buy", args[1]);
    assert_eq!("milk", args[2]);

    let local_id = extract_created_task_id("Created task 3.\n").unwrap();
    assert_eq!(3, local_id.0);

    let filter = contextswitch_api::ids::local_id_text(&local_id);
    assert_eq!("3", filter);
    let export_args = export_command_args(&vec![filter]);
    assert_eq!(vec!["3".to_string(), "export".to_string()], export_args);

    let rows = vec![raw(
        UUID_A,
        3,
        "buy milk",
        Some("{\"bookmarks\":[{\"uri\":\"https://example.com\"}]}"),
    )];
    let tasks = tasks_from_export(&rows).unwrap();
    let unique = select_unique_task(tasks, "more than one task").unwrap();
    let tw_task = require_created_task(&local_id, unique).unwrap();
    let task = contextswitch_api::task::Task::from(&tw_task);

    assert_eq!("buy milk", task.description);
    assert_eq!(UUID_A, uuid_text(&TaskwarriorTaskId(task.id.0)));
    let data = task.contextswitch.expect("metadata must decode");
    assert_eq!(1, data.bookmarks.len());
    assert_eq!("https://example.com", data.bookmarks[0].uri);
    assert_eq!(None, data.bookmarks[0].content);
}

#[test]
fn listing_tolerates_malformed_metadata() {
    let rows = vec![raw(UUID_A, 8, "damaged", Some("}"))];
    let tasks = tasks_from_export(&rows).expect("list must succeed");
    let records = tasks_from_taskwarrior(&tasks);
    assert_eq!(1, records.len());
    assert_eq!("damaged", records[0].description);
    assert_eq!(None, records[0].contextswitch);
}

#[test]
fn export_rows_with_malformed_scalars_are_rejected() {
    let mut bad_uuid = raw(UUID_A, 1, "x", None);
    bad_uuid.uuid = "not-a-uuid".to_string();
    assert!(matches!(
        tasks_from_export(&vec![bad_uuid]).unwrap_err(),
        TaskwarriorError::MalformedField { .. }
    ));

    let mut bad_entry = raw(UUID_A, 1, "x", None);
    bad_entry.entry = "2022-01-01".to_string();
    assert!(matches!(
        tasks_from_export(&vec![bad_entry]).unwrap_err(),
        TaskwarriorError::MalformedField { .. }
    ));

    let mut bad_status = raw(UUID_A, 1, "x", None);
    bad_status.status = "sleeping".to_string();
    assert!(matches!(
        tasks_from_export(&vec![bad_status]).unwrap_err(),
        TaskwarriorError::MalformedField { .. }
    ));

    let mut bad_priority = raw(UUID_A, 1, "x", None);
    bad_priority.priority = Some("urgent".to_string());
    assert!(matches!(
        tasks_from_export(&vec![bad_priority]).unwrap_err(),
        TaskwarriorError::MalformedField { .. }
    ));
}

#[test]
fn export_decodes_every_scalar() {
    let mut row = raw(UUID_A, 11, "full", None);
    row.due = Some("20220101T010002Z".to_string());
    row.parent = Some("02ae40a2-34ae-4e46-9f41-e68746722a26".to_string());
    row.priority = Some("M".to_string());
    row.recur = Some("weekly".to_string());
    row.tags = Some(vec!["a".to_string(), "b".to_string()]);
    let t: TaskwarriorTask = tasks_from_export(&vec![row]).unwrap().remove(0);
    assert_eq!(Status::Pending, t.status);
    assert_eq!(11, t.id.0);
    assert_eq!(2, t.due.unwrap().second);
    assert_eq!(
        "02ae40a2-34ae-4e46-9f41-e68746722a26",
        uuid_text(&t.parent.unwrap())
    );
    assert_eq!(contextswitch_api::task::Priority::M, t.priority.unwrap());
    assert_eq!(contextswitch_api::task::Recurrence::Weekly, t.recur.unwrap());
    assert_eq!(vec!["a".to_string(), "b".to_string()], t.tags.unwrap());
}

#[test]
fn uuid_text_and_parse_are_inverse_on_canonical_forms() {
    for s in [
        UUID_A,
        "00000000-0000-0000-0000-000000000000",
        "ffffffff-ffff-ffff-ffff-ffffffffffff",
        "02ae40a2-34ae-4e46-9f41-e68746722a26",
    ] {
        let id = parse_uuid(s).expect("canonical text must parse");
        assert_eq!(s, uuid_text(&id));
    }
    assert_eq!(Some(TaskwarriorTaskId(0)), parse_uuid("00000000-0000-0000-0000-000000000000"));
    for s in [
        "",
        "5e2e696cdcd54b5d8ab5e2c2f4b0e2a1",
        "5e2e696c-dcd5-4b5d-8ab5-e2c2f4b0e2a",
        "5e2e696c-dcd5-4b5d-8ab5-e2c2f4b0e2g1",
        "5e2e696c_dcd5_4b5d_8ab5_e2c2f4b0e2a1",
    ] {
        assert_eq!(None, parse_uuid(s), "expected rejection of {:?}", s);
    }
}

#[test]
fn modify_arguments_are_addressed_by_durable_id() {
    let action = TaskwarriorAction {
        uuid: parse_uuid(UUID_A).unwrap(),
        args: vec!["desc".to_string(), "due:".to_string()],
    };
    let args = modify_command_args(&action);
    assert_eq!(
        vec![
            UUID_A.to_string(),
            "mod".to_string(),
            "desc".to_string(),
            "due:".to_string(),
        ],
        args
    );
}

#[test]
fn splitting_keeps_empty_tokens() {
    assert_eq!(vec!["a".to_string(), "b".to_string()], split_spaces("a b"));
    assert_eq!(vec!["".to_string()], split_spaces(""));
    assert_eq!(
        vec!["a".to_string(), "".to_string(), "b".to_string()],
        split_spaces("a  b")
    );
    assert_eq!(0, filter_tokens(&TaskQuery { filter: None }).len());
    assert_eq!(
        vec!["status:pending".to_string(), "task".to_string()],
        filter_tokens(&TaskQuery { filter: Some("status:pending task".to_string()) })
    );
}

#[test]
fn update_route_checks_the_addressed_id() {
    let rows = vec![raw(UUID_A, 2, "x", None)];
    let task = contextswitch_api::task::Task::from(&tasks_from_export(&rows).unwrap()[0]);
    assert!(update_path_matches(&task.id.clone(), &task));
    assert!(!update_path_matches(&TaskId(12345), &task));
}

#[test]
fn every_error_maps_to_an_opaque_server_error() {
    let e = ContextswitchError::InvalidDataError { message: "bad".to_string() };
    assert_eq!(500, e.status_code());
    let e = ContextswitchError::UnexpectedError { message: "bad".to_string() };
    assert_eq!(500, e.status_code());
}

#[test]
fn error_chain_renders_causes_in_order() {
    assert_eq!("", error_chain_fmt(&vec![]));
    assert_eq!("top\n\n", error_chain_fmt(&vec!["top".to_string()]));
    assert_eq!(
        "top\n\nCaused by:\n\tmiddle\nCaused by:\n\troot\n",
        error_chain_fmt(&vec![
            "top".to_string(),
            "middle".to_string(),
            "root".to_string()
        ])
    );
}

#[test]
fn configuration_choices() {
    let settings = Settings::new(
        ApplicationSettings { port: 8000, log_directive: "info".to_string() },
        TaskwarriorSettings {
            data_location: Some("/tmp/tasks".to_string()),
            taskrc: None,
        },
    );
    assert_eq!(8000, settings.application.port);

    match load_config_plan(&settings.taskwarrior) {
        ConfigPlan::WriteDefaultTaskrc { data_location, taskrc_location } => {
            assert_eq!("/tmp/tasks", data_location);
            assert_eq!("/tmp/tasks/.taskrc", taskrc_location);
        },
        other => panic!("unexpected plan: {:?}", other),
    }

    let named = TaskwarriorSettings {
        data_location: None,
        taskrc: Some("/etc/taskrc".to_string()),
    };
    match load_config_plan(&named) {
        ConfigPlan::UseExistingTaskrc { taskrc_location } => {
            assert_eq!("/etc/taskrc", taskrc_location);
        },
        other => panic!("unexpected plan: {:?}", other),
    }

    let entries = default_config_entries("/tmp/tasks");
    assert_eq!(4, entries.len());
    assert_eq!("data.location", entries[0].key);
    assert_eq!("/tmp/tasks", entries[0].value);
    assert_eq!("uda.contextswitch.default", entries[3].key);
    assert_eq!("{}", entries[3].value);

    let (file, required) = config_file_choice(Some("prod".to_string()), Some("env".to_string()));
    assert_eq!(("prod".to_string(), true), (file, required));
    let (file, required) = config_file_choice(None, Some("env".to_string()));
    assert_eq!(("env".to_string(), false), (file, required));
    let (file, required) = config_file_choice(None, None);
    assert_eq!(("dev".to_string(), false), (file, required));
}
