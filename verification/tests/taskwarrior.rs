use contextswitch_api::ids::{TaskwarriorTaskId, TaskwarriorTaskLocalId};
use contextswitch_api::task::{Bookmark, ContextswitchData, Priority, Recurrence, Status, Task, TaskId};
use contextswitch_api::taskwarrior::{TaskwarriorAction, TaskwarriorTask};
use contextswitch_api::timestamp::Timestamp;

fn ts(year: u16, month: u8, day: u8, hour: u8, minute: u8, second: u8) -> Timestamp {
    Timestamp { year, month, day, hour, minute, second }
}

#[test]
fn test_successful_full_convertion() {
    let uuid = TaskwarriorTaskId(0x5e2e696c_dcd5_4b5d_8ab5_e2c2f4b0e2a1);
    let parent = TaskwarriorTaskId(0x02ae40a2_34ae_4e46_9f41_e68746722a26);
    let tw_task = TaskwarriorTask {
        uuid,
        id: TaskwarriorTaskLocalId(42),
        entry: ts(2022, 1, 1, 1, 0, 0),
        modified: ts(2022, 1, 1, 1, 0, 1),
        status: Status::Pending,
        description: "simple task".to_string(),
        urgency: "0.5".to_string(),
        due: Some(ts(2022, 1, 1, 1, 0, 2)),
        start: Some(ts(2022, 1, 1, 1, 0, 3)),
        end: Some(ts(2022, 1, 1, 1, 0, 4)),
        wait: Some(ts(2022, 1, 1, 1, 0, 5)),
        parent: Some(parent),
        project: Some("simple project".to_string()),
        priority: Some(Priority::H),
        recur: Some(Recurrence::Daily),
        tags: Some(vec!["tag1".to_string(), "tag2".to_string()]),
        contextswitch: Some(String::from(
            r#"{"bookmarks": [{"uri": "https://www.example.com/path"}]}"#,
        )),
    };
    let cs_task: Task = Task::from(&tw_task);

    assert_eq!(tw_task.uuid.0, cs_task.id.0);
    assert_eq!(tw_task.entry, cs_task.entry);
    assert_eq!(tw_task.modified, cs_task.modified);
    assert_eq!(tw_task.status, cs_task.status);
    assert_eq!(tw_task.description, cs_task.description);
    assert_eq!(tw_task.urgency, cs_task.urgency);
    assert_eq!(tw_task.due, cs_task.due);
    assert_eq!(tw_task.start, cs_task.start);
    assert_eq!(tw_task.end, cs_task.end);
    assert_eq!(tw_task.wait, cs_task.wait);
    assert_eq!(
        tw_task.parent.map(|id| id.0),
        cs_task.parent.map(|id| id.0)
    );
    assert_eq!(tw_task.project, cs_task.project);
    assert_eq!(tw_task.priority, cs_task.priority);
    assert_eq!(tw_task.recur, cs_task.recur);
    assert_eq!(tw_task.tags, cs_task.tags);
    assert_eq!(
        Some(ContextswitchData {
            bookmarks: vec![Bookmark {
                uri: "https://www.example.com/path".to_string(),
                content: None
            }]
        }),
        cs_task.contextswitch
    );
}

#[test]
fn test_conversion_with_invalid_contextswitch_data_format() {
    let samples = [
        "}",
        "{",
        "not json at all",
        "[1,2,3]",
        "{\"unknown\": 1}",
        "\u{1F600} unicode",
        "{\"bookmarks\": 1}",
    ];
    for cs_data in samples {
        let tw_task = TaskwarriorTask {
            uuid: TaskwarriorTaskId(7),
            id: TaskwarriorTaskLocalId(42),
            entry: ts(2022, 1, 1, 1, 0, 0),
            modified: ts(2022, 1, 1, 1, 0, 1),
            status: Status::Pending,
            description: "simple task".to_string(),
            urgency: "0.5".to_string(),
            due: None,
            start: None,
            end: None,
            wait: None,
            parent: None,
            project: None,
            priority: None,
            recur: None,
            tags: None,
            contextswitch: Some(cs_data.to_string()),
        };
        let cs_task: Task = Task::from(&tw_task);

        assert_eq!(tw_task.uuid.0, cs_task.id.0);
        assert_eq!(tw_task.entry, cs_task.entry);
        assert_eq!(tw_task.modified, cs_task.modified);
        assert_eq!(tw_task.status, cs_task.status);
        assert_eq!(tw_task.description, cs_task.description);
        assert_eq!(tw_task.urgency, cs_task.urgency);
        assert_eq!(None, cs_task.contextswitch);
    }
}

#[test]
fn test_successful_convertion() {
    let task = Task {
        id: TaskId(0x2b21ee20_7e10_441e_a7a8_5e3e1d3f2f41),
        entry: ts(2022, 1, 1, 1, 0, 0),
        modified: ts(2022, 1, 1, 1, 0, 1),
        status: Status::Pending,
        description: "simple task".to_string(),
        urgency: "0.5".to_string(),
        due: None,
        start: None,
        end: None,
        wait: None,
        parent: None,
        project: None,
        priority: None,
        recur: None,
        tags: None,
        contextswitch: None,
    };
    let action: TaskwarriorAction =
        TaskwarriorAction::try_from(&task).expect("Failed to convert Task into TaskwarriorAction");

    assert_eq!(task.id.0, action.uuid.0);
    assert_eq!(
        vec![
            task.description,
            "due:".to_string(),
            "start:".to_string(),
            "end:".to_string(),
            "wait:".to_string(),
            "parent:".to_string(),
            "project:".to_string(),
            "priority:".to_string(),
            "recur:".to_string(),
            "contextswitch:".to_string(),
        ],
        action.args
    );
}

#[test]
fn taskwarrior_test_successful_full_convertion() {
    let parent = TaskId(0x02ae40a2_34ae_4e46_9f41_e68746722a26);
    let task = Task {
        id: TaskId(0x1c9a5b44_9d0f_4a3e_93a0_4f6c7cfa2f11),
        entry: ts(2022, 1, 1, 1, 0, 0),
        modified: ts(2022, 1, 1, 1, 0, 1),
        status: Status::Pending,
        description: "simple task".to_string(),
        urgency: "0.5".to_string(),
        due: Some(ts(2022, 1, 1, 1, 0, 2)),
        start: Some(ts(2022, 1, 1, 1, 0, 3)),
        end: Some(ts(2022, 1, 1, 1, 0, 4)),
        wait: Some(ts(2022, 1, 1, 1, 0, 5)),
        parent: Some(parent),
        project: Some("myproject".to_string()),
        priority: Some(Priority::H),
        recur: Some(Recurrence::Monthly),
        tags: Some(vec!["tag1".to_string(), "tag2".to_string()]),
        contextswitch: Some(ContextswitchData {
            bookmarks: vec![
                Bookmark {
                    uri: "https://www.example.com/path".to_string(),
                    content: None,
                },
                Bookmark {
                    uri: "https://www.example.com/path2".to_string(),
                    content: None,
                },
            ],
        }),
    };
    let action: TaskwarriorAction =
        TaskwarriorAction::try_from(&task).expect("Failed to convert Task into TaskwarriorAction");

    let parent_text =
        contextswitch_api::ids::uuid_text(&TaskwarriorTaskId(parent.0));
    assert_eq!("02ae40a2-34ae-4e46-9f41-e68746722a26", parent_text);
    assert_eq!(task.id.0, action.uuid.0);
    assert_eq!(
        vec![
            task.description,
            "+tag1".to_string(),
            "+tag2".to_string(),
            "due:2022-01-01T01:00:02Z".to_string(),
            "start:2022-01-01T01:00:03Z".to_string(),
            "end:2022-01-01T01:00:04Z".to_string(),
            "wait:2022-01-01T01:00:05Z".to_string(),
            format!("parent:{}", parent_text),
            "project:myproject".to_string(),
            "priority:H".to_string(),
            "recur:monthly".to_string(),
            String::from(
                r#"contextswitch:{"bookmarks":[{"uri":"https://www.example.com/path"},{"uri":"https://www.example.com/path2"}]}"#
            )
        ],
        action.args
    );
}

#[test]
fn update_clearing_due_emits_empty_due_argument() {
    let task = Task {
        id: TaskId(99),
        entry: ts(2022, 1, 1, 1, 0, 0),
        modified: ts(2022, 1, 1, 1, 0, 1),
        status: Status::Pending,
        description: "was due once".to_string(),
        urgency: "0".to_string(),
        due: None,
        start: None,
        end: None,
        wait: None,
        parent: None,
        project: None,
        priority: None,
        recur: None,
        tags: None,
        contextswitch: None,
    };
    let action = TaskwarriorAction::try_from(&task).unwrap();
    assert!(action.args.contains(&"due:".to_string()));
    assert!(!action.args.iter().any(|a| a.starts_with("due:2")));
}

#[test]
fn labels_and_parses_round_trip() {
    assert_eq!("pending", Status::Pending.label());
    assert_eq!("completed", Status::Completed.label());
    assert_eq!("recurring", Status::Recurring.label());
    assert_eq!("deleted", Status::Deleted.label());
    assert_eq!(Some(Status::Completed), Status::parse("completed"));
    assert_eq!(None, Status::parse("Pending"));
    assert_eq!("H", Priority::H.label());
    assert_eq!(Some(Priority::L), Priority::parse("L"));
    assert_eq!(None, Priority::parse("h"));
    assert_eq!("monthly", Recurrence::Monthly.label());
    assert_eq!(Some(Recurrence::Yearly), Recurrence::parse("yearly"));
    assert_eq!(None, Recurrence::parse("Fortnightly"));
}

#[test]
fn to_arg_joins_name_and_value() {
    assert_eq!("due:2022", contextswitch_api::taskwarrior::to_arg("due", "2022"));
    assert_eq!("project:", contextswitch_api::taskwarrior::to_arg("project", ""));
}
