use r2d2wm::{Message, MessageId, Task, TaskId, TaskMode, TaskState};

fn sample_task(id: Option<u64>) -> Task {
    Task {
        id: id.map(TaskId::new),
        cron_expr: "0 12 * * *".to_string(),
        mode: TaskMode::Repeat,
        state: TaskState::Enabled,
        guild_id: 10,
        message: Message {
            id: Some(MessageId::new(3)),
            content: "Hello".to_string(),
            guild_id: 10,
            channel_id: 20,
        },
    }
}

#[test]
fn ids_give_back_their_value() {
    assert_eq!(TaskId::new(5).get(), 5);
    assert_eq!(MessageId::new(u64::MAX).get(), u64::MAX);
    assert_eq!(TaskId::new(123).to_string(), "123");
    assert_eq!(MessageId::new(9).to_string(), "9");
}

#[test]
fn ids_order_by_value() {
    assert!(TaskId::new(1) < TaskId::new(2));
    assert!(MessageId::new(3) > MessageId::new(2));
}

#[test]
fn state_and_mode_texts_read_back() {
    for s in [TaskState::Disabled, TaskState::Enabled] {
        assert_eq!(TaskState::from_text(s.as_text()), Some(s));
    }
    for m in [TaskMode::Repeat, TaskMode::OneShot] {
        assert_eq!(TaskMode::from_text(m.as_text()), Some(m));
    }
    assert_eq!(TaskState::Enabled.as_text(), "enabled");
    assert_eq!(TaskMode::OneShot.as_text(), "one_shot");
    assert_eq!(TaskState::from_text("Enabled"), None);
    assert_eq!(TaskMode::from_text("oneshot"), None);
}

#[test]
fn discord_string_of_a_stored_task() {
    let t = sample_task(Some(42));
    assert_eq!(
        t.to_discord_string(),
        "```sh\n# Task ID:\n42\n\n# Cron:\n0 12 * * *\n\n# Message:\nHello```"
    );
}

#[test]
fn discord_string_of_a_task_without_id() {
    let t = sample_task(None);
    assert_eq!(
        t.to_discord_string(),
        "```sh\n# Task ID:\nINVALID_ID\n\n# Cron:\n0 12 * * *\n\n# Message:\nHello```"
    );
}

#[test]
fn discord_message_is_the_content() {
    let t = sample_task(None);
    assert_eq!(t.build_discord_message(), "Hello");
}

#[test]
fn duplicate_is_equal() {
    let t = sample_task(Some(1));
    let d = t.duplicate();
    assert_eq!(d.id, t.id);
    assert_eq!(d.message, t.message);
    assert_eq!(d.cron_expr, t.cron_expr);
}

#[test]
fn ids_compare_as_their_values() {
    assert_eq!(TaskId::new(4), TaskId::new(4));
    assert_ne!(TaskId::new(4), TaskId::new(5));
    assert_eq!(TaskId::new(9).partial_cmp(&TaskId::new(3)), Some(std::cmp::Ordering::Greater));
    assert_eq!(MessageId::new(2).cmp(&MessageId::new(2)), std::cmp::Ordering::Equal);
    assert!(MessageId::new(1) <= MessageId::new(1));
}
