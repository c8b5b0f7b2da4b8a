use r2d2wm::command::{AddSchedule, AddScheduleOutcome, AvailableCommand, ListSchedules, Ping, RemoveSchedule, find_command};
use r2d2wm::commands::{
    command_scope, new_scheduled_task, not_in_guild_answer, ping_answer, removal_answer,
    task_added_answer, tasks_listing, AddTaskError, CommandScope, DEVELOPMENT_GUILD_ID,
};
use r2d2wm::{Environment, Message, Task, TaskId, TaskMode, TaskState};

fn task(id: u64, cron: &str, content: &str) -> Task {
    Task {
        id: Some(TaskId::new(id)),
        cron_expr: cron.to_string(),
        mode: TaskMode::Repeat,
        state: TaskState::Enabled,
        guild_id: 1,
        message: Message { id: None, content: content.to_string(), guild_id: 1, channel_id: 1 },
    }
}

#[test]
fn commands_are_registered_by_environment() {
    assert_eq!(command_scope(Environment::Production), CommandScope::Global);
    assert_eq!(command_scope(Environment::Development), CommandScope::Guild(705_869_087_292_653_708));
    assert_eq!(DEVELOPMENT_GUILD_ID, 705_869_087_292_653_708);
}

#[test]
fn listing_joins_tasks_with_line_feeds() {
    assert_eq!(tasks_listing(&vec![]), "");
    let a = task(1, "* * * * *", "a");
    let b = task(2, "0 0 * * *", "b");
    let expected = format!("{}\n{}", a.to_discord_string(), b.to_discord_string());
    assert_eq!(tasks_listing(&vec![a.clone(), b]), expected);
    assert_eq!(tasks_listing(&vec![a.clone()]), a.to_discord_string());
}

#[test]
fn add_builds_a_repeating_enabled_task() {
    let t = new_scheduled_task(Some(7), 8, "* * * * *".to_string(), "hi".to_string()).unwrap();
    assert_eq!(t.id, None);
    assert_eq!(t.cron_expr, "* * * * *");
    assert_eq!(t.mode, TaskMode::Repeat);
    assert_eq!(t.state, TaskState::Enabled);
    assert_eq!(t.guild_id, 7);
    assert_eq!(t.message, Message { id: None, content: "hi".to_string(), guild_id: 7, channel_id: 8 });
}

#[test]
fn add_needs_a_guild_and_a_channel() {
    let e = new_scheduled_task(None, 8, String::new(), String::new()).unwrap_err();
    assert_eq!(e, AddTaskError::InvalidGuild);
    let e = new_scheduled_task(Some(0), 8, String::new(), String::new()).unwrap_err();
    assert_eq!(e, AddTaskError::InvalidGuild);
    let e = new_scheduled_task(Some(3), 0, String::new(), String::new()).unwrap_err();
    assert_eq!(e, AddTaskError::InvalidChannel);
}

#[test]
fn command_answers() {
    assert_eq!(removal_answer(12), "(fake) Removed task: 12");
    assert_eq!(ping_answer(), "Pong! 🏓");
    assert_eq!(not_in_guild_answer(), "This command must be run in a server.");
    assert_eq!(task_added_answer(), "👌 Message added to the schedule.");
    assert_eq!(Ping.answer(), "Pong!");
    assert_eq!(RemoveSchedule.answer(), "Not implemented yet");
}

#[test]
fn served_commands_are_found_by_name() {
    assert_eq!(find_command("ping"), Some(AvailableCommand::Ping));
    assert_eq!(find_command("schedule_ls"), Some(AvailableCommand::ListSchedules));
    assert_eq!(find_command("schedule_add"), None);
    assert_eq!(find_command("Ping"), None);
    assert_eq!(Ping.name(), "ping");
    assert_eq!(ListSchedules.name(), "schedule_ls");
    assert_eq!(ListSchedules.description(), "List active schedule");
    assert_eq!(AddSchedule.name(), "schedule_add");
    assert_eq!(RemoveSchedule.option(), ("name", "The name of the scheduled message you wish to delete"));
}

#[test]
fn schedule_add_checks_the_cron_expression() {
    match AddSchedule.decide("every day", "hi") {
        AddScheduleOutcome::InvalidCron => {}
        other => panic!("unexpected {:?}", other),
    }
    match AddSchedule.decide("0 9 * * 1-5", "standup") {
        AddScheduleOutcome::Store(t) => {
            assert_eq!(t.cron_expr, "0 9 * * 1-5");
            assert_eq!(t.message.content, "standup");
            assert_eq!(t.guild_id, 1);
            assert_eq!(t.message.channel_id, 1);
        }
        other => panic!("unexpected {:?}", other),
    }
    assert_eq!(AddSchedule.invalid_cron_answer(), "❌ Invalid Cron expression, cancelling...");
    assert_eq!(AddSchedule.saved_answer(), "✅ Message saved!");
}

#[test]
fn listing_needs_a_guild() {
    assert_eq!(r2d2wm::commands::list_decision(None), r2d2wm::commands::ListDecision::NotInGuild);
    assert_eq!(r2d2wm::commands::list_decision(Some(4)), r2d2wm::commands::ListDecision::ListGuild(4));
}
