//! Slash commands served by name: their descriptions and decisions.
use vstd::prelude::*;
use crate::cron::{is_cron_expression, is_cron_pattern};
use crate::message::{Message, MessageView};
use crate::task::{Task, TaskMode, TaskState, TaskView};
use crate::text::same_text;

verus! {

/// `/ping`: checks that the bot answers.
pub struct Ping;

/// `/schedule_ls`: lists the schedule.
pub struct ListSchedules;

/// `/schedule_add`: adds a message to the schedule.
pub struct AddSchedule;

/// `/schedule_rm`: removes a message from the schedule.
pub struct RemoveSchedule;

impl Ping {
    pub fn name(&self) -> (r: &'static str)
        ensures
            r@ == "ping"@,
    {
        "ping"
    }

    pub fn description(&self) -> (r: &'static str)
        ensures
            r@ == "Check bot connectivity"@,
    {
        "Check bot connectivity"
    }

    /// The answer, shown to the caller only.
    pub fn answer(&self) -> (r: &'static str)
        ensures
            r@ == "Pong!"@,
    {
        "Pong!"
    }
}

impl ListSchedules {
    pub fn name(&self) -> (r: &'static str)
        ensures
            r@ == "schedule_ls"@,
    {
        "schedule_ls"
    }

    pub fn description(&self) -> (r: &'static str)
        ensures
            r@ == "List active schedule"@,
    {
        "List active schedule"
    }
}

impl AddSchedule {
    pub fn name(&self) -> (r: &'static str)
        ensures
            r@ == "schedule_add"@,
    {
        "schedule_add"
    }

    pub fn description(&self) -> (r: &'static str)
        ensures
            r@ == "Add new schedule"@,
    {
        "Add new schedule"
    }
}

impl RemoveSchedule {
    pub fn name(&self) -> (r: &'static str)
        ensures
            r@ == "schedule_rm"@,
    {
        "schedule_rm"
    }

    pub fn description(&self) -> (r: &'static str)
        ensures
            r@ == "Remove schedule"@,
    {
        "Remove schedule"
    }

    /// The name and the description of the command's one required option.
    pub fn option(&self) -> (r: (&'static str, &'static str))
        ensures
            r.0@ == "name"@,
            r.1@ == "The name of the scheduled message you wish to delete"@,
    {
        ("name", "The name of the scheduled message you wish to delete")
    }

    /// The answer, shown to the caller only.
    pub fn answer(&self) -> (r: &'static str)
        ensures
            r@ == "Not implemented yet"@,
    {
        "Not implemented yet"
    }
}

/// The commands that are served by name.
#[derive(Debug, Clone, Copy, PartialEq, Eq, Structural)]
pub enum AvailableCommand {
    Ping,
    ListSchedules,
}

/// The served command of a name: `ping` and `schedule_ls` only.
pub open spec fn command_named(name: Seq<char>) -> Option<AvailableCommand> {
    if name == "ping"@ {
        Some(AvailableCommand::Ping)
    } else if name == "schedule_ls"@ {
        Some(AvailableCommand::ListSchedules)
    } else {
        None
    }
}

/// The served command that an interaction names, if any; none gives the
/// error "Command not found: {name}".
pub fn find_command(name: &str) -> (r: Option<AvailableCommand>)
    ensures
        r == command_named(name@),
{
    if same_text(name, "ping") {
        Some(AvailableCommand::Ping)
    } else if same_text(name, "schedule_ls") {
        Some(AvailableCommand::ListSchedules)
    } else {
        None
    }
}

/// What `/schedule_add` does with the cron expression and the message that
/// the user typed.
#[derive(Debug)]
pub enum AddScheduleOutcome {
    /// The cron expression does not have the accepted form; the answer says so.
    InvalidCron,
    /// Store the task, then answer that the message is saved.
    Store(Task),
}

/// The task that `/schedule_add` stores: repeating, enabled, in guild and
/// channel `1`.
pub open spec fn schedule_add_task(cron: Seq<char>, msg: Seq<char>) -> TaskView {
    TaskView {
        id: None,
        cron_expr: cron,
        mode: TaskMode::Repeat,
        state: TaskState::Enabled,
        guild_id: 1,
        message: MessageView { id: None, content: msg, guild_id: 1, channel_id: 1 },
    }
}

/// The task that `/schedule_add` stores posts on every tick of its schedule,
/// is enabled, has no identifier yet, and keeps the cron expression and the
/// message as typed, in guild and channel `1`.
pub proof fn lemma_schedule_add_task_repeats(cron: Seq<char>, msg: Seq<char>)
    ensures
        schedule_add_task(cron, msg).mode == TaskMode::Repeat,
        schedule_add_task(cron, msg).state == TaskState::Enabled,
        schedule_add_task(cron, msg).id is None,
        schedule_add_task(cron, msg).cron_expr == cron,
        schedule_add_task(cron, msg).guild_id == 1,
        schedule_add_task(cron, msg).message.id is None,
        schedule_add_task(cron, msg).message.content == msg,
        schedule_add_task(cron, msg).message.guild_id == 1,
        schedule_add_task(cron, msg).message.channel_id == 1,
{
}

impl AddSchedule {
    /// The decision once the user has filled in the form.
    pub fn decide(&self, cron: &str, msg: &str) -> (r: AddScheduleOutcome)
        ensures
            match r {
                AddScheduleOutcome::InvalidCron => !is_cron_pattern(cron@),
                AddScheduleOutcome::Store(t) => is_cron_pattern(cron@) && t@ == schedule_add_task(
                    cron@,
                    msg@,
                ) && t.wf() && t.id is None && t.cron_expr@ == cron@ && t.mode == TaskMode::Repeat
                    && t.state == TaskState::Enabled && t.guild_id == 1 && t.message.id is None
                    && t.message.content@ == msg@ && t.message.guild_id == 1
                    && t.message.channel_id == 1,
            },
    {
        if !is_cron_expression(cron) {
            return AddScheduleOutcome::InvalidCron;
        }
        let mut cron_expr = String::new();
        cron_expr.append(cron);
        let mut content = String::new();
        content.append(msg);
        AddScheduleOutcome::Store(
            Task {
                id: None,
                cron_expr,
                mode: TaskMode::Repeat,
                state: TaskState::Enabled,
                guild_id: 1,
                message: Message { id: None, content, guild_id: 1, channel_id: 1 },
            },
        )
    }

    /// The answer when the cron expression is refused.
    pub fn invalid_cron_answer(&self) -> (r: &'static str)
        ensures
            r@ == "❌ Invalid Cron expression, cancelling..."@,
    {
        "❌ Invalid Cron expression, cancelling..."
    }

    /// The answer once the task is stored.
    pub fn saved_answer(&self) -> (r: &'static str)
        ensures
            r@ == "✅ Message saved!"@,
    {
        "✅ Message saved!"
    }
}

} // verus!
