//! Decisions and answers of the bot's slash commands.
use vstd::prelude::*;
use crate::decimal::{decimal, push_decimal};
use crate::environment::Environment;
use crate::message::Message;
use crate::task::{discord_listing, Task, TaskMode, TaskState, TaskView};

verus! {

/// The guild in which commands are registered in development.
pub const DEVELOPMENT_GUILD_ID: u64 = 705_869_087_292_653_708u64;

/// Where the slash commands are registered.
#[derive(Debug, Clone, Copy, PartialEq, Eq, Structural)]
pub enum CommandScope {
    /// For every guild.
    Global,
    /// In one guild only.
    Guild(u64),
}

/// Production registers the commands globally; development in the test guild.
pub fn command_scope(environment: Environment) -> (r: CommandScope)
    ensures
        r == match environment {
            Environment::Production => CommandScope::Global,
            Environment::Development => CommandScope::Guild(DEVELOPMENT_GUILD_ID),
        },
{
    match environment {
        Environment::Production => CommandScope::Global,
        Environment::Development => CommandScope::Guild(DEVELOPMENT_GUILD_ID),
    }
}

/// Texts joined with line feeds between them.
pub open spec fn joined_lines(parts: Seq<Seq<char>>) -> Seq<char>
    decreases parts.len(),
{
    if parts.len() == 0 {
        Seq::empty()
    } else if parts.len() == 1 {
        parts[0]
    } else {
        joined_lines(parts.drop_last()) + seq!['\n'] + parts.last()
    }
}

/// Every task shown as for Discord, one after the other, separated by line
/// feeds.
pub open spec fn tasks_listing_text(ts: Seq<TaskView>) -> Seq<char> {
    joined_lines(ts.map_values(|t: TaskView| discord_listing(t)))
}

/// Texts joined with line feeds read from the front: nothing for no text,
/// the text itself for one, and otherwise the first text, one line feed, and
/// the join of the rest.
pub proof fn lemma_joined_lines_from_front(parts: Seq<Seq<char>>)
    ensures
        parts.len() == 0 ==> joined_lines(parts) == Seq::<char>::empty(),
        parts.len() == 1 ==> joined_lines(parts) == parts[0],
        parts.len() >= 2 ==> joined_lines(parts) == parts[0] + seq!['\n'] + joined_lines(
            parts.drop_first(),
        ),
    decreases parts.len(),
{
    if parts.len() == 2 {
        assert(parts.drop_last().len() == 1);
        assert(parts.drop_last()[0] == parts[0]);
        assert(parts.drop_first().len() == 1);
        assert(parts.drop_first()[0] == parts[1]);
        assert(joined_lines(parts.drop_first()) == parts[1]);
        assert(joined_lines(parts.drop_last()) == parts[0]);
        assert(parts.last() == parts[1]);
        assert(joined_lines(parts) =~= parts[0] + seq!['\n'] + joined_lines(parts.drop_first()));
    } else if parts.len() > 2 {
        let front = parts.drop_last();
        lemma_joined_lines_from_front(front);
        assert(front.drop_first() =~= parts.drop_first().drop_last());
        assert(parts.drop_first().last() == parts.last());
        assert(front[0] == parts[0]);
        assert(joined_lines(parts.drop_first()) == joined_lines(parts.drop_first().drop_last())
            + seq!['\n'] + parts.drop_first().last());
        assert(joined_lines(parts) =~= parts[0] + seq!['\n'] + joined_lines(parts.drop_first()));
    }
}

/// Texts joined with line feeds, cut anywhere between two texts: the join of
/// those before the cut, one line feed, and the join of those after it.
pub proof fn lemma_joined_lines_split(parts: Seq<Seq<char>>, k: int)
    requires
        1 <= k < parts.len(),
    ensures
        joined_lines(parts) == joined_lines(parts.take(k)) + seq!['\n'] + joined_lines(
            parts.skip(k),
        ),
    decreases parts.len(),
{
    let rest = parts.skip(k);
    if k == parts.len() - 1 {
        assert(parts.take(k) =~= parts.drop_last());
        assert(rest.len() == 1);
        assert(rest[0] == parts.last());
    } else {
        let front = parts.drop_last();
        lemma_joined_lines_split(front, k);
        assert(front.take(k) =~= parts.take(k));
        assert(rest.drop_last() =~= front.skip(k));
        assert(rest.last() == parts.last());
        assert(joined_lines(rest) == joined_lines(rest.drop_last()) + seq!['\n'] + rest.last());
        assert(joined_lines(parts) =~= joined_lines(parts.take(k)) + seq!['\n'] + joined_lines(
            rest,
        ));
    }
}

/// The listing of tasks, cut between any two consecutive tasks, is the
/// listing of the tasks before the cut, exactly one line feed, and the
/// listing of the tasks after it: so each task's block is followed at once
/// by a line feed and then the next task's block.
pub proof fn lemma_tasks_listing_split(ts: Seq<TaskView>, k: int)
    requires
        1 <= k < ts.len(),
    ensures
        tasks_listing_text(ts) == tasks_listing_text(ts.take(k)) + seq!['\n']
            + tasks_listing_text(ts.skip(k)),
{
    let parts = ts.map_values(|t: TaskView| discord_listing(t));
    lemma_joined_lines_split(parts, k);
    assert(parts.take(k) =~= ts.take(k).map_values(|t: TaskView| discord_listing(t)));
    assert(parts.skip(k) =~= ts.skip(k).map_values(|t: TaskView| discord_listing(t)));
}

/// The listing of tasks: nothing for none; the first task's block alone for
/// one; otherwise the first task's block, one line feed, and the listing of
/// the others, in order.
pub proof fn lemma_tasks_listing_from_front(ts: Seq<TaskView>)
    ensures
        ts.len() == 0 ==> tasks_listing_text(ts) == Seq::<char>::empty(),
        ts.len() == 1 ==> tasks_listing_text(ts) == discord_listing(ts[0]),
        ts.len() >= 2 ==> tasks_listing_text(ts) == discord_listing(ts[0]) + seq!['\n']
            + tasks_listing_text(ts.drop_first()),
{
    let parts = ts.map_values(|t: TaskView| discord_listing(t));
    lemma_joined_lines_from_front(parts);
    if ts.len() > 0 {
        assert(parts.drop_first() =~= ts.drop_first().map_values(
            |t: TaskView| discord_listing(t),
        ));
        assert(parts[0] == discord_listing(ts[0]));
    }
}

/// The answer that lists a guild's tasks.
pub fn tasks_listing(tasks: &Vec<Task>) -> (r: String)
    ensures
        r@ == tasks_listing_text(tasks@.map_values(|t: Task| t@)),
{
    let ghost views = tasks@.map_values(|t: Task| t@);
    let ghost parts = views.map_values(|t: TaskView| discord_listing(t));
    let mut s = String::new();
    let mut i: usize = 0;
    proof {
        reveal_strlit("\n");
        assert(parts.take(0) =~= Seq::<Seq<char>>::empty());
    }
    while i < tasks.len()
        invariant
            i <= tasks.len(),
            views == tasks@.map_values(|t: Task| t@),
            parts == views.map_values(|t: TaskView| discord_listing(t)),
            s@ == joined_lines(parts.take(i as int)),
        decreases tasks.len() - i,
    {
        let ghost prev = s@;
        if i > 0 {
            s.append("\n");
        }
        let ghost mid = s@;
        let line = tasks[i].to_discord_string();
        s.append(line.as_str());
        proof {
            let t = parts.take(i + 1);
            assert(t.drop_last() =~= parts.take(i as int));
            assert(t.last() == parts[i as int]);
            assert(parts[i as int] == discord_listing(tasks@[i as int]@));
            reveal_strlit("\n");
            if i == 0 {
                assert(prev.len() == 0);
                assert(s@ =~= parts[0]);
            } else {
                assert(mid =~= prev + seq!['\n']);
                assert(s@ =~= joined_lines(parts.take(i as int)) + seq!['\n'] + parts[i as int]);
            }
            assert(s@ =~= joined_lines(t));
        }
        i = i + 1;
    }
    proof {
        assert(parts.take(tasks.len() as int) =~= parts);
    }
    s
}

/// What `/r2ls` does.
#[derive(Debug, Clone, Copy, PartialEq, Eq, Structural)]
pub enum ListDecision {
    /// Not run in a guild: answer `not_in_guild_answer`.
    NotInGuild,
    /// List the tasks of this guild.
    ListGuild(u64),
}

/// `/r2ls` lists the tasks of the guild it runs in; outside a guild it says
/// that it must run in one.
pub fn list_decision(guild_id: Option<u64>) -> (r: ListDecision)
    ensures
        r == match guild_id {
            Some(g) => ListDecision::ListGuild(g),
            None => ListDecision::NotInGuild,
        },
{
    match guild_id {
        Some(g) => ListDecision::ListGuild(g),
        None => ListDecision::NotInGuild,
    }
}

/// The answer of `/r2ls` outside a guild.
pub fn not_in_guild_answer() -> (r: &'static str)
    ensures
        r@ == "This command must be run in a server."@,
{
    "This command must be run in a server."
}

/// The answer of `/ping`.
pub fn ping_answer() -> (r: &'static str)
    ensures
        r@ == "Pong! 🏓"@,
{
    "Pong! 🏓"
}

/// Why `/r2add` cannot schedule a message.
#[derive(Debug, Clone, Copy, PartialEq, Eq, Structural)]
pub enum AddTaskError {
    /// Not run in a guild ("Invalid guild ID").
    InvalidGuild,
    /// The channel's identifier is zero ("Invalid channel ID").
    InvalidChannel,
}

/// The task that `/r2add` stores: the cron expression and the message as
/// given, repeating and enabled, in the guild and channel of the command.
pub open spec fn added_task(
    guild_id: u64,
    channel_id: u64,
    cron_expr: Seq<char>,
    content: Seq<char>,
) -> TaskView {
    TaskView {
        id: None,
        cron_expr,
        mode: TaskMode::Repeat,
        state: TaskState::Enabled,
        guild_id,
        message: crate::message::MessageView { id: None, content, guild_id, channel_id },
    }
}

/// The task that `/r2add` stores posts on every tick of its schedule, is
/// enabled, has no identifier yet, keeps the cron expression and the message
/// as given, and lies in the guild and channel of the command.
pub proof fn lemma_added_task_repeats(
    guild_id: u64,
    channel_id: u64,
    cron_expr: Seq<char>,
    content: Seq<char>,
)
    ensures
        added_task(guild_id, channel_id, cron_expr, content).mode == TaskMode::Repeat,
        added_task(guild_id, channel_id, cron_expr, content).state == TaskState::Enabled,
        added_task(guild_id, channel_id, cron_expr, content).id is None,
        added_task(guild_id, channel_id, cron_expr, content).cron_expr == cron_expr,
        added_task(guild_id, channel_id, cron_expr, content).guild_id == guild_id,
        added_task(guild_id, channel_id, cron_expr, content).message.id is None,
        added_task(guild_id, channel_id, cron_expr, content).message.content == content,
        added_task(guild_id, channel_id, cron_expr, content).message.guild_id == guild_id,
        added_task(guild_id, channel_id, cron_expr, content).message.channel_id == channel_id,
{
}

/// The task that `/r2add` stores, from the guild of the command (if any), its
/// channel, and the two options.
pub fn new_scheduled_task(
    guild_id: Option<u64>,
    channel_id: u64,
    cron_expr: String,
    message_content: String,
) -> (r: Result<Task, AddTaskError>)
    ensures
        match r {
            Ok(t) => guild_id matches Some(g) && g != 0 && channel_id != 0 && t@ == added_task(
                g,
                channel_id,
                cron_expr@,
                message_content@,
            ) && t.wf() && t.id is None && t.cron_expr@ == cron_expr@ && t.mode
                == TaskMode::Repeat && t.state == TaskState::Enabled && t.guild_id == g
                && t.message.id is None && t.message.content@ == message_content@
                && t.message.guild_id == g && t.message.channel_id == channel_id,
            Err(AddTaskError::InvalidGuild) => guild_id is None || guild_id == Some(0u64),
            Err(AddTaskError::InvalidChannel) => guild_id matches Some(g) && g != 0 && channel_id
                == 0,
        },
{
    let guild_id = match guild_id {
        Some(g) if g != 0 => g,
        _ => {
            return Err(AddTaskError::InvalidGuild);
        },
    };
    if channel_id == 0 {
        return Err(AddTaskError::InvalidChannel);
    }
    let message = Message { id: None, content: message_content, channel_id, guild_id };
    Ok(
        Task {
            id: None,
            cron_expr,
            mode: TaskMode::Repeat,
            state: TaskState::Enabled,
            guild_id,
            message,
        },
    )
}

/// The answer of `/r2add` once the task is stored.
pub fn task_added_answer() -> (r: &'static str)
    ensures
        r@ == "👌 Message added to the schedule."@,
{
    "👌 Message added to the schedule."
}

/// The answer of `/r2rm`, which removes nothing yet.
pub fn removal_answer(task_id: u64) -> (r: String)
    ensures
        r@ == "(fake) Removed task: "@ + decimal(task_id as nat),
{
    let mut s = String::new();
    s.append("(fake) Removed task: ");
    push_decimal(&mut s, task_id);
    s
}

} // verus!
