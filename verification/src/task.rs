//! Scheduled tasks: a cron expression and the message to post.
use vstd::prelude::*;
use vstd::std_specs::cmp::PartialOrdSpec;
use core::cmp::Ordering;
use crate::decimal::{decimal, push_decimal, to_decimal};
use crate::message::{Message, MessageView};
use crate::discord::builder_push;
use crate::text::same_text;

verus! {

/// Identifier of a stored task. It is never zero.
#[derive(Debug, Clone, Copy, PartialEq, Eq, Structural, Ord, Hash)]
pub struct TaskId(u64);

impl View for TaskId {
    type V = u64;

    closed spec fn view(&self) -> u64 {
        self.0
    }
}

impl PartialOrd for TaskId {
    fn partial_cmp(&self, other: &Self) -> (r: Option<Ordering>) {
        if self.0 < other.0 {
            Some(Ordering::Less)
        } else if self.0 > other.0 {
            Some(Ordering::Greater)
        } else {
            Some(Ordering::Equal)
        }
    }
}

impl vstd::std_specs::cmp::PartialOrdSpecImpl for TaskId {
    open spec fn obeys_partial_cmp_spec() -> bool {
        true
    }

    /// Identifiers are ordered as the numbers they wrap.
    open spec fn partial_cmp_spec(&self, other: &Self) -> Option<Ordering> {
        PartialOrdSpec::partial_cmp_spec(&self@, &other@)
    }
}

/// Two identifiers are equal exactly when the numbers they wrap are.
pub proof fn lemma_task_id_equality(a: TaskId, b: TaskId)
    ensures
        (a == b) <==> (a@ == b@),
{
}

/// Identifiers are ordered as the numbers they wrap.
pub proof fn lemma_task_id_order(a: TaskId, b: TaskId)
    ensures
        PartialOrdSpec::partial_cmp_spec(&a, &b) == PartialOrdSpec::partial_cmp_spec(&a@, &b@),
{
}

impl TaskId {
    #[verifier::type_invariant]
    spec fn is_nonzero(self) -> bool {
        self.0 != 0
    }

    /// Wraps a non-zero identifier.
    pub fn new(id: u64) -> (r: Self)
        requires
            id != 0,
        ensures
            r@ == id,
    {
        TaskId(id)
    }

    /// The identifier, which is not zero.
    pub fn get(&self) -> (r: u64)
        ensures
            r == self@,
            r != 0,
    {
        proof {
            use_type_invariant(self);
        }
        self.0
    }

    /// The identifier in decimal, as `Display` writes it.
    pub fn to_string(&self) -> (r: String)
        ensures
            r@ == decimal(self@ as nat),
    {
        to_decimal(self.0)
    }
}

/// Whether a task is active.
#[derive(Debug, Clone, Copy, PartialEq, Eq, Structural)]
pub enum TaskState {
    Disabled,
    Enabled,
}

/// Whether a task posts once or on every tick of its schedule.
#[derive(Debug, Clone, Copy, PartialEq, Eq, Structural)]
pub enum TaskMode {
    Repeat,
    OneShot,
}

/// The stored text of a state, as the database and the JSON API write it.
pub open spec fn state_text(s: TaskState) -> Seq<char> {
    match s {
        TaskState::Disabled => "disabled"@,
        TaskState::Enabled => "enabled"@,
    }
}

/// The state that a stored text names, if any.
pub open spec fn parse_state(t: Seq<char>) -> Option<TaskState> {
    if t == "disabled"@ {
        Some(TaskState::Disabled)
    } else if t == "enabled"@ {
        Some(TaskState::Enabled)
    } else {
        None
    }
}

/// The stored text of a mode, as the database and the JSON API write it.
pub open spec fn mode_text(m: TaskMode) -> Seq<char> {
    match m {
        TaskMode::Repeat => "repeat"@,
        TaskMode::OneShot => "one_shot"@,
    }
}

/// The mode that a stored text names, if any.
pub open spec fn parse_mode(t: Seq<char>) -> Option<TaskMode> {
    if t == "repeat"@ {
        Some(TaskMode::Repeat)
    } else if t == "one_shot"@ {
        Some(TaskMode::OneShot)
    } else {
        None
    }
}

impl TaskState {
    /// The stored text of this state.
    pub fn as_text(&self) -> (r: &'static str)
        ensures
            r@ == state_text(*self),
    {
        match self {
            TaskState::Disabled => "disabled",
            TaskState::Enabled => "enabled",
        }
    }

    /// The state that `text` names, if any.
    pub fn from_text(text: &str) -> (r: Option<TaskState>)
        ensures
            r == parse_state(text@),
    {
        if same_text(text, "disabled") {
            Some(TaskState::Disabled)
        } else if same_text(text, "enabled") {
            Some(TaskState::Enabled)
        } else {
            None
        }
    }
}

impl TaskMode {
    /// The stored text of this mode.
    pub fn as_text(&self) -> (r: &'static str)
        ensures
            r@ == mode_text(*self),
    {
        match self {
            TaskMode::Repeat => "repeat",
            TaskMode::OneShot => "one_shot",
        }
    }

    /// The mode that `text` names, if any.
    pub fn from_text(text: &str) -> (r: Option<TaskMode>)
        ensures
            r == parse_mode(text@),
    {
        if same_text(text, "repeat") {
            Some(TaskMode::Repeat)
        } else if same_text(text, "one_shot") {
            Some(TaskMode::OneShot)
        } else {
            None
        }
    }
}

/// Reading back the stored text of a state gives the same state.
pub proof fn lemma_state_text_round_trip(s: TaskState)
    ensures
        parse_state(state_text(s)) == Some(s),
{
    reveal_strlit("disabled");
    reveal_strlit("enabled");
    assert("disabled"@.len() != "enabled"@.len());
}

/// Reading back the stored text of a mode gives the same mode.
pub proof fn lemma_mode_text_round_trip(m: TaskMode)
    ensures
        parse_mode(mode_text(m)) == Some(m),
{
    reveal_strlit("repeat");
    reveal_strlit("one_shot");
    assert("repeat"@.len() != "one_shot"@.len());
}

/// The stored texts of the states are `disabled` and `enabled`, and they are
/// read back as those states.
pub proof fn lemma_state_texts()
    ensures
        state_text(TaskState::Disabled) == seq!['d', 'i', 's', 'a', 'b', 'l', 'e', 'd'],
        state_text(TaskState::Enabled) == seq!['e', 'n', 'a', 'b', 'l', 'e', 'd'],
        parse_state(seq!['d', 'i', 's', 'a', 'b', 'l', 'e', 'd']) == Some(TaskState::Disabled),
        parse_state(seq!['e', 'n', 'a', 'b', 'l', 'e', 'd']) == Some(TaskState::Enabled),
{
    reveal_strlit("disabled");
    reveal_strlit("enabled");
    assert("disabled"@ =~= seq!['d', 'i', 's', 'a', 'b', 'l', 'e', 'd']);
    assert("enabled"@ =~= seq!['e', 'n', 'a', 'b', 'l', 'e', 'd']);
}

/// The stored texts of the modes are `repeat` and `one_shot`, and they are
/// read back as those modes.
pub proof fn lemma_mode_texts()
    ensures
        mode_text(TaskMode::Repeat) == seq!['r', 'e', 'p', 'e', 'a', 't'],
        mode_text(TaskMode::OneShot) == seq!['o', 'n', 'e', '_', 's', 'h', 'o', 't'],
        parse_mode(seq!['r', 'e', 'p', 'e', 'a', 't']) == Some(TaskMode::Repeat),
        parse_mode(seq!['o', 'n', 'e', '_', 's', 'h', 'o', 't']) == Some(TaskMode::OneShot),
{
    reveal_strlit("repeat");
    reveal_strlit("one_shot");
    assert("repeat"@ =~= seq!['r', 'e', 'p', 'e', 'a', 't']);
    assert("one_shot"@ =~= seq!['o', 'n', 'e', '_', 's', 'h', 'o', 't']);
}

/// A text that names a state or a mode is exactly that state's or mode's
/// stored text; any other text names none.
pub proof fn lemma_parse_only_stored_texts(t: Seq<char>)
    ensures
        parse_state(t) matches Some(s) ==> t == state_text(s),
        parse_mode(t) matches Some(m) ==> t == mode_text(m),
{
}

/// A message scheduled with a cron expression.
#[derive(Debug, Clone)]
pub struct Task {
    pub id: Option<TaskId>,
    pub cron_expr: String,
    pub mode: TaskMode,
    pub state: TaskState,
    pub guild_id: u64,
    pub message: Message,
}

/// What a `Task` holds, as mathematical values.
pub struct TaskView {
    pub id: Option<u64>,
    pub cron_expr: Seq<char>,
    pub mode: TaskMode,
    pub state: TaskState,
    pub guild_id: u64,
    pub message: MessageView,
}

/// The identifier's value, if any.
pub open spec fn task_id_view(id: Option<TaskId>) -> Option<u64> {
    match id {
        Some(i) => Some(i@),
        None => None,
    }
}

impl View for Task {
    type V = TaskView;

    open spec fn view(&self) -> TaskView {
        TaskView {
            id: task_id_view(self.id),
            cron_expr: self.cron_expr@,
            mode: self.mode,
            state: self.state,
            guild_id: self.guild_id,
            message: self.message@,
        }
    }
}

/// The text that names a task in a listing: its identifier in decimal, or
/// `INVALID_ID` when it has none.
pub open spec fn listing_id(id: Option<u64>) -> Seq<char> {
    match id {
        Some(n) => decimal(n as nat),
        None => "INVALID_ID"@,
    }
}

/// How a task is shown to Discord users: a shell code block with its
/// identifier, its cron expression and its message.
pub open spec fn discord_listing(t: TaskView) -> Seq<char> {
    "```sh\n# Task ID:\n"@ + listing_id(t.id) + "\n\n# Cron:\n"@ + t.cron_expr
        + "\n\n# Message:\n"@ + t.message.content + "```"@
}

impl Task {
    /// Guild, channel and message identifiers are never zero.
    pub open spec fn wf(&self) -> bool {
        self.guild_id != 0 && self.message.wf()
    }

    /// An exact copy.
    pub fn duplicate(&self) -> (r: Task)
        ensures
            r@ == self@,
    {
        Task {
            id: self.id,
            cron_expr: self.cron_expr.clone(),
            mode: self.mode,
            state: self.state,
            guild_id: self.guild_id,
            message: self.message.duplicate(),
        }
    }

    /// The task as a code block for a Discord message.
    pub fn to_discord_string(&self) -> (r: String)
        ensures
            r@ == discord_listing(self@),
    {
        let mut s = String::new();
        s.append("```sh\n# Task ID:\n");
        match &self.id {
            Some(id) => {
                push_decimal(&mut s, id.0);
            },
            None => {
                s.append("INVALID_ID");
            },
        }
        s.append("\n\n# Cron:\n");
        s.append(self.cron_expr.as_str());
        s.append("\n\n# Message:\n");
        s.append(self.message.content.as_str());
        s.append("```");
        assert(s@ =~= discord_listing(self@));
        s
    }
}

impl Task {
    /// The text of the Discord message that posts the task: its message's
    /// content, unchanged.
    pub fn build_discord_message(&self) -> (r: String)
        ensures
            r@ == self.message.content@,
    {
        let r = builder_push(String::new(), self.message.content.as_str());
        assert(r@ =~= self.message.content@);
        r
    }
}

} // verus!
