//! Tasks as the API stores them: reading them from result rows, and the
//! decisions around reads and inserts.
use vstd::prelude::*;
use vstd::string::StrSliceExecFns;
use vstd::utf8::{encode_utf8, encode_utf8_decode_utf8, encode_utf8_valid_utf8};
use crate::message::{Message, MessageId, MessageView};
use crate::text::{ascii_folded, eq_ignore_ascii_case};
use crate::sql::{
    SqlColumn,
    first_column,
    as_optional_id, as_text, nonzero_value, optional_id_value, read_column, text_value,
    zero_id_column, zero_id_value, FromSqlError, SqlError, SqlErrorView, SqlRow, SqlValue,
};
use crate::task::{
    lemma_mode_text_round_trip, lemma_state_text_round_trip, mode_text, parse_mode, parse_state,
    state_text, Task, TaskId, TaskMode, TaskState, TaskView,
};

verus! {

/// A state: text that names one.
pub open spec fn state_value(v: SqlValue) -> Result<TaskState, FromSqlError> {
    match text_value(v) {
        Ok(t) => match parse_state(t) {
            Some(s) => Ok(s),
            None => Err(FromSqlError::InvalidType),
        },
        Err(e) => Err(e),
    }
}

/// A mode: text that names one.
pub open spec fn mode_value(v: SqlValue) -> Result<TaskMode, FromSqlError> {
    match text_value(v) {
        Ok(t) => match parse_mode(t) {
            Some(m) => Ok(m),
            None => Err(FromSqlError::InvalidType),
        },
        Err(e) => Err(e),
    }
}

/// A value holds `text`, encoded in UTF-8.
pub open spec fn holds_text(v: SqlValue, text: Seq<char>) -> bool {
    v matches SqlValue::Text(b) && b@ == encode_utf8(text)
}

impl TaskState {
    /// The value that stores this state: its text.
    pub fn to_sql(&self) -> (r: SqlValue)
        ensures
            holds_text(r, state_text(*self)),
    {
        SqlValue::Text(self.as_text().as_bytes_vec())
    }

    /// The state stored in a value.
    pub fn column_result(v: &SqlValue) -> (r: Result<TaskState, FromSqlError>)
        ensures
            r == state_value(*v),
    {
        let t = as_text(v)?;
        match TaskState::from_text(t.as_str()) {
            Some(s) => Ok(s),
            None => Err(FromSqlError::InvalidType),
        }
    }
}

impl TaskMode {
    /// The value that stores this mode: its text.
    pub fn to_sql(&self) -> (r: SqlValue)
        ensures
            holds_text(r, mode_text(*self)),
    {
        SqlValue::Text(self.as_text().as_bytes_vec())
    }

    /// The mode stored in a value.
    pub fn column_result(v: &SqlValue) -> (r: Result<TaskMode, FromSqlError>)
        ensures
            r == mode_value(*v),
    {
        let t = as_text(v)?;
        match TaskMode::from_text(t.as_str()) {
            Some(m) => Ok(m),
            None => Err(FromSqlError::InvalidType),
        }
    }
}

impl TaskId {
    /// The identifier stored in a value: an integer, taken as unsigned.
    pub fn column_result(v: &SqlValue) -> (r: Result<TaskId, FromSqlError>)
        requires
            !zero_id_value(*v),
        ensures
            match r {
                Ok(id) => optional_id_value(*v) == Ok::<Option<u64>, FromSqlError>(Some(id@)),
                Err(e) => e == FromSqlError::InvalidType && !(*v is Integer),
            },
    {
        match v {
            SqlValue::Integer(_) => match as_optional_id(v) {
                Ok(Some(n)) => Ok(TaskId::new(n)),
                _ => Err(FromSqlError::InvalidType),
            },
            _ => Err(FromSqlError::InvalidType),
        }
    }
}

impl MessageId {
    /// The identifier stored in a value: an integer, taken as unsigned.
    pub fn column_result(v: &SqlValue) -> (r: Result<MessageId, FromSqlError>)
        requires
            !zero_id_value(*v),
        ensures
            match r {
                Ok(id) => optional_id_value(*v) == Ok::<Option<u64>, FromSqlError>(Some(id@)),
                Err(e) => e == FromSqlError::InvalidType && !(*v is Integer),
            },
    {
        match v {
            SqlValue::Integer(_) => match as_optional_id(v) {
                Ok(Some(n)) => Ok(MessageId::new(n)),
                _ => Err(FromSqlError::InvalidType),
            },
            _ => Err(FromSqlError::InvalidType),
        }
    }
}

/// The task that a row of `tasks` joined with `messages` holds, or the first
/// error met reading its columns in the order `id`, `cron`, `state`,
/// `repeat_mode`, `guild_id`, `message_id`, `content`, `channel_id`. Both
/// tables have a column `guild_id`; the first one, the task's, is read for the
/// task and for its message alike.
pub open spec fn row_task(row: SqlRow) -> Result<TaskView, SqlErrorView> {
    match read_column(row, "id"@, |v: SqlValue| optional_id_value(v)) {
        Err(e) => Err(e),
        Ok(id) => match read_column(row, "cron"@, |v: SqlValue| text_value(v)) {
            Err(e) => Err(e),
            Ok(cron) => match read_column(row, "state"@, |v: SqlValue| state_value(v)) {
                Err(e) => Err(e),
                Ok(state) => match read_column(row, "repeat_mode"@, |v: SqlValue| mode_value(v)) {
                    Err(e) => Err(e),
                    Ok(mode) => match read_column(row, "guild_id"@, |v: SqlValue| nonzero_value(v)) {
                        Err(e) => Err(e),
                        Ok(guild) => match read_column(
                            row,
                            "message_id"@,
                            |v: SqlValue| optional_id_value(v),
                        ) {
                            Err(e) => Err(e),
                            Ok(mid) => match read_column(
                                row,
                                "content"@,
                                |v: SqlValue| text_value(v),
                            ) {
                                Err(e) => Err(e),
                                Ok(content) => match read_column(
                                    row,
                                    "channel_id"@,
                                    |v: SqlValue| nonzero_value(v),
                                ) {
                                    Err(e) => Err(e),
                                    Ok(channel) => Ok(
                                        TaskView {
                                            id,
                                            cron_expr: cron,
                                            mode,
                                            state,
                                            guild_id: guild,
                                            message: MessageView {
                                                id: mid,
                                                content,
                                                guild_id: guild,
                                                channel_id: channel,
                                            },
                                        },
                                    ),
                                },
                            },
                        },
                    },
                },
            },
        },
    }
}

/// The columns read before `message_id` all convert.
pub open spec fn row_leading_columns_read(row: SqlRow) -> bool {
    &&& read_column(row, "id"@, |v: SqlValue| optional_id_value(v)) is Ok
    &&& read_column(row, "cron"@, |v: SqlValue| text_value(v)) is Ok
    &&& read_column(row, "state"@, |v: SqlValue| state_value(v)) is Ok
    &&& read_column(row, "repeat_mode"@, |v: SqlValue| mode_value(v)) is Ok
    &&& read_column(row, "guild_id"@, |v: SqlValue| nonzero_value(v)) is Ok
}

/// Reading the row reaches no identifier that is zero (on which it panics).
pub open spec fn row_readable(row: SqlRow) -> bool {
    &&& !zero_id_column(row, "id"@)
    &&& row_leading_columns_read(row) ==> !zero_id_column(row, "message_id"@)
}

/// Reading rows in order, stopping at the first error.
pub open spec fn rows_tasks(rows: Seq<SqlRow>) -> Result<Seq<TaskView>, SqlErrorView>
    decreases rows.len(),
{
    if rows.len() == 0 {
        Ok(Seq::empty())
    } else {
        match rows_tasks(rows.drop_last()) {
            Err(e) => Err(e),
            Ok(ts) => match row_task(rows.last()) {
                Err(e) => Err(e),
                Ok(t) => Ok(ts.push(t)),
            },
        }
    }
}

/// Every row that reading reaches is readable.
pub open spec fn rows_readable(rows: Seq<SqlRow>) -> bool {
    forall|i: int|
        0 <= i < rows.len() && #[trigger] rows_tasks(rows.take(i)) is Ok ==> row_readable(rows[i])
}

/// Why reading or storing tasks failed.
#[derive(Debug, Clone, PartialEq)]
pub enum DataError {
    /// Reading a row failed.
    Sql(SqlError),
    /// A guild's query gave no task ("Response is empty").
    Empty,
    /// No task has the requested identifier ("Task not found").
    NotFound,
    /// The database gave the row identifier zero ("Cannot map ID").
    InvalidId,
}

impl Task {
    /// The task in a row of `tasks` joined with `messages`.
    pub fn map_row(row: &SqlRow) -> (r: Result<Task, SqlError>)
        requires
            row_readable(*row),
        ensures
            match r {
                Ok(t) => row_task(*row) == Ok::<TaskView, SqlErrorView>(t@) && t.wf(),
                Err(e) => row_task(*row) == Err::<TaskView, SqlErrorView>(e@),
            },
    {
        let id = row.get_optional_id("id")?;
        let cron_expr = row.get_text("cron")?;
        let state = match row.column_index("state") {
            Ok(i) => match TaskState::column_result(&row.columns[i].value) {
                Ok(s) => s,
                Err(e) => {
                    return Err(row.conversion_failure(i, e));
                },
            },
            Err(e) => {
                return Err(e);
            },
        };
        let mode = match row.column_index("repeat_mode") {
            Ok(i) => match TaskMode::column_result(&row.columns[i].value) {
                Ok(m) => m,
                Err(e) => {
                    return Err(row.conversion_failure(i, e));
                },
            },
            Err(e) => {
                return Err(e);
            },
        };
        let guild_id = row.get_nonzero("guild_id")?;
        let message_id = row.get_optional_id("message_id")?;
        let content = row.get_text("content")?;
        let message_guild_id = row.get_nonzero("guild_id")?;
        let channel_id = row.get_nonzero("channel_id")?;
        let t = Task {
            id: match id {
                Some(n) => Some(TaskId::new(n)),
                None => None,
            },
            cron_expr,
            state,
            mode,
            guild_id,
            message: Message {
                id: match message_id {
                    Some(n) => Some(MessageId::new(n)),
                    None => None,
                },
                content,
                guild_id: message_guild_id,
                channel_id,
            },
        };
        Ok(t)
    }
}

/// The views of a sequence of tasks.
pub open spec fn task_views(ts: Seq<Task>) -> Seq<TaskView> {
    ts.map_values(|t: Task| t@)
}

/// Whether the column `name` of `row` holds the integer zero.
fn has_zero_id(row: &SqlRow, name: &str) -> (r: bool)
    ensures
        r == zero_id_column(*row, name@),
{
    match row.column_index(name) {
        Ok(i) => match &row.columns[i].value {
            SqlValue::Integer(v) => *v == 0,
            _ => false,
        },
        Err(_) => false,
    }
}

/// Whether reading `row` gets through without meeting a zero identifier.
pub fn row_is_readable(row: &SqlRow) -> (r: bool)
    ensures
        r == row_readable(*row),
{
    if has_zero_id(row, "id") {
        return false;
    }
    let leading_read = row.get_optional_id("id").is_ok() && row.get_text("cron").is_ok() && match row.column_index("state") {
        Ok(i) => TaskState::column_result(&row.columns[i].value).is_ok(),
        Err(_) => false,
    } && match row.column_index("repeat_mode") {
        Ok(i) => TaskMode::column_result(&row.columns[i].value).is_ok(),
        Err(_) => false,
    } && row.get_nonzero("guild_id").is_ok();
    !(leading_read && has_zero_id(row, "message_id"))
}

/// Once reading rows has failed, reading more rows gives the same error.
proof fn lemma_rows_tasks_error_persists(rows: Seq<SqlRow>, k: int, m: int)
    requires
        0 <= k <= m <= rows.len(),
        rows_tasks(rows.take(k)) is Err,
    ensures
        rows_tasks(rows.take(m)) == rows_tasks(rows.take(k)),
    decreases m - k,
{
    if k < m {
        lemma_rows_tasks_error_persists(rows, k, m - 1);
        assert(rows.take(m).drop_last() =~= rows.take(m - 1));
    }
}

impl Task {
    /// The tasks in the result rows of a query, in order; the first row that
    /// cannot be read gives the error.
    pub fn read_rows(rows: &Vec<SqlRow>) -> (r: Result<Vec<Task>, SqlError>)
        requires
            rows_readable(rows@),
        ensures
            match r {
                Ok(ts) => rows_tasks(rows@) == Ok::<Seq<TaskView>, SqlErrorView>(task_views(ts@))
                    && forall|i: int| 0 <= i < ts.len() ==> (#[trigger] ts@[i]).wf(),
                Err(e) => rows_tasks(rows@) == Err::<Seq<TaskView>, SqlErrorView>(e@),
            },
    {
        let mut out: Vec<Task> = Vec::new();
        let mut i: usize = 0;
        proof {
            assert(rows@.take(0) =~= Seq::<SqlRow>::empty());
            assert(task_views(out@) =~= Seq::<TaskView>::empty());
        }
        while i < rows.len()
            invariant
                i <= rows.len(),
                rows_readable(rows@),
                rows_tasks(rows@.take(i as int)) == Ok::<Seq<TaskView>, SqlErrorView>(
                    task_views(out@),
                ),
                forall|k: int| 0 <= k < out.len() ==> (#[trigger] out@[k]).wf(),
            decreases rows.len() - i,
        {
            proof {
                assert(rows@.take(i + 1).drop_last() =~= rows@.take(i as int));
                assert(rows@.take(i + 1).last() == rows@[i as int]);
                assert(rows_tasks(rows@.take(i as int)) is Ok);
            }
            let ghost prev = out@;
            match Task::map_row(&rows[i]) {
                Ok(t) => {
                    out.push(t);
                    proof {
                        assert(task_views(out@) =~= task_views(prev).push(t@));
                    }
                },
                Err(e) => {
                    proof {
                        lemma_rows_tasks_error_persists(rows@, i + 1, rows.len() as int);
                        assert(rows@.take(rows.len() as int) =~= rows@);
                    }
                    return Err(e);
                },
            }
            i = i + 1;
        }
        proof {
            assert(rows@.take(rows.len() as int) =~= rows@);
        }
        Ok(out)
    }
}

impl Task {
    /// Whether reading `rows` in order, up to the first error, meets no zero
    /// identifier.
    pub fn rows_are_readable(rows: &Vec<SqlRow>) -> (r: bool)
        ensures
            r == rows_readable(rows@),
    {
        let mut i: usize = 0;
        proof {
            assert(rows@.take(0) =~= Seq::<SqlRow>::empty());
        }
        while i < rows.len()
            invariant
                i <= rows.len(),
                rows_tasks(rows@.take(i as int)) is Ok,
                forall|k: int|
                    0 <= k < i && #[trigger] rows_tasks(rows@.take(k)) is Ok ==> row_readable(
                        rows@[k],
                    ),
            decreases rows.len() - i,
        {
            proof {
                assert(rows@.take(i + 1).drop_last() =~= rows@.take(i as int));
                assert(rows@.take(i + 1).last() == rows@[i as int]);
            }
            if !row_is_readable(&rows[i]) {
                return false;
            }
            if Task::map_row(&rows[i]).is_err() {
                proof {
                    assert forall|k: int|
                        0 <= k < rows.len() && #[trigger] rows_tasks(rows@.take(k)) is Ok implies row_readable(
                        rows@[k],
                    ) by {
                        if k > i {
                            lemma_rows_tasks_error_persists(rows@, i + 1, k);
                        }
                    }
                }
                return true;
            }
            i = i + 1;
        }
        true
    }

    /// The decision after the query for a guild's tasks: its tasks, or `Empty`
    /// when there is none.
    pub fn guild_tasks(rows: &Vec<SqlRow>) -> (r: Result<Vec<Task>, DataError>)
        requires
            rows_readable(rows@),
        ensures
            match r {
                Ok(ts) => rows_tasks(rows@) == Ok::<Seq<TaskView>, SqlErrorView>(task_views(ts@))
                    && ts.len() > 0 && forall|i: int| 0 <= i < ts.len() ==> (#[trigger] ts@[i]).wf(),
                Err(DataError::Sql(e)) => rows_tasks(rows@) == Err::<Seq<TaskView>, SqlErrorView>(
                    e@,
                ),
                Err(DataError::Empty) => rows_tasks(rows@) == Ok::<Seq<TaskView>, SqlErrorView>(
                    Seq::empty(),
                ),
                Err(_) => false,
            },
    {
        match Task::read_rows(rows) {
            Err(e) => Err(DataError::Sql(e)),
            Ok(ts) => if ts.len() == 0 {
                proof {
                    assert(task_views(ts@) =~= Seq::<TaskView>::empty());
                }
                Err(DataError::Empty)
            } else {
                Ok(ts)
            },
        }
    }

    /// The decision after the query for one task: the first task read, or
    /// `NotFound` when there is none.
    pub fn first_task(rows: &Vec<SqlRow>) -> (r: Result<Task, DataError>)
        requires
            rows_readable(rows@),
        ensures
            match r {
                Ok(t) => rows_tasks(rows@) matches Ok(ts) && ts.len() > 0 && ts[0] == t@ && t.wf(),
                Err(DataError::Sql(e)) => rows_tasks(rows@) == Err::<Seq<TaskView>, SqlErrorView>(
                    e@,
                ),
                Err(DataError::NotFound) => rows_tasks(rows@) == Ok::<Seq<TaskView>, SqlErrorView>(
                    Seq::empty(),
                ),
                Err(_) => false,
            },
    {
        match Task::read_rows(rows) {
            Err(e) => Err(DataError::Sql(e)),
            Ok(ts) => if ts.len() == 0 {
                proof {
                    assert(task_views(ts@) =~= Seq::<TaskView>::empty());
                }
                Err(DataError::NotFound)
            } else {
                let t = ts[0].duplicate();
                assert(ts@[0].wf());
                Ok(t)
            },
        }
    }

    /// The task as stored: the same fields, with the identifiers that the
    /// database gave the task and its message.
    pub fn with_ids(&self, task_id: u64, message_id: u64) -> (r: Task)
        requires
            task_id != 0,
            message_id != 0,
        ensures
            r@ == (TaskView {
                id: Some(task_id),
                message: MessageView { id: Some(message_id), ..self@.message },
                ..self@
            }),
    {
        let mut r = self.duplicate();
        r.id = Some(TaskId::new(task_id));
        r.message.id = Some(MessageId::new(message_id));
        r
    }
}

/// The identifier for the row identifier that the database gave an insert:
/// any value but zero, taken as unsigned.
pub fn id_from_rowid(rowid: i64) -> (r: Result<u64, DataError>)
    ensures
        match r {
            Ok(n) => rowid != 0 && n == rowid as u64 && n != 0,
            Err(e) => rowid == 0 && e == DataError::InvalidId,
        },
{
    if rowid == 0 {
        Err(DataError::InvalidId)
    } else {
        proof {
            assert(rowid as u64 != 0) by (bit_vector)
                requires
                    rowid != 0,
            ;
        }
        Ok(rowid as u64)
    }
}

/// Reading a value gives back the text that was stored in it.
pub proof fn lemma_text_reads_back(v: SqlValue, text: Seq<char>)
    requires
        holds_text(v, text),
    ensures
        text_value(v) == Ok::<Seq<char>, FromSqlError>(text),
{
    encode_utf8_valid_utf8(text);
    encode_utf8_decode_utf8(text);
}

/// Reading the value that stores a state gives back the state.
pub proof fn lemma_state_reads_back(s: TaskState, v: SqlValue)
    requires
        holds_text(v, state_text(s)),
    ensures
        state_value(v) == Ok::<TaskState, FromSqlError>(s),
{
    lemma_text_reads_back(v, state_text(s));
    lemma_state_text_round_trip(s);
}

/// Reading the value that stores a mode gives back the mode.
pub proof fn lemma_mode_reads_back(m: TaskMode, v: SqlValue)
    requires
        holds_text(v, mode_text(m)),
    ensures
        mode_value(v) == Ok::<TaskMode, FromSqlError>(m),
{
    lemma_text_reads_back(v, mode_text(m));
    lemma_mode_text_round_trip(m);
}

/// A column of this name holding this integer.
pub open spec fn integer_column(c: SqlColumn, name: Seq<char>, value: int) -> bool {
    &&& c.name@ == name
    &&& c.value matches SqlValue::Integer(i) && i == value
}

/// A column of this name holding this text.
pub open spec fn text_column(c: SqlColumn, name: Seq<char>, text: Seq<char>) -> bool {
    &&& c.name@ == name
    &&& holds_text(c.value, text)
}

/// The row that the join of `tasks` with `messages` gives for the stored task
/// `t`: the task's columns `id`, `cron`, `repeat_mode`, `state`, `guild_id`,
/// `message_id`, then the message's `id`, `content`, `guild_id`, `channel_id`,
/// each holding what `Task::create` stored there.
pub open spec fn is_stored_row(row: SqlRow, t: TaskView) -> bool {
    let c = row.columns@;
    &&& t.id is Some
    &&& t.message.id is Some
    &&& c.len() == 10
    &&& integer_column(c[0], "id"@, t.id->0 as int)
    &&& text_column(c[1], "cron"@, t.cron_expr)
    &&& text_column(c[2], "repeat_mode"@, mode_text(t.mode))
    &&& text_column(c[3], "state"@, state_text(t.state))
    &&& integer_column(c[4], "guild_id"@, t.guild_id as int)
    &&& integer_column(c[5], "message_id"@, t.message.id->0 as int)
    &&& integer_column(c[6], "id"@, t.message.id->0 as int)
    &&& text_column(c[7], "content"@, t.message.content)
    &&& integer_column(c[8], "guild_id"@, t.message.guild_id as int)
    &&& integer_column(c[9], "channel_id"@, t.message.channel_id as int)
}

/// What a read gives back of a write: the row of a stored task reads back as
/// that task, provided that the task and its message are in the same guild
/// (the join has two columns `guild_id`, and the task's is read for both).
pub proof fn lemma_stored_task_reads_back(row: SqlRow, t: TaskView)
    requires
        is_stored_row(row, t),
        t.id->0 != 0,
        t.message.id->0 != 0,
        t.guild_id != 0,
        t.message.channel_id != 0,
        t.message.guild_id == t.guild_id,
    ensures
        row_readable(row),
        row_task(row) == Ok::<TaskView, SqlErrorView>(t),
{
    reveal_strlit("id");
    reveal_strlit("cron");
    reveal_strlit("repeat_mode");
    reveal_strlit("state");
    reveal_strlit("guild_id");
    reveal_strlit("message_id");
    reveal_strlit("content");
    reveal_strlit("channel_id");
    let c = row.columns@;
    reveal_with_fuel(first_column, 11);
    assert(ascii_folded('m') != ascii_folded('c'));
    assert(!eq_ignore_ascii_case(c[5].name@, "channel_id"@)) by {
        assert(c[5].name@[0] == 'm');
        assert("channel_id"@[0] == 'c');
    }
    assert(first_column(c, "id"@, 0) == Some(0int));
    assert(first_column(c, "cron"@, 0) == Some(1int));
    assert(first_column(c, "repeat_mode"@, 0) == Some(2int));
    assert(first_column(c, "state"@, 0) == Some(3int));
    assert(first_column(c, "guild_id"@, 0) == Some(4int));
    assert(first_column(c, "message_id"@, 0) == Some(5int));
    assert(first_column(c, "content"@, 0) == Some(7int));
    assert(first_column(c, "channel_id"@, 0) == Some(9int));
    lemma_text_reads_back(c[1].value, t.cron_expr);
    lemma_mode_reads_back(t.mode, c[2].value);
    lemma_state_reads_back(t.state, c[3].value);
    lemma_text_reads_back(c[7].value, t.message.content);
    let tid = t.id->0;
    let mid = t.message.id->0;
    assert(c[0].value matches SqlValue::Integer(i) && i as u64 == tid);
    assert(c[5].value matches SqlValue::Integer(i) && i as u64 == mid);
}

/// What the query for one task gives back of a created task: the join of
/// the stored rows has the task's row alone, which reads as the task (same
/// guild for the task and its message assumed, as above); `Task::first_task`
/// then returns it.
pub proof fn lemma_created_task_found_by_id(row: SqlRow, t: TaskView)
    requires
        is_stored_row(row, t),
        t.id->0 != 0,
        t.message.id->0 != 0,
        t.guild_id != 0,
        t.message.channel_id != 0,
        t.message.guild_id == t.guild_id,
    ensures
        rows_readable(seq![row]),
        rows_tasks(seq![row]) == Ok::<Seq<TaskView>, SqlErrorView>(seq![t]),
{
    lemma_stored_task_reads_back(row, t);
    let rows = seq![row];
    reveal_with_fuel(rows_tasks, 2);
    assert(rows.drop_last() =~= Seq::<SqlRow>::empty());
    assert(rows.last() == row);
    assert(rows.take(0) =~= Seq::<SqlRow>::empty());
    assert(rows.take(1) =~= rows);
    assert(Seq::<TaskView>::empty().push(t) =~= seq![t]);
    assert forall|i: int|
        0 <= i < rows.len() && #[trigger] rows_tasks(rows.take(i)) is Ok implies row_readable(
        rows[i],
    ) by {}
}

} // verus!
