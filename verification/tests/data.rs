use r2d2wm::data::{id_from_rowid, DataError};
use r2d2wm::sql::{FromSqlError, SqlColumn, SqlError, SqlRow, SqlType, SqlValue};
use r2d2wm::{Message, MessageId, Task, TaskId, TaskMode, TaskState};

fn int_col(name: &str, v: i64) -> SqlColumn {
    SqlColumn { name: name.to_string(), value: SqlValue::Integer(v) }
}

fn text(name: &str, v: &str) -> SqlColumn {
    SqlColumn { name: name.to_string(), value: SqlValue::Text(v.as_bytes().to_vec()) }
}

fn stored_row() -> Vec<SqlColumn> {
    vec![
        int_col("id", 7),
        text("cron", "0 12 * * *"),
        text("repeat_mode", "one_shot"),
        text("state", "disabled"),
        int_col("guild_id", 10),
        int_col("message_id", 3),
        int_col("id", 3),
        text("content", "Hello"),
        int_col("guild_id", 11),
        int_col("channel_id", 20),
    ]
}

#[test]
fn map_row_reads_a_stored_task() {
    let row = SqlRow { columns: stored_row() };
    let t = Task::map_row(&row).unwrap();
    assert_eq!(t.id, Some(TaskId::new(7)));
    assert_eq!(t.cron_expr, "0 12 * * *");
    assert_eq!(t.mode, TaskMode::OneShot);
    assert_eq!(t.state, TaskState::Disabled);
    assert_eq!(t.guild_id, 10);
    // the task's guild is read for the message too
    assert_eq!(
        t.message,
        Message { id: Some(MessageId::new(3)), content: "Hello".to_string(), guild_id: 10, channel_id: 20 }
    );
}

#[test]
fn map_row_matches_names_ignoring_ascii_case() {
    let mut cols = stored_row();
    cols[1].name = "CRON".to_string();
    let t = Task::map_row(&SqlRow { columns: cols }).unwrap();
    assert_eq!(t.cron_expr, "0 12 * * *");
}

#[test]
fn map_row_reads_null_ids_as_none() {
    let mut cols = stored_row();
    cols[0].value = SqlValue::Null;
    cols[5].value = SqlValue::Null;
    let t = Task::map_row(&SqlRow { columns: cols }).unwrap();
    assert_eq!(t.id, None);
    assert_eq!(t.message.id, None);
}

#[test]
fn map_row_reports_a_missing_column() {
    let mut cols = stored_row();
    cols.remove(1);
    let e = Task::map_row(&SqlRow { columns: cols }).unwrap_err();
    assert_eq!(e, SqlError::InvalidColumnName("cron".to_string()));
}

#[test]
fn map_row_reports_a_wrong_type() {
    let mut cols = stored_row();
    cols[1].value = SqlValue::Integer(5);
    let e = Task::map_row(&SqlRow { columns: cols }).unwrap_err();
    assert_eq!(e, SqlError::InvalidColumnType(1, "cron".to_string(), SqlType::Integer));
}

#[test]
fn map_row_reports_an_unknown_state() {
    let mut cols = stored_row();
    cols[3] = text("state", "paused");
    let e = Task::map_row(&SqlRow { columns: cols }).unwrap_err();
    assert_eq!(e, SqlError::InvalidColumnType(3, "state".to_string(), SqlType::Text));
}

#[test]
fn map_row_reports_invalid_utf8() {
    let mut cols = stored_row();
    cols[7].value = SqlValue::Text(vec![0xff, 0xfe]);
    let e = Task::map_row(&SqlRow { columns: cols }).unwrap_err();
    assert_eq!(e, SqlError::FromSqlConversionFailure(7, SqlType::Text));
}

#[test]
fn map_row_reports_guild_out_of_range() {
    let mut cols = stored_row();
    cols[4].value = SqlValue::Integer(-4);
    let e = Task::map_row(&SqlRow { columns: cols }).unwrap_err();
    assert_eq!(e, SqlError::IntegralValueOutOfRange(4, -4));
    let mut cols = stored_row();
    cols[9].value = SqlValue::Integer(0);
    let e = Task::map_row(&SqlRow { columns: cols }).unwrap_err();
    assert_eq!(e, SqlError::IntegralValueOutOfRange(9, 0));
}

#[test]
fn map_row_reports_the_first_error() {
    let mut cols = stored_row();
    cols[9].value = SqlValue::Real;
    cols[2].value = SqlValue::Blob(vec![1]);
    let e = Task::map_row(&SqlRow { columns: cols }).unwrap_err();
    assert_eq!(e, SqlError::InvalidColumnType(2, "repeat_mode".to_string(), SqlType::Blob));
}

#[test]
fn negative_ids_are_taken_as_unsigned() {
    let mut cols = stored_row();
    cols[0].value = SqlValue::Integer(-1);
    let t = Task::map_row(&SqlRow { columns: cols }).unwrap();
    assert_eq!(t.id, Some(TaskId::new(u64::MAX)));
}

#[test]
fn column_results_of_values() {
    assert_eq!(TaskState::column_result(&TaskState::Enabled.to_sql()), Ok(TaskState::Enabled));
    assert_eq!(TaskMode::column_result(&TaskMode::Repeat.to_sql()), Ok(TaskMode::Repeat));
    assert_eq!(TaskMode::column_result(&SqlValue::Null), Err(FromSqlError::InvalidType));
    assert_eq!(TaskId::column_result(&SqlValue::Integer(4)).map(|i| i.get()), Ok(4));
    assert_eq!(MessageId::column_result(&SqlValue::Real).map(|i| i.get()), Err(FromSqlError::InvalidType));
    assert_eq!(TaskState::Disabled.to_sql(), SqlValue::Text(b"disabled".to_vec()));
}

#[test]
fn read_rows_stops_at_the_first_bad_row() {
    let good = SqlRow { columns: stored_row() };
    let mut bad_cols = stored_row();
    bad_cols[7].value = SqlValue::Null;
    let bad = SqlRow { columns: bad_cols };
    let rows = vec![good.clone(), bad, good.clone()];
    assert_eq!(
        Task::read_rows(&rows).unwrap_err(),
        SqlError::InvalidColumnType(7, "content".to_string(), SqlType::Null)
    );
    assert_eq!(Task::read_rows(&vec![good.clone(), good]).unwrap().len(), 2);
}

#[test]
fn guild_tasks_refuses_an_empty_answer() {
    assert_eq!(Task::guild_tasks(&vec![]).unwrap_err(), DataError::Empty);
    let rows = vec![SqlRow { columns: stored_row() }];
    assert_eq!(Task::guild_tasks(&rows).unwrap().len(), 1);
}

#[test]
fn first_task_reports_not_found() {
    assert_eq!(Task::first_task(&vec![]).unwrap_err(), DataError::NotFound);
    let rows = vec![SqlRow { columns: stored_row() }];
    assert_eq!(Task::first_task(&rows).unwrap().id, Some(TaskId::new(7)));
}

#[test]
fn created_task_gets_its_ids() {
    let t = Task {
        id: None,
        cron_expr: "* * * * *".to_string(),
        mode: TaskMode::Repeat,
        state: TaskState::Enabled,
        guild_id: 1,
        message: Message { id: None, content: "x".to_string(), guild_id: 1, channel_id: 2 },
    };
    let s = t.with_ids(5, 6);
    assert_eq!(s.id, Some(TaskId::new(5)));
    assert_eq!(s.message.id, Some(MessageId::new(6)));
    assert_eq!(s.cron_expr, t.cron_expr);
    assert_eq!(s.message.channel_id, 2);
}

#[test]
fn rowids_map_to_ids() {
    assert_eq!(id_from_rowid(0), Err(DataError::InvalidId));
    assert_eq!(id_from_rowid(12), Ok(12));
    assert_eq!(id_from_rowid(-1), Ok(u64::MAX));
}
