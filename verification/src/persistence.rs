//! Addresses of the task API that the bot calls.
use vstd::prelude::*;
use crate::decimal::{all_decimal_digits, decimal, decimal_value, lemma_decimal_reads_back, push_decimal};

verus! {

/// The address of the tasks of a guild.
pub open spec fn guild_tasks_uri_text(api_uri: Seq<char>, guild_id: u64) -> Seq<char> {
    api_uri + "/tasks/guilds/"@ + decimal(guild_id as nat)
}

/// The address of the collection of tasks.
pub open spec fn tasks_uri_text(api_uri: Seq<char>) -> Seq<char> {
    api_uri + "/tasks"@
}

/// The address of one task.
pub open spec fn task_uri_text(api_uri: Seq<char>, task_id: u64) -> Seq<char> {
    api_uri + "/tasks/"@ + decimal(task_id as nat)
}

/// The address of a guild's tasks is the API's address, `/tasks/guilds/`,
/// then decimal digits that read back as the whole guild identifier.
pub proof fn lemma_guild_tasks_uri_names_the_guild(api_uri: Seq<char>, guild_id: u64)
    ensures
        guild_tasks_uri_text(api_uri, guild_id).take(api_uri.len() + 14int) == api_uri + seq![
            '/',
            't',
            'a',
            's',
            'k',
            's',
            '/',
            'g',
            'u',
            'i',
            'l',
            'd',
            's',
            '/',
        ],
        all_decimal_digits(guild_tasks_uri_text(api_uri, guild_id).skip(api_uri.len() + 14int)),
        decimal_value(guild_tasks_uri_text(api_uri, guild_id).skip(api_uri.len() + 14int))
            == guild_id,
{
    reveal_strlit("/tasks/guilds/");
    let t = guild_tasks_uri_text(api_uri, guild_id);
    let prefix = api_uri + "/tasks/guilds/"@;
    assert(prefix.len() == api_uri.len() + 14int);
    assert(t.take(api_uri.len() + 14int) =~= prefix);
    assert(t.skip(api_uri.len() + 14int) =~= decimal(guild_id as nat));
    assert(prefix =~= api_uri + seq![
        '/', 't', 'a', 's', 'k', 's', '/', 'g', 'u', 'i', 'l', 'd', 's', '/',
    ]);
    lemma_decimal_reads_back(guild_id as nat);
}

/// The address of one task is the API's address, `/tasks/`, then decimal
/// digits that read back as the whole task identifier.
pub proof fn lemma_task_uri_names_the_task(api_uri: Seq<char>, task_id: u64)
    ensures
        task_uri_text(api_uri, task_id).take(api_uri.len() + 7int) == api_uri + seq![
            '/',
            't',
            'a',
            's',
            'k',
            's',
            '/',
        ],
        all_decimal_digits(task_uri_text(api_uri, task_id).skip(api_uri.len() + 7int)),
        decimal_value(task_uri_text(api_uri, task_id).skip(api_uri.len() + 7int)) == task_id,
{
    reveal_strlit("/tasks/");
    let t = task_uri_text(api_uri, task_id);
    let prefix = api_uri + "/tasks/"@;
    assert(prefix.len() == api_uri.len() + 7int);
    assert(t.take(api_uri.len() + 7int) =~= prefix);
    assert(t.skip(api_uri.len() + 7int) =~= decimal(task_id as nat));
    assert(prefix =~= api_uri + seq!['/', 't', 'a', 's', 'k', 's', '/']);
    lemma_decimal_reads_back(task_id as nat);
}

/// The address where tasks are created is the API's address then `/tasks`.
pub proof fn lemma_tasks_uri(api_uri: Seq<char>)
    ensures
        tasks_uri_text(api_uri) == api_uri + seq!['/', 't', 'a', 's', 'k', 's'],
{
    reveal_strlit("/tasks");
    assert("/tasks"@ =~= seq!['/', 't', 'a', 's', 'k', 's']);
}

/// `{api_uri}/tasks/guilds/{guild_id}`, where the tasks of a guild are read.
pub fn guild_tasks_uri(api_uri: &str, guild_id: u64) -> (r: String)
    ensures
        r@ == guild_tasks_uri_text(api_uri@, guild_id),
{
    let mut s = String::new();
    s.append(api_uri);
    s.append("/tasks/guilds/");
    push_decimal(&mut s, guild_id);
    s
}

/// `{api_uri}/tasks`, where tasks are created.
pub fn tasks_uri(api_uri: &str) -> (r: String)
    ensures
        r@ == tasks_uri_text(api_uri@),
{
    let mut s = String::new();
    s.append(api_uri);
    s.append("/tasks");
    s
}

/// `{api_uri}/tasks/{task_id}`, where a task is deleted.
pub fn task_uri(api_uri: &str, task_id: u64) -> (r: String)
    ensures
        r@ == task_uri_text(api_uri@, task_id),
{
    let mut s = String::new();
    s.append(api_uri);
    s.append("/tasks/");
    push_decimal(&mut s, task_id);
    s
}

} // verus!
