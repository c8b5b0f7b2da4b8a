//! Text of the messages that the bot posts, built with serenity's
//! `MessageBuilder`.
use vstd::prelude::*;
use crate::decimal::decimal;

verus! {

/// How Discord writes a mention of the role `id`.
pub open spec fn role_mention(id: u64) -> Seq<char> {
    "<@&"@ + decimal(id as nat) + ">"@
}

/// How Discord writes a mention of the user `id`.
pub open spec fn user_mention(id: u64) -> Seq<char> {
    "<@"@ + decimal(id as nat) + ">"@
}

/// serenity's `MessageBuilder::push` with plain text, on a builder holding
/// `text`. Claimed, as serenity's source shows: the piece is appended
/// unchanged.
#[verifier::external_body]
pub(crate) fn builder_push(text: String, piece: &str) -> (r: String)
    ensures
        r@ == text@ + piece@,
{
    let mut b = serenity::utils::MessageBuilder(text);
    b.push(piece);
    b.0
}

/// serenity's `MessageBuilder::push_line` with plain text, on a builder
/// holding `text`. Claimed, as serenity's source shows: the piece is appended
/// unchanged, then a line feed.
#[verifier::external_body]
pub(crate) fn builder_push_line(text: String, piece: &str) -> (r: String)
    ensures
        r@ == text@ + piece@ + seq!['\n'],
{
    let mut b = serenity::utils::MessageBuilder(text);
    b.push_line(piece);
    b.0
}

/// serenity's `MessageBuilder::mention` of `RoleId::new(id)`, on a builder
/// holding `text`. Claimed, as serenity's source shows: `<@&`, the
/// identifier in decimal and `>` are appended. `RoleId::new` panics on zero.
#[verifier::external_body]
pub(crate) fn builder_mention_role(text: String, id: u64) -> (r: String)
    requires
        id != 0,
    ensures
        r@ == text@ + role_mention(id),
{
    let mut b = serenity::utils::MessageBuilder(text);
    b.mention(&serenity::model::id::RoleId::new(id));
    b.0
}

/// serenity's `MessageBuilder::mention` of `UserId::new(id)`, on a builder
/// holding `text`. Claimed, as serenity's source shows: `<@`, the
/// identifier in decimal and `>` are appended. `UserId::new` panics on zero.
#[verifier::external_body]
pub(crate) fn builder_mention_user(text: String, id: u64) -> (r: String)
    requires
        id != 0,
    ensures
        r@ == text@ + user_mention(id),
{
    let mut b = serenity::utils::MessageBuilder(text);
    b.mention(&serenity::model::id::UserId::new(id));
    b.0
}

} // verus!
