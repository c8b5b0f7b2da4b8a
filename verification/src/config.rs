//! The bot's configuration: its settings and the messages to schedule.
use vstd::prelude::*;
use crate::discord::{
    builder_mention_role, builder_mention_user, builder_push, builder_push_line, role_mention,
    user_mention,
};
use crate::decimal::decimal;
use crate::error::Error;
use crate::paths::{joined_path, join_path};

verus! {

/// Settings of the bot.
#[derive(Debug, Clone, PartialEq)]
pub struct AppSettings {
    pub discord_token: String,
    pub logging_level: String,
    pub timezone: String,
}

/// Who a scheduled message mentions.
#[derive(Debug, Clone, Copy, PartialEq, Eq, Structural)]
pub enum MentionTarget {
    Role(u64),
    User(u64),
}

/// A message to post on a cron schedule.
#[derive(Debug, Clone, PartialEq)]
pub struct ScheduledMessage {
    pub name: String,
    pub cron: String,
    pub channel_id: u64,
    pub mentions: Option<Vec<MentionTarget>>,
    pub message: String,
}

/// The text of one mention.
pub open spec fn mention_text(m: MentionTarget) -> Seq<char> {
    match m {
        MentionTarget::Role(id) => role_mention(id),
        MentionTarget::User(id) => user_mention(id),
    }
}

/// The mentions, one after the other, separated by single spaces.
pub open spec fn mentions_text(ms: Seq<MentionTarget>) -> Seq<char>
    decreases ms.len(),
{
    if ms.len() == 0 {
        Seq::empty()
    } else if ms.len() == 1 {
        mention_text(ms[0])
    } else {
        mentions_text(ms.drop_last()) + seq![' '] + mention_text(ms.last())
    }
}

/// A role is mentioned as `<@&id>` and a user as `<@id>`, with the
/// identifier in decimal.
pub proof fn lemma_mention_text(id: u64)
    ensures
        mention_text(MentionTarget::Role(id)) == "<@&"@ + decimal(id as nat) + ">"@,
        mention_text(MentionTarget::User(id)) == "<@"@ + decimal(id as nat) + ">"@,
{
}

/// The mentions read from the front: nothing for none; the first mention's
/// own text for one; otherwise the first mention's own text, one space, and
/// the mentions of the rest. So every mention, wherever it stands, is written
/// by its own kind.
pub proof fn lemma_mentions_text_from_front(ms: Seq<MentionTarget>)
    ensures
        ms.len() == 0 ==> mentions_text(ms) == Seq::<char>::empty(),
        ms.len() == 1 ==> mentions_text(ms) == mention_text(ms[0]),
        ms.len() >= 2 ==> mentions_text(ms) == mention_text(ms[0]) + seq![' '] + mentions_text(
            ms.drop_first(),
        ),
    decreases ms.len(),
{
    if ms.len() == 2 {
        assert(ms.drop_last().len() == 1);
        assert(ms.drop_last()[0] == ms[0]);
        assert(ms.drop_first().len() == 1);
        assert(ms.drop_first()[0] == ms[1]);
        assert(mentions_text(ms.drop_first()) == mention_text(ms[1]));
        assert(mentions_text(ms.drop_last()) == mention_text(ms[0]));
        assert(ms.last() == ms[1]);
        assert(mentions_text(ms) =~= mention_text(ms[0]) + seq![' '] + mentions_text(
            ms.drop_first(),
        ));
    } else if ms.len() > 2 {
        let front = ms.drop_last();
        lemma_mentions_text_from_front(front);
        assert(front.drop_first() =~= ms.drop_first().drop_last());
        assert(ms.drop_first().last() == ms.last());
        assert(front[0] == ms[0]);
        assert(mentions_text(ms.drop_first()) == mentions_text(ms.drop_first().drop_last())
            + seq![' '] + mention_text(ms.drop_first().last()));
        assert(mentions_text(ms) =~= mention_text(ms[0]) + seq![' '] + mentions_text(
            ms.drop_first(),
        ));
    }
}

/// The mentions, cut between any two of them: the mentions before the cut,
/// one space, and the mentions after it.
pub proof fn lemma_mentions_text_split(ms: Seq<MentionTarget>, k: int)
    requires
        1 <= k < ms.len(),
    ensures
        mentions_text(ms) == mentions_text(ms.take(k)) + seq![' '] + mentions_text(ms.skip(k)),
    decreases ms.len(),
{
    let rest = ms.skip(k);
    if k == ms.len() - 1 {
        assert(ms.take(k) =~= ms.drop_last());
        assert(rest.len() == 1);
        assert(rest[0] == ms.last());
    } else {
        let front = ms.drop_last();
        lemma_mentions_text_split(front, k);
        assert(front.take(k) =~= ms.take(k));
        assert(rest.drop_last() =~= front.skip(k));
        assert(rest.last() == ms.last());
        assert(mentions_text(rest) == mentions_text(rest.drop_last()) + seq![' '] + mention_text(
            rest.last(),
        ));
        assert(mentions_text(ms) =~= mentions_text(ms.take(k)) + seq![' '] + mentions_text(rest));
    }
}

/// The identifier of a mention is not zero.
pub open spec fn mention_wf(m: MentionTarget) -> bool {
    match m {
        MentionTarget::Role(id) => id != 0,
        MentionTarget::User(id) => id != 0,
    }
}

impl ScheduledMessage {
    /// Channel and mention identifiers are never zero.
    pub open spec fn wf(&self) -> bool {
        &&& self.channel_id != 0
        &&& self.mentions matches Some(ms) ==> forall|i: int|
            0 <= i < ms.len() ==> mention_wf(#[trigger] ms@[i])
    }

    /// Whether channel and mention identifiers are all non-zero.
    pub fn is_wf(&self) -> (r: bool)
        ensures
            r == self.wf(),
    {
        if self.channel_id == 0 {
            return false;
        }
        if let Some(mentions) = &self.mentions {
            let mut i: usize = 0;
            while i < mentions.len()
                invariant
                    i <= mentions.len(),
                    self.mentions == Some(*mentions),
                    self.channel_id != 0,
                    forall|k: int| 0 <= k < i ==> mention_wf(#[trigger] mentions@[k]),
                decreases mentions.len() - i,
            {
                let ok = match mentions[i] {
                    MentionTarget::Role(id) => id != 0,
                    MentionTarget::User(id) => id != 0,
                };
                if !ok {
                    assert(!mention_wf(mentions@[i as int]));
                    assert(self.mentions->0@[i as int] == mentions@[i as int]);
                    return false;
                }
                i = i + 1;
            }
        }
        true
    }

    /// The text that the bot posts: the message, then, when there are
    /// mentions, a line feed and the mentions separated by spaces.
    pub open spec fn content(&self) -> Seq<char> {
        match self.mentions {
            None => self.message@,
            Some(ms) => self.message@ + seq!['\n'] + mentions_text(ms@),
        }
    }

    /// The text of the Discord message to post.
    pub fn build_discord_message(&self) -> (r: String)
        requires
            self.wf(),
        ensures
            r@ == self.content(),
    {
        let mut s = builder_push(String::new(), self.message.as_str());
        if let Some(mentions) = &self.mentions {
            proof {
                reveal_strlit("");
            }
            s = builder_push_line(s, "");
            let ghost base = s@;
            let mut i: usize = 0;
            while i < mentions.len()
                invariant
                    i <= mentions.len(),
                    forall|k: int| 0 <= k < mentions.len() ==> mention_wf(#[trigger] mentions@[k]),
                    s@ == base + mentions_text(mentions@.take(i as int)),
                decreases mentions.len() - i,
            {
                if i > 0 {
                    proof {
                        reveal_strlit(" ");
                    }
                    s = builder_push(s, " ");
                }
                assert(mention_wf(mentions@[i as int]));
                s = match mentions[i] {
                    MentionTarget::Role(id) => builder_mention_role(s, id),
                    MentionTarget::User(id) => builder_mention_user(s, id),
                };
                proof {
                    let t = mentions@.take(i + 1);
                    assert(t.drop_last() =~= mentions@.take(i as int));
                    assert(t.last() == mentions@[i as int]);
                    if i == 0 {
                        assert(mentions@.take(0) =~= Seq::<MentionTarget>::empty());
                    }
                    assert(s@ =~= base + mentions_text(t));
                }
                i = i + 1;
            }
            assert(mentions@.take(mentions.len() as int) =~= mentions@);
        }
        assert(s@ =~= self.content());
        s
    }
}

/// The whole configuration.
#[derive(Debug)]
pub struct Config {
    pub app: AppSettings,
    pub schedules: Vec<ScheduledMessage>,
}

impl Config {
    /// The configuration from the settings and the schedules as read from
    /// their files; the settings' error comes first.
    pub fn load(
        app: Result<AppSettings, Error>,
        schedules: Result<Vec<ScheduledMessage>, Error>,
    ) -> (r: Result<Config, Error>)
        ensures
            match app {
                Err(e) => r == Err::<Config, Error>(e),
                Ok(a) => match schedules {
                    Err(e) => r == Err::<Config, Error>(e),
                    Ok(s) => r == Ok::<Config, Error>(Config { app: a, schedules: s }),
                },
            },
    {
        Ok(Config { app: app?, schedules: schedules? })
    }

    /// The path of `filename` in the configuration directory: the value of
    /// `R2D2WM_CONFIG_PATH` when it is set, else `config`.
    pub fn construct_path_to(config_dir: Option<&str>, filename: &str) -> (r: String)
        ensures
            r@ == joined_path(
                match config_dir {
                    Some(d) => d@,
                    None => "config"@,
                },
                filename@,
            ),
    {
        match config_dir {
            Some(d) => join_path(d, filename),
            None => join_path("config", filename),
        }
    }
}

} // verus!
