//! Messages that the bot posts, and their identifiers.
use vstd::prelude::*;
use vstd::std_specs::cmp::PartialOrdSpec;
use core::cmp::Ordering;
use crate::decimal::{decimal, to_decimal};

verus! {

/// Identifier of a stored message. It is never zero.
#[derive(Debug, Clone, Copy, PartialEq, Eq, Structural, Ord, Hash)]
pub struct MessageId(u64);

impl View for MessageId {
    type V = u64;

    closed spec fn view(&self) -> u64 {
        self.0
    }
}

impl PartialOrd for MessageId {
    fn partial_cmp(&self, other: &Self) -> (r: Option<Ordering>) {
        if self.0 < other.0 {
            Some(Ordering::Less)
        } else if self.0 > other.0 {
            Some(Ordering::Greater)
        } else {
            Some(Ordering::Equal)
        }
    }
}

impl vstd::std_specs::cmp::PartialOrdSpecImpl for MessageId {
    open spec fn obeys_partial_cmp_spec() -> bool {
        true
    }

    /// Identifiers are ordered as the numbers they wrap.
    open spec fn partial_cmp_spec(&self, other: &Self) -> Option<Ordering> {
        PartialOrdSpec::partial_cmp_spec(&self@, &other@)
    }
}

/// Two identifiers are equal exactly when the numbers they wrap are.
pub proof fn lemma_message_id_equality(a: MessageId, b: MessageId)
    ensures
        (a == b) <==> (a@ == b@),
{
}

/// Identifiers are ordered as the numbers they wrap.
pub proof fn lemma_message_id_order(a: MessageId, b: MessageId)
    ensures
        PartialOrdSpec::partial_cmp_spec(&a, &b) == PartialOrdSpec::partial_cmp_spec(&a@, &b@),
{
}

impl MessageId {
    #[verifier::type_invariant]
    spec fn is_nonzero(self) -> bool {
        self.0 != 0
    }

    /// Wraps a non-zero identifier.
    pub fn new(id: u64) -> (r: Self)
        requires
            id != 0,
        ensures
            r@ == id,
    {
        MessageId(id)
    }

    /// The identifier, which is not zero.
    pub fn get(&self) -> (r: u64)
        ensures
            r == self@,
            r != 0,
    {
        proof {
            use_type_invariant(self);
        }
        self.0
    }

    /// The identifier in decimal, as `Display` writes it.
    pub fn to_string(&self) -> (r: String)
        ensures
            r@ == decimal(self@ as nat),
    {
        to_decimal(self.0)
    }
}

/// A message to post in a channel of a guild.
#[derive(Debug, Clone, PartialEq)]
pub struct Message {
    pub id: Option<MessageId>,
    pub content: String,
    pub guild_id: u64,
    pub channel_id: u64,
}

/// What a `Message` holds, as mathematical values.
pub struct MessageView {
    pub id: Option<u64>,
    pub content: Seq<char>,
    pub guild_id: u64,
    pub channel_id: u64,
}

/// The identifier's value, if any.
pub open spec fn message_id_view(id: Option<MessageId>) -> Option<u64> {
    match id {
        Some(i) => Some(i@),
        None => None,
    }
}

impl View for Message {
    type V = MessageView;

    open spec fn view(&self) -> MessageView {
        MessageView {
            id: message_id_view(self.id),
            content: self.content@,
            guild_id: self.guild_id,
            channel_id: self.channel_id,
        }
    }
}

impl Message {
    /// Guild and channel identifiers are never zero.
    pub open spec fn wf(&self) -> bool {
        self.guild_id != 0 && self.channel_id != 0
    }

    /// An exact copy.
    pub fn duplicate(&self) -> (r: Message)
        ensures
            r@ == self@,
    {
        Message {
            id: self.id,
            content: self.content.clone(),
            guild_id: self.guild_id,
            channel_id: self.channel_id,
        }
    }
}

} // verus!
