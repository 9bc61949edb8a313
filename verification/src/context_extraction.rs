//! Selection limits for building an invocation's context: counters kept
//! while messages are gathered, checked against configured ceilings, with
//! reject-and-revert semantics for the message that would go over.

use vstd::prelude::*;

verus! {

/// Settings bounding what may be included as context for an invocation.
#[derive(Debug)]
pub struct InvocationContextSettings {
    /// Ceiling on the estimated token count of the whole context.
    pub max_token_count: usize,
    /// Ceiling on messages taken straight from the channel history, when
    /// history is gathered at all.
    pub max_channel_history: Option<usize>,
    /// Ceiling on how many replies deep a reply chain is followed.
    pub reply_chain_depth: Option<usize>,
    /// How many surrounding messages are fetched around a replied message.
    pub reply_chain_window: Option<usize>,
    /// Ceiling on the estimated token count contributed by reply chains.
    pub reply_chain_max_token_count: Option<usize>,
}

/// What the limit tracking reads of one gathered message: its identifier
/// and its text.
#[derive(Debug)]
pub struct MessageData {
    pub id: u64,
    pub content: String,
}

/// How a message came to be included in the context.
#[derive(Debug)]
pub enum ContextMessageVariant {
    /// The message that started the invocation; always included.
    Initial(MessageData),
    /// Included because it was replied to somewhere up the chain.
    Reply(MessageData),
    /// Included as part of the window around a replied message.
    ReplyWindow(MessageData),
    /// Included from the channel history.
    History(MessageData),
}

impl ContextMessageVariant {
    /// The carried message, whatever brought it in.
    pub open spec fn spec_message(self) -> MessageData {
        match self {
            ContextMessageVariant::Initial(m) => m,
            ContextMessageVariant::Reply(m) => m,
            ContextMessageVariant::ReplyWindow(m) => m,
            ContextMessageVariant::History(m) => m,
        }
    }

    /// The carried message.
    pub fn message(&self) -> (r: &MessageData)
        ensures
            *r == self.spec_message(),
    {
        match self {
            ContextMessageVariant::Initial(m) => m,
            ContextMessageVariant::Reply(m) => m,
            ContextMessageVariant::ReplyWindow(m) => m,
            ContextMessageVariant::History(m) => m,
        }
    }

    /// The identifier of the carried message.
    pub fn id(&self) -> (r: u64)
        ensures
            r == self.spec_message().id,
    {
        self.message().id
    }
}

/// Estimated token count of a text: one token per six characters.
pub fn estimate_token_count(s: &str) -> (r: usize)
    ensures
        r == s@.len() as int / 6,
{
    s.unicode_len() / 6
}

/// The estimated token count of the message a variant carries.
pub open spec fn spec_est(message: ContextMessageVariant) -> int {
    message.spec_message().content@.len() as int / 6
}

/// Counters kept while selecting messages. A message that would push some
/// counter over its ceiling is rejected and the counters left as they were.
#[derive(Debug)]
pub struct LimitTracker {
    /// Estimated tokens of everything taken so far.
    pub tokens: usize,
    /// Estimated tokens contributed by reply chains.
    pub reply_chain_tokens: usize,
    /// Messages taken from the channel history.
    pub history_count: usize,
    /// Messages taken from reply chains.
    pub reply_chain_count: usize,
}

impl LimitTracker {
    /// Fresh counters: nothing has been taken.
    pub fn new() -> (r: LimitTracker)
        ensures
            r.tokens == 0,
            r.reply_chain_tokens == 0,
            r.history_count == 0,
            r.reply_chain_count == 0,
    {
        LimitTracker { tokens: 0, reply_chain_tokens: 0, history_count: 0, reply_chain_count: 0 }
    }

    /// Every counter is at or below its ceiling; an unset ceiling does not
    /// bind.
    pub open spec fn spec_within_limits(self, settings: InvocationContextSettings) -> bool {
        &&& self.tokens <= settings.max_token_count
        &&& match settings.reply_chain_max_token_count {
            Some(m) => self.reply_chain_tokens <= m,
            None => true,
        }
        &&& match settings.max_channel_history {
            Some(m) => self.history_count <= m,
            None => true,
        }
        &&& match settings.reply_chain_depth {
            Some(m) => self.reply_chain_count <= m,
            None => true,
        }
    }

    /// The counters after taking one message, before any ceiling is
    /// checked. The starting message's text counts twice by design: once as
    /// the message itself and once as the unconditional opener.
    pub open spec fn spec_after_add(self, message: ContextMessageVariant) -> LimitTracker {
        let est = spec_est(message);
        match message {
            ContextMessageVariant::Initial(_) => LimitTracker {
                tokens: (self.tokens + est + est) as usize,
                ..self
            },
            ContextMessageVariant::Reply(_) => LimitTracker {
                tokens: (self.tokens + est) as usize,
                reply_chain_tokens: (self.reply_chain_tokens + est) as usize,
                reply_chain_count: (self.reply_chain_count + 1) as usize,
                ..self
            },
            ContextMessageVariant::ReplyWindow(_) => LimitTracker {
                tokens: (self.tokens + est) as usize,
                reply_chain_tokens: (self.reply_chain_tokens + est) as usize,
                ..self
            },
            ContextMessageVariant::History(_) => LimitTracker {
                tokens: (self.tokens + est) as usize,
                history_count: (self.history_count + 1) as usize,
                ..self
            },
        }
    }

    /// Taking the message would leave every counter within its ceiling.
    pub open spec fn spec_would_fit(
        self,
        message: ContextMessageVariant,
        settings: InvocationContextSettings,
    ) -> bool {
        self.spec_after_add(message).spec_within_limits(settings)
    }

    /// Whether every counter is at or below its ceiling.
    pub fn is_within_limits(&self, settings: &InvocationContextSettings) -> (r: bool)
        ensures
            r == self.spec_within_limits(*settings),
    {
        if self.tokens > settings.max_token_count {
            return false;
        }
        if let Some(m) = settings.reply_chain_max_token_count {
            if self.reply_chain_tokens > m {
                return false;
            }
        }
        if let Some(m) = settings.max_channel_history {
            if self.history_count > m {
                return false;
            }
        }
        if let Some(m) = settings.reply_chain_depth {
            if self.reply_chain_count > m {
                return false;
            }
        }
        true
    }

    /// Takes one message when it fits, and reports whether it was taken;
    /// a rejected message leaves the counters unchanged. The preconditions
    /// only keep the counters within the machine word.
    pub fn add_message(
        &mut self,
        message: &ContextMessageVariant,
        settings: &InvocationContextSettings,
    ) -> (r: bool)
        requires
            old(self).tokens + spec_est(*message) + spec_est(*message) <= usize::MAX,
            old(self).reply_chain_tokens + spec_est(*message) <= usize::MAX,
            old(self).history_count < usize::MAX,
            old(self).reply_chain_count < usize::MAX,
        ensures
            r == old(self).spec_would_fit(*message, *settings),
            r ==> *final(self) == old(self).spec_after_add(*message),
            !r ==> *final(self) == *old(self),
    {
        let est = estimate_token_count(message.message().content.as_str());
        let updated = match message {
            ContextMessageVariant::Initial(_) => LimitTracker {
                tokens: self.tokens + est + est,
                reply_chain_tokens: self.reply_chain_tokens,
                history_count: self.history_count,
                reply_chain_count: self.reply_chain_count,
            },
            ContextMessageVariant::Reply(_) => LimitTracker {
                tokens: self.tokens + est,
                reply_chain_tokens: self.reply_chain_tokens + est,
                history_count: self.history_count,
                reply_chain_count: self.reply_chain_count + 1,
            },
            ContextMessageVariant::ReplyWindow(_) => LimitTracker {
                tokens: self.tokens + est,
                reply_chain_tokens: self.reply_chain_tokens + est,
                history_count: self.history_count,
                reply_chain_count: self.reply_chain_count,
            },
            ContextMessageVariant::History(_) => LimitTracker {
                tokens: self.tokens + est,
                reply_chain_tokens: self.reply_chain_tokens,
                history_count: self.history_count + 1,
                reply_chain_count: self.reply_chain_count,
            },
        };
        if updated.is_within_limits(settings) {
            *self = updated;
            true
        } else {
            false
        }
    }
}

} // verus!
