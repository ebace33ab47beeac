//! The command dispatcher: given a command name and the interaction's
//! resolved values, it decides the single reply text and, for `join`, the
//! voice channel to connect to.

use vstd::prelude::*;
use vstd::string::*;

use crate::text::{decimal_chars, lemma_decimal_chars_nonempty, str_eq, u64_to_string};

verus! {

/// A user reference resolved from an interaction's options.
pub struct ResolvedUser {
    pub tag: String,
    pub id: u64,
}

/// The guild and channel a voice join targets.
#[derive(Clone, Copy, PartialEq, Eq, Structural, Debug)]
pub struct VoiceTarget {
    pub guild_id: u64,
    pub channel_id: u64,
}

/// The resolved values an interaction carries besides its command name.
pub struct CommandInput {
    /// The user option, where one was supplied and resolved to a user.
    pub user: Option<ResolvedUser>,
    /// The guild the interaction came from, if any.
    pub guild_id: Option<u64>,
    /// The voice channel the invoking member currently sits in, if any.
    pub voice_channel_id: Option<u64>,
}

/// What the dispatcher decides for one interaction: the reply text, sent
/// exactly once, and, for a successful `join`, the channel to connect to.
pub struct InteractionOutcome {
    pub message: String,
    pub join: Option<VoiceTarget>,
}

pub open spec fn ping_reply() -> Seq<char> {
    "Hey, I'm alive!"@
}

pub open spec fn test_reply() -> Seq<char> {
    "Test successful"@
}

pub open spec fn join_reply() -> Seq<char> {
    "tried to join"@
}

pub open spec fn no_voice_reply() -> Seq<char> {
    "Please join a voice channel first"@
}

pub open spec fn invalid_user_reply() -> Seq<char> {
    "Please provide a valid user"@
}

pub open spec fn fallback_reply() -> Seq<char> {
    "not implemented :("@
}

/// The reply for a resolved user lookup: `<tag>'s id is <id>`.
pub open spec fn id_reply(tag: Seq<char>, id: u64) -> Seq<char> {
    tag + "'s id is "@ + decimal_chars(id as nat)
}

pub open spec fn is_recognized(name: Seq<char>) -> bool {
    name == "ping"@ || name == "test"@ || name == "join"@ || name == "id"@
}

/// The voice target a `join` resolves to: present exactly when the invoking
/// member has both a guild and a current voice channel.
pub open spec fn spec_join_target(input: CommandInput) -> Option<VoiceTarget> {
    if input.guild_id is Some && input.voice_channel_id is Some {
        Some(VoiceTarget { guild_id: input.guild_id->0, channel_id: input.voice_channel_id->0 })
    } else {
        None
    }
}

/// The reply text for each command name and input.
pub open spec fn spec_response(name: Seq<char>, input: CommandInput) -> Seq<char> {
    if name == "ping"@ {
        ping_reply()
    } else if name == "test"@ {
        test_reply()
    } else if name == "join"@ {
        if spec_join_target(input) is Some {
            join_reply()
        } else {
            no_voice_reply()
        }
    } else if name == "id"@ {
        match input.user {
            Some(u) => id_reply(u.tag@, u.id),
            None => invalid_user_reply(),
        }
    } else {
        fallback_reply()
    }
}

/// Every reply is non-empty, and an unrecognized name gets exactly the fixed
/// fallback reply.
pub proof fn lemma_dispatch_total(name: Seq<char>, input: CommandInput)
    ensures
        spec_response(name, input).len() > 0,
        !is_recognized(name) ==> spec_response(name, input) == fallback_reply(),
{
    reveal_strlit("Hey, I'm alive!");
    reveal_strlit("Test successful");
    reveal_strlit("tried to join");
    reveal_strlit("Please join a voice channel first");
    reveal_strlit("Please provide a valid user");
    reveal_strlit("not implemented :(");
    reveal_strlit("'s id is ");
    if name == "id"@ && input.user is Some {
        lemma_decimal_chars_nonempty(input.user->Some_0.id as nat);
    }
}

/// Decides one interaction. Never fails: an unrecognized name gets the fixed
/// fallback reply, a missing user option degrades to the invalid-user reply,
/// and a `join` without a resolvable channel degrades to a recoverable
/// "no channel" reply instead of aborting.
pub fn dispatch(name: &str, input: &CommandInput) -> (out: InteractionOutcome)
    ensures
        out.message@ == spec_response(name@, *input),
        out.join == (if name@ == "join"@ {
            spec_join_target(*input)
        } else {
            None::<VoiceTarget>
        }),
        out.message@.len() > 0,
{
    proof {
        lemma_dispatch_total(name@, *input);
        reveal_strlit("ping");
        reveal_strlit("test");
        reveal_strlit("join");
        reveal_strlit("id");
        assert("ping"@ != "join"@) by {
            assert("ping"@[0] == 'p' && "join"@[0] == 'j');
        }
        assert("test"@ != "join"@) by {
            assert("test"@[0] == 't' && "join"@[0] == 'j');
        }
    }
    if str_eq(name, "ping") {
        InteractionOutcome { message: String::from_str("Hey, I'm alive!"), join: None }
    } else if str_eq(name, "test") {
        InteractionOutcome { message: String::from_str("Test successful"), join: None }
    } else if str_eq(name, "join") {
        if input.guild_id.is_some() && input.voice_channel_id.is_some() {
            let g = input.guild_id.unwrap();
            let c = input.voice_channel_id.unwrap();
            InteractionOutcome {
                message: String::from_str("tried to join"),
                join: Some(VoiceTarget { guild_id: g, channel_id: c }),
            }
        } else {
            InteractionOutcome {
                message: String::from_str("Please join a voice channel first"),
                join: None,
            }
        }
    } else if str_eq(name, "id") {
        match &input.user {
            Some(u) => {
                let digits = u64_to_string(u.id);
                let message = u.tag.clone().concat("'s id is ").concat(digits.as_str());
                InteractionOutcome { message, join: None }
            },
            None => InteractionOutcome {
                message: String::from_str("Please provide a valid user"),
                join: None,
            },
        }
    } else {
        InteractionOutcome { message: String::from_str("not implemented :("), join: None }
    }
}

} // verus!
