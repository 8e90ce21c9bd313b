//! The client-facing wire protocol and the per-connection session logic.
//!
//! Clients send flat JSON command documents
//! (`{"type":"SUBSCRIBE","channel":"job:..."}`); the hub sends envelopes
//! serialized as `{"channel":"...","data":"..."}`. This module decides what a
//! client frame does to the registry, and what the write activity of a
//! connection forwards. Client-named channels are prefixed with
//! `ws_channel:` on the subscribe path — the one place the prefixing
//! convention is applied — so that stored subscriptions match the channel
//! names the external bus publishes on.

use vstd::prelude::*;
use vstd::string::StringExecFns;

use crate::connection_manager::{forwards, ConnectionManager};
use crate::jsontext::{
    chars_match, escape_string, pairs_count, pairs_count_exec, pairs_lookup, pairs_lookup_exec,
    parse_object_exec, parse_object_pairs, push_escaped, push_str_chars, string_from_chars,
    to_chars,
};
use crate::relay::RedisMessage;

verus! {

/// A recognized client command document: its `type`, and its `channel` member
/// if one was given.
pub struct ClientCommand {
    pub command_type: String,
    pub channel: Option<String>,
}

/// The command a client frame denotes, if any: the frame must be one flat
/// JSON object holding exactly one `type` member, with a string value, and
/// at most one `channel` member, which must then be a string. Members with
/// other keys are tolerated whatever their values, and never read.
pub open spec fn spec_client_command(s: Seq<char>) -> Option<(Seq<char>, Option<Seq<char>>)> {
    match parse_object_pairs(s) {
        None => None,
        Some(ps) => {
            if pairs_count(ps, "type"@) != 1 || pairs_count(ps, "channel"@) > 1 {
                None
            } else {
                match pairs_lookup(ps, "type"@) {
                    Some(Some(t)) => match pairs_lookup(ps, "channel"@) {
                        None => Some((t, None)),
                        Some(Some(c)) => Some((t, Some(c))),
                        Some(None) => None,
                    },
                    _ => None,
                }
            }
        },
    }
}

/// Parses one client frame, or `None` for anything malformed.
pub fn parse_client_command(text: &str) -> (r: Option<ClientCommand>)
    ensures
        match r {
            Some(cmd) => spec_client_command(text@) matches Some((t, ch)) && cmd.command_type@ == t
                && (match cmd.channel {
                Some(c) => ch matches Some(cv) && c@ == cv,
                None => ch is None,
            }),
            None => spec_client_command(text@) is None,
        },
{
    let v = to_chars(text);
    match parse_object_exec(&v) {
        None => None,
        Some(ps) => {
            if pairs_count_exec(&ps, "type") != 1 || pairs_count_exec(&ps, "channel") > 1 {
                return None;
            }
            match pairs_lookup_exec(&ps, "type") {
                None => None,
                Some(ti) => {
                    match ps[ti].1.as_ref() {
                        None => None,
                        Some(tv) => {
                            let t = string_from_chars(tv);
                            match pairs_lookup_exec(&ps, "channel") {
                                None => Some(ClientCommand { command_type: t, channel: None }),
                                Some(ci) => match ps[ci].1.as_ref() {
                                    None => None,
                                    Some(cv) => Some(
                                        ClientCommand {
                                            command_type: t,
                                            channel: Some(string_from_chars(cv)),
                                        },
                                    ),
                                },
                            }
                        },
                    }
                },
            }
        },
    }
}

/// The stored form of a client-named channel: the external publishers use
/// `ws_channel:`-prefixed names, so the subscribe path adds that prefix once.
pub fn prefixed_channel(channel: &str) -> (r: String)
    ensures
        r@ == "ws_channel:"@ + channel@,
{
    "ws_channel:".to_owned().concat(channel)
}

/// What one client frame does to this connection's registry state.
#[derive(Debug, PartialEq)]
pub enum SessionAction {
    /// Store this (already prefixed) channel as the connection's one
    /// subscription.
    Subscribe(String),
    /// Drop the connection's subscription.
    Unsubscribe,
    /// Unknown command, missing channel, or malformed frame: do nothing, and
    /// never close the connection over it.
    Ignore,
}

/// The action a client frame is owed: `SUBSCRIBE` with a channel subscribes
/// to the prefixed name, `UNSUBSCRIBE` unsubscribes, everything else is
/// ignored.
pub open spec fn session_action_matches(text: Seq<char>, a: SessionAction) -> bool {
    match spec_client_command(text) {
        None => a is Ignore,
        Some((t, ch)) => {
            if t == "SUBSCRIBE"@ {
                match ch {
                    Some(c) => a matches SessionAction::Subscribe(full) && full@ == "ws_channel:"@
                        + c,
                    None => a is Ignore,
                }
            } else if t == "UNSUBSCRIBE"@ {
                a is Unsubscribe
            } else {
                a is Ignore
            }
        },
    }
}

/// Decides one client frame.
pub fn session_action(text: &str) -> (r: SessionAction)
    ensures
        session_action_matches(text@, r),
{
    match parse_client_command(text) {
        None => SessionAction::Ignore,
        Some(cmd) => {
            let tv = to_chars(cmd.command_type.as_str());
            if chars_match(&tv, "SUBSCRIBE") {
                match cmd.channel {
                    Some(c) => SessionAction::Subscribe(prefixed_channel(c.as_str())),
                    None => SessionAction::Ignore,
                }
            } else if chars_match(&tv, "UNSUBSCRIBE") {
                SessionAction::Unsubscribe
            } else {
                SessionAction::Ignore
            }
        },
    }
}

/// Applies one client frame to the registry for this connection: the whole
/// decision of the read activity. Malformed and unknown frames change
/// nothing; fan-out buffers are never touched from here.
pub fn apply_client_text(cm: &mut ConnectionManager, connection_id: u64, text: &str)
    requires
        old(cm).wf(),
    ensures
        final (cm).wf(),
        final (cm).capacity == old(cm).capacity,
        final (cm).handles == old(cm).handles,
        match spec_client_command(text@) {
            None => final (cm).subs() == old(cm).subs(),
            Some((t, ch)) => {
                if t == "SUBSCRIBE"@ {
                    match ch {
                        Some(c) => final (cm).spec_channel(connection_id) == Some(
                            "ws_channel:"@ + c,
                        ) && (forall|id: u64|
                            id != connection_id ==> final (cm).spec_channel(id) == old(
                                cm,
                            ).spec_channel(id)),
                        None => final (cm).subs() == old(cm).subs(),
                    }
                } else if t == "UNSUBSCRIBE"@ {
                    final (cm).subs() == old(cm).subs().remove(connection_id)
                } else {
                    final (cm).subs() == old(cm).subs()
                }
            },
        },
{
    match session_action(text) {
        SessionAction::Subscribe(full) => cm.subscribe(connection_id, full),
        SessionAction::Unsubscribe => cm.unsubscribe(connection_id),
        SessionAction::Ignore => (),
    }
}

/// The wire text of an envelope: the exact JSON document
/// `{"channel":"...","data":"..."}`, both strings escaped.
pub open spec fn encode_envelope_text(channel: Seq<char>, data: Seq<char>) -> Seq<char> {
    "{\"channel\":\""@ + escape_string(channel) + "\",\"data\":\""@ + escape_string(data) + "\"}"@
}

/// Serializes an envelope for a client, carrying channel and payload
/// verbatim (escaped, never re-encoded).
pub fn encode_envelope(m: &RedisMessage) -> (t: String)
    ensures
        t@ == encode_envelope_text(m.channel@, m.data@),
{
    let mut out: Vec<char> = Vec::new();
    push_str_chars(&mut out, "{\"channel\":\"");
    push_escaped(&mut out, m.channel.as_str());
    push_str_chars(&mut out, "\",\"data\":\"");
    push_escaped(&mut out, m.data.as_str());
    push_str_chars(&mut out, "\"}");
    proof {
        assert(out@ =~= encode_envelope_text(m.channel@, m.data@));
    }
    string_from_chars(&out)
}

/// What one round of a connection's write activity yields.
#[derive(Debug, PartialEq)]
pub enum WriteOutcome {
    /// Nothing buffered.
    Idle,
    /// The next envelope was not for this connection's channel; dropped.
    Skipped,
    /// Send this text to the client.
    Forward(String),
}

/// One round of a connection's write activity: take the next buffered
/// envelope, and forward its wire text exactly when the connection's current
/// channel equals the envelope's origin channel (plain equality, no
/// patterns). Everything else about the manager stays as it was.
pub fn write_step(cm: &mut ConnectionManager, connection_id: u64) -> (r: WriteOutcome)
    requires
        old(cm).wf(),
    ensures
        final (cm).wf(),
        final (cm).subscriptions == old(cm).subscriptions,
        final (cm).capacity == old(cm).capacity,
        forall|id: u64|
            id != connection_id ==> final (cm).spec_buffer(id) == old(cm).spec_buffer(id),
        match old(cm).spec_buffer(connection_id) {
            None => r is Idle && final (cm).spec_buffer(connection_id) is None,
            Some(b) => if b.len() == 0 {
                r is Idle && final (cm).spec_buffer(connection_id) == Some(b)
            } else {
                final (cm).spec_buffer(connection_id) == Some(b.drop_first()) && (if forwards(
                    old(cm).subs(),
                    connection_id,
                    b[0].channel@,
                ) {
                    r matches WriteOutcome::Forward(t) && t@ == encode_envelope_text(
                        b[0].channel@,
                        b[0].data@,
                    )
                } else {
                    r is Skipped
                })
            },
        },
{
    match cm.recv(connection_id) {
        None => WriteOutcome::Idle,
        Some(m) => {
            match cm.current_channel(connection_id) {
                Some(c) => {
                    if c == m.channel {
                        WriteOutcome::Forward(encode_envelope(&m))
                    } else {
                        WriteOutcome::Skipped
                    }
                },
                None => WriteOutcome::Skipped,
            }
        },
    }
}

} // verus!
