//! Deciding, for each stored voice binding, whether a session must be
//! re-established at startup.
use vstd::prelude::*;

verus! {

/// A stored binding of a guild to a voice channel and an output text channel.
pub struct GuildBinding {
    pub guild_id: i64,
    pub default_bind: Option<i64>,
    pub output_channel: Option<i64>,
}

/// Where to join: the guild, its voice channel and the channel for transcripts.
#[derive(PartialEq, Eq, Structural, Clone, Copy, Debug)]
pub struct JoinTarget {
    pub guild_id: u64,
    pub voice_channel: u64,
    pub output_channel: u64,
}

/// The join to attempt for `row`: none when a session is already up in that
/// guild or the binding lacks a voice or an output channel.
pub fn plan_join(row: &GuildBinding, already_connected: bool) -> (r: Option<JoinTarget>)
    ensures
        r is Some <==> (!already_connected && row.default_bind is Some && row.output_channel is Some),
        r matches Some(t) ==> t.guild_id == row.guild_id as u64 && t.voice_channel
            == row.default_bind->Some_0 as u64 && t.output_channel == row.output_channel->Some_0 as u64,
{
    if already_connected {
        return None;
    }
    let voice = match row.default_bind {
        Some(v) => v,
        None => return None,
    };
    let output = match row.output_channel {
        Some(o) => o,
        None => return None,
    };
    Some(
        JoinTarget {
            guild_id: row.guild_id as u64,
            voice_channel: voice as u64,
            output_channel: output as u64,
        },
    )
}

/// After a failed join, whether the binding is to be removed: only when the
/// warning about it could not be delivered either.
pub fn forget_binding(warning_delivered: bool) -> (r: bool)
    ensures
        r == !warning_delivered,
{
    !warning_delivered
}

} // verus!
