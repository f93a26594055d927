//! Turning a transcript into the message that is relayed under the speaker's
//! name and avatar.
use vstd::prelude::*;
use vstd::string::StringExecFns;
use crate::transcode::{decimal, decimal_string};

verus! {

/// What the profile cache knows of a speaker.
pub struct Profile {
    pub name: String,
    /// The avatar's hash, when the speaker set one.
    pub avatar: Option<String>,
    /// The address of the default avatar that stands in when no hash is set.
    pub default_avatar_url: String,
}

/// A message to relay, shown under another name and avatar.
pub struct RelayMessage {
    pub content: String,
    pub username: String,
    pub avatar_url: String,
}

/// The address of the avatar with hash `hash` of speaker `user`.
pub open spec fn avatar_url_spec(user: u64, hash: Seq<char>) -> Seq<char> {
    "https://cdn.discordapp.com/avatars/"@ + decimal(user as nat) + "/"@ + hash + ".png"@
}

/// The address of the avatar with hash `hash` of speaker `user`.
pub fn avatar_url(user: u64, hash: &str) -> (r: String)
    ensures
        r@ == avatar_url_spec(user, hash@),
{
    let mut url = "https://cdn.discordapp.com/avatars/".to_owned();
    let id = decimal_string(user as u128);
    url.append(id.as_str());
    url.append("/");
    url.append(hash);
    url.append(".png");
    proof {
        reveal_strlit("/");
        reveal_strlit(".png");
        reveal_strlit("https://cdn.discordapp.com/avatars/");
    }
    url
}

/// The relay of `transcript` spoken by `user`: nothing for an empty transcript
/// or a speaker the profile cache does not know; otherwise the transcript under
/// the speaker's name, with the speaker's own avatar when one is set and the
/// default avatar otherwise.
pub fn relay_message(user: u64, transcript: String, profile: Option<Profile>) -> (r: Option<
    RelayMessage,
>)
    ensures
        r is Some <==> (transcript@.len() > 0 && profile is Some),
        r matches Some(m) ==> {
            let p = profile->Some_0;
            &&& m.content@ == transcript@
            &&& m.username@ == p.name@
            &&& p.avatar is None ==> m.avatar_url@ == p.default_avatar_url@
            &&& p.avatar matches Some(h) ==> m.avatar_url@ == avatar_url_spec(user, h@)
        },
{
    if transcript.as_str().is_empty() {
        return None;
    }
    match profile {
        Some(p) => {
            let avatar_url = match &p.avatar {
                Some(h) => avatar_url(user, h.as_str()),
                None => p.default_avatar_url,
            };
            Some(RelayMessage { content: transcript, username: p.name, avatar_url })
        },
        None => None,
    }
}

/// Bounds how many utterance jobs run at once.
pub struct JobGate {
    running: u32,
    limit: u32,
}

impl JobGate {
    /// Jobs running now.
    pub closed spec fn running(&self) -> nat {
        self.running as nat
    }

    /// The most jobs that may run at once.
    pub closed spec fn limit(&self) -> nat {
        self.limit as nat
    }

    /// Never more running than the limit.
    pub closed spec fn wf(&self) -> bool {
        self.running <= self.limit
    }

    /// A gate with no job running that lets `limit` run at once.
    pub fn new(limit: u32) -> (r: Self)
        ensures
            r.wf(),
            r.running() == 0,
            r.limit() == limit,
    {
        JobGate { running: 0, limit }
    }

    /// Starts a job if the limit allows it.
    pub fn try_start(&mut self) -> (r: bool)
        requires
            old(self).wf(),
        ensures
            final(self).wf(),
            final(self).limit() == old(self).limit(),
            r == (old(self).running() < old(self).limit()),
            r ==> final(self).running() == old(self).running() + 1,
            !r ==> final(self).running() == old(self).running(),
    {
        if self.running < self.limit {
            self.running = self.running + 1;
            true
        } else {
            false
        }
    }

    /// Marks one running job as done; with none running nothing changes.
    pub fn finish(&mut self)
        requires
            old(self).wf(),
        ensures
            final(self).wf(),
            final(self).limit() == old(self).limit(),
            final(self).running() == if old(self).running() > 0 {
                old(self).running() - 1
            } else {
                0
            },
    {
        if self.running > 0 {
            self.running = self.running - 1;
        }
    }
}

} // verus!
