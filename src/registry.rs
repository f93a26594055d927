//! Routing from transport sources (SSRCs) to stable speaker identities.
use vstd::prelude::*;
use crate::table::SsrcTable;

verus! {

/// No two sources map to the same speaker.
pub open spec fn one_source_per_speaker(m: Map<u32, u64>) -> bool {
    forall|a: u32, b: u32|
        #[trigger] m.contains_key(a) && #[trigger] m.contains_key(b) && m[a] == m[b] ==> a == b
}

/// The map `m` without the entries whose speaker is `speaker`.
pub open spec fn without_speaker(m: Map<u32, u64>, speaker: u64) -> Map<u32, u64> {
    m.restrict(m.dom().filter(|k: u32| m[k] != speaker))
}

/// The source that `speaker` is heard on in `m`, if any.
pub open spec fn source_of(m: Map<u32, u64>, speaker: u64) -> Option<u32> {
    if exists|k: u32| #[trigger] m.contains_key(k) && m[k] == speaker {
        Some(choose|k: u32| #[trigger] m.contains_key(k) && m[k] == speaker)
    } else {
        None
    }
}

/// SSRC to speaker, with at most one live SSRC per speaker.
pub struct ParticipantRegistry {
    table: SsrcTable<u64>,
}

impl ParticipantRegistry {
    /// Who speaks on which source.
    pub closed spec fn view(&self) -> Map<u32, u64> {
        self.table@
    }

    /// Entries well formed and one source per speaker.
    pub closed spec fn wf(&self) -> bool {
        &&& self.table.wf()
        &&& one_source_per_speaker(self.table@)
    }

    /// A well-formed registry has at most one source per speaker.
    pub proof fn lemma_one_source_per_speaker(&self)
        requires
            self.wf(),
        ensures
            one_source_per_speaker(self@),
    {
    }

    /// An empty registry.
    pub fn new() -> (r: Self)
        ensures
            r.wf(),
            r@ == Map::<u32, u64>::empty(),
    {
        ParticipantRegistry { table: SsrcTable::new() }
    }

    /// The speaker on `ssrc`.
    pub fn lookup(&self, ssrc: u32) -> (r: Option<u64>)
        requires
            self.wf(),
        ensures
            r is None <==> !self@.contains_key(ssrc),
            r matches Some(s) ==> s == self@[ssrc],
    {
        match self.table.get(ssrc) {
            Some(s) => Some(*s),
            None => None,
        }
    }

    /// The source that `speaker` is heard on, found by a walk over the entries.
    pub fn reverse_lookup(&self, speaker: u64) -> (r: Option<u32>)
        requires
            self.wf(),
        ensures
            r matches Some(k) ==> self@.contains_key(k) && self@[k] == speaker,
            r is None ==> forall|k: u32| #[trigger] self@.contains_key(k) ==> self@[k] != speaker,
            r == source_of(self@, speaker),
    {
        let r = self.table.key_of(speaker);
        proof {
            if let Some(k) = r {
                assert(self@.contains_key(k) && self@[k] == speaker);
            }
        }
        r
    }

    /// Routes `ssrc` to `speaker`, overwriting what `ssrc` held and dropping the
    /// source that `speaker` had before, if any; returns that dropped source when
    /// it differs from `ssrc`.
    pub fn register(&mut self, ssrc: u32, speaker: u64) -> (r: Option<u32>)
        requires
            old(self).wf(),
        ensures
            final(self).wf(),
            final(self)@ == without_speaker(old(self)@, speaker).insert(ssrc, speaker),
            r matches Some(k) ==> k != ssrc && old(self)@.contains_key(k) && old(self)@[k] == speaker,
            r is None ==> forall|k: u32|
                #[trigger] old(self)@.contains_key(k) && old(self)@[k] == speaker ==> k == ssrc,
            r == (match source_of(old(self)@, speaker) {
                Some(k) => if k != ssrc { Some(k) } else { None },
                None => None,
            }),
    {
        let prior = self.reverse_lookup(speaker);
        let dropped = match prior {
            Some(k) => {
                if k != ssrc {
                    self.table.remove(k);
                    Some(k)
                } else {
                    None
                }
            },
            None => None,
        };
        self.table.insert(ssrc, speaker);
        proof {
            let m = old(self)@;
            assert(self@ =~= without_speaker(m, speaker).insert(ssrc, speaker));
        }
        dropped
    }

    /// Removes the entry of `ssrc`, handing back its speaker.
    pub fn unregister(&mut self, ssrc: u32) -> (r: Option<u64>)
        requires
            old(self).wf(),
        ensures
            final(self).wf(),
            final(self)@ == old(self)@.remove(ssrc),
            r is None <==> !old(self)@.contains_key(ssrc),
            r matches Some(s) ==> s == old(self)@[ssrc],
    {
        self.table.remove(ssrc)
    }
}

} // verus!
