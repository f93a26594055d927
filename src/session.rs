//! The per-connection voice session: routes transport events into the registry,
//! the admission controller and the per-source buffers, and decides when a
//! finished utterance leaves for transcoding.
//!
//! The Opus decoders themselves live with the host that runs the session; the
//! session tracks which sources own one and tells the host, through
//! [`DecoderCommand`]s, when to create or drop them.
use vstd::prelude::*;
use crate::admission::{Admission, AdmissionSet, is_least};
use crate::registry::{ParticipantRegistry, one_source_per_speaker, source_of, without_speaker};
use crate::table::SsrcTable;

verus! {

/// How audio reaches the session.
#[derive(PartialEq, Eq, Structural, Clone, Copy, Debug)]
pub enum DecodeMode {
    /// The transport delivers decoded PCM samples.
    Decode,
    /// The transport delivers Opus payloads, decoded per source by the host.
    Decrypt,
}

/// What the host must do with its per-source decoders.
#[derive(PartialEq, Eq, Structural, Clone, Copy, Debug)]
pub enum DecoderCommand {
    /// Create a fresh decoder for this source, replacing any it has.
    Create(u32),
    /// Drop the decoder of this source.
    Drop(u32),
}

/// Where the Opus data lies in an RTP payload of `len` bytes: after `offset`
/// bytes of header and before `end_pad` bytes of padding. `None` when the two
/// overlap or the data is too long for the decoder.
pub fn payload_range(len: usize, offset: usize, end_pad: usize) -> (r: Option<(usize, usize)>)
    ensures
        r is Some <==> (offset + end_pad <= len && len - end_pad - offset <= i32::MAX),
        r matches Some((a, b)) ==> a == offset && b == len - end_pad,
{
    if end_pad > len {
        return None;
    }
    let end = len - end_pad;
    if offset > end || end - offset > i32::MAX as usize {
        return None;
    }
    Some((offset, end))
}

/// The samples of one finished utterance, ready to be transcoded.
pub struct Utterance {
    pub ssrc: u32,
    pub speaker: u64,
    pub samples: Vec<i16>,
}

/// How many speakers are tracked at once unless told otherwise.
pub const DEFAULT_MAX_ACTIVE: u32 = 10;

/// `m` without the entry of `k`, when there is one to drop.
pub open spec fn drop_entry<V>(m: Map<u32, V>, k: Option<u32>) -> Map<u32, V> {
    match k {
        Some(k) => m.remove(k),
        None => m,
    }
}

/// `s` without `k`, when there is one to drop.
pub open spec fn drop_member(s: Set<u32>, k: Option<u32>) -> Set<u32> {
    match k {
        Some(k) => s.remove(k),
        None => s,
    }
}

/// The command that drops the decoder of `k`, if `k` has one.
pub open spec fn drop_commands(decoders: Set<u32>, k: Option<u32>) -> Seq<DecoderCommand> {
    match k {
        Some(k) => if decoders.contains(k) {
            seq![DecoderCommand::Drop(k)]
        } else {
            Seq::empty()
        },
        None => Seq::empty(),
    }
}

/// The command that creates a decoder for `k`, in the mode that needs one.
pub open spec fn create_commands(mode: DecodeMode, k: u32) -> Seq<DecoderCommand> {
    if mode == DecodeMode::Decrypt {
        seq![DecoderCommand::Create(k)]
    } else {
        Seq::empty()
    }
}

/// The source that registering `speaker` on `ssrc` takes away from it.
pub open spec fn displaced_source(m: Map<u32, u64>, speaker: u64, ssrc: u32) -> Option<u32> {
    match source_of(m, speaker) {
        Some(k) => if k != ssrc {
            Some(k)
        } else {
            None
        },
        None => None,
    }
}

/// `m` after a frame for `ssrc`: appended when `ssrc` has a buffer.
pub open spec fn append_frame(m: Map<u32, Seq<i16>>, ssrc: u32, frame: Seq<i16>) -> Map<u32, Seq<i16>> {
    if m.contains_key(ssrc) {
        m.insert(ssrc, m[ssrc] + frame)
    } else {
        m
    }
}

/// `m` after the frames of `frames`, in order.
pub open spec fn append_frames(m: Map<u32, Seq<i16>>, frames: Seq<(u32, Seq<i16>)>) -> Map<
    u32,
    Seq<i16>,
>
    decreases frames.len(),
{
    if frames.len() == 0 {
        m
    } else {
        let (ssrc, frame) = frames.last();
        append_frame(append_frames(m, frames.drop_last()), ssrc, frame)
    }
}

/// The samples of the frames for `ssrc` in `frames`, in order.
pub open spec fn samples_for(frames: Seq<(u32, Seq<i16>)>, ssrc: u32) -> Seq<i16>
    decreases frames.len(),
{
    if frames.len() == 0 {
        Seq::empty()
    } else if frames.last().0 == ssrc {
        samples_for(frames.drop_last(), ssrc) + frames.last().1
    } else {
        samples_for(frames.drop_last(), ssrc)
    }
}

/// However the frames of different sources interleave, each buffer ends up as
/// its old contents followed by exactly its own frames in their order: no
/// samples cross between sources and none are lost. The set of buffered
/// sources does not change.
pub proof fn lemma_buffer_isolation(m: Map<u32, Seq<i16>>, frames: Seq<(u32, Seq<i16>)>, ssrc: u32)
    ensures
        append_frames(m, frames).dom() == m.dom(),
        m.contains_key(ssrc) ==> append_frames(m, frames)[ssrc] == m[ssrc] + samples_for(frames, ssrc),
    decreases frames.len(),
{
    if frames.len() == 0 {
        assert(m[ssrc] + Seq::<i16>::empty() =~= m[ssrc]);
    } else {
        let rest = frames.drop_last();
        lemma_buffer_isolation(m, rest, ssrc);
        let before = append_frames(m, rest);
        let (k, f) = frames.last();
        if before.contains_key(k) {
            assert(before.insert(k, before[k] + f).dom() =~= before.dom());
        }
        if m.contains_key(ssrc) && k == ssrc {
            assert(m[ssrc] + samples_for(rest, ssrc) + f =~= m[ssrc] + (samples_for(rest, ssrc) + f));
        }
    }
}

/// Registering `speaker` on `ssrc` keeps every other source that it does not
/// displace, with its speaker.
proof fn lemma_kept_source(m: Map<u32, u64>, speaker: u64, ssrc: u32, k: u32)
    requires
        one_source_per_speaker(m),
        m.contains_key(k),
        k != ssrc,
        displaced_source(m, speaker, ssrc) != Some(k),
    ensures
        without_speaker(m, speaker).insert(ssrc, speaker).contains_key(k),
        without_speaker(m, speaker).insert(ssrc, speaker)[k] == m[k],
{
    if m[k] == speaker {
        let c = choose|c: u32| #[trigger] m.contains_key(c) && m[c] == speaker;
        assert(m.contains_key(c) && m[c] == speaker);
        assert(c == k);
    }
}

/// State of one voice connection.
pub struct Receiver {
    registry: ParticipantRegistry,
    admission: AdmissionSet,
    buffers: SsrcTable<Vec<i16>>,
    decoders: SsrcTable<()>,
    mode: DecodeMode,
    premium_level: u8,
}

impl Receiver {
    /// Which speaker each known source belongs to.
    pub closed spec fn sources(&self) -> Map<u32, u64> {
        self.registry@
    }

    /// Speakers that are fully tracked.
    pub closed spec fn active(&self) -> Set<u64> {
        self.admission.active_set()
    }

    /// Speakers waiting for a vacancy.
    pub closed spec fn queued(&self) -> Set<u64> {
        self.admission.overflow_set()
    }

    /// How many speakers are active.
    pub closed spec fn active_count(&self) -> nat {
        self.admission.active_count()
    }

    /// The most speakers that may be active at once.
    pub closed spec fn max_active(&self) -> nat {
        self.admission.max_active()
    }

    /// The samples gathered so far for each source that has a buffer.
    pub closed spec fn buffered(&self) -> Map<u32, Seq<i16>> {
        self.buffers@.map_values(|v: Vec<i16>| v@)
    }

    /// Sources that own a decoder.
    pub closed spec fn decoder_sources(&self) -> Set<u32> {
        self.decoders@.dom()
    }

    /// How audio reaches the session.
    pub closed spec fn mode(&self) -> DecodeMode {
        self.mode
    }

    /// The premium level of the guild that the connection serves.
    pub closed spec fn premium_level(&self) -> u8 {
        self.premium_level
    }

    /// Each part is well formed on its own.
    closed spec fn parts_wf(&self) -> bool {
        &&& self.registry.wf()
        &&& self.admission.wf()
        &&& self.buffers.wf()
        &&& self.decoders.wf()
    }

    /// The invariant that every event handler keeps.
    pub closed spec fn wf(&self) -> bool {
        &&& self.parts_wf()
        &&& self.resources_tracked()
    }

    /// Only sources of active speakers hold a buffer, only sources with a buffer
    /// hold a decoder, and decoders exist only when the host decodes.
    pub open spec fn resources_tracked(&self) -> bool {
        &&& forall|k: u32| #[trigger]
            self.buffered().contains_key(k) ==> self.sources().contains_key(k) && self.active().contains(
                self.sources()[k],
            )
        &&& forall|k: u32| #[trigger]
            self.decoder_sources().contains(k) ==> self.buffered().contains_key(k)
        &&& self.mode() == DecodeMode::Decode ==> self.decoder_sources() == Set::<u32>::empty()
    }

    /// Whether a frame on `ssrc` is taken: the source belongs to an active
    /// speaker, has a buffer and, when the host decodes, a decoder.
    pub open spec fn takes_frames(&self, ssrc: u32) -> bool {
        &&& self.sources().contains_key(ssrc)
        &&& self.active().contains(self.sources()[ssrc])
        &&& self.buffered().contains_key(ssrc)
        &&& (self.mode() == DecodeMode::Decrypt ==> self.decoder_sources().contains(ssrc))
    }

    /// However events arrive, no more than `max_active` speakers are active, no
    /// speaker is both active and waiting, each speaker is heard on at most one
    /// source, and only sources of active speakers hold buffers and decoders.
    pub proof fn lemma_admission_bound(&self)
        requires
            self.wf(),
        ensures
            self.active().finite(),
            self.active().len() == self.active_count(),
            self.active().len() <= self.max_active(),
            self.active().disjoint(self.queued()),
            one_source_per_speaker(self.sources()),
            self.resources_tracked(),
    {
        self.admission.lemma_active_count();
        self.registry.lemma_one_source_per_speaker();
    }

    /// A session with no participants that tracks up to `DEFAULT_MAX_ACTIVE`
    /// speakers, for a guild of the given premium level.
    pub fn new(mode: DecodeMode, premium_level: u8) -> (r: Self)
        ensures
            r.premium_level() == premium_level,
            r.wf(),
            r.mode() == mode,
            r.max_active() == DEFAULT_MAX_ACTIVE,
            r.sources() == Map::<u32, u64>::empty(),
            r.active() == Set::<u64>::empty(),
            r.active_count() == 0,
            r.queued() == Set::<u64>::empty(),
            r.buffered() == Map::<u32, Seq<i16>>::empty(),
            r.decoder_sources() == Set::<u32>::empty(),
    {
        Self::with_max_active(mode, DEFAULT_MAX_ACTIVE, premium_level)
    }

    /// A session with no participants that tracks up to `max_active` speakers,
    /// for a guild of the given premium level.
    pub fn with_max_active(mode: DecodeMode, max_active: u32, premium_level: u8) -> (r: Self)
        ensures
            r.premium_level() == premium_level,
            r.wf(),
            r.mode() == mode,
            r.max_active() == max_active,
            r.sources() == Map::<u32, u64>::empty(),
            r.active() == Set::<u64>::empty(),
            r.active_count() == 0,
            r.queued() == Set::<u64>::empty(),
            r.buffered() == Map::<u32, Seq<i16>>::empty(),
            r.decoder_sources() == Set::<u32>::empty(),
    {
        let r = Receiver {
            registry: ParticipantRegistry::new(),
            admission: AdmissionSet::new(max_active),
            buffers: SsrcTable::new(),
            decoders: SsrcTable::new(),
            mode,
            premium_level,
        };
        assert(r.buffered() =~= Map::<u32, Seq<i16>>::empty());
        assert(r.decoder_sources() =~= Set::<u32>::empty());
        r
    }

    /// The speaker that `ssrc` is routed to.
    pub fn speaker_of(&self, ssrc: u32) -> (r: Option<u64>)
        requires
            self.wf(),
        ensures
            r is None <==> !self.sources().contains_key(ssrc),
            r matches Some(s) ==> s == self.sources()[ssrc],
    {
        self.registry.lookup(ssrc)
    }

    /// The source that `speaker` is routed from.
    pub fn source_of_speaker(&self, speaker: u64) -> (r: Option<u32>)
        requires
            self.wf(),
        ensures
            r == source_of(self.sources(), speaker),
    {
        self.registry.reverse_lookup(speaker)
    }

    /// Whether `speaker` is active.
    pub fn is_active(&self, speaker: u64) -> (r: bool)
        ensures
            r == self.active().contains(speaker),
    {
        self.admission.is_active(speaker)
    }

    /// Whether `speaker` waits for a vacancy.
    pub fn is_queued(&self, speaker: u64) -> (r: bool)
        ensures
            r == self.queued().contains(speaker),
    {
        self.admission.is_queued(speaker)
    }

    /// How many samples `ssrc` has gathered, if it has a buffer.
    pub fn buffered_len(&self, ssrc: u32) -> (r: Option<usize>)
        requires
            self.wf(),
        ensures
            r is None <==> !self.buffered().contains_key(ssrc),
            r matches Some(n) ==> n == self.buffered()[ssrc].len(),
    {
        match self.buffers.get(ssrc) {
            Some(b) => Some(b.len()),
            None => None,
        }
    }

    /// Whether `ssrc` owns a decoder.
    pub fn has_decoder(&self, ssrc: u32) -> (r: bool)
        requires
            self.wf(),
        ensures
            r == self.decoder_sources().contains(ssrc),
    {
        self.decoders.contains_key(ssrc)
    }

    /// The premium level of the guild that the connection serves.
    pub fn get_premium_level(&self) -> (r: u8)
        ensures
            r == self.premium_level(),
    {
        self.premium_level
    }

    /// The decoding mode of the session.
    pub fn decode_mode(&self) -> (r: DecodeMode)
        ensures
            r == self.mode(),
    {
        self.mode
    }

    /// Whether a frame on `ssrc` would be taken now.
    pub fn accepts_frame(&self, ssrc: u32) -> (r: bool)
        requires
            self.wf(),
        ensures
            r == self.takes_frames(ssrc),
    {
        let speaker = match self.registry.lookup(ssrc) {
            Some(s) => s,
            None => return false,
        };
        if !self.admission.is_active(speaker) {
            return false;
        }
        if self.mode == DecodeMode::Decrypt && !self.decoders.contains_key(ssrc) {
            return false;
        }
        let r = self.buffers.contains_key(ssrc);
        proof {
            if r {
                assert(self.buffered().contains_key(ssrc));
            }
        }
        r
    }

    /// A participant joined: route `ssrc` to `speaker`, offer the speaker for
    /// admission, and give the source a buffer (and decoder) only if admitted.
    pub fn client_connect(&mut self, ssrc: u32, speaker: u64) -> (r: (Admission, Vec<DecoderCommand>))
        requires
            old(self).wf(),
        ensures
            final(self).wf(),
            final(self).premium_level() == old(self).premium_level(),
            final(self).mode() == old(self).mode(),
            final(self).max_active() == old(self).max_active(),
            final(self).sources() == without_speaker(old(self).sources(), speaker).insert(ssrc, speaker),
            r.0 == Admission::Admitted <==> (old(self).active().contains(speaker) || (
            !old(self).queued().contains(speaker) && old(self).active_count() < old(self).max_active())),
            r.0 == Admission::Admitted ==> final(self).active() == old(self).active().insert(speaker)
                && final(self).queued() == old(self).queued(),
            r.0 == Admission::Queued ==> final(self).active() == old(self).active()
                && final(self).queued() == old(self).queued().insert(speaker),
            ({
                let d = displaced_source(old(self).sources(), speaker, ssrc);
                let decs = drop_member(old(self).decoder_sources(), d);
                &&& r.0 == Admission::Admitted ==> final(self).buffered() == drop_entry(
                    old(self).buffered(),
                    d,
                ).insert(ssrc, Seq::empty()) && final(self).decoder_sources() == (if old(self).mode()
                    == DecodeMode::Decrypt {
                    decs.insert(ssrc)
                } else {
                    decs
                }) && r.1@ == drop_commands(old(self).decoder_sources(), d) + create_commands(
                    old(self).mode(),
                    ssrc,
                )
                &&& r.0 == Admission::Queued ==> final(self).buffered() == drop_entry(
                    old(self).buffered(),
                    d,
                ).remove(ssrc) && final(self).decoder_sources() == decs.remove(ssrc) && r.1@
                    == drop_commands(old(self).decoder_sources(), d) + drop_commands(decs, Some(ssrc))
            }),
    {
        let mut commands: Vec<DecoderCommand> = Vec::new();
        let displaced = self.registry.register(ssrc, speaker);
        let ghost d = displaced_source(old(self).sources(), speaker, ssrc);
        if let Some(k) = displaced {
            self.release_source(k, &mut commands);
        } else {
            assert(self.buffered() =~= drop_entry(old(self).buffered(), d));
            assert(self.decoder_sources() =~= drop_member(old(self).decoder_sources(), d));
            assert(commands@ =~= drop_commands(old(self).decoder_sources(), d));
        }
        let ghost mid = *self;
        let admission = self.admission.offer(speaker);
        match admission {
            Admission::Admitted => self.allocate_source(ssrc, &mut commands),
            Admission::Queued => self.release_source(ssrc, &mut commands),
        }
        proof {
            old(self).registry.lemma_one_source_per_speaker();
            assert forall|k: u32| #[trigger] self.buffered().contains_key(k) implies self.sources().contains_key(k)
                && self.active().contains(self.sources()[k]) by {
                if k != ssrc {
                    let before = drop_entry(old(self).buffered(), d);
                    if admission == Admission::Admitted {
                        assert(self.buffered() == before.insert(ssrc, Seq::<i16>::empty()));
                    } else {
                        assert(self.buffered() == before.remove(ssrc));
                    }
                    assert(before.contains_key(k));
                    assert(old(self).buffered().contains_key(k));
                    lemma_kept_source(old(self).sources(), speaker, ssrc, k);
                }
            }
            assert forall|k: u32| #[trigger] self.decoder_sources().contains(k) implies self.buffered().contains_key(k) by {
                let decs = drop_member(old(self).decoder_sources(), d);
                let before = drop_entry(old(self).buffered(), d);
                if k != ssrc {
                    assert(decs.contains(k));
                    assert(old(self).decoder_sources().contains(k));
                    assert(before.contains_key(k));
                }
            }
            if self.mode == DecodeMode::Decode {
                assert(self.decoder_sources() =~= Set::<u32>::empty());
            }
        }
        (admission, commands)
    }

    /// A speaking-state message tied `ssrc` to `speaker`. For an active speaker
    /// the source is routed to it and given a fresh buffer (and decoder); for
    /// anyone else, or with no speaker named, nothing changes.
    pub fn speaking_state_update(&mut self, ssrc: u32, speaker: Option<u64>) -> (r: Vec<
        DecoderCommand,
    >)
        requires
            old(self).wf(),
        ensures
            final(self).wf(),
            final(self).premium_level() == old(self).premium_level(),
            !(speaker matches Some(s) && old(self).active().contains(s)) ==> *final(self) == *old(self)
                && r@ == Seq::<DecoderCommand>::empty(),
            speaker is Some && old(self).active().contains(speaker->Some_0) ==> {
                let s = speaker->Some_0;
                let d = displaced_source(old(self).sources(), s, ssrc);
                let decs = drop_member(old(self).decoder_sources(), d);
                &&& final(self).sources() == without_speaker(old(self).sources(), s).insert(ssrc, s)
                &&& final(self).active() == old(self).active()
                &&& final(self).queued() == old(self).queued()
                &&& final(self).active_count() == old(self).active_count()
                &&& final(self).max_active() == old(self).max_active()
                &&& final(self).mode() == old(self).mode()
                &&& final(self).buffered() == drop_entry(old(self).buffered(), d).insert(
                    ssrc,
                    Seq::empty(),
                )
                &&& final(self).decoder_sources() == (if old(self).mode() == DecodeMode::Decrypt {
                    decs.insert(ssrc)
                } else {
                    decs
                })
                &&& r@ == drop_commands(old(self).decoder_sources(), d) + create_commands(
                    old(self).mode(),
                    ssrc,
                )
            },
    {
        let mut commands: Vec<DecoderCommand> = Vec::new();
        let s = match speaker {
            Some(s) => s,
            None => return commands,
        };
        if !self.admission.is_active(s) {
            return commands;
        }
        let displaced = self.registry.register(ssrc, s);
        let ghost d = displaced_source(old(self).sources(), s, ssrc);
        if let Some(k) = displaced {
            self.release_source(k, &mut commands);
        } else {
            assert(self.buffered() =~= drop_entry(old(self).buffered(), d));
            assert(self.decoder_sources() =~= drop_member(old(self).decoder_sources(), d));
            assert(commands@ =~= drop_commands(old(self).decoder_sources(), d));
        }
        self.allocate_source(ssrc, &mut commands);
        proof {
            old(self).registry.lemma_one_source_per_speaker();
            assert forall|k: u32| #[trigger] self.buffered().contains_key(k) implies self.sources().contains_key(k)
                && self.active().contains(self.sources()[k]) by {
                if k != ssrc {
                    let before = drop_entry(old(self).buffered(), d);
                    assert(self.buffered() == before.insert(ssrc, Seq::<i16>::empty()));
                    assert(before.contains_key(k));
                    assert(old(self).buffered().contains_key(k));
                    lemma_kept_source(old(self).sources(), s, ssrc, k);
                }
            }
            assert forall|k: u32| #[trigger] self.decoder_sources().contains(k) implies self.buffered().contains_key(k) by {
                let decs = drop_member(old(self).decoder_sources(), d);
                let before = drop_entry(old(self).buffered(), d);
                if k != ssrc {
                    assert(decs.contains(k));
                    assert(old(self).decoder_sources().contains(k));
                    assert(before.contains_key(k));
                }
            }
            if self.mode == DecodeMode::Decode {
                assert(self.decoder_sources() =~= Set::<u32>::empty());
            }
        }
        commands
    }

    /// A speaking flag changed on `ssrc`. When a tracked source stops speaking its
    /// buffer is swapped for an empty one, and the old samples are handed back as
    /// an utterance unless there were none. Everything else changes nothing.
    pub fn speaking_update(&mut self, ssrc: u32, speaking: bool) -> (r: Option<Utterance>)
        requires
            old(self).wf(),
        ensures
            final(self).wf(),
            final(self).premium_level() == old(self).premium_level(),
            ({
                let o = *old(self);
                let f = *final(self);
                let live = !speaking && o.sources().contains_key(ssrc) && o.active().contains(
                    o.sources()[ssrc],
                ) && o.buffered().contains_key(ssrc);
                &&& !live ==> f == o && r is None
                &&& live ==> f.buffered() == o.buffered().insert(ssrc, Seq::empty()) && f.sources()
                    == o.sources() && f.active() == o.active() && f.queued() == o.queued()
                    && f.active_count() == o.active_count() && f.max_active() == o.max_active()
                    && f.decoder_sources() == o.decoder_sources() && f.mode() == o.mode()
                &&& live ==> (r is Some <==> o.buffered()[ssrc].len() > 0)
                &&& r matches Some(u) ==> u.ssrc == ssrc && u.speaker == o.sources()[ssrc]
                    && u.samples@ == o.buffered()[ssrc] && u.samples@.len() > 0
            }),
    {
        if speaking {
            return None;
        }
        let speaker = match self.registry.lookup(ssrc) {
            Some(s) => s,
            None => return None,
        };
        if !self.admission.is_active(speaker) {
            return None;
        }
        if !self.buffers.contains_key(ssrc) {
            return None;
        }
        let taken = self.buffers.insert(ssrc, Vec::new());
        assert(self.buffered() =~= old(self).buffered().insert(ssrc, Seq::empty()));
        match taken {
            Some(samples) => {
                if samples.len() == 0 {
                    None
                } else {
                    Some(Utterance { ssrc, speaker, samples })
                }
            },
            None => None,
        }
    }

    /// An audio frame arrived on `ssrc` (decoded samples, from the transport or
    /// from the host's decoder). It is appended to the source's buffer when the
    /// source takes frames, and dropped, changing nothing, otherwise.
    pub fn voice_packet(&mut self, ssrc: u32, frame: &[i16]) -> (r: bool)
        requires
            old(self).wf(),
        ensures
            final(self).wf(),
            final(self).premium_level() == old(self).premium_level(),
            r == old(self).takes_frames(ssrc),
            !r ==> *final(self) == *old(self),
            !old(self).sources().contains_key(ssrc) ==> !r,
            r ==> final(self).buffered() == append_frame(old(self).buffered(), ssrc, frame@),
            ({
                let o = *old(self);
                let f = *final(self);
                r ==> f.buffered() == o.buffered().insert(ssrc, o.buffered()[ssrc] + frame@)
                    && f.sources() == o.sources() && f.active() == o.active() && f.queued()
                    == o.queued() && f.active_count() == o.active_count() && f.max_active()
                    == o.max_active() && f.decoder_sources() == o.decoder_sources() && f.mode()
                    == o.mode()
            }),
    {
        if !self.accepts_frame(ssrc) {
            return false;
        }
        self.buffers.extend(ssrc, frame);
        assert(self.buffered() =~= old(self).buffered().insert(
            ssrc,
            old(self).buffered()[ssrc] + frame@,
        ));
        true
    }

    /// A participant left: every per-source structure of its source is purged,
    /// it leaves the active set and the queue, and, if that frees a place, the
    /// least waiting speaker is promoted. No other source changes: a promoted
    /// speaker gets a buffer (and decoder) at its next speaking-state update.
    /// Returns the promoted speaker and the decoder commands.
    pub fn client_disconnect(&mut self, speaker: u64) -> (r: (Option<u64>, Vec<DecoderCommand>))
        requires
            old(self).wf(),
        ensures
            final(self).wf(),
            final(self).premium_level() == old(self).premium_level(),
            final(self).mode() == old(self).mode(),
            final(self).max_active() == old(self).max_active(),
            ({
                let k = source_of(old(self).sources(), speaker);
                let srcs = drop_entry(old(self).sources(), k);
                let bufs = drop_entry(old(self).buffered(), k);
                let decs = drop_member(old(self).decoder_sources(), k);
                let active = old(self).active().remove(speaker);
                let waiting = old(self).queued().remove(speaker);
                let count = old(self).active_count() - (if old(self).active().contains(speaker) {
                    1int
                } else {
                    0int
                });
                &&& final(self).sources() == srcs
                &&& r.0 is Some <==> (count < old(self).max_active() && waiting != Set::<u64>::empty())
                &&& r.0 matches Some(p) ==> is_least(waiting, p) && final(self).active() == active.insert(p)
                    && final(self).queued() == waiting.remove(p) && final(self).active_count() == count + 1
                &&& r.0 is None ==> final(self).active() == active && final(self).queued() == waiting
                    && final(self).active_count() == count
                &&& final(self).buffered() == bufs
                &&& final(self).decoder_sources() == decs
                &&& r.1@ == drop_commands(old(self).decoder_sources(), k)
                &&& k matches Some(gone) ==> !final(self).sources().contains_key(gone)
                    && !final(self).buffered().contains_key(gone)
                    && !final(self).decoder_sources().contains(gone)
            }),
            !final(self).active().contains(speaker),
            !final(self).queued().contains(speaker),
    {
        let mut commands: Vec<DecoderCommand> = Vec::new();
        let ghost k = source_of(old(self).sources(), speaker);
        match self.registry.reverse_lookup(speaker) {
            Some(gone) => {
                self.release_source(gone, &mut commands);
                self.registry.unregister(gone);
            },
            None => {
                assert(self.buffered() =~= drop_entry(old(self).buffered(), k));
                assert(self.decoder_sources() =~= drop_member(old(self).decoder_sources(), k));
                assert(commands@ =~= drop_commands(old(self).decoder_sources(), k));
            },
        }
        let promoted = self.admission.release(speaker);
        proof {
            old(self).registry.lemma_one_source_per_speaker();
            assert forall|j: u32| #[trigger] self.buffered().contains_key(j) implies self.sources().contains_key(j)
                && self.active().contains(self.sources()[j]) by {
                if old(self).buffered().contains_key(j) && k != Some(j) {
                    let x = old(self).sources()[j];
                    if x == speaker {
                        let c = choose|c: u32| #[trigger] old(self).sources().contains_key(c) && old(self).sources()[c] == speaker;
                        assert(old(self).sources().contains_key(c) && old(self).sources()[c] == speaker);
                        assert(c == j);
                    }
                }
            }
            if self.mode == DecodeMode::Decode {
                assert(self.decoder_sources() =~= Set::<u32>::empty());
            }
        }
        (promoted, commands)
    }

    /// Frees the buffer and decoder of `k`.
    fn release_source(&mut self, k: u32, commands: &mut Vec<DecoderCommand>)
        requires
            old(self).parts_wf(),
        ensures
            final(self).parts_wf(),
            final(self).registry == old(self).registry,
            final(self).admission == old(self).admission,
            final(self).mode == old(self).mode,
            final(self).premium_level == old(self).premium_level,
            final(self).buffered() == old(self).buffered().remove(k),
            final(self).decoder_sources() == old(self).decoder_sources().remove(k),
            final(commands)@ == old(commands)@ + drop_commands(old(self).decoder_sources(), Some(k)),
    {
        self.buffers.remove(k);
        if self.decoders.remove(k).is_some() {
            commands.push(DecoderCommand::Drop(k));
        } else {
            assert(old(commands)@ + Seq::<DecoderCommand>::empty() =~= old(commands)@);
        }
        assert(self.buffered() =~= old(self).buffered().remove(k));
        assert(self.decoder_sources() =~= old(self).decoder_sources().remove(k));
    }

    /// Gives `k` an empty buffer and, when the host decodes, a fresh decoder.
    fn allocate_source(&mut self, k: u32, commands: &mut Vec<DecoderCommand>)
        requires
            old(self).parts_wf(),
        ensures
            final(self).parts_wf(),
            final(self).registry == old(self).registry,
            final(self).admission == old(self).admission,
            final(self).mode == old(self).mode,
            final(self).premium_level == old(self).premium_level,
            final(self).buffered() == old(self).buffered().insert(k, Seq::empty()),
            final(self).decoder_sources() == if old(self).mode == DecodeMode::Decrypt {
                old(self).decoder_sources().insert(k)
            } else {
                old(self).decoder_sources()
            },
            final(commands)@ == old(commands)@ + create_commands(old(self).mode, k),
    {
        self.buffers.insert(k, Vec::new());
        if self.mode == DecodeMode::Decrypt {
            self.decoders.insert(k, ());
            commands.push(DecoderCommand::Create(k));
            assert(self.decoder_sources() =~= old(self).decoder_sources().insert(k));
        } else {
            assert(old(commands)@ + Seq::<DecoderCommand>::empty() =~= old(commands)@);
        }
        assert(self.buffered() =~= old(self).buffered().insert(k, Seq::empty()));
    }
}

} // verus!
