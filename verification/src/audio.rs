//! Play-on-awake audio: sources that queue their clip once per World lifetime.
//! Volumes are carried as the bit patterns of their `f32` values (`f32::to_bits`).
use vstd::prelude::*;
use crate::strings::{chars_of, string_from_chars};

verus! {

/// Authored clip player on an entity.
#[derive(Clone, Debug)]
pub struct AudioSourceState {
    /// Clip name or `*.wav` stem under the project `assets/` folder.
    pub clip: String,
    /// Linear gain, as the bits of an `f32`.
    pub volume_bits: u32,
    /// Queue a oneshot once after the World is created / Play starts.
    pub play_on_awake: bool,
    /// Play-on-awake already queued for this World lifetime.
    pub awake_queued: bool,
}

/// Pending host playback request: clip and volume bits.
#[derive(Clone, Debug)]
pub struct OneshotBits {
    pub clip: String,
    pub volume_bits: u32,
}

/// A source fires on awake when it asks to, has not fired yet and names a clip.
pub open spec fn fires(s: AudioSourceState) -> bool {
    s.play_on_awake && !s.awake_queued && s.clip@.len() > 0
}

/// `n` is source `o` after an awake pass: marked queued if it fired, otherwise as it was.
pub open spec fn marked(o: AudioSourceState, n: AudioSourceState) -> bool {
    &&& n.clip@ == o.clip@
    &&& n.volume_bits == o.volume_bits
    &&& n.play_on_awake == o.play_on_awake
    &&& n.awake_queued == (o.awake_queued || fires(o))
}

/// (clip, volume bits) of each source that fires, in source order.
pub open spec fn fired_shots(srcs: Seq<AudioSourceState>) -> Seq<(Seq<char>, u32)>
    decreases srcs.len(),
{
    if srcs.len() == 0 {
        Seq::empty()
    } else {
        let r = fired_shots(srcs.drop_last());
        let s = srcs.last();
        if fires(s) {
            r.push((s.clip@, s.volume_bits))
        } else {
            r
        }
    }
}

/// (clip, volume bits) of each queued oneshot.
pub open spec fn shot_views(q: Seq<OneshotBits>) -> Seq<(Seq<char>, u32)> {
    q.map_values(|o: OneshotBits| (o.clip@, o.volume_bits))
}

fn copy_string(s: &String) -> (r: String)
    ensures
        r@ == s@,
{
    string_from_chars(&chars_of(s.as_str()))
}

/// Queue the clips of play-on-awake sources that have not fired yet (and name a clip),
/// in source order, and mark them queued.
pub fn queue_awake_audio(sources: &mut Vec<AudioSourceState>, queue: &mut Vec<OneshotBits>)
    ensures
        final(sources)@.len() == old(sources)@.len(),
        forall|i: int| 0 <= i < old(sources)@.len() ==> marked(old(sources)@[i], #[trigger] final(sources)@[i]),
        shot_views(final(queue)@) == shot_views(old(queue)@) + fired_shots(old(sources)@),
{
    let ghost srcs = sources@;
    let ghost q0 = queue@;
    let mut i: usize = 0;
    assert(srcs.subrange(0, 0) =~= Seq::<AudioSourceState>::empty());
    assert(shot_views(q0) + Seq::<(Seq<char>, u32)>::empty() =~= shot_views(q0));
    while i < sources.len()
        invariant
            i <= sources@.len(),
            sources@.len() == srcs.len(),
            forall|k: int| 0 <= k < i ==> marked(srcs[k], #[trigger] sources@[k]),
            forall|k: int| i <= k < srcs.len() ==> #[trigger] sources@[k] == srcs[k],
            shot_views(queue@) == shot_views(q0) + fired_shots(srcs.subrange(0, i as int)),
        decreases sources@.len() - i,
    {
        let s = &sources[i];
        let fire = s.play_on_awake && !s.awake_queued && s.clip.as_str().unicode_len() > 0;
        proof {
            assert(srcs.subrange(0, i + 1).drop_last() =~= srcs.subrange(0, i as int));
            assert(srcs.subrange(0, i + 1).last() == srcs[i as int]);
        }
        if fire {
            let shot = OneshotBits { clip: copy_string(&s.clip), volume_bits: s.volume_bits };
            let updated = AudioSourceState {
                clip: copy_string(&s.clip),
                volume_bits: s.volume_bits,
                play_on_awake: s.play_on_awake,
                awake_queued: true,
            };
            let ghost qb = queue@;
            queue.push(shot);
            assert(shot_views(queue@) =~= shot_views(qb).push((srcs[i as int].clip@, srcs[i as int].volume_bits)));
            sources.set(i, updated);
        }
        i = i + 1;
    }
    assert(srcs.subrange(0, srcs.len() as int) =~= srcs);
}

/// Play-on-awake fires once: after an awake pass no source fires again, so a second
/// pass queues nothing.
pub proof fn lemma_awake_fires_once(before: Seq<AudioSourceState>, after: Seq<AudioSourceState>)
    requires
        after.len() == before.len(),
        forall|i: int| 0 <= i < before.len() ==> marked(before[i], #[trigger] after[i]),
    ensures
        fired_shots(after) == Seq::<(Seq<char>, u32)>::empty(),
    decreases after.len(),
{
    if after.len() > 0 {
        let n = after.len() - 1;
        assert(marked(before[n], after[n]));
        lemma_awake_fires_once(before.drop_last(), after.drop_last());
    }
}

} // verus!
