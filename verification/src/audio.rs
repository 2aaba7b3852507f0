//! The integer side of the audio pipeline: filter modes, device entries,
//! the hold that keeps voice activity on for a few frames after speech, the
//! bounded per-speaker sample queues, and where a captured frame goes. The
//! sample arithmetic itself (gains, filters, levels) is done by the
//! application.

use vstd::prelude::*;

verus! {

/// How captured audio is cleaned.
#[derive(Debug, Clone, Copy, PartialEq, Eq, Structural)]
pub enum FilterMode {
    Off,
    NoiseGate,
    /// Speech enhancement tuned for voice.
    DeepFilterNet,
}

/// An audio device as listed to the user.
#[derive(Debug, Clone, PartialEq, Eq)]
pub struct AudioDeviceInfo {
    pub name: String,
    pub is_default: bool,
}

/// Frames of silence during which voice activity stays on after speech
/// (about 160 ms at 20 ms frames).
pub const VOICE_HOLD_FRAMES: usize = 8;

/// The hangover of voice activity detection: once a frame is loud, activity
/// stays on for `hold_frames` further quiet frames.
#[derive(Debug, Clone, Copy, PartialEq, Eq)]
pub struct VoiceHold {
    pub hold_frames: usize,
    pub hold_counter: usize,
    pub is_active: bool,
}

impl VoiceHold {
    /// No activity yet, with the standard hold.
    pub fn new() -> (res: VoiceHold)
        ensures
            res.hold_frames == VOICE_HOLD_FRAMES,
            res.hold_counter == 0,
            !res.is_active,
    {
        VoiceHold { hold_frames: VOICE_HOLD_FRAMES, hold_counter: 0, is_active: false }
    }

    /// One frame: `loud` when its level is above the threshold. A loud frame
    /// (re)starts the hold; a quiet one uses it up, and activity ends once it
    /// is used up. Gives whether speech is present.
    pub fn step(&mut self, loud: bool) -> (res: bool)
        ensures
            final(self).hold_frames == old(self).hold_frames,
            loud ==> final(self).hold_counter == old(self).hold_frames && final(self).is_active,
            !loud && old(self).hold_counter > 0 ==> final(self).hold_counter == old(self).hold_counter - 1
                && final(self).is_active,
            !loud && old(self).hold_counter == 0 ==> final(self).hold_counter == 0 && !final(self).is_active,
            res == final(self).is_active,
    {
        if loud {
            self.hold_counter = self.hold_frames;
            self.is_active = true;
        } else if self.hold_counter > 0 {
            self.hold_counter = self.hold_counter - 1;
            self.is_active = true;
        } else {
            self.is_active = false;
        }
        self.is_active
    }
}

/// After a loud frame, activity lasts exactly through the next
/// `hold_frames` quiet frames: with `k` quiet frames so far, it is on while
/// `k <= hold_frames`.
pub proof fn lemma_hold_counts_down(h: VoiceHold, k: nat)
    requires
        h.is_active,
        h.hold_counter == h.hold_frames,
    ensures
        quiet_frames(h, k).is_active == (k <= h.hold_frames),
        quiet_frames(h, k).hold_counter == if k <= h.hold_frames { h.hold_frames - k } else { 0 },
    decreases k,
{
    if k > 0 {
        lemma_hold_counts_down(h, (k - 1) as nat);
    }
}

/// The hold after `k` quiet frames.
pub open spec fn quiet_frames(h: VoiceHold, k: nat) -> VoiceHold
    decreases k,
{
    if k == 0 {
        h
    } else {
        let p = quiet_frames(h, (k - 1) as nat);
        if p.hold_counter > 0 {
            VoiceHold { hold_counter: (p.hold_counter - 1) as usize, is_active: true, ..p }
        } else {
            VoiceHold { is_active: false, ..p }
        }
    }
}

/// The most samples queued per speaker (about 250 ms at 48 kHz).
pub const MAX_QUEUED_SAMPLES: usize = 12000;

/// The last `cap` items of `s` (all of them when there are fewer).
pub open spec fn keep_last<T>(s: Seq<T>, cap: nat) -> Seq<T> {
    if s.len() > cap { s.skip(s.len() - cap) } else { s }
}

/// Appends `samples` to a speaker's queue, then drops the oldest samples so
/// that at most `cap` remain.
pub fn append_bounded<T: Copy>(queue: &mut Vec<T>, samples: &[T], cap: usize)
    requires
        old(queue)@.len() + samples@.len() <= usize::MAX,
    ensures
        final(queue)@ == keep_last(old(queue)@ + samples@, cap as nat),
{
    let ghost start = queue@;
    let mut i: usize = 0;
    while i < samples.len()
        invariant
            0 <= i <= samples@.len(),
            start.len() + samples@.len() <= usize::MAX,
            queue@ == start + samples@.take(i as int),
        decreases samples@.len() - i,
    {
        queue.push(samples[i]);
        i = i + 1;
        assert(queue@ =~= start + samples@.take(i as int));
    }
    assert(samples@.take(samples@.len() as int) =~= samples@);
    let n = queue.len();
    if n > cap {
        let drop = n - cap;
        let mut kept: Vec<T> = Vec::new();
        let mut k: usize = drop;
        while k < n
            invariant
                n == queue@.len(),
                drop <= k <= n,
                kept@ == queue@.subrange(drop as int, k as int),
            decreases n - k,
        {
            kept.push(queue[k]);
            k = k + 1;
            assert(kept@ =~= queue@.subrange(drop as int, k as int));
        }
        assert(kept@ =~= queue@.skip(drop as int));
        *queue = kept;
    }
}

/// Where a captured frame goes.
#[derive(Debug, Clone, Copy, PartialEq, Eq)]
pub struct FrameRoute {
    /// Played back locally, for the echo test.
    pub echo: bool,
    /// Sent to the voice channel.
    pub transmit: bool,
}

/// Decides where a captured frame goes: nowhere when muted; to the echo test
/// when it runs; to the network when in a voice channel and speech is
/// present.
pub fn route_frame(is_muted: bool, echo_test: bool, in_voice: bool, is_speech: bool) -> (res: FrameRoute)
    ensures
        res.echo == (!is_muted && echo_test),
        res.transmit == (!is_muted && in_voice && is_speech),
{
    if is_muted {
        return FrameRoute { echo: false, transmit: false };
    }
    FrameRoute { echo: echo_test, transmit: in_voice && is_speech }
}

/// Whether the microphone is muted after deafening is switched: deafening
/// also mutes; undeafening leaves the mute as it was.
pub fn muted_after_deafen(is_muted: bool, deafened: bool) -> (res: bool)
    ensures
        res == (is_muted || deafened),
{
    is_muted || deafened
}

} // verus!
