//! Control commands and the one-way channel that carries them.
//!
//! Caller threads never touch engine state: a [`MixerControl`] allocates
//! identifiers and enqueues tagged [`AudioMessage`] commands onto a FIFO
//! [`ControlChannel`].  The engine drains the channel at the start of every
//! callback and applies the commands in send order.

use vstd::prelude::*;

use crate::{pitch_in_range, sound_data_wf, volume_in_range, FP_ONE};

verus! {

/// One tagged control command, the only kind of value that crosses from
/// caller code to the engine.
#[derive(Debug, Clone, PartialEq)]
pub enum AudioMessage {
    /// `AddSound(sound_id, data)`: insert a decoded asset into the store.
    AddSound(u64, Vec<i64>),
    /// `Play(sound_id, play_id, looped, volume, pitch)`: start a playback.
    Play(u64, u64, bool, i64, i64),
    /// `Stop(play_id)`: remove one playback.
    Stop(u64),
    /// `StopAll(sound_id)`: remove every playback of one asset.
    StopAll(u64),
    /// `SetVolume(play_id, volume)`: change one playback's volume.
    SetVolume(u64, i64),
    /// `SetVolumeAll(sound_id, volume)`: change the volume of every
    /// playback of one asset.
    SetVolumeAll(u64, i64),
    /// `SetPitch(play_id, pitch)`: change one playback's pitch factor.
    SetPitch(u64, i64),
    /// `Delete(sound_id)`: drop an asset and every playback referencing it.
    Delete(u64),
}

/// A command is well formed when every volume it carries is in [0.0, 1.0],
/// every pitch factor is valid, and asset data is valid interleaved stereo.
pub open spec fn message_wf(m: AudioMessage) -> bool {
    match m {
        AudioMessage::AddSound(_, data) => sound_data_wf(data@),
        AudioMessage::Play(_, _, _, volume, pitch) => volume_in_range(volume as int)
            && pitch_in_range(pitch as int),
        AudioMessage::Stop(_) => true,
        AudioMessage::StopAll(_) => true,
        AudioMessage::SetVolume(_, volume) => volume_in_range(volume as int),
        AudioMessage::SetVolumeAll(_, volume) => volume_in_range(volume as int),
        AudioMessage::SetPitch(_, pitch) => pitch_in_range(pitch as int),
        AudioMessage::Delete(_) => true,
    }
}

/// Every command of a batch is well formed.
pub open spec fn messages_wf(ms: Seq<AudioMessage>) -> bool {
    forall|i: int| 0 <= i < ms.len() ==> message_wf(#[trigger] ms[i])
}

/// A non-blocking FIFO queue of control commands.  Commands are observed by
/// the engine in exactly the order they were sent.
pub struct ControlChannel {
    messages: Vec<AudioMessage>,
}

impl View for ControlChannel {
    type V = Seq<AudioMessage>;

    closed spec fn view(&self) -> Seq<AudioMessage> {
        self.messages@
    }
}

impl ControlChannel {
    /// Creates an empty channel.
    pub fn new() -> (c: ControlChannel)
        ensures
            c@ == Seq::<AudioMessage>::empty(),
    {
        ControlChannel { messages: Vec::new() }
    }

    /// Appends one command at the back of the queue.
    pub fn send(&mut self, m: AudioMessage)
        ensures
            final(self)@ == old(self)@.push(m),
    {
        self.messages.push(m);
    }

    /// Removes and returns every queued command, in send order.
    pub fn drain(&mut self) -> (msgs: Vec<AudioMessage>)
        ensures
            msgs@ == old(self)@,
            final(self)@ == Seq::<AudioMessage>::empty(),
    {
        let mut out: Vec<AudioMessage> = Vec::new();
        core::mem::swap(&mut out, &mut self.messages);
        out
    }
}

/// The parameters of a `Play` command: loop mode, linear volume in
/// [0.0, 1.0] and pitch factor, all in 16.16 fixed point.
#[derive(Debug, Clone, Copy, PartialEq, Eq, Structural)]
pub struct PlaySoundParams {
    pub looped: bool,
    pub volume: i64,
    pub pitch: i64,
}

impl Default for PlaySoundParams {
    /// A one-shot playback at full volume and native speed.
    fn default() -> (p: PlaySoundParams)
        ensures
            p.looped == false,
            p.volume == FP_ONE,
            p.pitch == FP_ONE,
    {
        PlaySoundParams { looped: false, volume: FP_ONE, pitch: FP_ONE }
    }
}

/// The caller-facing handle: allocates monotonically increasing asset and
/// playback identifiers and enqueues commands; it never touches engine
/// state directly.
pub struct MixerControl {
    pub(crate) channel: ControlChannel,
    pub(crate) sound_id: u64,
    pub(crate) play_id: u64,
}

/// One started playback, identified by the playback id the control handle
/// allocated for it.
pub struct Playback {
    pub(crate) play_id: u64,
}

impl Playback {
    /// The playback identifier this handle stands for.
    pub closed spec fn id(self) -> u64 {
        self.play_id
    }
}

impl MixerControl {
    /// The commands sent through this handle and not yet handed over.
    pub closed spec fn pending(self) -> Seq<AudioMessage> {
        self.channel@
    }

    /// The asset id the next `load` call will allocate.
    pub closed spec fn next_sound(self) -> u64 {
        self.sound_id
    }

    /// The playback id the next `play` call will allocate.
    pub closed spec fn next_play(self) -> u64 {
        self.play_id
    }

    /// Every pending command is well formed.
    pub closed spec fn wf(self) -> bool {
        messages_wf(self.channel@)
    }

    /// Creates a fresh handle: empty queue, ids allocated from zero.
    pub(crate) fn new() -> (c: MixerControl)
        ensures
            c.wf(),
            c.pending() == Seq::<AudioMessage>::empty(),
            c.next_sound() == 0,
            c.next_play() == 0,
    {
        MixerControl { channel: ControlChannel::new(), sound_id: 0, play_id: 0 }
    }

    /// Registers decoded asset data under a fresh sound id and returns
    /// that id.  The caller may reference the id immediately, before the
    /// engine has drained the command.
    pub fn load(&mut self, samples: Vec<i64>) -> (id: u64)
        requires
            old(self).wf(),
            sound_data_wf(samples@),
            old(self).next_sound() < u64::MAX,
        ensures
            final(self).wf(),
            id == old(self).next_sound(),
            final(self).next_sound() == old(self).next_sound() + 1,
            final(self).next_play() == old(self).next_play(),
            final(self).pending() == old(self).pending().push(
                AudioMessage::AddSound(id, samples),
            ),
    {
        let id = self.sound_id;
        self.channel.send(AudioMessage::AddSound(id, samples));
        self.sound_id = id + 1;
        id
    }

    /// Starts a playback of `sound_id` under a fresh playback id.  A
    /// volume outside [0.0, 1.0] is a caller contract violation: the
    /// precondition excludes it, so unverified callers must fail fast
    /// before reaching this handle.
    pub fn play(&mut self, sound_id: u64, params: PlaySoundParams) -> (p: Playback)
        requires
            old(self).wf(),
            volume_in_range(params.volume as int),
            pitch_in_range(params.pitch as int),
            old(self).next_play() < u64::MAX,
        ensures
            final(self).wf(),
            p.id() == old(self).next_play(),
            final(self).next_play() == old(self).next_play() + 1,
            final(self).next_sound() == old(self).next_sound(),
            final(self).pending() == old(self).pending().push(
                AudioMessage::Play(sound_id, p.id(), params.looped, params.volume, params.pitch),
            ),
    {
        let play_id = self.play_id;
        self.channel.send(
            AudioMessage::Play(sound_id, play_id, params.looped, params.volume, params.pitch),
        );
        self.play_id = play_id + 1;
        Playback { play_id }
    }

    /// Enqueues removal of one playback.
    pub fn stop(&mut self, play_id: u64)
        requires
            old(self).wf(),
        ensures
            final(self).wf(),
            final(self).next_sound() == old(self).next_sound(),
            final(self).next_play() == old(self).next_play(),
            final(self).pending() == old(self).pending().push(AudioMessage::Stop(play_id)),
    {
        self.channel.send(AudioMessage::Stop(play_id));
    }

    /// Enqueues removal of every playback of one asset.
    pub fn stop_all(&mut self, sound_id: u64)
        requires
            old(self).wf(),
        ensures
            final(self).wf(),
            final(self).next_sound() == old(self).next_sound(),
            final(self).next_play() == old(self).next_play(),
            final(self).pending() == old(self).pending().push(AudioMessage::StopAll(sound_id)),
    {
        self.channel.send(AudioMessage::StopAll(sound_id));
    }

    /// Enqueues a volume change for one playback.
    pub fn set_volume(&mut self, play_id: u64, volume: i64)
        requires
            old(self).wf(),
            volume_in_range(volume as int),
        ensures
            final(self).wf(),
            final(self).next_sound() == old(self).next_sound(),
            final(self).next_play() == old(self).next_play(),
            final(self).pending() == old(self).pending().push(AudioMessage::SetVolume(play_id, volume)),
    {
        self.channel.send(AudioMessage::SetVolume(play_id, volume));
    }

    /// Enqueues a volume change for every playback of one asset.
    pub fn set_volume_all(&mut self, sound_id: u64, volume: i64)
        requires
            old(self).wf(),
            volume_in_range(volume as int),
        ensures
            final(self).wf(),
            final(self).next_sound() == old(self).next_sound(),
            final(self).next_play() == old(self).next_play(),
            final(self).pending() == old(self).pending().push(
                AudioMessage::SetVolumeAll(sound_id, volume),
            ),
    {
        self.channel.send(AudioMessage::SetVolumeAll(sound_id, volume));
    }

    /// Enqueues a pitch change for one playback.
    pub fn set_pitch(&mut self, play_id: u64, pitch: i64)
        requires
            old(self).wf(),
            pitch_in_range(pitch as int),
        ensures
            final(self).wf(),
            final(self).next_sound() == old(self).next_sound(),
            final(self).next_play() == old(self).next_play(),
            final(self).pending() == old(self).pending().push(AudioMessage::SetPitch(play_id, pitch)),
    {
        self.channel.send(AudioMessage::SetPitch(play_id, pitch));
    }

    /// Enqueues deletion of an asset together with every playback
    /// referencing it.
    pub fn delete(&mut self, sound_id: u64)
        requires
            old(self).wf(),
        ensures
            final(self).wf(),
            final(self).next_sound() == old(self).next_sound(),
            final(self).next_play() == old(self).next_play(),
            final(self).pending() == old(self).pending().push(AudioMessage::Delete(sound_id)),
    {
        self.channel.send(AudioMessage::Delete(sound_id));
    }

    /// Hands over every pending command, in send order, for delivery to
    /// the engine.  Unverified glue moves these to [`crate::mixer::Mixer::post`];
    /// every returned command is well formed, as `post` requires.
    pub fn take_messages(&mut self) -> (msgs: Vec<AudioMessage>)
        requires
            old(self).wf(),
        ensures
            final(self).wf(),
            msgs@ == old(self).pending(),
            messages_wf(msgs@),
            final(self).pending() == Seq::<AudioMessage>::empty(),
            final(self).next_sound() == old(self).next_sound(),
            final(self).next_play() == old(self).next_play(),
    {
        self.channel.drain()
    }
}

impl Playback {
    /// Enqueues removal of this playback, consuming the handle.
    pub fn stop(self, ctrl: &mut MixerControl)
        requires
            old(ctrl).wf(),
        ensures
            final(ctrl).wf(),
            final(ctrl).pending() == old(ctrl).pending().push(AudioMessage::Stop(self.id())),
    {
        ctrl.stop(self.play_id);
    }

    /// Enqueues a volume change for this playback.
    pub fn set_volume(&self, ctrl: &mut MixerControl, volume: i64)
        requires
            old(ctrl).wf(),
            volume_in_range(volume as int),
        ensures
            final(ctrl).wf(),
            final(ctrl).pending() == old(ctrl).pending().push(
                AudioMessage::SetVolume(self.id(), volume),
            ),
    {
        ctrl.set_volume(self.play_id, volume);
    }

    /// Enqueues a pitch change for this playback.
    pub fn set_pitch(&self, ctrl: &mut MixerControl, pitch: i64)
        requires
            old(ctrl).wf(),
            pitch_in_range(pitch as int),
        ensures
            final(ctrl).wf(),
            final(ctrl).pending() == old(ctrl).pending().push(
                AudioMessage::SetPitch(self.id(), pitch),
            ),
    {
        ctrl.set_pitch(self.play_id, pitch);
    }
}

} // verus!
