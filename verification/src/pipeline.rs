//! The three stages back to back, without the queues between them: what the
//! pipeline makes of a run of datagrams when each is carried through
//! ingestion, mixing and dispatch before the next is looked at.
//!
//! This is what a peer sees of the running system as far as its own
//! datagrams go: the queues keep the order of what one stage hands to the
//! next.

use vstd::prelude::*;
use crate::codec::{
    decode,
    has_audio_header,
    has_magic,
    lemma_decoded_frame_is_reproduced,
    message_type,
    payload_of,
    AUDIO_PACKET,
    MAX_DATAGRAM_LEN,
};
use crate::dispatch::{
    frame_all,
    transmission_views,
    transmissions_of,
    Transmission,
    TransmissionView,
};
use crate::ingest::{Datagram, DatagramView};
use crate::mixer::{MixPolicy, Mixer, MixerView};
use crate::schema::payload_well_formed;

verus! {

/// The views of a sequence of datagrams.
pub open spec fn datagram_views(datagrams: Seq<Datagram>) -> Seq<DatagramView> {
    datagrams.map_values(|datagram: Datagram| datagram@)
}

/// What is sent in answer to one datagram: nothing if it is dropped, else
/// the frames of what the mixer makes of its message.
pub open spec fn relay_spec(mixer: MixerView, datagram: DatagramView) -> Seq<TransmissionView> {
    match datagram.decoded() {
        Ok(message) => transmissions_of(mixer.outputs(message)),
        Err(_) => Seq::empty(),
    }
}

/// The mixer after one datagram: as it was if the datagram is dropped.
pub open spec fn mixer_after(mixer: MixerView, datagram: DatagramView) -> MixerView {
    match datagram.decoded() {
        Ok(message) => mixer.after(message),
        Err(_) => mixer,
    }
}

/// The mixer after a run of datagrams.
pub open spec fn mixer_after_all(mixer: MixerView, datagrams: Seq<DatagramView>) -> MixerView
    decreases datagrams.len(),
{
    if datagrams.len() == 0 {
        mixer
    } else {
        mixer_after(mixer_after_all(mixer, datagrams.drop_last()), datagrams.last())
    }
}

/// What is sent in answer to a run of datagrams, in the order in which it is
/// sent.
pub open spec fn relay_all_spec(mixer: MixerView, datagrams: Seq<DatagramView>) -> Seq<
    TransmissionView,
>
    decreases datagrams.len(),
{
    if datagrams.len() == 0 {
        Seq::empty()
    } else {
        relay_all_spec(mixer, datagrams.drop_last()) + relay_spec(
            mixer_after_all(mixer, datagrams.drop_last()),
            datagrams.last(),
        )
    }
}

/// The transmission that returns a datagram to its sender as it came.
pub open spec fn echo_of(datagram: DatagramView) -> TransmissionView {
    TransmissionView { frame: datagram.bytes, to: datagram.from }
}

/// Whether a datagram is one that a peer of this protocol sends: no longer
/// than [`MAX_DATAGRAM_LEN`], with the header of an audio packet and a
/// payload that is readable audio.
pub open spec fn is_audio_datagram(datagram: DatagramView) -> bool {
    &&& datagram.bytes.len() <= MAX_DATAGRAM_LEN
    &&& has_audio_header(datagram.bytes)
    &&& payload_well_formed(payload_of(datagram.bytes))
}

/// Carries one datagram through the three stages: decodes it, mixes its
/// message, frames what the mixer made of it.
///
/// Returns what is to be sent, in order. A datagram that does not decode
/// leads to nothing and leaves the mixer as it was.
pub fn relay(mixer: &mut Mixer, datagram: &Datagram) -> (out: Vec<Transmission>)
    ensures
        transmission_views(out@) == relay_spec(old(mixer)@, datagram@),
        final(mixer)@ == mixer_after(old(mixer)@, datagram@),
{
    match decode(datagram.bytes.as_slice(), datagram.from) {
        Ok(message) => {
            let outputs = mixer.mix(message);
            frame_all(&outputs)
        },
        Err(_) => Vec::new(),
    }
}

/// Carries a run of datagrams through the three stages, one after the other.
pub fn relay_all(mixer: &mut Mixer, datagrams: &Vec<Datagram>) -> (out: Vec<Transmission>)
    ensures
        transmission_views(out@) == relay_all_spec(old(mixer)@, datagram_views(datagrams@)),
        final(mixer)@ == mixer_after_all(old(mixer)@, datagram_views(datagrams@)),
{
    let mut out: Vec<Transmission> = Vec::new();
    let mut i: usize = 0;
    while i < datagrams.len()
        invariant
            i <= datagrams.len(),
            mixer@ == mixer_after_all(old(mixer)@, datagram_views(datagrams@).take(i as int)),
            transmission_views(out@) =~= relay_all_spec(
                old(mixer)@,
                datagram_views(datagrams@).take(i as int),
            ),
        decreases datagrams.len() - i,
    {
        proof {
            let done = datagram_views(datagrams@).take(i as int);
            let done_now = datagram_views(datagrams@).take(i + 1);
            assert(done_now.drop_last() =~= done);
        }
        let mut answer = relay(mixer, &datagrams[i]);
        out.append(&mut answer);
        i += 1;
    }
    assert(datagram_views(datagrams@).take(i as int) =~= datagram_views(datagrams@));
    out
}

/// A run of datagrams taken in two parts: the second part meets the mixer as
/// the first part left it, and what is sent is what is sent for the first
/// part followed by what is sent for the second.
pub proof fn lemma_relay_all_splits(
    mixer: MixerView,
    first: Seq<DatagramView>,
    second: Seq<DatagramView>,
)
    ensures
        mixer_after_all(mixer, first + second) == mixer_after_all(
            mixer_after_all(mixer, first),
            second,
        ),
        relay_all_spec(mixer, first + second) == relay_all_spec(mixer, first) + relay_all_spec(
            mixer_after_all(mixer, first),
            second,
        ),
    decreases second.len(),
{
    if second.len() > 0 {
        lemma_relay_all_splits(mixer, first, second.drop_last());
        assert((first + second).drop_last() =~= first + second.drop_last());
    }
}

/// A dropped datagram leaves no trace. Wherever in a run a datagram stands
/// that does not decode, what is sent for the run, and the mixer after it,
/// are what they are for the run without that datagram: the datagrams before
/// and after it are answered as if it had never come.
pub proof fn lemma_dropped_datagram_is_inert(
    mixer: MixerView,
    before: Seq<DatagramView>,
    dropped: DatagramView,
    after: Seq<DatagramView>,
)
    requires
        dropped.decoded() is Err,
    ensures
        relay_all_spec(mixer, before.push(dropped) + after) == relay_all_spec(
            mixer,
            before + after,
        ),
        mixer_after_all(mixer, before.push(dropped) + after) == mixer_after_all(
            mixer,
            before + after,
        ),
{
    let with = before.push(dropped);
    assert(with.drop_last() =~= before);
    lemma_relay_all_splits(mixer, with, after);
    lemma_relay_all_splits(mixer, before, after);
}

/// Bad magic is inert: a datagram that does not start with the magic changes
/// nothing of what is sent for the datagrams around it.
pub proof fn lemma_bad_magic_is_inert(
    mixer: MixerView,
    before: Seq<DatagramView>,
    stray: DatagramView,
    after: Seq<DatagramView>,
)
    requires
        !has_magic(stray.bytes),
    ensures
        relay_all_spec(mixer, before.push(stray) + after) == relay_all_spec(mixer, before + after),
{
    lemma_dropped_datagram_is_inert(mixer, before, stray, after);
}

/// An unknown type is inert: a frame with the right magic and a message type
/// that is not in use changes nothing of what is sent for the datagrams
/// around it.
pub proof fn lemma_unknown_type_is_inert(
    mixer: MixerView,
    before: Seq<DatagramView>,
    stray: DatagramView,
    after: Seq<DatagramView>,
)
    requires
        has_magic(stray.bytes),
        message_type(stray.bytes) != Some(AUDIO_PACKET),
    ensures
        relay_all_spec(mixer, before.push(stray) + after) == relay_all_spec(mixer, before + after),
{
    lemma_dropped_datagram_is_inert(mixer, before, stray, after);
}

/// A malformed payload is isolated: an audio frame whose payload is not
/// readable audio is dropped, and the datagrams around it are answered as if
/// it had never come.
pub proof fn lemma_malformed_payload_is_isolated(
    mixer: MixerView,
    before: Seq<DatagramView>,
    corrupted: DatagramView,
    after: Seq<DatagramView>,
)
    requires
        has_audio_header(corrupted.bytes),
        !payload_well_formed(payload_of(corrupted.bytes)),
    ensures
        relay_all_spec(mixer, before.push(corrupted) + after) == relay_all_spec(
            mixer,
            before + after,
        ),
{
    lemma_dropped_datagram_is_inert(mixer, before, corrupted, after);
}

/// The policy of a mixer never changes.
pub proof fn lemma_policy_is_kept(mixer: MixerView, datagrams: Seq<DatagramView>)
    ensures
        mixer_after_all(mixer, datagrams).policy == mixer.policy,
    decreases datagrams.len(),
{
    if datagrams.len() > 0 {
        lemma_policy_is_kept(mixer, datagrams.drop_last());
    }
}

/// Liveness under the echo policy: every audio datagram is answered by
/// exactly one frame, which is the datagram as it came, sent back to the
/// peer it came from; and the answers leave in the order in which the
/// datagrams arrived. So N datagrams sent back to back by one peer come
/// back to that peer as N frames, in order.
pub proof fn lemma_echo_answers_every_datagram(mixer: MixerView, datagrams: Seq<DatagramView>)
    requires
        mixer.policy == MixPolicy::Echo,
        forall|i: int| 0 <= i < datagrams.len() ==> is_audio_datagram(#[trigger] datagrams[i]),
    ensures
        relay_all_spec(mixer, datagrams) == datagrams.map_values(
            |datagram: DatagramView| echo_of(datagram),
        ),
    decreases datagrams.len(),
{
    if datagrams.len() > 0 {
        let earlier = datagrams.drop_last();
        lemma_echo_answers_every_datagram(mixer, earlier);
        lemma_policy_is_kept(mixer, earlier);
        lemma_echo_of_one(mixer_after_all(mixer, earlier), datagrams.last());
    }
}

/// Under the echo policy one audio datagram is answered by itself, sent back
/// to its sender.
pub proof fn lemma_echo_of_one(mixer: MixerView, datagram: DatagramView)
    requires
        mixer.policy == MixPolicy::Echo,
        is_audio_datagram(datagram),
    ensures
        relay_spec(mixer, datagram) == seq![echo_of(datagram)],
        mixer_after(mixer, datagram) == mixer,
{
    lemma_decoded_frame_is_reproduced(datagram.bytes, datagram.from);
    let answer = seq![datagram.decoded()->Ok_0];
    assert(transmissions_of(answer.drop_last()) =~= Seq::empty());
}

} // verus!
