//! The three stages side by side: each on its own, joined to the next by a
//! queue that keeps the order of what goes in.
//!
//! Which stage takes its next item when is up to the scheduler. This module
//! shows that it makes no difference to what is sent: under every schedule
//! the frames leave in the order, and are the frames, that the stages back
//! to back would send (see [`crate::pipeline`]).
//!
//! The model holds while every stage runs: no queue is full or closed and
//! the socket is good.

use vstd::prelude::*;
use crate::dispatch::{transmission_of, transmissions_of, TransmissionView};
use crate::ingest::DatagramView;
use crate::message::AudioMessageView;
use crate::mixer::{MixPolicy, MixerView};
use crate::pipeline::{
    echo_of,
    is_audio_datagram,
    lemma_echo_answers_every_datagram,
    mixer_after_all,
    relay_all_spec,
};
use crate::schema::payload_well_formed;

verus! {

/// A stage that takes its next item.
pub ghost enum Turn {
    /// Ingestion reads the next datagram.
    Ingest,
    /// Mixing takes the next message from ingestion.
    Mix,
    /// Dispatch takes the next message from mixing.
    Dispatch,
}

/// The pipeline at one moment.
pub ghost struct InFlight {
    /// The datagrams that have arrived and are not read yet, oldest first.
    pub arriving: Seq<DatagramView>,
    /// The queue from ingestion to mixing, oldest first.
    pub to_mixer: Seq<AudioMessageView>,
    /// The mixer.
    pub mixer: MixerView,
    /// The queue from mixing to dispatch, oldest first.
    pub to_dispatch: Seq<AudioMessageView>,
    /// The frames handed to the socket so far, in the order sent.
    pub sent: Seq<TransmissionView>,
}

/// The messages that ingestion makes of `datagrams`, in their order.
pub open spec fn ingest_all(datagrams: Seq<DatagramView>) -> Seq<AudioMessageView> {
    datagrams.filter_map(
        |datagram: DatagramView|
            match datagram.decoded() {
                Ok(message) => Some(message),
                Err(_) => None,
            },
    )
}

/// What the mixing stage hands on for one message: what the policy makes of
/// it if its payload is readable audio, else nothing.
pub open spec fn mixed(mixer: MixerView, message: AudioMessageView) -> Seq<AudioMessageView> {
    match mixer.answer(message, payload_well_formed(message.payload)) {
        Ok(out) => out,
        Err(_) => Seq::empty(),
    }
}

/// The mixer after the mixing stage has taken one message.
pub open spec fn mixer_after_message(mixer: MixerView, message: AudioMessageView) -> MixerView {
    mixer.after_checked(message, payload_well_formed(message.payload))
}

/// The mixer after the mixing stage has taken `messages`.
pub open spec fn mixer_after_messages(mixer: MixerView, messages: Seq<AudioMessageView>) -> MixerView
    decreases messages.len(),
{
    if messages.len() == 0 {
        mixer
    } else {
        mixer_after_message(mixer_after_messages(mixer, messages.drop_last()), messages.last())
    }
}

/// What the mixing stage hands on for `messages`, in order.
pub open spec fn mix_all(mixer: MixerView, messages: Seq<AudioMessageView>) -> Seq<
    AudioMessageView,
>
    decreases messages.len(),
{
    if messages.len() == 0 {
        Seq::empty()
    } else {
        mix_all(mixer, messages.drop_last()) + mixed(
            mixer_after_messages(mixer, messages.drop_last()),
            messages.last(),
        )
    }
}

impl InFlight {
    /// The pipeline before anything is read: `datagrams` have arrived, the
    /// queues are empty, nothing is sent.
    pub open spec fn start(mixer: MixerView, datagrams: Seq<DatagramView>) -> InFlight {
        InFlight {
            arriving: datagrams,
            to_mixer: Seq::empty(),
            mixer,
            to_dispatch: Seq::empty(),
            sent: Seq::empty(),
        }
    }

    /// Whether nothing is left to do: every datagram is read and both queues
    /// are empty.
    pub open spec fn drained(self) -> bool {
        self.arriving.len() == 0 && self.to_mixer.len() == 0 && self.to_dispatch.len() == 0
    }

    /// The pipeline after one stage has taken its next item. A stage that
    /// finds nothing to take leaves everything as it is.
    pub open spec fn after(self, turn: Turn) -> InFlight {
        match turn {
            Turn::Ingest => if self.arriving.len() == 0 {
                self
            } else {
                InFlight {
                    arriving: self.arriving.drop_first(),
                    to_mixer: match self.arriving.first().decoded() {
                        Ok(message) => self.to_mixer.push(message),
                        Err(_) => self.to_mixer,
                    },
                    ..self
                }
            },
            Turn::Mix => if self.to_mixer.len() == 0 {
                self
            } else {
                InFlight {
                    to_mixer: self.to_mixer.drop_first(),
                    mixer: mixer_after_message(self.mixer, self.to_mixer.first()),
                    to_dispatch: self.to_dispatch + mixed(self.mixer, self.to_mixer.first()),
                    ..self
                }
            },
            Turn::Dispatch => if self.to_dispatch.len() == 0 {
                self
            } else {
                InFlight {
                    to_dispatch: self.to_dispatch.drop_first(),
                    sent: match transmission_of(self.to_dispatch.first()) {
                        Ok(transmission) => self.sent.push(transmission),
                        Err(_) => self.sent,
                    },
                    ..self
                }
            },
        }
    }

    /// The pipeline after the stages have taken their turns as `schedule`
    /// says.
    pub open spec fn after_all(self, schedule: Seq<Turn>) -> InFlight
        decreases schedule.len(),
    {
        if schedule.len() == 0 {
            self
        } else {
            self.after_all(schedule.drop_last()).after(schedule.last())
        }
    }

    /// Everything the pipeline has sent and has still to send, in order:
    /// what is sent, then what is due for the messages waiting for dispatch,
    /// for those waiting for the mixer, and for the datagrams not yet read.
    pub open spec fn owed(self) -> Seq<TransmissionView> {
        self.sent + transmissions_of(
            self.to_dispatch + mix_all(self.mixer, self.to_mixer + ingest_all(self.arriving)),
        )
    }
}

/// What is due for two runs of messages is what is due for the first, then
/// what is due for the second.
pub proof fn lemma_transmissions_split(first: Seq<AudioMessageView>, second: Seq<AudioMessageView>)
    ensures
        transmissions_of(first + second) == transmissions_of(first) + transmissions_of(second),
    decreases second.len(),
{
    if second.len() > 0 {
        lemma_transmissions_split(first, second.drop_last());
        assert((first + second).drop_last() =~= first + second.drop_last());
    }
}

/// What ingestion makes of two runs of datagrams is what it makes of the
/// first, then what it makes of the second.
pub proof fn lemma_ingest_splits(first: Seq<DatagramView>, second: Seq<DatagramView>)
    ensures
        ingest_all(first + second) == ingest_all(first) + ingest_all(second),
    decreases second.len(),
{
    if second.len() > 0 {
        lemma_ingest_splits(first, second.drop_last());
        assert((first + second).drop_last() =~= first + second.drop_last());
    }
}

/// Two runs of messages through the mixer: the second run meets the mixer
/// as the first left it.
pub proof fn lemma_mix_splits(
    mixer: MixerView,
    first: Seq<AudioMessageView>,
    second: Seq<AudioMessageView>,
)
    ensures
        mixer_after_messages(mixer, first + second) == mixer_after_messages(
            mixer_after_messages(mixer, first),
            second,
        ),
        mix_all(mixer, first + second) == mix_all(mixer, first) + mix_all(
            mixer_after_messages(mixer, first),
            second,
        ),
    decreases second.len(),
{
    if second.len() > 0 {
        lemma_mix_splits(mixer, first, second.drop_last());
        assert((first + second).drop_last() =~= first + second.drop_last());
    }
}

/// The stages back to back are ingestion, then mixing, then dispatch: what
/// is sent for a run of datagrams is what is due for what the mixer hands on
/// for what ingestion makes of them.
pub proof fn lemma_relay_is_ingest_mix_dispatch(mixer: MixerView, datagrams: Seq<DatagramView>)
    ensures
        relay_all_spec(mixer, datagrams) == transmissions_of(
            mix_all(mixer, ingest_all(datagrams)),
        ),
        mixer_after_all(mixer, datagrams) == mixer_after_messages(mixer, ingest_all(datagrams)),
    decreases datagrams.len(),
{
    if datagrams.len() > 0 {
        let earlier = datagrams.drop_last();
        let last = datagrams.last();
        lemma_relay_is_ingest_mix_dispatch(mixer, earlier);
        match last.decoded() {
            Ok(message) => {
                let taken = ingest_all(earlier);
                assert(ingest_all(datagrams) =~= taken.push(message));
                assert(taken.push(message).drop_last() =~= taken);
                lemma_transmissions_split(
                    mix_all(mixer, taken),
                    mixed(mixer_after_messages(mixer, taken), message),
                );
            },
            Err(_) => {},
        }
    }
}

/// What ingestion makes of one datagram.
proof fn lemma_ingest_of_one(datagram: DatagramView)
    ensures
        ingest_all(seq![datagram]) == match datagram.decoded() {
            Ok(message) => seq![message],
            Err(_) => Seq::empty(),
        },
{
    let one = seq![datagram];
    assert(ingest_all(one.drop_last()) =~= Seq::empty());
}

/// What the mixing stage makes of one message.
proof fn lemma_mix_of_one(mixer: MixerView, message: AudioMessageView)
    ensures
        mix_all(mixer, seq![message]) == mixed(mixer, message),
        mixer_after_messages(mixer, seq![message]) == mixer_after_message(mixer, message),
{
    let one = seq![message];
    assert(mix_all(mixer, one.drop_last()) =~= Seq::empty());
}

/// What is due for one message.
proof fn lemma_transmission_of_one(message: AudioMessageView)
    ensures
        transmissions_of(seq![message]) == match transmission_of(message) {
            Ok(transmission) => seq![transmission],
            Err(_) => Seq::empty(),
        },
{
    let one = seq![message];
    assert(transmissions_of(one.drop_last()) =~= Seq::empty());
}

/// A turn of ingestion moves a datagram into the queue to the mixer, or
/// drops it; what is owed stays.
proof fn lemma_ingest_turn(pipeline: InFlight)
    requires
        pipeline.arriving.len() > 0,
    ensures
        pipeline.after(Turn::Ingest).owed() == pipeline.owed(),
{
    let next = pipeline.after(Turn::Ingest);
    let head = seq![pipeline.arriving.first()];
    assert(pipeline.arriving =~= head + next.arriving);
    lemma_ingest_splits(head, next.arriving);
    lemma_ingest_of_one(pipeline.arriving.first());
    assert(next.to_mixer + ingest_all(next.arriving) =~= pipeline.to_mixer + ingest_all(
        pipeline.arriving,
    ));
}

/// A turn of the mixer moves what it makes of a message into the queue to
/// dispatch; what is owed stays.
proof fn lemma_mix_turn(pipeline: InFlight)
    requires
        pipeline.to_mixer.len() > 0,
    ensures
        pipeline.after(Turn::Mix).owed() == pipeline.owed(),
{
    let next = pipeline.after(Turn::Mix);
    let head = seq![pipeline.to_mixer.first()];
    let waiting = next.to_mixer + ingest_all(pipeline.arriving);
    assert(pipeline.to_mixer + ingest_all(pipeline.arriving) =~= head + waiting);
    lemma_mix_splits(pipeline.mixer, head, waiting);
    lemma_mix_of_one(pipeline.mixer, pipeline.to_mixer.first());
    assert(next.to_dispatch + mix_all(next.mixer, waiting) =~= pipeline.to_dispatch + mix_all(
        pipeline.mixer,
        head + waiting,
    ));
}

/// A turn of dispatch sends what is due for a message, or drops it; what is
/// owed stays.
proof fn lemma_dispatch_turn(pipeline: InFlight)
    requires
        pipeline.to_dispatch.len() > 0,
    ensures
        pipeline.after(Turn::Dispatch).owed() == pipeline.owed(),
{
    let next = pipeline.after(Turn::Dispatch);
    let head = seq![pipeline.to_dispatch.first()];
    let behind = mix_all(pipeline.mixer, pipeline.to_mixer + ingest_all(pipeline.arriving));
    assert(pipeline.to_dispatch + behind =~= head + (next.to_dispatch + behind));
    lemma_transmissions_split(head, next.to_dispatch + behind);
    lemma_transmission_of_one(pipeline.to_dispatch.first());
}

/// One turn changes nothing of what the pipeline owes: an item moves on by
/// one stage, and what is due for it moves with it.
pub proof fn lemma_turn_keeps_what_is_owed(pipeline: InFlight, turn: Turn)
    ensures
        pipeline.after(turn).owed() == pipeline.owed(),
{
    match turn {
        Turn::Ingest => {
            if pipeline.arriving.len() > 0 {
                lemma_ingest_turn(pipeline);
            }
        },
        Turn::Mix => {
            if pipeline.to_mixer.len() > 0 {
                lemma_mix_turn(pipeline);
            }
        },
        Turn::Dispatch => {
            if pipeline.to_dispatch.len() > 0 {
                lemma_dispatch_turn(pipeline);
            }
        },
    }
}

/// No schedule changes what the pipeline owes.
pub proof fn lemma_schedule_keeps_what_is_owed(pipeline: InFlight, schedule: Seq<Turn>)
    ensures
        pipeline.after_all(schedule).owed() == pipeline.owed(),
    decreases schedule.len(),
{
    if schedule.len() > 0 {
        lemma_schedule_keeps_what_is_owed(pipeline, schedule.drop_last());
        lemma_turn_keeps_what_is_owed(pipeline.after_all(schedule.drop_last()), schedule.last());
    }
}

/// A schedule in two parts: the second part starts where the first ends.
pub proof fn lemma_schedule_splits(pipeline: InFlight, first: Seq<Turn>, second: Seq<Turn>)
    ensures
        pipeline.after_all(first + second) == pipeline.after_all(first).after_all(second),
    decreases second.len(),
{
    if second.len() > 0 {
        lemma_schedule_splits(pipeline, first, second.drop_last());
        assert((first + second).drop_last() =~= first + second.drop_last());
    }
}

/// The schedule in which one stage takes `n` turns in a row.
pub open spec fn turns_in_a_row(turn: Turn, n: nat) -> Seq<Turn> {
    Seq::new(n, |i: int| turn)
}

/// What `n` turns in a row do to the queue that the stage reads: it is
/// shorter by `n`, as long as it held that many, and the queues before it
/// in the pipeline are as they were.
proof fn lemma_turns_in_a_row(pipeline: InFlight, turn: Turn, n: nat)
    requires
        n <= match turn {
            Turn::Ingest => pipeline.arriving.len(),
            Turn::Mix => pipeline.to_mixer.len(),
            Turn::Dispatch => pipeline.to_dispatch.len(),
        },
    ensures
        match turn {
            Turn::Ingest => pipeline.after_all(turns_in_a_row(turn, n)).arriving.len()
                == pipeline.arriving.len() - n,
            Turn::Mix => {
                &&& pipeline.after_all(turns_in_a_row(turn, n)).arriving == pipeline.arriving
                &&& pipeline.after_all(turns_in_a_row(turn, n)).to_mixer.len()
                    == pipeline.to_mixer.len() - n
            },
            Turn::Dispatch => {
                &&& pipeline.after_all(turns_in_a_row(turn, n)).arriving == pipeline.arriving
                &&& pipeline.after_all(turns_in_a_row(turn, n)).to_mixer == pipeline.to_mixer
                &&& pipeline.after_all(turns_in_a_row(turn, n)).to_dispatch.len()
                    == pipeline.to_dispatch.len() - n
            },
        },
    decreases n,
{
    if n > 0 {
        lemma_turns_in_a_row(pipeline, turn, (n - 1) as nat);
        assert(turns_in_a_row(turn, n).drop_last() =~= turns_in_a_row(turn, (n - 1) as nat));
    }
}

/// There is always a way to finish: from any moment some schedule leaves
/// nothing to do. One such schedule lets ingestion read every datagram,
/// then the mixer take every message, then dispatch send every frame.
pub proof fn lemma_some_schedule_drains(pipeline: InFlight)
    ensures
        exists|schedule: Seq<Turn>| (#[trigger] pipeline.after_all(schedule)).drained(),
{
    let read_all = turns_in_a_row(Turn::Ingest, pipeline.arriving.len());
    let read = pipeline.after_all(read_all);
    lemma_turns_in_a_row(pipeline, Turn::Ingest, pipeline.arriving.len());
    let take_all = turns_in_a_row(Turn::Mix, read.to_mixer.len());
    let mixed_up = read.after_all(take_all);
    lemma_turns_in_a_row(read, Turn::Mix, read.to_mixer.len());
    let send_all = turns_in_a_row(Turn::Dispatch, mixed_up.to_dispatch.len());
    let done = mixed_up.after_all(send_all);
    lemma_turns_in_a_row(mixed_up, Turn::Dispatch, mixed_up.to_dispatch.len());
    lemma_schedule_splits(pipeline, read_all, take_all);
    lemma_schedule_splits(pipeline, read_all + take_all, send_all);
    assert(pipeline.after_all(read_all + take_all + send_all) == done);
    assert(done.drained());
}

/// The schedule does not matter. Start the pipeline on a run of datagrams
/// and let the stages take their turns in any order: at every moment what
/// has been sent is the beginning of what the stages back to back would
/// send, frame for frame and in the same order; and once nothing is left to
/// do, it is all of it.
pub proof fn lemma_every_schedule_sends_the_same(
    mixer: MixerView,
    datagrams: Seq<DatagramView>,
    schedule: Seq<Turn>,
)
    ensures
        InFlight::start(mixer, datagrams).after_all(schedule).sent.is_prefix_of(
            relay_all_spec(mixer, datagrams),
        ),
        InFlight::start(mixer, datagrams).after_all(schedule).drained() ==> InFlight::start(
            mixer,
            datagrams,
        ).after_all(schedule).sent == relay_all_spec(mixer, datagrams),
{
    let start = InFlight::start(mixer, datagrams);
    let now = start.after_all(schedule);
    lemma_schedule_keeps_what_is_owed(start, schedule);
    lemma_relay_is_ingest_mix_dispatch(mixer, datagrams);
    assert(start.owed() =~= relay_all_spec(mixer, datagrams));
    let rest = transmissions_of(
        now.to_dispatch + mix_all(now.mixer, now.to_mixer + ingest_all(now.arriving)),
    );
    assert(now.sent + rest == relay_all_spec(mixer, datagrams));
    if now.drained() {
        assert(rest =~= Seq::empty());
    }
}

/// Liveness under the echo policy, whatever the schedule: of N audio
/// datagrams, once nothing is left to do exactly N frames have been sent,
/// each the datagram as it came, back to its sender, in the order in which
/// the datagrams arrived.
pub proof fn lemma_echo_is_live_under_every_schedule(
    mixer: MixerView,
    datagrams: Seq<DatagramView>,
    schedule: Seq<Turn>,
)
    requires
        mixer.policy == MixPolicy::Echo,
        forall|i: int| 0 <= i < datagrams.len() ==> is_audio_datagram(#[trigger] datagrams[i]),
        InFlight::start(mixer, datagrams).after_all(schedule).drained(),
    ensures
        InFlight::start(mixer, datagrams).after_all(schedule).sent == datagrams.map_values(
            |datagram: DatagramView| echo_of(datagram),
        ),
        InFlight::start(mixer, datagrams).after_all(schedule).sent.len() == datagrams.len(),
{
    lemma_every_schedule_sends_the_same(mixer, datagrams, schedule);
    lemma_echo_answers_every_datagram(mixer, datagrams);
}

} // verus!
