//! The reading of a stream into a mono signal: which packets count, how many
//! mono samples each gives, and when the reading stops.
//!
//! The samples themselves are averaged over the channels elsewhere. This
//! module keeps the count, decides, packet by packet, whether another packet
//! is read, and tells how many of a packet's mono samples are kept, so that
//! no more are kept than the limit allows.

use crate::decode::TrackInfo;
use vstd::prelude::*;

verus! {

/// The sample rate that a track is taken to have where the container does
/// not say.
pub const DEFAULT_SAMPLE_RATE: u32 = 44100;

/// The number of channels that a track is taken to have where the container
/// does not say.
pub const DEFAULT_CHANNELS: usize = 2;

/// The seconds of audio that an analysis reads at most.
pub const ANALYSIS_SECONDS: usize = 60;

/// What became of one attempt to read a packet.
#[derive(Clone, Copy, Debug, PartialEq, Eq, Structural)]
pub enum PacketEvent {
    /// The demuxer gave no packet.
    Ended,
    /// The packet belongs to another track.
    OtherTrack,
    /// The packet could not be decoded.
    Undecodable,
    /// The packet was decoded to this many interleaved samples.
    Decoded(usize),
}

/// What an attempt to read a packet of a track comes to. `packet_track` is
/// the track of the packet that the demuxer gave, none where it gave no
/// packet, for whatever reason; `decoded` is the number of interleaved
/// samples that the decoder made of it, none where it failed, for whatever
/// reason. A packet of another track is not decoded, so `decoded` does not
/// count for it.
pub open spec fn event_of(track: TrackInfo, packet_track: Option<u32>, decoded: Option<usize>) ->
    PacketEvent {
    match packet_track {
        None => PacketEvent::Ended,
        Some(id) => if id != track.id {
            PacketEvent::OtherTrack
        } else {
            match decoded {
                None => PacketEvent::Undecodable,
                Some(samples) => PacketEvent::Decoded(samples),
            }
        },
    }
}

/// Whether a packet is one of the track that is read, and so is decoded.
pub fn belongs_to(track: &TrackInfo, packet_track: u32) -> (belongs: bool)
    ensures
        belongs == (packet_track == track.id),
{
    packet_track == track.id
}

/// Tells what an attempt to read a packet of a track comes to.
pub fn packet_event(track: &TrackInfo, packet_track: Option<u32>, decoded: Option<usize>) -> (event:
    PacketEvent)
    ensures
        event == event_of(*track, packet_track, decoded),
{
    match packet_track {
        None => PacketEvent::Ended,
        Some(id) => {
            if !belongs_to(track, id) {
                PacketEvent::OtherTrack
            } else {
                match decoded {
                    None => PacketEvent::Undecodable,
                    Some(samples) => PacketEvent::Decoded(samples),
                }
            }
        },
    }
}

/// The number of mono samples that `samples` interleaved samples of
/// `channels` channels give: one for every `channels` of them, and one for
/// what is left over.
pub open spec fn mono_samples_of(samples: int, channels: int) -> int {
    (samples + channels - 1) / channels
}

/// The most mono samples that an analysis reads before it stops asking for
/// packets: sixty seconds' worth, as far as that can be counted.
pub open spec fn analysis_limit(sample_rate: u32) -> usize {
    if sample_rate * ANALYSIS_SECONDS <= usize::MAX {
        (sample_rate * ANALYSIS_SECONDS) as usize
    } else {
        usize::MAX
    }
}

/// The state of the reading of one track.
#[derive(Clone, Copy, Debug, PartialEq, Eq, Structural)]
pub struct MonoLoader {
    /// The number of channels that the samples of a packet are divided by.
    pub channels: usize,
    /// The number of mono samples from which on no packet is read; none
    /// where the whole stream is read.
    pub limit: Option<usize>,
    /// The number of mono samples read so far.
    pub collected: usize,
    /// Whether the demuxer has given no packet.
    pub ended: bool,
}

impl MonoLoader {
    /// Whether another packet is to be read: the stream has not ended and
    /// the limit, if there is one, is not reached.
    pub open spec fn spec_wants_packet(&self) -> bool {
        &&& !self.ended
        &&& match self.limit {
            Some(limit) => self.collected < limit,
            None => true,
        }
    }

    /// The mono samples that can still be taken: what the limit leaves, or
    /// what can still be counted where there is no limit.
    pub open spec fn room(self) -> int {
        match self.limit {
            Some(limit) => if self.collected < limit {
                limit - self.collected
            } else {
                0
            },
            None => usize::MAX - self.collected,
        }
    }

    /// The mono samples that are kept of what one attempt to read a packet
    /// gave: those of the packet, but no more than there is room for.
    pub open spec fn kept(self, event: PacketEvent) -> int {
        match event {
            PacketEvent::Decoded(samples) => {
                let gained = mono_samples_of(samples as int, self.channels as int);
                if gained < self.room() {
                    gained
                } else {
                    self.room()
                }
            },
            _ => 0,
        }
    }

    /// The state after one attempt to read a packet.
    pub open spec fn after(self, event: PacketEvent) -> MonoLoader {
        match event {
            PacketEvent::Ended => MonoLoader { ended: true, ..self },
            PacketEvent::OtherTrack => self,
            PacketEvent::Undecodable => self,
            PacketEvent::Decoded(samples) => MonoLoader {
                collected: (self.collected + self.kept(event)) as usize,
                ..self
            },
        }
    }

    /// The loader of an analysis, which reads sixty seconds at most.
    pub fn for_analysis(track: &TrackInfo) -> (loader: MonoLoader)
        ensures
            loader == (MonoLoader {
                channels: match track.channels {
                    Some(count) => count,
                    None => DEFAULT_CHANNELS,
                },
                limit: Some(
                    analysis_limit(
                        match track.sample_rate {
                            Some(rate) => rate,
                            None => DEFAULT_SAMPLE_RATE,
                        },
                    ),
                ),
                collected: 0,
                ended: false,
            }),
    {
        let rate: u32 = match track.sample_rate {
            Some(rate) => rate,
            None => DEFAULT_SAMPLE_RATE,
        };
        let wanted: u64 = rate as u64 * ANALYSIS_SECONDS as u64;
        let limit: usize = if wanted <= usize::MAX as u64 {
            wanted as usize
        } else {
            usize::MAX
        };
        let channels: usize = match track.channels {
            Some(count) => count,
            None => DEFAULT_CHANNELS,
        };
        MonoLoader { channels, limit: Some(limit), collected: 0, ended: false }
    }

    /// The loader of a waveform, which reads the whole stream.
    pub fn for_waveform(track: &TrackInfo) -> (loader: MonoLoader)
        ensures
            loader == (MonoLoader {
                channels: match track.channels {
                    Some(count) => count,
                    None => DEFAULT_CHANNELS,
                },
                limit: None,
                collected: 0,
                ended: false,
            }),
    {
        let channels: usize = match track.channels {
            Some(count) => count,
            None => DEFAULT_CHANNELS,
        };
        MonoLoader { channels, limit: None, collected: 0, ended: false }
    }

    /// Whether another packet is to be read.
    pub fn wants_packet(&self) -> (wanted: bool)
        ensures
            wanted == self.spec_wants_packet(),
    {
        if self.ended {
            return false;
        }
        match self.limit {
            Some(limit) => self.collected < limit,
            None => true,
        }
    }

    /// Takes note of one attempt to read a packet and tells how many of the
    /// packet's mono samples are to be kept: the first so many. The count
    /// never passes the limit.
    pub fn record(&mut self, event: PacketEvent) -> (keep: usize)
        requires
            event is Decoded ==> old(self).channels > 0,
        ensures
            *final(self) == old(self).after(event),
            keep == old(self).kept(event),
            final(self).collected == old(self).collected + keep,
            match old(self).limit {
                Some(limit) => old(self).collected <= limit ==> final(self).collected <= limit,
                None => true,
            },
    {
        match event {
            PacketEvent::Ended => {
                self.ended = true;
                0
            },
            PacketEvent::OtherTrack => 0,
            PacketEvent::Undecodable => 0,
            PacketEvent::Decoded(samples) => {
                proof {
                    lemma_mono_samples(samples as int, self.channels as int);
                }
                let whole: usize = samples / self.channels;
                let gained: usize = if samples % self.channels == 0 {
                    whole
                } else {
                    whole + 1
                };
                let room: usize = match self.limit {
                    Some(limit) => if self.collected < limit {
                        limit - self.collected
                    } else {
                        0
                    },
                    None => usize::MAX - self.collected,
                };
                let keep: usize = if gained < room {
                    gained
                } else {
                    room
                };
                self.collected = self.collected + keep;
                keep
            },
        }
    }
}

proof fn lemma_mono_samples(samples: int, channels: int)
    requires
        0 <= samples,
        0 < channels,
    ensures
        mono_samples_of(samples, channels) == if samples % channels == 0 {
            samples / channels
        } else {
            samples / channels + 1
        },
        samples / channels <= samples,
        samples % channels != 0 ==> samples / channels < samples,
{
    let q = samples / channels;
    let r = samples % channels;
    vstd::arithmetic::div_mod::lemma_fundamental_div_mod(samples, channels);
    vstd::arithmetic::div_mod::lemma_mod_bound(samples, channels);
    vstd::arithmetic::div_mod::lemma_div_pos_is_pos(samples, channels);
    assert(q + r <= samples) by (nonlinear_arith)
        requires
            samples == channels * q + r,
            0 <= r,
            0 <= q,
            channels >= 1,
    ;
    if r == 0 {
        assert(samples + channels - 1 == channels * q + (channels - 1));
        vstd::arithmetic::div_mod::lemma_fundamental_div_mod_converse(
            samples + channels - 1,
            channels,
            q,
            channels - 1,
        );
    } else {
        assert(samples + channels - 1 == channels * (q + 1) + (r - 1)) by (nonlinear_arith)
            requires
                samples == channels * q + r,
        ;
        vstd::arithmetic::div_mod::lemma_fundamental_div_mod_converse(
            samples + channels - 1,
            channels,
            q + 1,
            r - 1,
        );
    }
}

/// A loader that starts within its limit stays within it, whatever the
/// packets give.
pub proof fn the_limit_is_never_passed(loader: MonoLoader, event: PacketEvent, limit: usize)
    requires
        loader.limit == Some(limit),
        loader.collected <= limit,
        event is Decoded ==> loader.channels > 0,
    ensures
        loader.after(event).collected <= limit,
        loader.after(event).limit == Some(limit),
{
    if let PacketEvent::Decoded(samples) = event {
        lemma_mono_samples(samples as int, loader.channels as int);
    }
}

} // verus!
