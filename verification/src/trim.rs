//! Cutting a window of frames out of a stream of interleaved packets.
//!
//! A stream arrives as packets of interleaved samples. A frame is one sample
//! of every channel. The stream position counts the frames of the packets
//! seen so far; a packet of `len` samples advances it by `len / channels`.

use vstd::prelude::*;

verus! {

/// A half-open range of frames, `start <= frame < end`, counted from the
/// start of the stream.
#[derive(Clone, Copy, Debug, PartialEq, Eq, Structural)]
pub struct TrimWindow {
    /// The first frame inside the window.
    pub start: u64,
    /// The first frame after the window.
    pub end: u64,
}

/// What a window keeps of one packet, and where the stream stands after it.
#[derive(Clone, Copy, Debug, PartialEq, Eq, Structural)]
pub struct PacketClip {
    /// Index of the first interleaved sample to keep.
    pub lo: usize,
    /// One past the last interleaved sample to keep. `lo == hi` keeps nothing.
    pub hi: usize,
    /// The stream position after the packet, at most `u64::MAX`.
    pub next_position: u64,
    /// Whether the position after the packet has reached the window's end.
    pub done: bool,
}

/// Where the kept part of a packet begins: the frames before the window's
/// start are cut off its front.
pub open spec fn clip_lo(position: int, channels: int, window: TrimWindow) -> int {
    if position < window.start {
        (window.start - position) * channels
    } else {
        0
    }
}

/// Where the kept part of a packet ends: the frames from the window's end on
/// are cut off its back.
pub open spec fn clip_hi(position: int, len: int, channels: int, window: TrimWindow) -> int {
    let packet_end = position + len / channels;
    if packet_end > window.end {
        len - (packet_end - window.end) * channels
    } else {
        len
    }
}

/// Whether a packet of `len` samples at `position` has anything inside the
/// window.
pub open spec fn keeps(position: int, len: int, channels: int, window: TrimWindow) -> bool {
    &&& position + len / channels > window.start
    &&& position < window.end
    &&& clip_lo(position, channels, window) < clip_hi(position, len, channels, window)
}

/// The clip of a packet of `len` samples that begins at frame `position`.
pub open spec fn clip_of(position: int, len: int, channels: int, window: TrimWindow) -> PacketClip {
    let packet_end = position + len / channels;
    let kept = keeps(position, len, channels, window);
    PacketClip {
        lo: if kept {
            clip_lo(position, channels, window) as usize
        } else {
            0
        },
        hi: if kept {
            clip_hi(position, len, channels, window) as usize
        } else {
            0
        },
        next_position: if packet_end <= u64::MAX {
            packet_end as u64
        } else {
            u64::MAX
        },
        done: packet_end >= window.end,
    }
}

/// The samples that a window keeps of `packet`, which begins at `position`.
pub open spec fn kept_of(
    position: int,
    packet: Seq<i16>,
    channels: int,
    window: TrimWindow,
) -> Seq<i16> {
    if keeps(position, packet.len() as int, channels, window) {
        packet.subrange(
            clip_lo(position, channels, window),
            clip_hi(position, packet.len() as int, channels, window),
        )
    } else {
        Seq::empty()
    }
}

/// What a window keeps of a run of packets whose first begins at `position`.
/// Packets after the one that reaches the window's end are not looked at.
pub open spec fn trim_from(
    packets: Seq<Seq<i16>>,
    position: int,
    channels: int,
    window: TrimWindow,
) -> Seq<i16>
    decreases packets.len(),
{
    if packets.len() == 0 {
        Seq::empty()
    } else {
        let kept = kept_of(position, packets.first(), channels, window);
        let next = position + packets.first().len() / (channels as nat);
        if next >= window.end {
            kept
        } else {
            kept + trim_from(packets.drop_first(), next, channels, window)
        }
    }
}

/// What a window keeps of a whole stream.
pub open spec fn trimmed(packets: Seq<Seq<i16>>, channels: int, window: TrimWindow) -> Seq<i16> {
    trim_from(packets, 0, channels, window)
}

/// The packets of a vector as sequences.
pub open spec fn chunks(packets: Seq<Vec<i16>>) -> Seq<Seq<i16>> {
    packets.map_values(|p: Vec<i16>| p@)
}

proof fn lemma_scaled_below(a: int, b: int, c: int)
    requires
        0 <= a < b,
        c > 0,
    ensures
        0 <= a * c,
        a * c + c <= b * c,
{
    assert(0 <= a * c) by (nonlinear_arith)
        requires
            0 <= a,
            c > 0,
    ;
    assert(a * c + c <= b * c) by (nonlinear_arith)
        requires
            a + 1 <= b,
            c > 0,
    ;
}

proof fn lemma_frames_fit(len: int, channels: int)
    requires
        0 <= len,
        channels > 0,
    ensures
        0 <= len / channels,
        (len / channels) * channels <= len,
        len < (len / channels) * channels + channels,
        len / channels <= len,
{
    vstd::arithmetic::div_mod::lemma_fundamental_div_mod(len, channels);
    vstd::arithmetic::div_mod::lemma_mod_bound(len, channels);
    vstd::arithmetic::div_mod::lemma_div_pos_is_pos(len, channels);
    assert((len / channels) * channels == channels * (len / channels)) by (nonlinear_arith);
    assert(len / channels <= (len / channels) * channels) by (nonlinear_arith)
        requires
            0 <= len / channels,
            channels >= 1,
    ;
}

/// Clips one packet of `len` interleaved samples, which begins at frame
/// `position`, to `window`.
pub fn clip_packet(position: u64, len: usize, channels: usize, window: TrimWindow) -> (clip:
    PacketClip)
    requires
        channels > 0,
    ensures
        clip == clip_of(position as int, len as int, channels as int, window),
        clip.lo <= clip.hi <= len,
{
    let frames: usize = len / channels;
    proof {
        lemma_frames_fit(len as int, channels as int);
    }
    let ghost packet_end: int = position + frames;
    let past_start: bool = if position > window.start {
        true
    } else {
        frames as u64 > window.start - position
    };
    let done: bool = if position >= window.end {
        true
    } else {
        frames as u64 >= window.end - position
    };
    let next_position: u64 = if frames as u64 > u64::MAX - position {
        u64::MAX
    } else {
        position + frames as u64
    };
    assert(past_start == (packet_end > window.start));
    assert(done == (packet_end >= window.end));
    if !past_start || position >= window.end {
        return PacketClip { lo: 0, hi: 0, next_position, done };
    }
    let lo: usize = if position < window.start {
        let cut: usize = (window.start - position) as usize;
        proof {
            lemma_scaled_below(cut as int, frames as int, channels as int);
        }
        cut * channels
    } else {
        0
    };
    let hi: usize = if frames as u64 > window.end - position {
        let cut: usize = frames - (window.end - position) as usize;
        proof {
            lemma_scaled_below(cut as int - 1, frames as int, channels as int);
            assert((cut as int - 1) * channels + channels == cut * channels) by (nonlinear_arith);
        }
        len - cut * channels
    } else {
        len
    };
    assert(lo == clip_lo(position as int, channels as int, window));
    assert(hi == clip_hi(position as int, len as int, channels as int, window));
    if lo < hi {
        PacketClip { lo, hi, next_position, done }
    } else {
        PacketClip { lo: 0, hi: 0, next_position, done }
    }
}

/// Trims a stream that is already decoded: the packets in order, each a run
/// of interleaved samples.
pub fn trim_packets(packets: &Vec<Vec<i16>>, channels: usize, window: TrimWindow) -> (kept: Vec<
    i16,
>)
    requires
        channels > 0,
    ensures
        kept@ == trimmed(chunks(packets@), channels as int, window),
{
    let mut kept: Vec<i16> = Vec::new();
    let mut position: u64 = 0;
    let mut index: usize = 0;
    let ghost all = chunks(packets@);
    proof {
        assert(all.skip(0) =~= all);
        assert(kept@ + trimmed(all, channels as int, window) =~= trimmed(
            all,
            channels as int,
            window,
        ));
    }
    while index < packets.len()
        invariant
            channels > 0,
            index <= packets.len(),
            all == chunks(packets@),
            trimmed(all, channels as int, window) == kept@ + trim_from(
                all.skip(index as int),
                position as int,
                channels as int,
                window,
            ),
        decreases packets.len() - index,
    {
        let packet = &packets[index];
        let clip = clip_packet(position, packet.len(), channels, window);
        let ghost rest = all.skip(index as int);
        let ghost before = kept@;
        proof {
            assert(rest.first() == packet@);
            assert(rest.drop_first() =~= all.skip(index as int + 1));
        }
        let part = vstd::slice::slice_subrange(packet.as_slice(), clip.lo, clip.hi);
        kept.extend_from_slice(part);
        proof {
            assert(part@ =~= kept_of(position as int, packet@, channels as int, window));
            assert(kept@ =~= before + part@);
        }
        if clip.done {
            proof {
                assert(trim_from(rest, position as int, channels as int, window) == part@);
                assert(kept@ == trimmed(all, channels as int, window));
            }
            return kept;
        }
        proof {
            assert(trim_from(rest, position as int, channels as int, window) == part@
                + trim_from(
                all.skip(index as int + 1),
                clip.next_position as int,
                channels as int,
                window,
            ));
            assert(before + (part@ + trim_from(
                all.skip(index as int + 1),
                clip.next_position as int,
                channels as int,
                window,
            )) =~= (before + part@) + trim_from(
                all.skip(index as int + 1),
                clip.next_position as int,
                channels as int,
                window,
            ));
        }
        position = clip.next_position;
        index += 1;
    }
    proof {
        assert(all.skip(index as int).len() == 0);
        assert(kept@ + Seq::<i16>::empty() =~= kept@);
    }
    kept
}

/// Whether every packet holds whole frames only.
pub open spec fn whole_frames(packets: Seq<Seq<i16>>, channels: int) -> bool {
    forall|i: int| 0 <= i < packets.len() ==> (#[trigger] packets[i]).len() % (channels as nat) == 0
}

/// `x` held to the range from zero to `len`.
pub open spec fn held(x: int, len: int) -> int {
    if x < 0 {
        0
    } else if x > len {
        len
    } else {
        x
    }
}

/// The samples of `signal` that lie inside the window, where the signal's
/// first frame is frame `offset` of the stream.
pub open spec fn window_at(signal: Seq<i16>, offset: int, channels: int, window: TrimWindow) -> Seq<
    i16,
> {
    let lo = held((window.start - offset) * channels, signal.len() as int);
    let hi = held((window.end - offset) * channels, signal.len() as int);
    if lo < hi {
        signal.subrange(lo, hi)
    } else {
        Seq::empty()
    }
}

/// The samples of a whole signal that lie inside the window.
pub open spec fn window_of(signal: Seq<i16>, channels: int, window: TrimWindow) -> Seq<i16> {
    window_at(signal, 0, channels, window)
}

pub(crate) proof fn lemma_scale_order(a: int, b: int, c: int)
    requires
        c > 0,
    ensures
        (a < b) == (a * c < b * c),
        (a <= b) == (a * c <= b * c),
        (a - b) * c == a * c - b * c,
{
    assert((a - b) * c == a * c - b * c) by (nonlinear_arith);
    assert(a < b ==> a * c < b * c) by (nonlinear_arith)
        requires
            c > 0,
    ;
    assert(a >= b ==> a * c >= b * c) by (nonlinear_arith)
        requires
            c > 0,
    ;
    assert(a <= b ==> a * c <= b * c) by (nonlinear_arith)
        requires
            c > 0,
    ;
    assert(a > b ==> a * c > b * c) by (nonlinear_arith)
        requires
            c > 0,
    ;
}

proof fn lemma_trim_from_is_window(
    packets: Seq<Seq<i16>>,
    position: int,
    channels: int,
    window: TrimWindow,
)
    requires
        channels > 0,
        position >= 0,
        whole_frames(packets, channels),
    ensures
        trim_from(packets, position, channels, window) == window_at(
            packets.flatten(),
            position,
            channels,
            window,
        ),
    decreases packets.len(),
{
    if packets.len() == 0 {
        assert(packets.flatten() =~= Seq::<i16>::empty());
    } else {
        let first = packets.first();
        let rest = packets.drop_first();
        let n = first.len() as int;
        let q = n / channels;
        let total = packets.flatten();
        let tail = rest.flatten();
        assert(total =~= first + tail);
        assert(first == packets[0]);
        assert(n % channels == 0);
        assert(n == q * channels) by {
            vstd::arithmetic::div_mod::lemma_fundamental_div_mod(n, channels);
            assert(channels * q == q * channels) by (nonlinear_arith);
        }
        assert(whole_frames(rest, channels)) by {
            assert forall|i: int| 0 <= i < rest.len() implies (#[trigger] rest[i]).len() % (
            channels as nat) == 0 by {
                assert(rest[i] == packets[i + 1]);
            }
        }
        let s = (window.start - position) * channels;
        let e = (window.end - position) * channels;
        let next = position + q;
        lemma_scale_order(window.start - position, q, channels);
        lemma_scale_order(window.start - position, 0, channels);
        lemma_scale_order(window.end - position, q, channels);
        lemma_scale_order(window.end - position, 0, channels);
        lemma_scale_order(window.start - position, window.end - position, channels);
        assert((window.start - next) * channels == s - n) by (nonlinear_arith)
            requires
                s == (window.start - position) * channels,
                n == q * channels,
                next == position + q,
        ;
        assert((window.end - next) * channels == e - n) by (nonlinear_arith)
            requires
                e == (window.end - position) * channels,
                n == q * channels,
                next == position + q,
        ;
        assert((next - window.end) * channels == n - e) by (nonlinear_arith)
            requires
                e == (window.end - position) * channels,
                n == q * channels,
                next == position + q,
        ;
        let kept = kept_of(position, first, channels, window);
        assert(kept =~= window_at(first, position, channels, window));
        if next >= window.end {
            assert(trim_from(packets, position, channels, window) == kept);
            assert(window_at(total, position, channels, window) =~= window_at(
                first,
                position,
                channels,
                window,
            ));
        } else {
            lemma_trim_from_is_window(rest, next, channels, window);
            let beyond = window_at(tail, next, channels, window);
            assert(trim_from(packets, position, channels, window) == kept + beyond);
            assert(window_at(total, position, channels, window) =~= kept + beyond);
        }
    }
}

/// Trimming keeps exactly the samples of the signal that lie inside the
/// window, wherever the packet boundaries fall, as long as every packet holds
/// whole frames.
pub proof fn trim_is_window(packets: Seq<Seq<i16>>, channels: int, window: TrimWindow)
    requires
        channels > 0,
        whole_frames(packets, channels),
    ensures
        trimmed(packets, channels, window) == window_of(packets.flatten(), channels, window),
{
    lemma_trim_from_is_window(packets, 0, channels, window);
}

/// Two ways of cutting one signal into packets of whole frames give the same
/// trimmed samples.
pub proof fn trim_ignores_packet_boundaries(
    one: Seq<Seq<i16>>,
    other: Seq<Seq<i16>>,
    channels: int,
    window: TrimWindow,
)
    requires
        channels > 0,
        whole_frames(one, channels),
        whole_frames(other, channels),
        one.flatten() == other.flatten(),
    ensures
        trimmed(one, channels, window) == trimmed(other, channels, window),
{
    trim_is_window(one, channels, window);
    trim_is_window(other, channels, window);
}

/// The window of a signal of `frames` whole frames holds the frames from
/// `start` to `end`, as far as the signal reaches: all `end - start` of them
/// where the signal is at least `end` frames long.
pub proof fn window_length(signal: Seq<i16>, frames: int, channels: int, window: TrimWindow)
    requires
        channels > 0,
        signal.len() == frames * channels,
        window.start <= window.end,
    ensures
        window_of(signal, channels, window).len() == (held(window.end as int, frames) - held(
            window.start as int,
            frames,
        )) * channels,
        frames >= window.end ==> window_of(signal, channels, window).len() == (window.end
            - window.start) * channels,
{
    lemma_scale_order(window.start as int, frames, channels);
    lemma_scale_order(window.end as int, frames, channels);
    lemma_scale_order(window.start as int, window.end as int, channels);
    lemma_scale_order(0, frames, channels);
    lemma_scale_order(held(window.end as int, frames), held(window.start as int, frames), channels);
    assert((window.start - 0) * channels == window.start * channels);
    assert((window.end - 0) * channels == window.end * channels);
    assert(0 * channels == 0);
}

} // verus!
