use sample_downloader::trim::{clip_packet, trim_packets, PacketClip, TrimWindow};

fn signal(frames: usize, channels: usize) -> Vec<i16> {
    (0..frames * channels).map(|n| (n % 30_000) as i16).collect()
}

fn cut(signal: &[i16], sizes: &[usize]) -> Vec<Vec<i16>> {
    let mut packets = Vec::new();
    let mut at = 0;
    let mut turn = 0;
    while at < signal.len() {
        let size = sizes[turn % sizes.len()].min(signal.len() - at);
        packets.push(signal[at..at + size].to_vec());
        at += size;
        turn += 1;
    }
    packets
}

#[test]
fn clip_of_a_packet_inside_the_window_is_the_whole_packet() {
    let window = TrimWindow { start: 10, end: 100 };
    assert_eq!(
        clip_packet(20, 16, 2, window),
        PacketClip { lo: 0, hi: 16, next_position: 28, done: false }
    );
}

#[test]
fn clip_cuts_the_front_of_a_packet_that_begins_before_the_window() {
    let window = TrimWindow { start: 10, end: 100 };
    assert_eq!(
        clip_packet(6, 16, 2, window),
        PacketClip { lo: 8, hi: 16, next_position: 14, done: false }
    );
}

#[test]
fn clip_cuts_the_back_of_a_packet_that_ends_after_the_window() {
    let window = TrimWindow { start: 10, end: 100 };
    assert_eq!(
        clip_packet(96, 16, 2, window),
        PacketClip { lo: 0, hi: 8, next_position: 104, done: true }
    );
}

#[test]
fn clip_cuts_both_ends_of_a_packet_that_spans_the_window() {
    let window = TrimWindow { start: 10, end: 12 };
    assert_eq!(
        clip_packet(8, 24, 3, window),
        PacketClip { lo: 6, hi: 12, next_position: 16, done: true }
    );
}

#[test]
fn clip_keeps_nothing_of_a_packet_outside_the_window() {
    let window = TrimWindow { start: 10, end: 100 };
    assert_eq!(
        clip_packet(0, 20, 2, window),
        PacketClip { lo: 0, hi: 0, next_position: 10, done: false }
    );
    assert_eq!(
        clip_packet(100, 20, 2, window),
        PacketClip { lo: 0, hi: 0, next_position: 110, done: true }
    );
    assert_eq!(
        clip_packet(0, 20, 2, TrimWindow { start: 0, end: 0 }),
        PacketClip { lo: 0, hi: 0, next_position: 10, done: true }
    );
}

#[test]
fn clip_keeps_nothing_where_the_window_is_turned_round() {
    let window = TrimWindow { start: 6, end: 4 };
    assert_eq!(
        clip_packet(0, 20, 2, window),
        PacketClip { lo: 0, hi: 0, next_position: 10, done: true }
    );
}

#[test]
fn clip_keeps_the_samples_left_over_behind_the_last_whole_frame() {
    let window = TrimWindow { start: 1, end: 10 };
    assert_eq!(
        clip_packet(0, 5, 2, window),
        PacketClip { lo: 2, hi: 5, next_position: 2, done: false }
    );
}

#[test]
fn clip_holds_the_position_at_the_largest_number() {
    let window = TrimWindow { start: 0, end: u64::MAX };
    assert_eq!(
        clip_packet(u64::MAX - 2, 8, 1, window),
        PacketClip { lo: 0, hi: 2, next_position: u64::MAX, done: true }
    );
}

#[test]
fn trim_keeps_the_frames_of_the_window() {
    let samples = signal(1_000, 2);
    let window = TrimWindow { start: 100, end: 350 };
    let kept = trim_packets(&cut(&samples, &[64]), 2, window);
    assert_eq!(kept.len(), (350 - 100) * 2);
    assert_eq!(kept, samples[200..700].to_vec());
}

#[test]
fn trim_is_the_same_however_the_signal_is_cut_into_packets() {
    let samples = signal(5_000, 2);
    let window = TrimWindow { start: 1_234, end: 4_321 };
    let expected = samples[2 * 1_234..2 * 4_321].to_vec();
    for sizes in [
        vec![2usize],
        vec![1_024],
        vec![2_048, 2],
        vec![6, 10, 2_000, 14],
        vec![10_000],
        vec![4_096, 512, 128],
    ] {
        assert_eq!(trim_packets(&cut(&samples, &sizes), 2, window), expected);
    }
}

#[test]
fn trim_of_one_channel_and_of_three() {
    let mono = signal(100, 1);
    assert_eq!(
        trim_packets(&cut(&mono, &[7]), 1, TrimWindow { start: 10, end: 20 }),
        mono[10..20].to_vec()
    );
    let three = signal(100, 3);
    assert_eq!(
        trim_packets(&cut(&three, &[9, 30]), 3, TrimWindow { start: 10, end: 20 }),
        three[30..60].to_vec()
    );
}

#[test]
fn trim_ends_with_the_signal_where_the_window_reaches_past_it() {
    let samples = signal(100, 2);
    let window = TrimWindow { start: 90, end: 500 };
    assert_eq!(trim_packets(&cut(&samples, &[16]), 2, window), samples[180..].to_vec());
    let beyond = TrimWindow { start: 100, end: 500 };
    assert_eq!(trim_packets(&cut(&samples, &[16]), 2, beyond), Vec::<i16>::new());
}

#[test]
fn trim_of_the_whole_signal_is_the_signal() {
    let samples = signal(100, 2);
    let window = TrimWindow { start: 0, end: 100 };
    assert_eq!(trim_packets(&cut(&samples, &[16]), 2, window), samples);
    let wide = TrimWindow { start: 0, end: u64::MAX };
    assert_eq!(trim_packets(&cut(&samples, &[16]), 2, wide), samples);
}

#[test]
fn trim_of_an_empty_window_is_empty() {
    let samples = signal(100, 2);
    for window in [
        TrimWindow { start: 0, end: 0 },
        TrimWindow { start: 50, end: 50 },
        TrimWindow { start: 60, end: 40 },
    ] {
        assert_eq!(trim_packets(&cut(&samples, &[16]), 2, window), Vec::<i16>::new());
    }
    assert_eq!(
        trim_packets(&Vec::new(), 2, TrimWindow { start: 0, end: 10 }),
        Vec::<i16>::new()
    );
}

#[test]
fn trim_does_not_look_past_the_packet_that_reaches_the_end() {
    let packets = vec![vec![1i16, 2, 3, 4], vec![5, 6, 7, 8], vec![9, 10, 11, 12]];
    let window = TrimWindow { start: 1, end: 3 };
    assert_eq!(trim_packets(&packets, 2, window), vec![3, 4, 5, 6]);
}
