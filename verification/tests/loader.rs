use sample_downloader::decode::{select_track, TrackInfo};
use sample_downloader::loader::{belongs_to, packet_event, MonoLoader, PacketEvent};

fn track(sample_rate: Option<u32>, channels: Option<usize>) -> TrackInfo {
    TrackInfo { id: 1, has_codec: true, sample_rate, channels }
}

#[test]
fn the_first_track_with_a_codec_is_chosen() {
    let plain = TrackInfo { id: 7, has_codec: false, sample_rate: None, channels: None };
    let coded = TrackInfo { id: 8, has_codec: true, sample_rate: Some(48_000), channels: Some(2) };
    let later = TrackInfo { id: 9, has_codec: true, sample_rate: Some(44_100), channels: Some(1) };
    assert_eq!(select_track(&vec![plain, coded, later]), Some(1));
    assert_eq!(select_track(&vec![coded, plain]), Some(0));
    assert_eq!(select_track(&vec![plain, plain]), None);
    assert_eq!(select_track(&vec![]), None);
}

#[test]
fn an_analysis_reads_sixty_seconds_at_most() {
    let loader = MonoLoader::for_analysis(&track(Some(48_000), Some(1)));
    assert_eq!(
        loader,
        MonoLoader { channels: 1, limit: Some(2_880_000), collected: 0, ended: false }
    );
    let unknown = MonoLoader::for_analysis(&track(None, None));
    assert_eq!(
        unknown,
        MonoLoader { channels: 2, limit: Some(2_646_000), collected: 0, ended: false }
    );
}

#[test]
fn a_waveform_reads_the_whole_stream() {
    let loader = MonoLoader::for_waveform(&track(Some(48_000), None));
    assert_eq!(loader, MonoLoader { channels: 2, limit: None, collected: 0, ended: false });
    assert!(loader.wants_packet());
}

#[test]
fn a_packet_gives_one_mono_sample_for_every_frame_and_one_for_the_rest() {
    let mut loader = MonoLoader::for_waveform(&track(None, Some(2)));
    assert_eq!(loader.record(PacketEvent::Decoded(2_048)), 1_024);
    assert_eq!(loader.collected, 1_024);
    assert_eq!(loader.record(PacketEvent::Decoded(5)), 3);
    assert_eq!(loader.collected, 1_027);
    assert_eq!(loader.record(PacketEvent::Decoded(0)), 0);
    assert_eq!(loader.collected, 1_027);
    let mut three = MonoLoader::for_waveform(&track(None, Some(3)));
    assert_eq!(three.record(PacketEvent::Decoded(7)), 3);
    assert_eq!(three.collected, 3);
}

#[test]
fn other_tracks_and_bad_packets_change_nothing() {
    let mut loader = MonoLoader::for_analysis(&track(Some(100), Some(2)));
    loader.record(PacketEvent::Decoded(100));
    let before = loader;
    assert_eq!(loader.record(PacketEvent::OtherTrack), 0);
    assert_eq!(loader.record(PacketEvent::Undecodable), 0);
    assert_eq!(loader, before);
    assert!(loader.wants_packet());
}

#[test]
fn reading_stops_at_the_limit_or_at_the_end() {
    let mut loader = MonoLoader::for_analysis(&track(Some(100), Some(2)));
    let mut packets = 0;
    while loader.wants_packet() {
        loader.record(PacketEvent::Decoded(2_000));
        packets += 1;
    }
    assert_eq!(packets, 6);
    assert_eq!(loader.collected, 6_000);
    let mut odd = MonoLoader::for_analysis(&track(Some(100), Some(2)));
    let mut kept = Vec::new();
    while odd.wants_packet() {
        kept.push(odd.record(PacketEvent::Decoded(2_200)));
    }
    assert_eq!(kept, vec![1_100, 1_100, 1_100, 1_100, 1_100, 500]);
    assert_eq!(odd.collected, 6_000);
    let mut one = MonoLoader::for_analysis(&track(Some(100), Some(1)));
    assert_eq!(one.record(PacketEvent::Decoded(7_000)), 6_000);
    assert_eq!(one.collected, 6_000);
    assert!(!one.wants_packet());
    assert_eq!(one.record(PacketEvent::Decoded(10)), 0);
    assert_eq!(one.collected, 6_000);
    let mut ended = MonoLoader::for_analysis(&track(Some(100), Some(2)));
    ended.record(PacketEvent::Decoded(10));
    ended.record(PacketEvent::Ended);
    assert!(!ended.wants_packet());
    assert_eq!(ended.collected, 5);
}

#[test]
fn a_rate_of_zero_reads_nothing() {
    let loader = MonoLoader::for_analysis(&track(Some(0), Some(2)));
    assert_eq!(loader.limit, Some(0));
    assert!(!loader.wants_packet());
}

#[test]
fn the_count_is_held_at_the_largest_number() {
    let mut loader =
        MonoLoader { channels: 1, limit: None, collected: usize::MAX - 3, ended: false };
    assert_eq!(loader.record(PacketEvent::Decoded(10)), 3);
    assert_eq!(loader.collected, usize::MAX);
    assert_eq!(loader.record(PacketEvent::Decoded(10)), 0);
}

#[test]
fn an_attempt_to_read_a_packet_comes_to_an_event() {
    let wanted = TrackInfo { id: 4, has_codec: true, sample_rate: None, channels: None };
    assert_eq!(packet_event(&wanted, None, None), PacketEvent::Ended);
    assert_eq!(packet_event(&wanted, None, Some(7)), PacketEvent::Ended);
    assert_eq!(packet_event(&wanted, Some(3), None), PacketEvent::OtherTrack);
    assert_eq!(packet_event(&wanted, Some(3), Some(7)), PacketEvent::OtherTrack);
    assert_eq!(packet_event(&wanted, Some(4), None), PacketEvent::Undecodable);
    assert_eq!(packet_event(&wanted, Some(4), Some(7)), PacketEvent::Decoded(7));
    assert_eq!(packet_event(&wanted, Some(4), Some(0)), PacketEvent::Decoded(0));
    assert!(belongs_to(&wanted, 4));
    assert!(!belongs_to(&wanted, 0));
}
