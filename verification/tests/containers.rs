use sample_downloader::decode::{
    choose_track, list_tracks, probe_refusal, select_track, OpenError, StreamFault, TrackInfo,
};
use sample_downloader::transcode::{
    convert_to_mp3, convert_to_mp3_trimmed, ConvertError, StreamEvent,
};
use sample_downloader::trim::TrimWindow;

struct Opened {
    tracks: Vec<TrackInfo>,
    index: usize,
    track: TrackInfo,
    decoder_failure: Option<symphonia::core::errors::Error>,
    events: Vec<StreamEvent>,
}

fn open(bytes: Vec<u8>, extension: Option<&str>) -> Result<Opened, OpenError> {
    let stream = symphonia::core::io::MediaSourceStream::new(
        Box::new(std::io::Cursor::new(bytes)),
        Default::default(),
    );
    let mut hint = symphonia::core::probe::Hint::new();
    if let Some(extension) = extension {
        hint.with_extension(extension);
    }
    let mut probed = match symphonia::default::get_probe().format(
        &hint,
        stream,
        &Default::default(),
        &Default::default(),
    ) {
        Ok(probed) => probed,
        Err(error) => return Err(probe_refusal(&error)),
    };
    let tracks = list_tracks(&probed);
    let (index, track) = choose_track(&probed)?;
    let params = probed.format.tracks()[index].codec_params.clone();
    let mut events = Vec::new();
    let mut decoder = match symphonia::default::get_codecs().make(&params, &Default::default()) {
        Ok(decoder) => decoder,
        Err(error) => {
            return Ok(Opened { tracks, index, track, decoder_failure: Some(error), events });
        }
    };
    loop {
        let packet = match probed.format.next_packet() {
            Ok(packet) => packet,
            Err(error) => {
                events.push(StreamEvent::no_packet(&error));
                break;
            }
        };
        if packet.track_id() != track.id {
            events.push(StreamEvent::OtherTrack);
            continue;
        }
        match decoder.decode(&packet) {
            Ok(decoded) => {
                let mut buffer = symphonia::core::audio::SampleBuffer::<i16>::new(
                    decoded.capacity() as u64,
                    *decoded.spec(),
                );
                buffer.copy_interleaved_ref(decoded);
                events.push(StreamEvent::Decoded(buffer.samples().to_vec()));
            }
            Err(error) => {
                events.push(StreamEvent::undecodable(&error));
            }
        }
    }
    Ok(Opened { tracks, index, track, decoder_failure: None, events })
}

fn ogg_checksum(bytes: &[u8]) -> u32 {
    let mut crc: u32 = 0;
    for &byte in bytes {
        crc ^= (byte as u32) << 24;
        for _ in 0..8 {
            crc = if crc & 0x8000_0000 != 0 { (crc << 1) ^ 0x04c1_1db7 } else { crc << 1 };
        }
    }
    crc
}

fn ogg_page(kind: u8, granule: u64, sequence: u32, packet: &[u8]) -> Vec<u8> {
    ogg_page_of(0x1234_5678, kind, granule, sequence, packet)
}

fn ogg_page_of(serial: u32, kind: u8, granule: u64, sequence: u32, packet: &[u8]) -> Vec<u8> {
    let mut page = Vec::new();
    page.extend_from_slice(b"OggS");
    page.push(0);
    page.push(kind);
    page.extend_from_slice(&granule.to_le_bytes());
    page.extend_from_slice(&serial.to_le_bytes());
    page.extend_from_slice(&sequence.to_le_bytes());
    page.extend_from_slice(&0u32.to_le_bytes());
    page.push(1);
    page.push(packet.len() as u8);
    page.extend_from_slice(packet);
    let checksum = ogg_checksum(&page);
    page[22..26].copy_from_slice(&checksum.to_le_bytes());
    page
}

fn ogg_stream(first_packet: &[u8], second_packet: &[u8]) -> Vec<u8> {
    let mut bytes = ogg_page(2, 0, 0, first_packet);
    bytes.extend(ogg_page(0, 0, 1, second_packet));
    bytes.extend(ogg_page(0, 960, 2, &[0xfc, 0xff, 0xfe]));
    bytes.extend(ogg_page(4, 1920, 3, &[0xfc, 0xff, 0xfe]));
    bytes
}

fn opus_head() -> Vec<u8> {
    let mut head = Vec::new();
    head.extend_from_slice(b"OpusHead");
    head.push(1);
    head.push(2);
    head.extend_from_slice(&312u16.to_le_bytes());
    head.extend_from_slice(&48_000u32.to_le_bytes());
    head.extend_from_slice(&0u16.to_le_bytes());
    head.push(0);
    head
}

fn opus_tags() -> Vec<u8> {
    let mut tags = Vec::new();
    tags.extend_from_slice(b"OpusTags");
    tags.extend_from_slice(&0u32.to_le_bytes());
    tags.extend_from_slice(&0u32.to_le_bytes());
    tags
}

fn opus_stream() -> Vec<u8> {
    ogg_stream(&opus_head(), &opus_tags())
}

#[test]
fn a_stream_without_a_known_codec_is_passed_over() {
    let mut bytes = ogg_page_of(7, 2, 0, 0, b"not a codec header");
    bytes.extend(ogg_page_of(9, 2, 0, 0, &opus_head()));
    bytes.extend(ogg_page_of(9, 0, 0, 1, &opus_tags()));
    bytes.extend(ogg_page_of(9, 4, 960, 2, &[0xfc, 0xff, 0xfe]));
    let opened = open(bytes, Some("ogg")).unwrap();
    assert_eq!(opened.tracks.len(), 2);
    assert_eq!(opened.tracks[0].id, 7);
    assert!(!opened.tracks[0].has_codec);
    assert_eq!(opened.index, 1);
    assert_eq!(select_track(&opened.tracks), Some(1));
    assert_eq!(opened.track.id, 9);
    assert!(opened.track.has_codec);
    assert_eq!(opened.track.sample_rate, Some(48_000));
}

#[test]
fn a_track_without_a_decoder_opens_but_is_not_converted() {
    let opened = open(opus_stream(), Some("opus")).unwrap();
    assert!(opened.track.has_codec);
    assert!(opened.decoder_failure.is_some());
    assert_eq!(opened.track.channels, Some(2));
    let result = convert_to_mp3(&opened.track, opened.decoder_failure.as_ref(), &opened.events, 192);
    assert!(matches!(result, Err(ConvertError::Decoder(_))), "{:?}", result.err());
    let window = TrimWindow { start: 0, end: 10 };
    let trimmed = convert_to_mp3_trimmed(
        &opened.track,
        opened.decoder_failure.as_ref(),
        &opened.events,
        192,
        window,
    );
    assert!(matches!(trimmed, Err(ConvertError::Decoder(_))), "{:?}", trimmed.err());
}

#[test]
fn a_list_without_a_coded_track_gives_none() {
    let none: Vec<TrackInfo> = vec![
        TrackInfo { id: 1, has_codec: false, sample_rate: Some(8_000), channels: Some(1) },
        TrackInfo { id: 2, has_codec: false, sample_rate: None, channels: None },
    ];
    assert_eq!(select_track(&none), None);
    assert_eq!(select_track(&Vec::new()), None);
}

fn kind_and_text(event: StreamEvent) -> (StreamFault, String) {
    match event {
        StreamEvent::NoPacket(fault, said) => (fault, said),
        StreamEvent::Undecodable(fault, said) => (fault, said),
        _ => panic!("the event tells of no failure"),
    }
}

#[test]
fn the_kinds_of_failure_are_told_apart() {
    let end = symphonia::core::errors::Error::IoError(std::io::Error::new(
        std::io::ErrorKind::UnexpectedEof,
        "end of stream",
    ));
    assert!(matches!(StreamEvent::no_packet(&end), StreamEvent::NoPacket(_, _)));
    assert!(matches!(StreamEvent::undecodable(&end), StreamEvent::Undecodable(_, _)));
    assert_eq!(
        kind_and_text(StreamEvent::no_packet(&end)),
        (StreamFault::EndOfStream, "end of stream".to_string())
    );
    let other = symphonia::core::errors::Error::IoError(std::io::Error::new(
        std::io::ErrorKind::PermissionDenied,
        "denied",
    ));
    assert_eq!(kind_and_text(StreamEvent::no_packet(&other)).0, StreamFault::Io);
    let malformed = symphonia::core::errors::Error::DecodeError("bad frame");
    assert_eq!(
        kind_and_text(StreamEvent::undecodable(&malformed)),
        (StreamFault::Malformed, "malformed stream: bad frame".to_string())
    );
    let seek = symphonia::core::errors::Error::SeekError(
        symphonia::core::errors::SeekErrorKind::Unseekable,
    );
    assert_eq!(kind_and_text(StreamEvent::no_packet(&seek)).0, StreamFault::Seek);
    let unsupported = symphonia::core::errors::Error::Unsupported("codec");
    assert_eq!(
        kind_and_text(StreamEvent::undecodable(&unsupported)),
        (StreamFault::Unsupported, "unsupported feature: codec".to_string())
    );
    let limit = symphonia::core::errors::Error::LimitError("too long");
    assert_eq!(kind_and_text(StreamEvent::no_packet(&limit)).0, StreamFault::Limit);
    let reset = symphonia::core::errors::Error::ResetRequired;
    assert_eq!(kind_and_text(StreamEvent::undecodable(&reset)).0, StreamFault::ResetRequired);
    match probe_refusal(&unsupported) {
        OpenError::Probe(said) => assert_eq!(said, "unsupported feature: codec"),
        OpenError::NoTrack => panic!("a refusal to probe names no track"),
    }
}

#[test]
fn failures_of_opening_have_their_texts() {
    assert_eq!(OpenError::NoTrack.message(), "No audio track found");
    assert_eq!(
        OpenError::Probe("end of stream".to_string()).message(),
        "Failed to probe audio format: end of stream"
    );
    let refused = open(vec![1, 2, 3], None).err().unwrap();
    assert!(refused.message().starts_with("Failed to probe audio format: "));
}

#[test]
fn failures_of_converting_have_their_texts() {
    let said = || "x".to_string();
    assert_eq!(ConvertError::UnknownSampleRate.message(), "Unknown sample rate");
    assert_eq!(ConvertError::Decoder(said()).message(), "Failed to create decoder: x");
    assert_eq!(ConvertError::EncoderInit.message(), "Failed to create MP3 encoder");
    assert_eq!(ConvertError::Channels(said()).message(), "Failed to set channels: x");
    assert_eq!(ConvertError::SampleRate(said()).message(), "Failed to set sample rate: x");
    assert_eq!(ConvertError::BitrateSetting(said()).message(), "Failed to set bitrate: x");
    assert_eq!(ConvertError::Quality(said()).message(), "Failed to set quality: x");
    assert_eq!(ConvertError::Build(said()).message(), "Failed to build MP3 encoder: x");
    assert_eq!(ConvertError::ReadPacket(said()).message(), "Failed to read packet: x");
    assert_eq!(ConvertError::Decode(said()).message(), "Failed to decode: x");
    assert_eq!(ConvertError::Encode(said()).message(), "Failed to encode MP3: x");
    assert_eq!(ConvertError::Flush(said()).message(), "Failed to flush MP3 encoder: x");
}
