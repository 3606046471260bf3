use std::io::Read;
use std::io::Write;
use fastsp::asr::{
    build_audio_message_from_pcm_bytes, build_empty_last_audio_message, build_full_client_request,
    read_frame, AsrService, ChunkSequencer, FrameOutcome, TranscriptState,
};

fn gzip(data: &[u8]) -> Vec<u8> {
    let mut encoder = flate2::write::GzEncoder::new(Vec::new(), flate2::Compression::default());
    encoder.write_all(data).unwrap();
    encoder.finish().unwrap()
}

fn gunzip(data: &[u8]) -> Vec<u8> {
    let mut decoder = flate2::read::GzDecoder::new(data);
    let mut out = Vec::new();
    decoder.read_to_end(&mut out).unwrap();
    out
}

fn server_frame(msg_type: u8, flags: u8, payload: &[u8]) -> Vec<u8> {
    let z = gzip(payload);
    let mut frame = vec![0x11, (msg_type << 4) | flags, 0x11, 0x00];
    if flags == 1 || flags == 3 || msg_type == 15 {
        frame.extend_from_slice(&7u32.to_be_bytes());
    }
    frame.extend_from_slice(&(z.len() as u32).to_be_bytes());
    frame.extend_from_slice(&z);
    frame
}

#[test]
fn asr_service_has_no_state() {
    assert_eq!(AsrService::new(), AsrService {});
}

#[test]
fn audio_frame_layout() {
    let pcm = [1u8, 2, 3, 4];
    let frame = build_audio_message_from_pcm_bytes(&pcm, 5, false);
    assert_eq!(&frame[0..4], &[0x11, 0x21, 0x01, 0x00]);
    assert_eq!(&frame[4..8], &5i32.to_be_bytes());
    let size = u32::from_be_bytes([frame[8], frame[9], frame[10], frame[11]]) as usize;
    assert_eq!(size, frame.len() - 12);
    assert_eq!(gunzip(&frame[12..]), pcm.to_vec());
}

#[test]
fn last_audio_frame_negates_sequence() {
    let frame = build_empty_last_audio_message(9);
    assert_eq!(&frame[0..4], &[0x11, 0x23, 0x01, 0x00]);
    assert_eq!(&frame[4..8], &(-9i32).to_be_bytes());
    assert!(gunzip(&frame[12..]).is_empty());
}

#[test]
fn audio_frame_reads_back_as_its_audio() {
    let pcm: Vec<u8> = (0..200u32).map(|i| (i % 251) as u8).collect();
    let frame = build_audio_message_from_pcm_bytes(&pcm, 3, true);
    let read = read_frame(&frame).expect("frame");
    assert_eq!(read.msg_type, 2);
    assert_eq!(read.payload, pcm);
}

#[test]
fn full_request_frame_layout() {
    let json = b"{\"user\":{\"uid\":\"x\"}}";
    let frame = build_full_client_request(json);
    assert_eq!(&frame[0..4], &[0x11, 0x10, 0x11, 0x00]);
    let size = u32::from_be_bytes([frame[4], frame[5], frame[6], frame[7]]) as usize;
    assert_eq!(size, frame.len() - 8);
    assert_eq!(gunzip(&frame[8..]), json.to_vec());
}

#[test]
fn short_frames_are_skipped() {
    assert!(read_frame(&[0x11, 0x90]).is_none());
    assert!(read_frame(&[0x11, 0x90, 0x00, 0x00, 0x00, 0x00, 0x00, 0x09]).is_none());
}

#[test]
fn partial_then_full_then_partial_extension_is_kept() {
    let mut state = TranscriptState::new();
    let partial = server_frame(11, 1, "{\"result\":{\"text\":\"你好\"}}".as_bytes());
    assert_eq!(state.on_frame(&partial), FrameOutcome::Update("你好".to_string()));
    let full = server_frame(9, 1, "{\"result\":{\"text\":\"你好世界\"}}".as_bytes());
    assert_eq!(state.on_frame(&full), FrameOutcome::Update("你好世界".to_string()));
    assert_eq!(state.final_text, "你好世界");
    let longer = server_frame(11, 1, "{\"result\":{\"text\":\"你好世界。再见\"}}".as_bytes());
    state.on_frame(&longer);
    assert_eq!(state.result(), "你好世界。再见");
}

#[test]
fn diverging_partial_keeps_final_text() {
    let mut state = TranscriptState::new();
    state.on_text("abc".to_string(), true);
    state.on_text("xyz".to_string(), false);
    assert_eq!(state.result(), "abc");
    let mut only_partial = TranscriptState::new();
    only_partial.on_text("draft".to_string(), false);
    assert_eq!(only_partial.result(), "draft");
}

#[test]
fn server_error_frames_carry_their_message() {
    let mut state = TranscriptState::new();
    let frame = server_frame(15, 0, b"quota exceeded");
    assert_eq!(state.on_frame(&frame), FrameOutcome::ServerError(b"quota exceeded".to_vec()));
    assert_eq!(state.result(), "");
}

#[test]
fn chunks_are_sent_one_step_late_with_consecutive_numbers() {
    let mut seq: ChunkSequencer<&str> = ChunkSequencer::new();
    assert_eq!(seq.push("a"), None);
    assert_eq!(seq.push("b"), Some(("a", 2)));
    assert_eq!(seq.push("c"), Some(("b", 3)));
    assert_eq!(seq.finish(), (Some("c"), 4));
    let empty: ChunkSequencer<&str> = ChunkSequencer::new();
    assert_eq!(empty.finish(), (None, 2));
}
