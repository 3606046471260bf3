//! The binary frames of the streaming speech recognition protocol: a 4-byte
//! header, an optional sequence number, a big-endian payload size and a
//! gzip-compressed payload; and what the client keeps of the server's
//! replies.

use vstd::prelude::*;
use std::io::Read;
use std::io::Write;

verus! {

/// The streaming recognition client. It holds no state of its own: each
/// session is set up by the caller.
#[derive(Debug, Clone, Copy, PartialEq, Eq)]
pub struct AsrService {}

impl AsrService {
    /// A recognition client.
    pub fn new() -> (r: Self)
        ensures
            r == (AsrService {}),
    {
        AsrService {}
    }
}

/// What `flate2`'s gzip encoder (default level) writes for `data`.
pub uninterp spec fn gzip_of(data: Seq<u8>) -> Seq<u8>;

/// What `flate2`'s gzip decoder reads from `data` before its first error or
/// the end of the stream.
pub uninterp spec fn gunzip_of(data: Seq<u8>) -> Seq<u8>;

/// Compresses `data` with `flate2::write::GzEncoder` at the default level.
/// Claimed: the output is a function of `data`, and decoding it gives `data`
/// back (gzip is lossless). Writing into a `Vec` cannot fail.
#[verifier::external_body]
fn gzip_compress(data: &[u8]) -> (r: Vec<u8>)
    ensures
        r@ == gzip_of(data@),
        gunzip_of(r@) == data@,
{
    let mut encoder = flate2::write::GzEncoder::new(Vec::new(), flate2::Compression::default());
    encoder.write_all(data).unwrap();
    encoder.finish().unwrap()
}

/// Decompresses `data` with `flate2::read::GzDecoder`, keeping what was read
/// before an error. Claimed: the output is a function of `data`.
#[verifier::external_body]
fn gzip_decompress(data: &[u8]) -> (r: Vec<u8>)
    ensures
        r@ == gunzip_of(data@),
{
    let mut decoder = flate2::read::GzDecoder::new(data);
    let mut result = Vec::new();
    let _ = decoder.read_to_end(&mut result);
    result
}

/// Big-endian bytes of a 32-bit number.
pub open spec fn be32(n: u32) -> Seq<u8> {
    seq![(n / 0x1000000) as u8, ((n / 0x10000) % 0x100) as u8, ((n / 0x100) % 0x100) as u8, (n % 0x100) as u8]
}

/// The number that four big-endian bytes write.
pub open spec fn be32_value(b: Seq<u8>) -> int {
    b[0] * 0x1000000 + b[1] * 0x10000 + b[2] * 0x100 + b[3]
}

/// Four big-endian bytes read back as the number they were written from.
pub proof fn lemma_be32_value(n: u32)
    ensures
        be32_value(be32(n)) == n,
{
    let b = be32(n);
    assert(b[0] == n / 0x1000000);
    assert(b[1] == (n / 0x10000) % 0x100);
    assert(b[2] == (n / 0x100) % 0x100);
    assert(b[3] == n % 0x100);
    assert((n / 0x1000000) * 0x1000000 + ((n / 0x10000) % 0x100) * 0x10000 + ((n / 0x100) % 0x100)
        * 0x100 + n % 0x100 == n) by (nonlinear_arith);
}

/// Appends the big-endian bytes of `n`.
fn push_be32(out: &mut Vec<u8>, n: u32)
    ensures
        final(out)@ == old(out)@ + be32(n),
{
    let ghost before = out@;
    out.push((n / 0x1000000) as u8);
    out.push(((n / 0x10000) % 0x100) as u8);
    out.push(((n / 0x100) % 0x100) as u8);
    out.push((n % 0x100) as u8);
    proof {
        assert(out@ =~= before + be32(n));
    }
}

/// Appends `data`.
fn push_bytes(out: &mut Vec<u8>, data: &[u8])
    ensures
        final(out)@ == old(out)@ + data@,
{
    let ghost before = out@;
    let mut i: usize = 0;
    while i < data.len()
        invariant
            i <= data@.len(),
            out@ == before + data@.take(i as int),
        decreases data@.len() - i,
    {
        out.push(data[i]);
        i = i + 1;
        proof {
            assert(out@ =~= before + data@.take(i as int));
        }
    }
    proof {
        assert(data@.take(data@.len() as int) =~= data@);
    }
}

/// The frame that opens a session: header `11 10 11 00`, the size of the
/// compressed request, and the gzip-compressed JSON request.
pub open spec fn full_request_frame(json: Seq<u8>) -> Seq<u8> {
    let z = gzip_of(json);
    seq![0x11u8, 0x10u8, 0x11u8, 0x00u8] + be32(z.len() as u32) + z
}

/// Frames the JSON request that opens a session.
pub fn build_full_client_request(json: &[u8]) -> (r: Vec<u8>)
    ensures
        r@ == full_request_frame(json@),
{
    let compressed = gzip_compress(json);
    let mut msg: Vec<u8> = Vec::new();
    msg.push(0x11);
    msg.push(0x10);
    msg.push(0x11);
    msg.push(0x00);
    push_be32(&mut msg, compressed.len() as u32);
    push_bytes(&mut msg, compressed.as_slice());
    proof {
        assert(msg@ =~= full_request_frame(json@));
    }
    msg
}

/// An audio frame: header `11 21 01 00` (`11 23 01 00` for the last one),
/// the sequence number (negated for the last one), the size of the
/// compressed audio, and the gzip-compressed 16-bit PCM bytes.
pub open spec fn audio_frame(pcm: Seq<u8>, seq: i32, is_last: bool) -> Seq<u8> {
    let header = if is_last {
        seq![0x11u8, 0x23u8, 0x01u8, 0x00u8]
    } else {
        seq![0x11u8, 0x21u8, 0x01u8, 0x00u8]
    };
    let s: int = if is_last {
        -seq
    } else {
        seq as int
    };
    let z = gzip_of(pcm);
    header + be32(s as u32) + be32(z.len() as u32) + z
}

/// Frames a chunk of 16-bit little-endian PCM audio.
pub fn build_audio_message_from_pcm_bytes(pcm_bytes: &[u8], seq: i32, is_last: bool) -> (r: Vec<u8>)
    requires
        is_last ==> seq > i32::MIN,
    ensures
        r@ == audio_frame(pcm_bytes@, seq, is_last),
        gzip_of(pcm_bytes@).len() <= u32::MAX ==> read_frame_spec(r@) == Some((2u8, pcm_bytes@)),
{
    let compressed = gzip_compress(pcm_bytes);
    let mut msg: Vec<u8> = Vec::new();
    msg.push(0x11);
    if is_last {
        msg.push(0x23);
    } else {
        msg.push(0x21);
    }
    msg.push(0x01);
    msg.push(0x00);
    let s: i32 = if is_last {
        -seq
    } else {
        seq
    };
    push_be32(&mut msg, s as u32);
    push_be32(&mut msg, compressed.len() as u32);
    push_bytes(&mut msg, compressed.as_slice());
    proof {
        assert(msg@ =~= audio_frame(pcm_bytes@, seq, is_last));
        if gzip_of(pcm_bytes@).len() <= u32::MAX {
            lemma_audio_frame_reads_back(pcm_bytes@, seq, is_last);
        }
    }
    msg
}

/// An audio frame read back gives the audio-only message type and the
/// compressed audio, decompressed.
pub proof fn lemma_audio_frame_reads_back(pcm: Seq<u8>, seq: i32, is_last: bool)
    requires
        gzip_of(pcm).len() <= u32::MAX,
    ensures
        read_frame_spec(audio_frame(pcm, seq, is_last)) == Some((2u8, gunzip_of(gzip_of(pcm)))),
{
    let f = audio_frame(pcm, seq, is_last);
    let z = gzip_of(pcm);
    let s: int = if is_last {
        -seq
    } else {
        seq as int
    };
    lemma_be32_value(z.len() as u32);
    assert(f.subrange(8, 12) =~= be32(z.len() as u32));
    assert(f.subrange(12, 12 + z.len() as int) =~= z);
    assert(f[0] == 0x11u8);
    assert(f[2] == 0x01u8);
    assert(f.len() == 12 + z.len());
}

/// The closing audio frame when no audio is left to send.
pub fn build_empty_last_audio_message(seq: i32) -> (r: Vec<u8>)
    requires
        seq > i32::MIN,
    ensures
        r@ == audio_frame(Seq::empty(), seq, true),
{
    let empty: Vec<u8> = Vec::new();
    proof {
        assert(empty@ =~= Seq::<u8>::empty());
    }
    build_audio_message_from_pcm_bytes(empty.as_slice(), seq, true)
}

/// A frame as the client reads it: its message type and its payload (after
/// decompression when the header says it is compressed); none for a frame
/// too short for the sizes it declares.
pub open spec fn read_frame_spec(data: Seq<u8>) -> Option<(u8, Seq<u8>)> {
    if data.len() < 4 {
        None
    } else {
        let header_len = (data[0] % 16) * 4;
        let msg_type = ((data[1] / 16) % 16) as u8;
        let flags = data[1] % 16;
        let compressed = data[2] % 16 == 1;
        let offset = header_len + if msg_type == 15 || flags == 1 || flags == 3 {
            4int
        } else {
            0int
        };
        if data.len() < header_len || data.len() < offset + 4 {
            None
        } else {
            let size = be32_value(data.subrange(offset, offset + 4));
            let start = offset + 4;
            if data.len() < start + size {
                None
            } else {
                let payload = data.subrange(start, start + size);
                Some((msg_type, if compressed { gunzip_of(payload) } else { payload }))
            }
        }
    }
}

/// A frame read from the server.
#[derive(Debug, PartialEq, Eq)]
pub struct ServerFrame {
    pub msg_type: u8,
    pub payload: Vec<u8>,
}

/// Reads a binary frame: its type and (decompressed) payload.
pub fn read_frame(data: &[u8]) -> (r: Option<ServerFrame>)
    ensures
        match r {
            Some(f) => read_frame_spec(data@) == Some((f.msg_type, f.payload@)),
            None => read_frame_spec(data@) is None,
        },
{
    if data.len() < 4 {
        return None;
    }
    let header_len: usize = ((data[0] % 16) * 4) as usize;
    if data.len() < header_len {
        return None;
    }
    let msg_type: u8 = (data[1] / 16) % 16;
    let flags: u8 = data[1] % 16;
    let compressed = data[2] % 16 == 1;
    let offset: usize = if msg_type == 15 || flags == 1 || flags == 3 {
        header_len + 4
    } else {
        header_len
    };
    if data.len() < offset || data.len() - offset < 4 {
        return None;
    }
    let size: usize = (data[offset] as usize) * 0x1000000 + (data[offset + 1] as usize) * 0x10000
        + (data[offset + 2] as usize) * 0x100 + (data[offset + 3] as usize);
    proof {
        assert(data@.subrange(offset as int, offset + 4)[0] == data@[offset as int]);
        assert(data@.subrange(offset as int, offset + 4)[1] == data@[offset + 1]);
        assert(data@.subrange(offset as int, offset + 4)[2] == data@[offset + 2]);
        assert(data@.subrange(offset as int, offset + 4)[3] == data@[offset + 3]);
    }
    let start = offset + 4;
    if data.len() - start < size {
        return None;
    }
    let end = start + size;
    let mut payload: Vec<u8> = Vec::new();
    let mut i: usize = start;
    while i < end
        invariant
            end == start + size,
            start <= i <= end <= data@.len(),
            payload@ == data@.subrange(start as int, i as int),
        decreases end - i,
    {
        payload.push(data[i]);
        i = i + 1;
        proof {
            assert(payload@ =~= data@.subrange(start as int, i as int));
        }
    }
    let payload = if compressed {
        gzip_decompress(payload.as_slice())
    } else {
        payload
    };
    Some(ServerFrame { msg_type, payload })
}


/// Decodes `bytes` as UTF-8 with `String::from_utf8`: the decoded text when
/// the bytes are well-formed UTF-8, none otherwise (as std documents).
#[verifier::external_body]
fn utf8_text(bytes: Vec<u8>) -> (r: Option<String>)
    ensures
        match r {
            Some(s) => vstd::utf8::valid_utf8(bytes@) && s@ == vstd::utf8::decode_utf8(bytes@),
            None => !vstd::utf8::valid_utf8(bytes@),
        },
{
    String::from_utf8(bytes).ok()
}

/// The string that the JSON pointer `pointer` names in a JSON document, as
/// `serde_json` parses it; none when the text is not JSON or holds no string
/// there.
pub uninterp spec fn json_string_at_of(json: Seq<char>, pointer: Seq<char>) -> Option<Seq<char>>;

/// Parses `json` with `serde_json::from_str` and reads the string at the JSON
/// pointer `pointer` (`Value::pointer`, then `as_str`). Claimed: the result
/// is a function of `json` and `pointer`; which texts parse is left to
/// `serde_json`.
#[verifier::external_body]
pub(crate) fn json_string_at(json: &str, pointer: &str) -> (r: Option<String>)
    ensures
        json_string_at_of(json@, pointer@) == match r {
            Some(t) => Some(t@),
            None => None,
        },
{
    match serde_json::from_str::<serde_json::Value>(json) {
        Ok(value) => match value.pointer(pointer) {
            Some(text) => text.as_str().map(|t| t.to_string()),
            None => None,
        },
        Err(_) => None,
    }
}

/// The length of the array that the JSON pointer `pointer` names in a JSON
/// document, as `serde_json` parses it; none when the text is not JSON or
/// holds no array there.
pub uninterp spec fn json_array_len_of(json: Seq<char>, pointer: Seq<char>) -> Option<nat>;

/// Parses `json` with `serde_json::from_str` and gives the length of the
/// array at the JSON pointer `pointer` (`Value::pointer`, then `as_array`,
/// then `len`). Claimed: the result is a function of `json` and `pointer`.
#[verifier::external_body]
pub(crate) fn json_array_len(json: &str, pointer: &str) -> (r: Option<usize>)
    ensures
        json_array_len_of(json@, pointer@) == match r {
            Some(n) => Some(n as nat),
            None => None,
        },
{
    match serde_json::from_str::<serde_json::Value>(json) {
        Ok(value) => value.pointer(pointer).and_then(|v| v.as_array()).map(|items| items.len()),
        Err(_) => None,
    }
}

/// Where a recognition response holds its text.
pub const RESULT_TEXT_POINTER: &'static str = "/result/text";

/// What a frame from the server means for the client.
#[derive(Debug, PartialEq, Eq)]
pub enum FrameOutcome {
    /// A recognised text, to show and keep.
    Update(String),
    /// An error reported by the server, with its message bytes.
    ServerError(Vec<u8>),
    /// Nothing to act on.
    Nothing,
}

/// Mathematical model of a [`FrameOutcome`].
pub enum FrameOutcomeModel {
    Update(Seq<char>),
    ServerError(Seq<u8>),
    Nothing,
}

impl View for FrameOutcome {
    type V = FrameOutcomeModel;

    open spec fn view(&self) -> FrameOutcomeModel {
        match self {
            FrameOutcome::Update(t) => FrameOutcomeModel::Update(t@),
            FrameOutcome::ServerError(b) => FrameOutcomeModel::ServerError(b@),
            FrameOutcome::Nothing => FrameOutcomeModel::Nothing,
        }
    }
}

/// The message type of a frame that reads.
pub open spec fn frame_type(data: Seq<u8>) -> u8 {
    match read_frame_spec(data) {
        Some((t, _)) => t,
        None => 0,
    }
}

/// Message types of the server's frames.
pub open spec fn is_full_response(t: u8) -> bool {
    t == 9
}

/// A full (type 9) or partial (type 11) recognition response.
pub open spec fn is_response(t: u8) -> bool {
    t == 9 || t == 11
}

/// What a frame means: the text at `result.text` of a response's JSON
/// payload, or the payload of an error frame (type 15).
pub open spec fn frame_outcome_spec(data: Seq<u8>) -> FrameOutcomeModel {
    match read_frame_spec(data) {
        None => FrameOutcomeModel::Nothing,
        Some((t, payload)) => if is_response(t) {
            if vstd::utf8::valid_utf8(payload) {
                match json_string_at_of(vstd::utf8::decode_utf8(payload), RESULT_TEXT_POINTER@) {
                    Some(text) => FrameOutcomeModel::Update(text),
                    None => FrameOutcomeModel::Nothing,
                }
            } else {
                FrameOutcomeModel::Nothing
            }
        } else if t == 15 {
            FrameOutcomeModel::ServerError(payload)
        } else {
            FrameOutcomeModel::Nothing
        },
    }
}

/// The texts received in a session: the latest one, and the latest one that
/// came in a full response.
#[derive(Debug, PartialEq, Eq)]
pub struct TranscriptState {
    pub final_text: String,
    pub latest_text: String,
}

/// The transcript a session ends with: the latest text when it extends the
/// final one, else the final one if there is one, else the latest one.
pub open spec fn transcript_result(final_text: Seq<char>, latest_text: Seq<char>) -> Seq<char> {
    if final_text.len() > 0 && final_text.is_prefix_of(latest_text) && latest_text.len() > final_text.len() {
        latest_text
    } else if final_text.len() > 0 {
        final_text
    } else {
        latest_text
    }
}

impl TranscriptState {
    /// No text received yet.
    pub fn new() -> (r: Self)
        ensures
            r.final_text@ == Seq::<char>::empty(),
            r.latest_text@ == Seq::<char>::empty(),
    {
        TranscriptState { final_text: String::new(), latest_text: String::new() }
    }

    /// A recognised text arrived; a full response also makes it final.
    pub fn on_text(&mut self, text: String, full: bool)
        ensures
            final(self).latest_text@ == text@,
            final(self).final_text@ == if full {
                text@
            } else {
                old(self).final_text@
            },
    {
        if full {
            self.final_text = text.clone();
        }
        self.latest_text = text;
    }

    /// Reads a frame from the server and keeps its text.
    pub fn on_frame(&mut self, data: &[u8]) -> (r: FrameOutcome)
        ensures
            r@ == frame_outcome_spec(data@),
            match r@ {
                FrameOutcomeModel::Update(text) => {
                    &&& final(self).latest_text@ == text
                    &&& final(self).final_text@ == if is_full_response(frame_type(data@)) {
                        text
                    } else {
                        old(self).final_text@
                    }
                },
                _ => final(self).latest_text@ == old(self).latest_text@ && final(self).final_text@
                    == old(self).final_text@,
            },
    {
        let frame = match read_frame(data) {
            Some(f) => f,
            None => return FrameOutcome::Nothing,
        };
        if frame.msg_type == 9 || frame.msg_type == 11 {
            let full = frame.msg_type == 9;
            match utf8_text(frame.payload) {
                Some(json) => match json_string_at(json.as_str(), RESULT_TEXT_POINTER) {
                    Some(text) => {
                        let update = text.clone();
                        self.on_text(text, full);
                        FrameOutcome::Update(update)
                    },
                    None => FrameOutcome::Nothing,
                },
                None => FrameOutcome::Nothing,
            }
        } else if frame.msg_type == 15 {
            FrameOutcome::ServerError(frame.payload)
        } else {
            FrameOutcome::Nothing
        }
    }

    /// The transcript the session ends with.
    pub fn result(&self) -> (r: String)
        ensures
            r@ == transcript_result(self.final_text@, self.latest_text@),
    {
        let f = crate::text::chars_of(self.final_text.as_str());
        let l = crate::text::chars_of(self.latest_text.as_str());
        if f.len() > 0 && f.len() < l.len() && crate::text::occurs_at_exec(&l, &f, 0) {
            proof {
                assert(l@.subrange(0, f@.len() as int) =~= l@.take(f@.len() as int));
            }
            self.latest_text.clone()
        } else if f.len() > 0 {
            proof {
                if f@.is_prefix_of(l@) && l@.len() > f@.len() {
                    assert(l@.subrange(0, f@.len() as int) =~= l@.take(f@.len() as int));
                }
            }
            self.final_text.clone()
        } else {
            self.latest_text.clone()
        }
    }
}


/// The order in which audio chunks are sent: each chunk waits until the next
/// one arrives, so that the last one can be marked as last. Sequence numbers
/// start at 2 (the opening request is 1) and go up by one per frame.
#[derive(Debug)]
pub struct ChunkSequencer<T> {
    pub pending: Option<T>,
    pub seq: i32,
}

impl<T> ChunkSequencer<T> {
    /// Nothing received yet; the first audio frame will be number 2.
    pub fn new() -> (r: Self)
        ensures
            r.pending is None,
            r.seq == 2,
    {
        ChunkSequencer { pending: None, seq: 2 }
    }

    /// A chunk arrived: it waits, and the one that was waiting, if any, is
    /// to be sent now with the current number.
    pub fn push(&mut self, chunk: T) -> (r: Option<(T, i32)>)
        requires
            old(self).pending is Some ==> old(self).seq < i32::MAX,
        ensures
            final(self).pending == Some(chunk),
            match old(self).pending {
                Some(p) => r == Some((p, old(self).seq)) && final(self).seq == old(self).seq + 1,
                None => r is None && final(self).seq == old(self).seq,
            },
    {
        let previous = self.pending.take();
        self.pending = Some(chunk);
        match previous {
            Some(p) => {
                let s = self.seq;
                self.seq = s + 1;
                Some((p, s))
            },
            None => None,
        }
    }

    /// No more audio: the chunk still waiting, if any, to be sent as the last
    /// one, and its number.
    pub fn finish(self) -> (r: (Option<T>, i32))
        ensures
            r.0 == self.pending,
            r.1 == self.seq,
    {
        (self.pending, self.seq)
    }
}


/// Whether online recognition is set up.
#[derive(Debug, Clone, Copy, PartialEq, Eq)]
pub struct AsrStatus {
    pub configured: bool,
}

/// Recognition is set up when both its app key and its access key are
/// filled in.
pub fn asr_status(config: &crate::storage::AppConfig) -> (r: AsrStatus)
    ensures
        r.configured == (config@.asr_app_key.len() > 0 && config@.asr_access_key.len() > 0),
{
    AsrStatus {
        configured: !config.online_asr_config.app_key.as_str().is_empty()
            && !config.online_asr_config.access_key.as_str().is_empty(),
    }
}

} // verus!
