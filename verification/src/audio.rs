//! Framing of audio for the transcription backends.

use crate::text;
use vstd::prelude::*;
use vstd::string::StringExecFns;

verus! {

/// The shared byte buffer in which encoded audio is handed on.
#[verifier::external_type_specification]
#[verifier::external_body]
pub struct ExBytes(bytes::Bytes);

/// The bytes that a buffer holds.
pub uninterp spec fn buffer_content(buffer: bytes::Bytes) -> Seq<u8>;

/// Calls `<bytes::Bytes as From<Vec<u8>>>::from`. The buffer holds the bytes of
/// the vector.
#[verifier::external_body]
fn buffer_from(v: Vec<u8>) -> (r: bytes::Bytes)
    ensures
        buffer_content(r) == v@,
{
    bytes::Bytes::from(v)
}

/// `bytes::Bytes::new` makes a buffer that holds nothing.
pub assume_specification[ bytes::Bytes::new ]() -> (r: bytes::Bytes)
    ensures
        buffer_content(r) == Seq::<u8>::empty(),
;

/// Audio in the form in which it is sent.
pub struct EncodedAudio {
    pub data: bytes::Bytes,
    pub content_type: &'static str,
}

/// The mathematical value of [`EncodedAudio`].
pub struct AudioView {
    pub data: Seq<u8>,
    pub content_type: Seq<char>,
}

impl View for EncodedAudio {
    type V = AudioView;

    open spec fn view(&self) -> AudioView {
        AudioView { data: buffer_content(self.data), content_type: self.content_type@ }
    }
}

/// Samples per second.
pub const SAMPLE_RATE: u32 = 16_000;

/// The two lowest bytes of `n` in two's complement, the lowest first.
pub open spec fn le16(n: int) -> Seq<u8> {
    seq![(n % 256) as u8, (n / 256 % 256) as u8]
}

/// The four lowest bytes of `n`, the lowest first.
pub open spec fn le32(n: int) -> Seq<u8> {
    seq![
        (n % 256) as u8,
        (n / 256 % 256) as u8,
        (n / 65536 % 256) as u8,
        (n / 16777216 % 256) as u8,
    ]
}

/// The bytes of 16-bit samples.
pub open spec fn pcm16(samples: Seq<i16>) -> Seq<u8>
    decreases samples.len(),
{
    if samples.len() == 0 {
        seq![]
    } else {
        pcm16(samples.drop_last()) + le16(samples.last() as int)
    }
}

/// The size that a WAV header gives for the bytes of `count` samples.
pub open spec fn wav_data_size(count: nat) -> int {
    (2 * count) as int % 0x1_0000_0000
}

/// The name of a chunk of a WAV file.
pub open spec fn tag(a: char, b: char, c: char, d: char) -> Seq<u8> {
    seq![a as u8, b as u8, c as u8, d as u8]
}

/// The header of a WAV file with one channel of 16-bit samples.
pub open spec fn wav_header(data_size: int) -> Seq<u8> {
    tag('R', 'I', 'F', 'F') + le32(36 + data_size) + tag('W', 'A', 'V', 'E')
    // The format: its size, PCM, one channel, the sample rate, the bytes per
    // second, the bytes per sample, the bits per sample.
     + tag('f', 'm', 't', ' ') + le32(16) + le16(1) + le16(1) + le32(16_000) + le32(32_000)
        + le16(2) + le16(16)
    // The samples.
     + tag('d', 'a', 't', 'a') + le32(data_size)
}

/// A WAV file.
pub open spec fn wav_file(samples: Seq<i16>) -> Seq<u8> {
    wav_header(wav_data_size(samples.len())) + pcm16(samples)
}

fn push_le16(out: &mut Vec<u8>, n: u16)
    ensures
        final(out)@ == old(out)@ + le16(n as int),
{
    out.push((n % 256) as u8);
    out.push((n / 256) as u8);
}

fn push_le32(out: &mut Vec<u8>, n: u32)
    ensures
        final(out)@ == old(out)@ + le32(n as int),
{
    out.push((n % 256) as u8);
    out.push((n / 256 % 256) as u8);
    out.push((n / 65536 % 256) as u8);
    out.push((n / 16777216) as u8);
}

fn push_tag(out: &mut Vec<u8>, a: char, b: char, c: char, d: char)
    ensures
        final(out)@ == old(out)@ + tag(a, b, c, d),
{
    out.push(a as u8);
    out.push(b as u8);
    out.push(c as u8);
    out.push(d as u8);
}

/// Frames 16-bit samples, of one channel at 16 kHz, as a WAV file.
///
/// The server of whisper.cpp takes WAV uploads by default. Custom endpoints use
/// this unless configured otherwise, so that local servers need not convert.
pub fn encode_to_wav(samples: &[i16]) -> (r: Result<EncodedAudio, AudioError>)
    requires
        36 + wav_data_size(samples@.len()) <= u32::MAX,
    ensures
        r matches Ok(audio) && audio@ == (AudioView {
            data: wav_file(samples@),
            content_type: "audio/wav"@,
        }),
{
    let mut data: Vec<u8> = Vec::new();
    let channels: u16 = 1;
    let bits_per_sample: u16 = 16;
    let byte_rate: u32 = SAMPLE_RATE * channels as u32 * bits_per_sample as u32 / 8;
    let block_align: u16 = channels * bits_per_sample / 8;
    // Twice the number of samples, of which the lowest 32 bits are kept.
    let data_size: u32 = (samples.len() % 0x8000_0000) as u32 * 2;
    assert(data_size == wav_data_size(samples@.len()));

    push_tag(&mut data, 'R', 'I', 'F', 'F');
    push_le32(&mut data, 36 + data_size);
    push_tag(&mut data, 'W', 'A', 'V', 'E');

    push_tag(&mut data, 'f', 'm', 't', ' ');
    push_le32(&mut data, 16);
    push_le16(&mut data, 1);
    push_le16(&mut data, channels);
    push_le32(&mut data, SAMPLE_RATE);
    push_le32(&mut data, byte_rate);
    push_le16(&mut data, block_align);
    push_le16(&mut data, bits_per_sample);

    push_tag(&mut data, 'd', 'a', 't', 'a');
    push_le32(&mut data, data_size);
    let ghost header = data@;
    assert(header =~= wav_header(data_size as int));

    let mut i: usize = 0;
    assert(samples@.take(0) =~= Seq::<i16>::empty());
    while i < samples.len()
        invariant
            i <= samples@.len(),
            data@ == header + pcm16(samples@.take(i as int)),
        decreases samples@.len() - i,
    {
        let sample: i16 = samples[i];
        let unsigned: u16 = sample as u16;
        proof {
            assert(unsigned == if sample < 0 {
                sample + 65536
            } else {
                sample as int
            }) by (bit_vector)
                requires
                    unsigned == sample as u16,
            ;
            assert(le16(unsigned as int) =~= le16(sample as int));
            assert(samples@.take(i + 1).drop_last() =~= samples@.take(i as int));
        }
        push_le16(&mut data, unsigned);
        assert(data@ =~= header + pcm16(samples@.take(i + 1)));
        i += 1;
    }
    assert(samples@.take(i as int) =~= samples@);
    Ok(EncodedAudio { data: buffer_from(data), content_type: "audio/wav" })
}

/// An encoder that failed.
#[derive(Debug, Clone, PartialEq, Eq)]
pub struct AudioError {
    /// The exit code of the encoder, if it exited by itself.
    pub code: Option<i32>,
    /// What the encoder wrote to its standard error.
    pub stderr: String,
}

/// The digit for a number below ten.
pub open spec fn digit(n: int) -> char {
    ('0' as u8 + n) as char
}

/// A natural number in decimal.
pub open spec fn decimal(n: nat) -> Seq<char>
    decreases n,
{
    if n < 10 {
        seq![digit(n as int)]
    } else {
        decimal(n / 10).push(digit(n as int % 10))
    }
}

/// An integer in decimal.
pub open spec fn signed_decimal(n: int) -> Seq<char> {
    if n < 0 {
        "-"@ + decimal((-n) as nat)
    } else {
        decimal(n as nat)
    }
}

/// An exit code, or the lack of one.
pub open spec fn code_text(code: Option<i32>) -> Seq<char> {
    match code {
        Some(n) => "Some("@ + signed_decimal(n as int) + ")"@,
        None => "None"@,
    }
}

fn digit_str(n: u32) -> (r: &'static str)
    requires
        n < 10,
    ensures
        r@ == seq![digit(n as int)],
{
    proof {
        reveal_strlit("0");
        reveal_strlit("1");
        reveal_strlit("2");
        reveal_strlit("3");
        reveal_strlit("4");
        reveal_strlit("5");
        reveal_strlit("6");
        reveal_strlit("7");
        reveal_strlit("8");
        reveal_strlit("9");
    }
    let r = match n {
        0 => "0",
        1 => "1",
        2 => "2",
        3 => "3",
        4 => "4",
        5 => "5",
        6 => "6",
        7 => "7",
        8 => "8",
        _ => "9",
    };
    assert(r@ =~= seq![digit(n as int)]);
    r
}

fn append_decimal(out: &mut String, n: u32)
    ensures
        final(out)@ == old(out)@ + decimal(n as nat),
    decreases n,
{
    if n >= 10 {
        append_decimal(out, n / 10);
    }
    out.append(digit_str(n % 10));
    assert(out@ =~= old(out)@ + decimal(n as nat));
}

impl AudioError {
    /// What is said of the error.
    pub fn to_string(&self) -> (r: String)
        ensures
            r@ == "ffmpeg exited with status "@ + code_text(self.code) + ": "@ + self.stderr@,
    {
        let mut out = String::new();
        out.append("ffmpeg exited with status ");
        match self.code {
            Some(n) => {
                out.append("Some(");
                if n < 0 {
                    out.append("-");
                    append_decimal(&mut out, (-(n as i64)) as u32);
                } else {
                    append_decimal(&mut out, n as u32);
                }
                out.append(")");
            },
            None => {
                out.append("None");
            },
        }
        out.append(": ");
        out.append(self.stderr.as_str());
        assert(out@ =~= "ffmpeg exited with status "@ + code_text(self.code) + ": "@
            + self.stderr@);
        out
    }
}

/// How many samples are handed to the encoder at a time.
pub const CHUNK_SIZE: usize = 4096;

/// The bytes of 32-bit samples, which are given by their bit patterns.
pub open spec fn pcm32(samples: Seq<u32>) -> Seq<u8>
    decreases samples.len(),
{
    if samples.len() == 0 {
        seq![]
    } else {
        pcm32(samples.drop_last()) + le32(samples.last() as int)
    }
}

/// Where the chunk that begins at `from` ends.
pub open spec fn chunk_end(from: int, len: int) -> int {
    if from + CHUNK_SIZE <= len {
        from + CHUNK_SIZE
    } else {
        len
    }
}

/// The arguments by which the encoder reads 32-bit floating point samples, of
/// one channel at 16 kHz, from its standard input, and says little.
pub open spec fn input_arguments() -> Seq<Seq<char>> {
    seq![
        "-hide_banner"@,
        "-loglevel"@,
        "error"@,
        "-f"@,
        "f32le"@,
        "-ar"@,
        "16000"@,
        "-ac"@,
        "1"@,
        "-i"@,
        "pipe:0"@,
    ]
}

/// The arguments by which the encoder turns samples into the given format, on
/// its standard output.
pub open spec fn encoder_arguments(format: Seq<char>, extra: Seq<Seq<char>>) -> Seq<Seq<char>> {
    input_arguments() + extra + seq!["-f"@, format, "pipe:1"@]
}

/// The characters of each string.
pub open spec fn string_views(v: Seq<String>) -> Seq<Seq<char>> {
    v.map_values(|s: String| s@)
}

/// The arguments with which the encoder is run.
pub fn ffmpeg_args(format: &str, extra_args: &[&str]) -> (r: Vec<String>)
    ensures
        string_views(r@) == encoder_arguments(format@, text::views(extra_args@)),
{
    let mut args: Vec<String> = Vec::new();
    args.push("-hide_banner".to_string());
    args.push("-loglevel".to_string());
    args.push("error".to_string());
    args.push("-f".to_string());
    args.push("f32le".to_string());
    args.push("-ar".to_string());
    args.push("16000".to_string());
    args.push("-ac".to_string());
    args.push("1".to_string());
    args.push("-i".to_string());
    args.push("pipe:0".to_string());
    let ghost fixed = string_views(args@);
    assert(fixed =~= input_arguments());
    let ghost extra = text::views(extra_args@);
    let mut i: usize = 0;
    assert(extra.take(0) =~= Seq::<Seq<char>>::empty());
    while i < extra_args.len()
        invariant
            i <= extra_args@.len(),
            extra == text::views(extra_args@),
            string_views(args@) =~= fixed + extra.take(i as int),
        decreases extra_args@.len() - i,
    {
        let ghost before = args@;
        let arg = extra_args[i].to_string();
        args.push(arg);
        proof {
            assert(string_views(args@) =~= string_views(before).push(arg@));
            assert(extra.take(i + 1) =~= extra.take(i as int).push(extra[i as int]));
        }
        i += 1;
    }
    assert(extra.take(i as int) =~= extra);
    let ghost before = args@;
    args.push("-f".to_string());
    args.push(format.to_string());
    args.push("pipe:1".to_string());
    assert(string_views(args@) =~= string_views(before) + seq!["-f"@, format@, "pipe:1"@]);
    args
}

/// What is done to encode audio.
pub enum EncodeStep {
    /// Nothing: this is the encoded audio.
    Done(EncodedAudio),
    /// The encoder is run with these arguments.
    Run(Vec<String>),
}

/// Begins to encode `count` samples. No encoder is run for no samples.
pub fn begin_encoding(
    count: usize,
    format: &str,
    content_type: &'static str,
    extra_args: &[&str],
) -> (r: EncodeStep)
    ensures
        match r {
            EncodeStep::Done(audio) => count == 0 && audio@ == (AudioView {
                data: Seq::empty(),
                content_type: content_type@,
            }),
            EncodeStep::Run(args) => count > 0 && string_views(args@) == encoder_arguments(
                format@,
                text::views(extra_args@),
            ),
        },
{
    if count == 0 {
        EncodeStep::Done(EncodedAudio { data: bytes::Bytes::new(), content_type })
    } else {
        EncodeStep::Run(ffmpeg_args(format, extra_args))
    }
}

/// The name of FLAC among the formats of the encoder.
pub const FLAC_FORMAT: &'static str = "flac";

/// The content type of FLAC audio.
pub const FLAC_CONTENT_TYPE: &'static str = "audio/flac";

/// Begins to encode `count` samples as FLAC.
///
/// FLAC is lossless and takes about half the size of WAV for speech at 16 kHz.
/// Lossy codecs are smaller still, but make the backends hear what was not
/// said.
pub fn begin_flac(count: usize) -> (r: EncodeStep)
    ensures
        match r {
            EncodeStep::Done(audio) => count == 0 && audio@ == (AudioView {
                data: Seq::empty(),
                content_type: "audio/flac"@,
            }),
            EncodeStep::Run(args) => {
                &&& count > 0
                &&& string_views(args@) == encoder_arguments(
                    "flac"@,
                    seq!["-compression_level"@, "12"@],
                )
                &&& string_views(args@) == seq![
                    "-hide_banner"@,
                    "-loglevel"@,
                    "error"@,
                    "-f"@,
                    "f32le"@,
                    "-ar"@,
                    "16000"@,
                    "-ac"@,
                    "1"@,
                    "-i"@,
                    "pipe:0"@,
                    "-compression_level"@,
                    "12"@,
                    "-f"@,
                    "flac"@,
                    "pipe:1"@,
                ]
            },
        },
{
    let extra_args: [&str; 2] = ["-compression_level", "12"];
    assert(text::views(extra_args@) =~= seq!["-compression_level"@, "12"@]);
    begin_encoding(count, FLAC_FORMAT, FLAC_CONTENT_TYPE, &extra_args)
}

/// The bytes of the chunk of samples that begins at `from`, and where the next
/// one begins. There is no chunk where the samples have ended.
pub fn pcm_chunk(samples: &[u32], from: usize) -> (r: Option<(Vec<u8>, usize)>)
    ensures
        match r {
            Some((bytes, next)) => {
                &&& from < samples@.len()
                &&& next == chunk_end(from as int, samples@.len() as int)
                &&& bytes@ == pcm32(samples@.subrange(from as int, next as int))
            },
            None => from >= samples@.len(),
        },
{
    if from >= samples.len() {
        return None;
    }
    let end: usize = if samples.len() - from >= CHUNK_SIZE {
        from + CHUNK_SIZE
    } else {
        samples.len()
    };
    let mut bytes: Vec<u8> = Vec::new();
    let mut i: usize = from;
    assert(samples@.subrange(from as int, from as int) =~= Seq::<u32>::empty());
    while i < end
        invariant
            from <= i <= end <= samples@.len(),
            bytes@ == pcm32(samples@.subrange(from as int, i as int)),
        decreases end - i,
    {
        push_le32(&mut bytes, samples[i]);
        assert(samples@.subrange(from as int, i + 1).drop_last() =~= samples@.subrange(
            from as int,
            i as int,
        ));
        i += 1;
    }
    Some((bytes, end))
}

/// Takes in what the encoder wrote and how it ended.
pub fn finish_encoding(
    success: bool,
    code: Option<i32>,
    encoded: Vec<u8>,
    stderr: &[u8],
    content_type: &'static str,
) -> (r: Result<EncodedAudio, AudioError>)
    ensures
        match r {
            Ok(audio) => success && audio@ == (AudioView {
                data: encoded@,
                content_type: content_type@,
            }),
            Err(error) => {
                &&& !success
                &&& error.code == code
                &&& error.stderr@ == text::lossy_text(stderr@)
            },
        },
{
    if !success {
        return Err(AudioError { code, stderr: text::from_utf8_lossy(stderr) });
    }
    Ok(EncodedAudio { data: buffer_from(encoded), content_type })
}

} // verus!
