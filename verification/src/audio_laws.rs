//! What holds of framed audio.

use crate::audio;
use crate::audio::EncodedAudio;
use vstd::prelude::*;

verus! {

/// The unsigned number in the four bytes at `i`, the lowest first.
pub open spec fn read_u32(bytes: Seq<u8>, i: int) -> int {
    bytes[i] + 256 * bytes[i + 1] + 65536 * bytes[i + 2] + 16777216 * bytes[i + 3]
}

/// The signed number in the two bytes at `i`, the lowest first.
pub open spec fn read_i16(bytes: Seq<u8>, i: int) -> int {
    let n = bytes[i] + 256 * bytes[i + 1];
    if n < 32768 {
        n
    } else {
        n - 65536
    }
}

proof fn lemma_pcm16(samples: Seq<i16>)
    ensures
        audio::pcm16(samples).len() == 2 * samples.len(),
        forall|i: int|
            0 <= i < samples.len() ==> read_i16(audio::pcm16(samples), 2 * i)
                == #[trigger] samples[i],
    decreases samples.len(),
{
    if samples.len() > 0 {
        let front = samples.drop_last();
        lemma_pcm16(front);
        let bytes = audio::pcm16(samples);
        assert forall|i: int| 0 <= i < samples.len() implies read_i16(bytes, 2 * i)
            == #[trigger] samples[i] by {
            if i < front.len() {
                assert(samples[i] == front[i]);
            }
        }
    }
}

/// A WAV file is its header and two bytes for each sample.
pub proof fn law_wav_length(samples: Seq<i16>)
    ensures
        audio::wav_file(samples).len() == 44 + 2 * samples.len(),
{
    lemma_pcm16(samples);
}

/// Every sample is read back from where it stands in the WAV file.
pub proof fn law_wav_samples(samples: Seq<i16>, i: int)
    requires
        0 <= i < samples.len(),
    ensures
        read_i16(audio::wav_file(samples), 44 + 2 * i) == samples[i],
{
    lemma_pcm16(samples);
    let header = audio::wav_header(audio::wav_data_size(samples.len()));
    assert(header.len() == 44);
    let bytes = audio::wav_file(samples);
    assert(bytes[44 + 2 * i] == audio::pcm16(samples)[2 * i]);
    assert(bytes[44 + 2 * i + 1] == audio::pcm16(samples)[2 * i + 1]);
}

/// Samples one after the other give bytes one after the other.
pub proof fn law_pcm16_join(a: Seq<i16>, b: Seq<i16>)
    ensures
        audio::pcm16(a + b) == audio::pcm16(a) + audio::pcm16(b),
    decreases b.len(),
{
    if b.len() == 0 {
        assert(a + b =~= a);
        assert(audio::pcm16(a) + audio::pcm16(b) =~= audio::pcm16(a));
    } else {
        assert((a + b).drop_last() =~= a + b.drop_last());
        law_pcm16_join(a, b.drop_last());
        assert(audio::pcm16(a + b) =~= audio::pcm16(a) + audio::pcm16(b));
    }
}

/// Behind its header a WAV file holds the bytes of its samples.
pub proof fn law_wav_data(samples: Seq<i16>)
    ensures
        audio::wav_file(samples).skip(44) == audio::pcm16(samples),
{
    assert(audio::wav_header(audio::wav_data_size(samples.len())).len() == 44);
    assert(audio::wav_file(samples).skip(44) =~= audio::pcm16(samples));
}

/// The WAV file of joined audio holds, behind its header, what those of the two
/// parts hold behind theirs, whichever way every sample is scaled to 16 bits.
pub proof fn law_wav_join<A>(a: Seq<A>, b: Seq<A>, scale: spec_fn(A) -> i16)
    ensures
        audio::wav_file((a + b).map_values(scale)).skip(44) == audio::wav_file(
            a.map_values(scale),
        ).skip(44) + audio::wav_file(b.map_values(scale)).skip(44),
{
    law_wav_data((a + b).map_values(scale));
    law_wav_data(a.map_values(scale));
    law_wav_data(b.map_values(scale));
    assert((a + b).map_values(scale) =~= a.map_values(scale) + b.map_values(scale));
    law_pcm16_join(a.map_values(scale), b.map_values(scale));
}

proof fn lemma_le32(n: int)
    requires
        0 <= n <= u32::MAX,
    ensures
        read_u32(audio::le32(n), 0) == n,
{
}

/// The header of a WAV file that is not too long for it gives the size of what
/// follows the first eight bytes, and the size of the samples.
pub proof fn law_wav_sizes(samples: Seq<i16>)
    requires
        36 + 2 * samples.len() <= u32::MAX,
    ensures
        read_u32(audio::wav_file(samples), 4) == audio::wav_file(samples).len() - 8,
        read_u32(audio::wav_file(samples), 40) == 2 * samples.len(),
{
    law_wav_length(samples);
    let size = audio::wav_data_size(samples.len());
    assert(size == 2 * samples.len());
    lemma_le32(36 + size);
    lemma_le32(size);
    let bytes = audio::wav_file(samples);
    assert(bytes.subrange(4, 8) =~= audio::le32(36 + size));
    assert(bytes.subrange(40, 44) =~= audio::le32(size));
    assert forall|i: int| 0 <= i < 4 implies bytes[4 + i] == #[trigger] audio::le32(36 + size)[i]
        && bytes[40 + i] == audio::le32(size)[i] by {
        assert(bytes.subrange(4, 8)[i] == bytes[4 + i]);
        assert(bytes.subrange(40, 44)[i] == bytes[40 + i]);
    }
}

/// Samples one after the other give bytes one after the other.
pub proof fn law_pcm32_join(a: Seq<u32>, b: Seq<u32>)
    ensures
        audio::pcm32(a + b) == audio::pcm32(a) + audio::pcm32(b),
    decreases b.len(),
{
    if b.len() == 0 {
        assert(a + b =~= a);
        assert(audio::pcm32(a) + audio::pcm32(b) =~= audio::pcm32(a));
    } else {
        assert((a + b).drop_last() =~= a + b.drop_last());
        law_pcm32_join(a, b.drop_last());
        assert(audio::pcm32(a + b) =~= audio::pcm32(a) + audio::pcm32(b));
    }
}

/// The bytes of all chunks from `from` on, one after the other.
pub open spec fn chunks(samples: Seq<u32>, from: int) -> Seq<u8>
    decreases samples.len() - from,
{
    if from < 0 || from >= samples.len() {
        seq![]
    } else {
        let end = audio::chunk_end(from, samples.len() as int);
        audio::pcm32(samples.subrange(from, end)) + chunks(samples, end)
    }
}

proof fn lemma_chunks(samples: Seq<u32>, from: int)
    requires
        0 <= from <= samples.len(),
    ensures
        chunks(samples, from) == audio::pcm32(samples.skip(from)),
    decreases samples.len() - from,
{
    if from < samples.len() {
        let end = audio::chunk_end(from, samples.len() as int);
        lemma_chunks(samples, end);
        law_pcm32_join(samples.subrange(from, end), samples.skip(end));
        assert(samples.skip(from) =~= samples.subrange(from, end) + samples.skip(end));
    } else {
        assert(samples.skip(from) =~= Seq::empty());
    }
}

/// The chunks that the encoder is handed are together all samples.
pub proof fn law_chunks_are_all(samples: Seq<u32>)
    ensures
        chunks(samples, 0) == audio::pcm32(samples),
{
    lemma_chunks(samples, 0);
    assert(samples.skip(0) =~= samples);
}

/// Every sample is read back from where it stands among the bytes.
pub proof fn law_pcm32_samples(samples: Seq<u32>)
    ensures
        audio::pcm32(samples).len() == 4 * samples.len(),
        forall|i: int|
            0 <= i < samples.len() ==> read_u32(audio::pcm32(samples), 4 * i)
                == #[trigger] samples[i],
    decreases samples.len(),
{
    if samples.len() > 0 {
        let front = samples.drop_last();
        law_pcm32_samples(front);
        let bytes = audio::pcm32(samples);
        assert forall|i: int| 0 <= i < samples.len() implies read_u32(bytes, 4 * i)
            == #[trigger] samples[i] by {
            if i < front.len() {
                assert(samples[i] == front[i]);
            } else {
                lemma_le32(samples[i] as int);
            }
        }
    }
}

/// The unsigned number in the two bytes at `i`, the lowest first.
pub open spec fn read_u16(bytes: Seq<u8>, i: int) -> int {
    bytes[i] + 256 * bytes[i + 1]
}

/// Whatever samples a WAV file holds, its header names its chunks and says that
/// they are PCM of one channel, 16000 samples a second, 32000 bytes a second,
/// two bytes and 16 bits a sample. The sizes are those of the samples, of which
/// 32 bits are kept.
pub proof fn law_wav_header(samples: Seq<i16>)
    ensures
        ({
            let file = audio::wav_file(samples);
            let size = (2 * samples.len()) as int % 0x1_0000_0000;
            &&& file.subrange(0, 4) == seq![82u8, 73, 70, 70]
            &&& read_u32(file, 4) == (36 + size) % 0x1_0000_0000
            &&& file.subrange(8, 12) == seq![87u8, 65, 86, 69]
            &&& file.subrange(12, 16) == seq![102u8, 109, 116, 32]
            &&& read_u32(file, 16) == 16
            &&& read_u16(file, 20) == 1
            &&& read_u16(file, 22) == 1
            &&& read_u32(file, 24) == 16000
            &&& read_u32(file, 28) == 32000
            &&& read_u16(file, 32) == 2
            &&& read_u16(file, 34) == 16
            &&& file.subrange(36, 40) == seq![100u8, 97, 116, 97]
            &&& read_u32(file, 40) == size
        }),
{
    let file = audio::wav_file(samples);
    let size = audio::wav_data_size(samples.len());
    assert(file.subrange(0, 4) =~= seq![82u8, 73, 70, 70]);
    assert(file.subrange(8, 12) =~= seq![87u8, 65, 86, 69]);
    assert(file.subrange(12, 16) =~= seq![102u8, 109, 116, 32]);
    assert(file.subrange(36, 40) =~= seq![100u8, 97, 116, 97]);
    lemma_le32(size);
    lemma_field(file, 4, audio::le32(36 + size));
    lemma_field(file, 40, audio::le32(size));
    if 36 + size <= u32::MAX {
        lemma_le32(36 + size);
    } else {
        let over = 36 + size - 0x1_0000_0000;
        lemma_le32(over);
        assert(audio::le32(36 + size) =~= audio::le32(over));
    }
}

proof fn lemma_field(bytes: Seq<u8>, at: int, field: Seq<u8>)
    requires
        0 <= at,
        at + 4 <= bytes.len(),
        field.len() == 4,
        bytes.subrange(at, at + 4) =~= field,
    ensures
        read_u32(bytes, at) == read_u32(field, 0),
{
    assert(bytes.subrange(at, at + 4)[0] == bytes[at]);
    assert(bytes.subrange(at, at + 4)[1] == bytes[at + 1]);
    assert(bytes.subrange(at, at + 4)[2] == bytes[at + 2]);
    assert(bytes.subrange(at, at + 4)[3] == bytes[at + 3]);
}

/// The encoder is handed 4096 samples at a time, and what is left in the end.
pub proof fn law_chunk_size(from: int, len: int)
    requires
        0 <= from < len,
    ensures
        len - from > 4096 ==> audio::chunk_end(from, len) == from + 4096,
        len - from <= 4096 ==> audio::chunk_end(from, len) == len,
{
}

/// Whatever it is asked for, the encoder is told first how to read samples of 32
/// bits, 16000 a second in one channel; then what else was asked for; and last
/// in which format to write.
pub proof fn law_encoder_arguments(format: Seq<char>, extra: Seq<Seq<char>>)
    ensures
        ({
            let args = audio::encoder_arguments(format, extra);
            let n = extra.len() as int;
            &&& args.len() == 11 + n + 3
            &&& args[0] == "-hide_banner"@
            &&& args[1] == "-loglevel"@
            &&& args[2] == "error"@
            &&& args[3] == "-f"@
            &&& args[4] == "f32le"@
            &&& args[5] == "-ar"@
            &&& args[6] == "16000"@
            &&& args[7] == "-ac"@
            &&& args[8] == "1"@
            &&& args[9] == "-i"@
            &&& args[10] == "pipe:0"@
            &&& forall|i: int| 0 <= i < n ==> #[trigger] args[11 + i] == extra[i]
            &&& args[11 + n] == "-f"@
            &&& args[12 + n] == format
            &&& args[13 + n] == "pipe:1"@
        }),
{
}

/// The rate that the encoder is told is that of the samples, in decimal.
pub proof fn law_encoder_rate(format: Seq<char>, extra: Seq<Seq<char>>)
    ensures
        audio::SAMPLE_RATE == 16000,
        audio::encoder_arguments(format, extra)[5] == "-ar"@,
        audio::encoder_arguments(format, extra)[6] == audio::decimal(audio::SAMPLE_RATE as nat),
{
    reveal_strlit("16000");
    reveal_with_fuel(audio::decimal, 6);
    assert("16000"@ =~= audio::decimal(16000));
}

/// The number that decimal digits give.
pub open spec fn number(digits: Seq<char>) -> int
    decreases digits.len(),
{
    if digits.len() == 0 {
        0
    } else {
        10 * number(digits.drop_last()) + (digits.last() as int - '0' as int)
    }
}

/// A number in decimal consists of digits that give the number, with no zero in
/// front of others.
pub proof fn law_decimal(n: nat)
    ensures
        number(audio::decimal(n)) == n,
        audio::decimal(n).len() > 0,
        forall|i: int| 0 <= i < audio::decimal(n).len() ==> '0' <= #[trigger] audio::decimal(n)[i]
            <= '9',
        n > 0 ==> audio::decimal(n)[0] != '0',
        n == 0 ==> audio::decimal(n).len() == 1,
    decreases n,
{
    let text = audio::decimal(n);
    reveal_with_fuel(number, 2);
    if n < 10 {
        assert(text.drop_last() =~= Seq::empty());
    } else {
        law_decimal(n / 10);
        assert(text.drop_last() =~= audio::decimal(n / 10));
        assert(text[0] == audio::decimal(n / 10)[0]);
        assert forall|i: int| 0 <= i < text.len() implies '0' <= #[trigger] text[i] <= '9' by {
            if i < text.len() - 1 {
                assert(text[i] == audio::decimal(n / 10)[i]);
            }
        }
    }
}

/// An exit code is given with its sign, and its lack by a word.
pub proof fn law_code_text(n: i32)
    ensures
        audio::code_text(None) == "None"@,
        n >= 0 ==> audio::code_text(Some(n)) == "Some("@ + audio::decimal(n as nat) + ")"@,
        n < 0 ==> audio::code_text(Some(n)) == "Some(-"@ + audio::decimal((-n) as nat) + ")"@,
{
    reveal_strlit("Some(");
    reveal_strlit("-");
    reveal_strlit("Some(-");
    if n < 0 {
        assert("Some("@ + "-"@ =~= "Some(-"@);
        assert(audio::code_text(Some(n)) =~= "Some(-"@ + audio::decimal((-n) as nat) + ")"@);
    }
}

/// The views of strings are their characters, one by one.
pub proof fn law_string_views(v: Seq<String>)
    ensures
        audio::string_views(v).len() == v.len(),
        forall|i: int| 0 <= i < v.len() ==> (#[trigger] audio::string_views(v)[i]) == v[i]@,
{
}

/// The view of encoded audio is what its buffer holds, and its content type.
pub proof fn law_audio_view(encoded: EncodedAudio)
    ensures
        encoded@.data == audio::buffer_content(encoded.data),
        encoded@.content_type == encoded.content_type@,
{
}

/// How FLAC is named to the encoder and to the backends.
pub proof fn law_flac_names()
    ensures
        audio::FLAC_FORMAT@ == "flac"@,
        audio::FLAC_CONTENT_TYPE@ == "audio/flac"@,
{
}

} // verus!
