use hyprwhspr_rs::audio::{
    begin_encoding, begin_flac, encode_to_wav, ffmpeg_args, finish_encoding, pcm_chunk,
    AudioError, EncodeStep, CHUNK_SIZE, FLAC_CONTENT_TYPE,
};

#[test]
fn wav_files_have_a_header_and_samples() {
    let audio = encode_to_wav(&[0, 1, -1, i16::MAX, i16::MIN, 0x1234]).unwrap();
    assert_eq!(audio.content_type, "audio/wav");
    let expected: Vec<u8> = vec![
        b'R', b'I', b'F', b'F', 48, 0, 0, 0, b'W', b'A', b'V', b'E', // file
        b'f', b'm', b't', b' ', 16, 0, 0, 0, 1, 0, 1, 0, // PCM, one channel
        0x80, 0x3e, 0, 0, 0, 0x7d, 0, 0, 2, 0, 16, 0, // rates and sizes
        b'd', b'a', b't', b'a', 12, 0, 0, 0, // samples
        0, 0, 1, 0, 255, 255, 255, 127, 0, 128, 0x34, 0x12,
    ];
    assert_eq!(&audio.data[..], &expected[..]);
}

#[test]
fn wav_files_can_be_empty() {
    let audio = encode_to_wav(&[]).unwrap();
    assert_eq!(audio.data.len(), 44);
    assert_eq!(&audio.data[4..8], &36u32.to_le_bytes());
    assert_eq!(&audio.data[40..44], &0u32.to_le_bytes());
}

#[test]
fn wav_sizes_and_samples_are_read_back() {
    let samples: Vec<i16> = (0..70_000).map(|n| (n * 7919 % 65536 - 32768) as i16).collect();
    let audio = encode_to_wav(&samples).unwrap();
    assert_eq!(audio.data.len(), 44 + 2 * samples.len());
    let size = (audio.data.len() - 8) as u32;
    assert_eq!(&audio.data[4..8], &size.to_le_bytes());
    assert_eq!(&audio.data[40..44], &(size - 36).to_le_bytes());
    for (i, sample) in samples.iter().enumerate() {
        let at = 44 + 2 * i;
        assert_eq!(&audio.data[at..at + 2], &sample.to_le_bytes());
    }
}

#[test]
fn chunks_are_all_samples() {
    for len in [0, 1, CHUNK_SIZE - 1, CHUNK_SIZE, CHUNK_SIZE + 1, 3 * CHUNK_SIZE + 5] {
        let samples: Vec<f32> = (0..len).map(|n| n as f32 / 3.0 - 1000.0).collect();
        let bits: Vec<u32> = samples.iter().map(|sample| sample.to_bits()).collect();
        let expected: Vec<u8> = samples.iter().flat_map(|s| s.to_le_bytes()).collect();
        let mut bytes = Vec::new();
        let mut from = 0;
        while let Some((chunk, next)) = pcm_chunk(&bits, from) {
            assert!(from < bits.len());
            assert!(chunk.len() <= 4 * CHUNK_SIZE);
            assert_eq!(next, (from + CHUNK_SIZE).min(len));
            bytes.extend(chunk);
            from = next;
        }
        assert_eq!(from, len);
        assert_eq!(bytes, expected);
    }
}

#[test]
fn there_is_no_chunk_past_the_end() {
    assert_eq!(pcm_chunk(&[], 0), None);
    assert_eq!(pcm_chunk(&[1, 2], 2), None);
    assert_eq!(pcm_chunk(&[1, 2], usize::MAX), None);
    assert_eq!(
        pcm_chunk(&[1, 0x0403_0201], 1),
        Some((vec![1, 2, 3, 4], 2))
    );
}

#[test]
fn joined_audio_holds_the_samples_of_both_parts() {
    let a = [0.0f32, 0.5, -0.5, 1.0];
    let b = [-1.0f32, 2.0, 0.25];
    let scale = |sample: &f32| (sample * 32767.0).clamp(-32768.0, 32767.0) as i16;
    let wav = |samples: &[f32]| {
        let scaled: Vec<i16> = samples.iter().map(scale).collect();
        encode_to_wav(&scaled).unwrap().data[44..].to_vec()
    };
    let joined = [&a[..], &b[..]].concat();
    assert_eq!(wav(&joined), [wav(&a), wav(&b)].concat());
    assert_eq!(
        wav(&a),
        vec![0, 0, 0xff, 0x3f, 0x01, 0xc0, 0xff, 0x7f]
    );
}

#[test]
fn the_encoder_is_told_what_to_do() {
    assert_eq!(
        ffmpeg_args("ogg", &["-b", "64k"]),
        vec![
            "-hide_banner",
            "-loglevel",
            "error",
            "-f",
            "f32le",
            "-ar",
            "16000",
            "-ac",
            "1",
            "-i",
            "pipe:0",
            "-b",
            "64k",
            "-f",
            "ogg",
            "pipe:1",
        ]
    );
}

#[test]
fn flac_is_compressed_as_far_as_it_can_be() {
    match begin_flac(1) {
        EncodeStep::Run(args) => {
            assert_eq!(args, ffmpeg_args("flac", &["-compression_level", "12"]))
        }
        EncodeStep::Done(_) => panic!("no encoder"),
    }
}

#[test]
fn no_encoder_is_run_for_no_samples() {
    match begin_flac(0) {
        EncodeStep::Done(audio) => {
            assert!(audio.data.is_empty());
            assert_eq!(audio.content_type, FLAC_CONTENT_TYPE);
            assert_eq!(audio.content_type, "audio/flac");
        }
        EncodeStep::Run(_) => panic!("an encoder"),
    }
    assert!(matches!(
        begin_encoding(3, "wav", "audio/wav", &[]),
        EncodeStep::Run(_)
    ));
}

#[test]
fn what_the_encoder_wrote_is_the_audio() {
    let audio = finish_encoding(true, Some(0), vec![1, 2, 3], b"noise", "audio/flac");
    let audio = audio.ok().unwrap();
    assert_eq!(&audio.data[..], &[1, 2, 3]);
    assert_eq!(audio.content_type, "audio/flac");
}

#[test]
fn a_failed_encoder_is_reported() {
    let error = finish_encoding(false, Some(-17), vec![1], b"bad \xff", "audio/flac");
    let error = error.err().unwrap();
    assert_eq!(
        error,
        AudioError {
            code: Some(-17),
            stderr: "bad \u{fffd}".to_string(),
        }
    );
    assert_eq!(
        error.to_string(),
        "ffmpeg exited with status Some(-17): bad \u{fffd}"
    );
    let error = finish_encoding(false, None, vec![], b"", "audio/flac").err().unwrap();
    assert_eq!(error.to_string(), "ffmpeg exited with status None: ");
}

#[test]
fn exit_codes_are_written_as_the_standard_library_does() {
    for n in [0, 1, 9, 10, 255, 1_000_000, i32::MAX, -1, -10, i32::MIN] {
        let error = AudioError {
            code: Some(n),
            stderr: "x".to_string(),
        };
        assert_eq!(
            error.to_string(),
            format!("ffmpeg exited with status {:?}: {}", error.code, "x")
        );
    }
}
