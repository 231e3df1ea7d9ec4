use voicevox_core::query::{check_query, AccentPhrase, AudioQuery, Mora, VowelKind};
use voicevox_core::wave::{
    apply_interrogative_upspeak, build_frame_segments, check_renderable, decode_crop,
    expand_frames, finish_samples, flatten_intonation, frame_count, mean_pitch, one_hot, pack_wav,
    pad_frames, scale_segment_pitches, synthesis_decode_input, synthesis_wave_from_decoded,
    FrameSegment, MAX_UPSPEAK_PITCH, PADDING_FRAMES,
};

fn voiced_mora(vowel: i64, vowel_length: u32, pitch: u32) -> Mora {
    Mora {
        text: "ア".to_string(),
        consonant: None,
        consonant_length: None,
        vowel,
        vowel_kind: VowelKind::Voiced,
        vowel_length,
        pitch,
    }
}

#[test]
fn frame_count_rounds_half_up() {
    // 0.1 s at neutral speed: 9.375 frames rounds to 9.
    assert_eq!(frame_count(1000, 100), 9);
    // The same span at half speed: 18.75 frames rounds to 19.
    assert_eq!(frame_count(1000, 50), 19);
    assert_eq!(frame_count(0, 100), 0);
}

#[test]
fn upspeak_appends_raised_mora() {
    let phrase = AccentPhrase {
        moras: vec![voiced_mora(7, 1000, 58_000)],
        accent: 1,
        pause_mora: None,
        is_interrogative: true,
    };
    let result = apply_interrogative_upspeak(&vec![phrase], true);
    assert_eq!(result[0].moras.len(), 2);
    assert_eq!(result[0].moras[1].pitch, 61_000);
    assert_eq!(result[0].moras[1].vowel, 7);
}

#[test]
fn upspeak_pitch_is_capped() {
    let phrase = AccentPhrase {
        moras: vec![voiced_mora(7, 1000, 64_000)],
        accent: 1,
        pause_mora: None,
        is_interrogative: true,
    };
    let result = apply_interrogative_upspeak(&vec![phrase], true);
    assert_eq!(result[0].moras[1].pitch, MAX_UPSPEAK_PITCH);
}

#[test]
fn upspeak_skips_non_interrogative_and_unvoiced() {
    let plain = AccentPhrase {
        moras: vec![voiced_mora(7, 1000, 58_000)],
        accent: 1,
        pause_mora: None,
        is_interrogative: false,
    };
    let silent = AccentPhrase {
        moras: vec![Mora { pitch: 0, ..voiced_mora(7, 1000, 0) }],
        accent: 1,
        pause_mora: None,
        is_interrogative: true,
    };
    let result = apply_interrogative_upspeak(&vec![plain, silent], true);
    assert_eq!(result[0].moras.len(), 1);
    assert_eq!(result[1].moras.len(), 1);
    let disabled = apply_interrogative_upspeak(
        &vec![AccentPhrase {
            moras: vec![voiced_mora(7, 1000, 58_000)],
            accent: 1,
            pause_mora: None,
            is_interrogative: true,
        }],
        false,
    );
    assert_eq!(disabled[0].moras.len(), 1);
}

#[test]
fn frame_segments_cover_silences_moras_and_pauses() {
    let phrase = AccentPhrase {
        moras: vec![Mora {
            text: "タ".to_string(),
            consonant: Some(37),
            consonant_length: Some(500),
            vowel: 7,
            vowel_kind: VowelKind::Voiced,
            vowel_length: 1000,
            pitch: 58_000,
        }],
        accent: 1,
        pause_mora: Some(Mora {
            text: "、".to_string(),
            consonant: None,
            consonant_length: None,
            vowel: 0,
            vowel_kind: VowelKind::Pause,
            vowel_length: 2000,
            pitch: 0,
        }),
        is_interrogative: false,
    };
    let segs = build_frame_segments(&vec![phrase], 100, 1000, 1000);
    assert_eq!(segs.len(), 5);
    assert_eq!(segs[0], FrameSegment { phoneme: 0, frames: 9, pitch: 0 });
    assert_eq!(segs[1], FrameSegment { phoneme: 37, frames: 5, pitch: 58_000 });
    assert_eq!(segs[2], FrameSegment { phoneme: 7, frames: 9, pitch: 58_000 });
    assert_eq!(segs[3], FrameSegment { phoneme: 0, frames: 19, pitch: 0 });
    assert_eq!(segs[4], FrameSegment { phoneme: 0, frames: 9, pitch: 0 });
}

#[test]
fn pitch_scaling_is_exact() {
    let segs = vec![FrameSegment { phoneme: 7, frames: 2, pitch: 50_000 }];
    // One octave up: the factor is 2.0 in millionths.
    let scaled = scale_segment_pitches(&segs, 2_000_000);
    assert_eq!(scaled[0].pitch, 100_000);
    // Neutral factor keeps the pitch.
    let neutral = scale_segment_pitches(&segs, 1_000_000);
    assert_eq!(neutral[0].pitch, 50_000);
}

#[test]
fn mean_is_weighted_over_voiced_frames() {
    let segs = vec![
        FrameSegment { phoneme: 7, frames: 1, pitch: 100 },
        FrameSegment { phoneme: 0, frames: 5, pitch: 0 },
        FrameSegment { phoneme: 7, frames: 3, pitch: 200 },
    ];
    // (100 + 3 * 200) / 4 = 175.
    assert_eq!(mean_pitch(&segs), 175);
    assert_eq!(mean_pitch(&Vec::new()), 0);
}

#[test]
fn intonation_flattening_pulls_toward_mean() {
    let segs = vec![
        FrameSegment { phoneme: 7, frames: 1, pitch: 100 },
        FrameSegment { phoneme: 0, frames: 5, pitch: 0 },
        FrameSegment { phoneme: 7, frames: 1, pitch: 200 },
    ];
    // Neutral scale keeps voiced pitches.
    let same = flatten_intonation(&segs, 150, 100);
    assert_eq!(same[0].pitch, 100);
    assert_eq!(same[1].pitch, 0);
    assert_eq!(same[2].pitch, 200);
    // Zero scale collapses voiced pitches to the mean; silence stays.
    let flat = flatten_intonation(&segs, 150, 0);
    assert_eq!(flat[0].pitch, 150);
    assert_eq!(flat[1].pitch, 0);
    assert_eq!(flat[2].pitch, 150);
    // Double scale spreads around the mean.
    let wide = flatten_intonation(&segs, 150, 200);
    assert_eq!(wide[0].pitch, 50);
    assert_eq!(wide[2].pitch, 250);
}

#[test]
fn expansion_repeats_each_segment() {
    let segs = vec![
        FrameSegment { phoneme: 3, frames: 2, pitch: 10 },
        FrameSegment { phoneme: 5, frames: 1, pitch: 0 },
    ];
    let (f0, ids) = expand_frames(&segs);
    assert_eq!(f0, vec![10, 10, 0]);
    assert_eq!(ids, vec![3, 3, 5]);
}

#[test]
fn padding_adds_constant_spans() {
    let padded = pad_frames(&vec![5, 6], 0);
    assert_eq!(padded.len(), 2 + 2 * PADDING_FRAMES);
    assert_eq!(padded[0], 0);
    assert_eq!(padded[PADDING_FRAMES - 1], 0);
    assert_eq!(padded[PADDING_FRAMES], 5);
    assert_eq!(padded[PADDING_FRAMES + 1], 6);
    assert_eq!(padded[PADDING_FRAMES + 2], 0);
    assert_eq!(padded[padded.len() - 1], 0);
}

#[test]
fn one_hot_rows_have_a_single_one() {
    let matrix = one_hot(&vec![0, 2], 3).unwrap();
    assert_eq!(matrix, vec![1, 0, 0, 0, 0, 1]);
    assert!(one_hot(&vec![3], 3).is_err());
    assert!(one_hot(&vec![-1], 3).is_err());
}

#[test]
fn decode_works() {
    // 「テスト」: 69 frames of 256 samples each come back once the padding
    // spans are cropped.
    const F0_LENGTH: usize = 69;
    let raw: Vec<i64> = vec![7; (F0_LENGTH + 2 * PADDING_FRAMES) * 256];
    let result = decode_crop(&raw, F0_LENGTH);
    assert_eq!(result.len(), F0_LENGTH * 256);
    const PHONEME_SIZE: usize = 45;
    let ids: Vec<i64> = vec![0; F0_LENGTH];
    let matrix = one_hot(&ids, PHONEME_SIZE).unwrap();
    assert_eq!(matrix.len(), F0_LENGTH * PHONEME_SIZE);
}

#[test]
fn quantization_scales_rounds_and_clamps() {
    let samples: Vec<i64> = vec![0, 1_000_000, -1_000_000, 500_000, 3_000_000, -3_000_000];
    let out = finish_samples(&samples, 100);
    assert_eq!(out, vec![0, 32767, -32767, 16384, 32767, -32768]);
    // Volume at half scale.
    let half = finish_samples(&vec![1_000_000], 50);
    assert_eq!(half, vec![16384]);
    // Volume zero silences everything.
    let silent = finish_samples(&vec![1_000_000, -1_000_000], 0);
    assert_eq!(silent, vec![0, 0]);
}

#[test]
fn wav_header_is_canonical() {
    let samples: Vec<i16> = vec![0, 1, -1];
    let wav = pack_wav(&samples);
    assert_eq!(wav.len(), 44 + 2 * samples.len());
    assert_eq!(&wav[0..4], b"RIFF");
    assert_eq!(&wav[4..8], &(36u32 + 6).to_le_bytes());
    assert_eq!(&wav[8..12], b"WAVE");
    assert_eq!(&wav[12..16], b"fmt ");
    assert_eq!(&wav[16..20], &16u32.to_le_bytes());
    assert_eq!(&wav[20..22], &1u16.to_le_bytes(), "PCM format code");
    assert_eq!(&wav[22..24], &1u16.to_le_bytes(), "one channel");
    assert_eq!(&wav[24..28], &24000u32.to_le_bytes(), "sample rate");
    assert_eq!(&wav[28..32], &48000u32.to_le_bytes(), "byte rate");
    assert_eq!(&wav[32..34], &2u16.to_le_bytes(), "block align");
    assert_eq!(&wav[34..36], &16u16.to_le_bytes(), "bits per sample");
    assert_eq!(&wav[36..40], b"data");
    assert_eq!(&wav[40..44], &6u32.to_le_bytes(), "data chunk size");
    assert_eq!(&wav[44..46], &[0, 0]);
    assert_eq!(&wav[46..48], &[1, 0]);
    assert_eq!(&wav[48..50], &[255, 255]);
}

#[test]
fn synthesis_length_matches_frame_count() {
    let frames: usize = 69;
    let decoded: Vec<i64> = vec![0; (frames + 2 * PADDING_FRAMES) * 256];
    let wav = synthesis_wave_from_decoded(&decoded, frames, 100);
    assert_eq!(wav.len(), 44 + 2 * 256 * frames);
}

#[test]
fn decode_input_is_assembled_from_a_query() {
    let phrase = AccentPhrase {
        moras: vec![voiced_mora(7, 1000, 58_000)],
        accent: 1,
        pause_mora: None,
        is_interrogative: false,
    };
    let query = AudioQuery {
        accent_phrases: vec![phrase],
        speed_scale: 100,
        pitch_scale: 0,
        intonation_scale: 100,
        volume_scale: 100,
        pre_phoneme_length: 1000,
        post_phoneme_length: 1000,
        output_sampling_rate: 24_000,
        output_stereo: false,
        kana: None,
    };
    let input = synthesis_decode_input(&query, false, 1_000_000, 45).unwrap();
    // Three spans of nine frames each: silence, the vowel, silence.
    assert_eq!(input.frames, 27);
    assert_eq!(input.f0.len(), 27 + 2 * PADDING_FRAMES);
    assert_eq!(input.phoneme.len(), (27 + 2 * PADDING_FRAMES) * 45);
    // The padding frames are silent pauses.
    assert_eq!(input.f0[0], 0);
    assert_eq!(input.phoneme[0], 1);
    // The vowel frames carry the mora's pitch.
    assert_eq!(input.f0[PADDING_FRAMES + 9], 58_000);
}

#[test]
fn query_checks_decide_wellformedness_and_bounds() {
    let good = AudioQuery {
        accent_phrases: vec![AccentPhrase {
            moras: vec![voiced_mora(7, 1000, 58_000)],
            accent: 1,
            pause_mora: None,
            is_interrogative: false,
        }],
        speed_scale: 100,
        pitch_scale: 0,
        intonation_scale: 100,
        volume_scale: 100,
        pre_phoneme_length: 1000,
        post_phoneme_length: 1000,
        output_sampling_rate: 24_000,
        output_stereo: false,
        kana: None,
    };
    assert!(check_query(&good));
    assert!(check_renderable(&good, true, 45));

    let mut zero_speed = AudioQuery { speed_scale: 0, kana: None, ..good };
    assert!(!check_query(&zero_speed));
    zero_speed.speed_scale = 100;
    zero_speed.accent_phrases[0].accent = 2;
    assert!(!check_query(&zero_speed), "accent beyond the moras is malformed");
    zero_speed.accent_phrases[0].accent = 1;
    zero_speed.accent_phrases[0].moras[0].consonant = Some(3);
    assert!(!check_query(&zero_speed), "a consonant without a length is malformed");
}

#[test]
fn decode_input_rejects_out_of_table_phonemes() {
    let query = AudioQuery {
        accent_phrases: vec![AccentPhrase {
            moras: vec![voiced_mora(99, 1000, 58_000)],
            accent: 1,
            pause_mora: None,
            is_interrogative: false,
        }],
        speed_scale: 100,
        pitch_scale: 0,
        intonation_scale: 100,
        volume_scale: 100,
        pre_phoneme_length: 1000,
        post_phoneme_length: 1000,
        output_sampling_rate: 24_000,
        output_stereo: false,
        kana: None,
    };
    assert!(
        synthesis_decode_input(&query, false, 1_000_000, 45).is_err(),
        "a phoneme outside the 45-entry table must be rejected",
    );
}

#[test]
fn interrogative_flag_is_inert_without_upspeak() {
    let build = |flag: bool| AudioQuery {
        accent_phrases: vec![AccentPhrase {
            moras: vec![voiced_mora(7, 1000, 58_000)],
            accent: 1,
            pause_mora: None,
            is_interrogative: flag,
        }],
        speed_scale: 100,
        pitch_scale: 0,
        intonation_scale: 100,
        volume_scale: 100,
        pre_phoneme_length: 1000,
        post_phoneme_length: 1000,
        output_sampling_rate: 24_000,
        output_stereo: false,
        kana: None,
    };
    let a = synthesis_decode_input(&build(true), false, 1_000_000, 45).unwrap();
    let b = synthesis_decode_input(&build(false), false, 1_000_000, 45).unwrap();
    assert_eq!(a.frames, b.frames);
    assert_eq!(a.f0, b.f0);
    assert_eq!(a.phoneme, b.phoneme);
    // With upspeak enabled the flag does matter.
    let c = synthesis_decode_input(&build(true), true, 1_000_000, 45).unwrap();
    assert_ne!(a.frames, c.frames);
}
