use voicevox_core::error::Error;
use voicevox_core::prosody::{
    apply_mora_pitch, apply_phoneme_length, duration_input_vector, intonation_input_positions,
    predict_duration_output, predict_intonation_output, replace_mora_data, replace_mora_pitch,
    replace_phoneme_length, MIN_PHONEME_LENGTH,
};
use voicevox_core::query::{
    audio_query_from_accent_phrases, AccentPhrase, Mora, VowelKind,
};

fn mora(text: &str, consonant: Option<i64>, vowel: i64, kind: VowelKind) -> Mora {
    Mora {
        text: text.to_string(),
        consonant,
        consonant_length: consonant.map(|_| 0),
        vowel,
        vowel_kind: kind,
        vowel_length: 0,
        pitch: 0,
    }
}

/// The three moras of "テスト" with the accent on the first mora, using the
/// phoneme identifiers of the external table (t=37, e=14, s=35, U=6, o=30).
fn tesuto_phrase() -> AccentPhrase {
    AccentPhrase {
        moras: vec![
            mora("テ", Some(37), 14, VowelKind::Voiced),
            mora("ス", Some(35), 6, VowelKind::Devoiced),
            mora("ト", Some(37), 30, VowelKind::Voiced),
        ],
        accent: 1,
        pause_mora: None,
        is_interrogative: false,
    }
}

#[test]
fn duration_input_has_sentinels_and_phonemes() {
    let phrases = vec![tesuto_phrase()];
    let input = duration_input_vector(&phrases);
    assert_eq!(input, vec![0, 37, 14, 35, 6, 37, 30, 0]);
}

#[test]
fn predict_duration_works() {
    // One duration per phoneme of 「こんにちは、音声合成の世界へようこそ」.
    let phoneme_vector: Vec<i64> = vec![
        0, 23, 30, 4, 28, 21, 10, 21, 42, 7, 0, 30, 4, 35, 14, 14, 16, 30, 30, 35, 14, 14, 28,
        30, 35, 14, 23, 7, 21, 14, 43, 30, 30, 23, 30, 35, 30, 0,
    ];
    let raw: Vec<u32> = vec![0; phoneme_vector.len()];
    let result = predict_duration_output(raw, phoneme_vector.len());
    assert!(result.is_ok(), "{result:?}");
    let out = result.unwrap();
    assert_eq!(out.len(), phoneme_vector.len());
    assert!(out.iter().all(|&v| v >= MIN_PHONEME_LENGTH));
}

#[test]
fn duration_floor_keeps_large_values() {
    let out = predict_duration_output(vec![40, 100, 903], 3).unwrap();
    assert_eq!(out, vec![100, 100, 903]);
}

#[test]
fn duration_length_mismatch_fails() {
    assert_eq!(predict_duration_output(vec![1, 2], 3), Err(Error::InferenceFailed));
}

#[test]
fn predict_intonation_works() {
    let phrases = vec![tesuto_phrase()];
    let positions = intonation_input_positions(&phrases);
    let vowels: Vec<i64> = positions.iter().map(|p| p.vowel).collect();
    let consonants: Vec<i64> = positions.iter().map(|p| p.consonant).collect();
    let start_accent: Vec<i64> = positions.iter().map(|p| p.start_accent).collect();
    let end_accent: Vec<i64> = positions.iter().map(|p| p.end_accent).collect();
    let start_phrase: Vec<i64> = positions.iter().map(|p| p.start_accent_phrase).collect();
    let end_phrase: Vec<i64> = positions.iter().map(|p| p.end_accent_phrase).collect();
    assert_eq!(vowels, vec![0, 14, 6, 30, 0]);
    assert_eq!(consonants, vec![-1, 37, 35, 37, -1]);
    assert_eq!(start_accent, vec![0, 1, 0, 0, 0]);
    assert_eq!(end_accent, vec![0, 1, 0, 0, 0]);
    assert_eq!(start_phrase, vec![0, 1, 0, 0, 0]);
    assert_eq!(end_phrase, vec![0, 0, 0, 1, 0]);

    let raw: Vec<u32> = vec![50_000; positions.len()];
    let out = predict_intonation_output(raw, positions.len()).unwrap();
    assert_eq!(out.len(), 5);
}

#[test]
fn intonation_length_mismatch_fails() {
    assert_eq!(predict_intonation_output(vec![1, 2], 5), Err(Error::InferenceFailed));
}

#[test]
fn phoneme_lengths_are_written_back_in_order() {
    let phrases = vec![tesuto_phrase()];
    // Sentinel, then (consonant, vowel) per mora, then sentinel.
    let durations: Vec<u32> = vec![999, 101, 102, 103, 104, 105, 106, 998];
    let written = apply_phoneme_length(&phrases, &durations);
    let moras = &written[0].moras;
    assert_eq!(moras[0].consonant_length, Some(101));
    assert_eq!(moras[0].vowel_length, 102);
    assert_eq!(moras[1].consonant_length, Some(103));
    assert_eq!(moras[1].vowel_length, 104);
    assert_eq!(moras[2].consonant_length, Some(105));
    assert_eq!(moras[2].vowel_length, 106);
    assert_eq!(written[0].accent, 1);
}

#[test]
fn pause_mora_receives_its_length() {
    let mut phrase = tesuto_phrase();
    phrase.pause_mora = Some(Mora {
        text: "、".to_string(),
        consonant: None,
        consonant_length: None,
        vowel: 0,
        vowel_kind: VowelKind::Pause,
        vowel_length: 0,
        pitch: 0,
    });
    let phrases = vec![phrase];
    let durations: Vec<u32> = vec![999, 101, 102, 103, 104, 105, 106, 777, 998];
    let written = apply_phoneme_length(&phrases, &durations);
    assert_eq!(written[0].pause_mora.as_ref().unwrap().vowel_length, 777);
}

#[test]
fn replace_phoneme_length_is_idempotent() {
    let phrases = vec![tesuto_phrase()];
    let raw: Vec<u32> = vec![0, 90, 150, 103, 104, 105, 106, 0];
    let once = replace_phoneme_length(&phrases, raw.clone()).unwrap();
    let twice = replace_phoneme_length(&once, raw).unwrap();
    for (a, b) in once.iter().zip(twice.iter()) {
        assert_eq!(a.accent, b.accent);
        for (ma, mb) in a.moras.iter().zip(b.moras.iter()) {
            assert_eq!(ma.consonant_length, mb.consonant_length);
            assert_eq!(ma.vowel_length, mb.vowel_length);
        }
    }
    // The floor was applied to the small leading value.
    assert_eq!(once[0].moras[0].consonant_length, Some(100));
    assert_eq!(once[0].moras[0].vowel_length, 150);
}

#[test]
fn devoiced_vowels_are_silenced() {
    let phrases = vec![tesuto_phrase()];
    let pitches: Vec<u32> = vec![11, 57_000, 58_000, 59_000, 12];
    let written = apply_mora_pitch(&phrases, &pitches);
    let moras = &written[0].moras;
    assert_eq!(moras[0].pitch, 57_000);
    assert_eq!(moras[1].pitch, 0, "devoiced vowel must have pitch zero");
    assert_eq!(moras[2].pitch, 59_000);
}

#[test]
fn replace_mora_pitch_checks_length() {
    let phrases = vec![tesuto_phrase()];
    assert!(matches!(
        replace_mora_pitch(&phrases, vec![1, 2, 3]),
        Err(Error::InferenceFailed)
    ));
    assert!(replace_mora_pitch(&phrases, vec![0, 1, 2, 3, 0]).is_ok());
}

#[test]
fn replace_mora_data_writes_lengths_and_pitches() {
    let phrases = vec![tesuto_phrase()];
    let durations: Vec<u32> = vec![0, 101, 102, 103, 104, 105, 106, 0];
    let pitches: Vec<u32> = vec![0, 57_000, 58_000, 59_000, 0];
    let written = replace_mora_data(&phrases, durations, pitches).unwrap();
    let moras = &written[0].moras;
    assert_eq!(moras[0].consonant_length, Some(101));
    assert_eq!(moras[0].vowel_length, 102);
    assert_eq!(moras[0].pitch, 57_000);
    assert_eq!(moras[1].pitch, 0);
    assert_eq!(moras[2].pitch, 59_000);
}

#[test]
fn audio_query_carries_documented_defaults() {
    let phrases = vec![tesuto_phrase()];
    let query = audio_query_from_accent_phrases(phrases, Some("テ'_スト".to_string()));
    assert_eq!(query.accent_phrases.len(), 1);
    assert_eq!(query.speed_scale, 100);
    assert_eq!(query.pitch_scale, 0);
    assert_eq!(query.intonation_scale, 100);
    assert_eq!(query.volume_scale, 100);
    assert_eq!(query.pre_phoneme_length, 1000);
    assert_eq!(query.post_phoneme_length, 1000);
    assert_eq!(query.output_sampling_rate, 24_000);
    assert!(!query.output_stereo);
    assert_eq!(query.kana.as_deref(), Some("テ'_スト"));
}
