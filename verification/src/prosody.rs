//! The prosody refiner: flattens accent phrases into the inputs of the
//! duration and intonation models, and writes the model outputs back into
//! fresh accent phrases. The neural runs themselves happen outside; every
//! function here takes or returns plain values with an exact contract.

use vstd::prelude::*;
use crate::error::Error;
use crate::query::{
    clone_mora, phrase_views, AccentPhrase, AccentPhraseView, Mora, MoraView, VowelKind,
    PAU_PHONEME,
};

verus! {

/// The floor applied to predicted phoneme durations, in ticks (0.01 s).
pub const MIN_PHONEME_LENGTH: u32 = 100;

/// The phonemes one mora contributes: its consonant, where present, then
/// its vowel.
pub open spec fn mora_phonemes(m: MoraView) -> Seq<i64> {
    match m.consonant {
        Some(c) => seq![c, m.vowel],
        None => seq![m.vowel],
    }
}

/// The phonemes of a sequence of moras, in order.
pub open spec fn moras_phonemes(ms: Seq<MoraView>) -> Seq<i64>
    decreases ms.len(),
{
    if ms.len() == 0 {
        Seq::empty()
    } else {
        moras_phonemes(ms.drop_last()) + mora_phonemes(ms.last())
    }
}

/// The phonemes of one phrase: its moras, then its pause if present.
pub open spec fn phrase_phonemes(p: AccentPhraseView) -> Seq<i64> {
    moras_phonemes(p.moras) + if p.pause_mora is Some {
        seq![PAU_PHONEME]
    } else {
        Seq::empty()
    }
}

/// The phonemes of a sequence of phrases, in order.
pub open spec fn phrases_phonemes(ps: Seq<AccentPhraseView>) -> Seq<i64>
    decreases ps.len(),
{
    if ps.len() == 0 {
        Seq::empty()
    } else {
        phrases_phonemes(ps.drop_last()) + phrase_phonemes(ps.last())
    }
}

/// The duration model's input: the flattened phonemes between a leading and
/// a trailing pause sentinel.
pub open spec fn all_phonemes(ps: Seq<AccentPhraseView>) -> Seq<i64> {
    seq![PAU_PHONEME] + phrases_phonemes(ps) + seq![PAU_PHONEME]
}

/// How many phonemes one mora contributes.
pub open spec fn mora_pcount(m: MoraView) -> nat {
    if m.consonant is Some {
        2
    } else {
        1
    }
}

/// How many phonemes a sequence of moras contributes.
pub open spec fn moras_pcount(ms: Seq<MoraView>) -> nat
    decreases ms.len(),
{
    if ms.len() == 0 {
        0
    } else {
        moras_pcount(ms.drop_last()) + mora_pcount(ms.last())
    }
}

/// How many phonemes one phrase contributes.
pub open spec fn phrase_pcount(p: AccentPhraseView) -> nat {
    moras_pcount(p.moras) + if p.pause_mora is Some {
        1nat
    } else {
        0nat
    }
}

/// How many phonemes a sequence of phrases contributes.
pub open spec fn phrases_pcount(ps: Seq<AccentPhraseView>) -> nat
    decreases ps.len(),
{
    if ps.len() == 0 {
        0
    } else {
        phrases_pcount(ps.drop_last()) + phrase_pcount(ps.last())
    }
}

/// The length of the duration model's input: the phonemes plus the two
/// sentinels.
pub open spec fn duration_input_len(ps: Seq<AccentPhraseView>) -> nat {
    2 + phrases_pcount(ps)
}

/// Where, in the duration vector, the phonemes of mora `k` of phrase `j`
/// start.
pub open spec fn mora_offset(ps: Seq<AccentPhraseView>, j: int, k: int) -> int {
    1 + phrases_pcount(ps.take(j)) as int + moras_pcount(ps[j].moras.take(k)) as int
}

/// Where, in the duration vector, the pause phoneme of phrase `j` sits.
pub open spec fn pause_offset(ps: Seq<AccentPhraseView>, j: int) -> int {
    1 + phrases_pcount(ps.take(j)) as int + moras_pcount(ps[j].moras) as int
}

pub proof fn lemma_moras_pcount_take_succ(ms: Seq<MoraView>, k: int)
    requires
        0 <= k < ms.len(),
    ensures
        moras_pcount(ms.take(k + 1)) == moras_pcount(ms.take(k)) + mora_pcount(ms[k]),
{
    assert(ms.take(k + 1).drop_last() =~= ms.take(k));
    assert(ms.take(k + 1).last() == ms[k]);
}

pub proof fn lemma_moras_pcount_mono(ms: Seq<MoraView>, k: int)
    requires
        0 <= k <= ms.len(),
    ensures
        moras_pcount(ms.take(k)) <= moras_pcount(ms),
    decreases ms.len() - k,
{
    if k == ms.len() {
        assert(ms.take(k) =~= ms);
    } else {
        lemma_moras_pcount_take_succ(ms, k);
        lemma_moras_pcount_mono(ms, k + 1);
    }
}

pub proof fn lemma_phrases_pcount_take_succ(ps: Seq<AccentPhraseView>, j: int)
    requires
        0 <= j < ps.len(),
    ensures
        phrases_pcount(ps.take(j + 1)) == phrases_pcount(ps.take(j)) + phrase_pcount(ps[j]),
{
    assert(ps.take(j + 1).drop_last() =~= ps.take(j));
    assert(ps.take(j + 1).last() == ps[j]);
}

pub proof fn lemma_phrases_pcount_mono(ps: Seq<AccentPhraseView>, j: int)
    requires
        0 <= j <= ps.len(),
    ensures
        phrases_pcount(ps.take(j)) <= phrases_pcount(ps),
    decreases ps.len() - j,
{
    if j == ps.len() {
        assert(ps.take(j) =~= ps);
    } else {
        lemma_phrases_pcount_take_succ(ps, j);
        lemma_phrases_pcount_mono(ps, j + 1);
    }
}

/// The flattened phonemes are exactly as many as the counts say.
pub proof fn lemma_moras_phonemes_len(ms: Seq<MoraView>)
    ensures
        moras_phonemes(ms).len() == moras_pcount(ms),
    decreases ms.len(),
{
    if ms.len() > 0 {
        lemma_moras_phonemes_len(ms.drop_last());
    }
}

/// The flattened phrase phonemes are exactly as many as the counts say.
pub proof fn lemma_phrases_phonemes_len(ps: Seq<AccentPhraseView>)
    ensures
        phrases_phonemes(ps).len() == phrases_pcount(ps),
    decreases ps.len(),
{
    if ps.len() > 0 {
        lemma_phrases_phonemes_len(ps.drop_last());
        lemma_moras_phonemes_len(ps.last().moras);
    }
}

/// Flattens accent phrases into the duration model's input: for every mora
/// its consonant (where present) and vowel, a pause phoneme after each
/// phrase that carries one, and a pause sentinel at both ends.
pub fn duration_input_vector(phrases: &Vec<AccentPhrase>) -> (r: Vec<i64>)
    ensures
        r@ == all_phonemes(phrase_views(phrases@)),
        r@.len() == duration_input_len(phrase_views(phrases@)),
{
    let ghost ps = phrase_views(phrases@);
    let mut r: Vec<i64> = Vec::new();
    r.push(PAU_PHONEME);
    let mut j: usize = 0;
    while j < phrases.len()
        invariant
            j <= phrases.len(),
            ps == phrase_views(phrases@),
            r@ =~= seq![PAU_PHONEME] + phrases_phonemes(ps.take(j as int)),
        decreases phrases.len() - j,
    {
        let p = &phrases[j];
        let mut k: usize = 0;
        while k < p.moras.len()
            invariant
                k <= p.moras.len(),
                j < phrases.len(),
                ps == phrase_views(phrases@),
                p == &phrases@[j as int],
                r@ =~= seq![PAU_PHONEME] + phrases_phonemes(ps.take(j as int)) + moras_phonemes(
                    ps[j as int].moras.take(k as int),
                ),
            decreases p.moras.len() - k,
        {
            let m = &p.moras[k];
            match m.consonant {
                Some(c) => {
                    r.push(c);
                    r.push(m.vowel);
                },
                None => {
                    r.push(m.vowel);
                },
            }
            proof {
                let pm = ps[j as int].moras;
                assert(pm.take(k + 1).drop_last() =~= pm.take(k as int));
                assert(pm.take(k + 1).last() == pm[k as int]);
                assert(pm[k as int] == p.moras@[k as int]@);
                assert(r@ =~= seq![PAU_PHONEME] + phrases_phonemes(ps.take(j as int))
                    + moras_phonemes(pm.take(k + 1)));
            }
            k += 1;
        }
        if p.pause_mora.is_some() {
            r.push(PAU_PHONEME);
        }
        proof {
            let pm = ps[j as int].moras;
            assert(pm.take(pm.len() as int) =~= pm);
            assert(ps.take(j + 1).drop_last() =~= ps.take(j as int));
            assert(ps.take(j + 1).last() == ps[j as int]);
            assert(r@ =~= seq![PAU_PHONEME] + phrases_phonemes(ps.take(j + 1)));
        }
        j += 1;
    }
    r.push(PAU_PHONEME);
    proof {
        assert(ps.take(ps.len() as int) =~= ps);
        assert(r@ =~= all_phonemes(ps));
        lemma_phrases_phonemes_len(ps);
    }
    r
}

/// Shapes the raw output of the duration model: it must have one value per
/// input phoneme, and every value below the floor is raised to the floor.
/// Fails with `InferenceFailed` exactly when the length is wrong.
pub fn predict_duration_output(raw: Vec<u32>, expected_len: usize) -> (r: Result<Vec<u32>, Error>)
    ensures
        raw@.len() == expected_len <==> r is Ok,
        raw@.len() != expected_len ==> r == Err::<Vec<u32>, Error>(Error::InferenceFailed),
        r is Ok ==> {
            let out = r->Ok_0@;
            &&& out.len() == expected_len
            &&& forall|i: int|
                0 <= i < out.len() ==> #[trigger] out[i] == if raw@[i] < MIN_PHONEME_LENGTH {
                    MIN_PHONEME_LENGTH
                } else {
                    raw@[i]
                }
            &&& forall|i: int| 0 <= i < out.len() ==> #[trigger] out[i] >= MIN_PHONEME_LENGTH
        },
{
    if raw.len() != expected_len {
        return Err(Error::InferenceFailed);
    }
    let mut out: Vec<u32> = Vec::new();
    let mut i: usize = 0;
    while i < raw.len()
        invariant
            i <= raw.len(),
            out@.len() == i,
            forall|t: int|
                0 <= t < i ==> #[trigger] out@[t] == if raw@[t] < MIN_PHONEME_LENGTH {
                    MIN_PHONEME_LENGTH
                } else {
                    raw@[t]
                },
            forall|t: int| 0 <= t < i ==> #[trigger] out@[t] >= MIN_PHONEME_LENGTH,
        decreases raw.len() - i,
    {
        let v = raw[i];
        if v < MIN_PHONEME_LENGTH {
            out.push(MIN_PHONEME_LENGTH);
        } else {
            out.push(v);
        }
        i += 1;
    }
    Ok(out)
}

/// A mora after the duration write-back: the same mora with its consonant
/// length (where a consonant is present) and vowel length taken from the
/// predicted durations at its offset.
pub open spec fn spec_write_length_mora(m: MoraView, d: Seq<u32>, off: int) -> MoraView {
    MoraView {
        text: m.text,
        consonant: m.consonant,
        consonant_length: if m.consonant is Some {
            Some(d[off])
        } else {
            None
        },
        vowel: m.vowel,
        vowel_kind: m.vowel_kind,
        vowel_length: if m.consonant is Some {
            d[off + 1]
        } else {
            d[off]
        },
        pitch: m.pitch,
    }
}

/// The accent phrases after the duration write-back: every mora's lengths
/// come from the predicted durations at that mora's phonemes, the pause
/// mora's vowel length from its pause phoneme; everything else is kept.
pub open spec fn spec_write_lengths(ps: Seq<AccentPhraseView>, d: Seq<u32>) -> Seq<
    AccentPhraseView,
> {
    Seq::new(
        ps.len(),
        |j: int|
            AccentPhraseView {
                moras: Seq::new(
                    ps[j].moras.len(),
                    |k: int| spec_write_length_mora(ps[j].moras[k], d, mora_offset(ps, j, k)),
                ),
                accent: ps[j].accent,
                pause_mora: match ps[j].pause_mora {
                    Some(pm) => Some(
                        MoraView {
                            text: pm.text,
                            consonant: pm.consonant,
                            consonant_length: pm.consonant_length,
                            vowel: pm.vowel,
                            vowel_kind: pm.vowel_kind,
                            vowel_length: d[pause_offset(ps, j)],
                            pitch: pm.pitch,
                        },
                    ),
                    None => None,
                },
                is_interrogative: ps[j].is_interrogative,
            },
    )
}

/// Writes predicted phoneme durations back into fresh accent phrases: each
/// mora's consonant and vowel lengths, and each pause mora's vowel length,
/// come from the prediction at that phoneme's position; everything else is
/// kept. The input phrases are not mutated.
pub fn apply_phoneme_length(phrases: &Vec<AccentPhrase>, d: &Vec<u32>) -> (r: Vec<AccentPhrase>)
    requires
        d@.len() == duration_input_len(phrase_views(phrases@)),
    ensures
        phrase_views(r@) == spec_write_lengths(phrase_views(phrases@), d@),
{
    let ghost ps = phrase_views(phrases@);
    // Reading the length records that it fits in usize.
    let _len_fits = d.len();
    let mut r: Vec<AccentPhrase> = Vec::new();
    let mut idx: usize = 1;
    let mut j: usize = 0;
    while j < phrases.len()
        invariant
            j <= phrases.len(),
            ps == phrase_views(phrases@),
            d@.len() == duration_input_len(ps),
            d@.len() <= usize::MAX,
            idx == 1 + phrases_pcount(ps.take(j as int)),
            r@.len() == j,
            forall|t: int| 0 <= t < j ==> #[trigger] r@[t]@ == spec_write_lengths(ps, d@)[t],
        decreases phrases.len() - j,
    {
        let p = &phrases[j];
        let mut moras: Vec<Mora> = Vec::new();
        let mut k: usize = 0;
        proof {
            assert(ps[j as int].moras.take(0) =~= Seq::<MoraView>::empty());
        }
        while k < p.moras.len()
            invariant
                k <= p.moras.len(),
                j < phrases.len(),
                ps == phrase_views(phrases@),
                p == &phrases@[j as int],
                d@.len() == duration_input_len(ps),
                d@.len() <= usize::MAX,
                idx == mora_offset(ps, j as int, k as int),
                moras@.len() == k,
                forall|t: int|
                    0 <= t < k ==> #[trigger] moras@[t]@ == spec_write_length_mora(
                        ps[j as int].moras[t],
                        d@,
                        mora_offset(ps, j as int, t),
                    ),
            decreases p.moras.len() - k,
        {
            proof {
                lemma_phrases_pcount_mono(ps, j + 1);
                lemma_phrases_pcount_take_succ(ps, j as int);
                lemma_moras_pcount_mono(ps[j as int].moras, k + 1);
                lemma_moras_pcount_take_succ(ps[j as int].moras, k as int);
                assert(ps[j as int].moras[k as int] == p.moras@[k as int]@);
                assert(moras_pcount(ps[j as int].moras.take(k + 1)) <= phrase_pcount(
                    ps[j as int],
                ));
                assert(idx + mora_pcount(ps[j as int].moras[k as int]) == 1 + phrases_pcount(
                    ps.take(j as int),
                ) + moras_pcount(ps[j as int].moras.take(k + 1)));
                assert(idx + mora_pcount(ps[j as int].moras[k as int]) <= duration_input_len(ps)
                    - 1);
            }
            let m = &p.moras[k];
            let new_mora = match m.consonant {
                Some(c) => {
                    let nm = Mora {
                        text: m.text.clone(),
                        consonant: Some(c),
                        consonant_length: Some(d[idx]),
                        vowel: m.vowel,
                        vowel_kind: m.vowel_kind,
                        vowel_length: d[idx + 1],
                        pitch: m.pitch,
                    };
                    idx += 2;
                    nm
                },
                None => {
                    let nm = Mora {
                        text: m.text.clone(),
                        consonant: None,
                        consonant_length: None,
                        vowel: m.vowel,
                        vowel_kind: m.vowel_kind,
                        vowel_length: d[idx],
                        pitch: m.pitch,
                    };
                    idx += 1;
                    nm
                },
            };
            moras.push(new_mora);
            k += 1;
        }
        proof {
            lemma_phrases_pcount_mono(ps, j + 1);
            lemma_phrases_pcount_take_succ(ps, j as int);
            assert(ps[j as int].moras.take(p.moras@.len() as int) =~= ps[j as int].moras);
            assert(idx == 1 + phrases_pcount(ps.take(j as int)) + moras_pcount(
                ps[j as int].moras,
            ));
            assert(idx + (if ps[j as int].pause_mora is Some { 1nat } else { 0nat })
                == 1 + phrases_pcount(ps.take(j + 1)));
            assert(1 + phrases_pcount(ps.take(j + 1)) <= duration_input_len(ps) - 1);
        }
        let pause_mora = match &p.pause_mora {
            Some(pm) => {
                let npm = Mora {
                    text: pm.text.clone(),
                    consonant: pm.consonant,
                    consonant_length: pm.consonant_length,
                    vowel: pm.vowel,
                    vowel_kind: pm.vowel_kind,
                    vowel_length: d[idx],
                    pitch: pm.pitch,
                };
                idx += 1;
                Some(npm)
            },
            None => None,
        };
        let new_phrase = AccentPhrase {
            moras,
            accent: p.accent,
            pause_mora,
            is_interrogative: p.is_interrogative,
        };
        r.push(new_phrase);
        proof {
            lemma_phrases_pcount_take_succ(ps, j as int);
            assert(r@[j as int]@.moras =~= spec_write_lengths(ps, d@)[j as int].moras);
            assert(r@[j as int]@ =~= spec_write_lengths(ps, d@)[j as int]);
        }
        j += 1;
    }
    proof {
        assert(ps.take(ps.len() as int) =~= ps);
        assert(phrase_views(r@) =~= spec_write_lengths(ps, d@));
    }
    r
}

/// Regenerates the phoneme lengths of accent phrases from a raw duration
/// prediction for their flattened phonemes: the prediction is shaped (one
/// value per phoneme, floored at the minimum) and written back. The result
/// is a fresh sequence; the input is not mutated.
pub fn replace_phoneme_length(phrases: &Vec<AccentPhrase>, raw_durations: Vec<u32>) -> (r: Result<
    Vec<AccentPhrase>,
    Error,
>)
    ensures
        raw_durations@.len() == duration_input_len(phrase_views(phrases@)) <==> r is Ok,
        raw_durations@.len() != duration_input_len(phrase_views(phrases@)) ==> r == Err::<
            Vec<AccentPhrase>,
            Error,
        >(Error::InferenceFailed),
        r is Ok ==> phrase_views(r->Ok_0@) == spec_write_lengths(
            phrase_views(phrases@),
            spec_floor_durations(raw_durations@),
        ),
{
    let expected = duration_input_vector(phrases).len();
    let floored = match predict_duration_output(raw_durations, expected) {
        Ok(f) => f,
        Err(e) => {
            return Err(e);
        },
    };
    proof {
        assert(floored@ =~= spec_floor_durations(raw_durations@));
    }
    let r = apply_phoneme_length(phrases, &floored);
    Ok(r)
}

/// The raw durations with the floor applied.
pub open spec fn spec_floor_durations(raw: Seq<u32>) -> Seq<u32> {
    raw.map_values(
        |v: u32|
            if v < MIN_PHONEME_LENGTH {
                MIN_PHONEME_LENGTH
            } else {
                v
            },
    )
}

/// One position of the intonation model's input: the vowel and consonant
/// identifiers of a mora (the consonant is -1 where absent) and the four
/// 0/1 accent markers.
#[derive(Clone, Copy, Debug, PartialEq, Eq, Structural)]
pub struct MoraPosition {
    pub vowel: i64,
    pub consonant: i64,
    pub start_accent: i64,
    pub end_accent: i64,
    pub start_accent_phrase: i64,
    pub end_accent_phrase: i64,
}

/// The position a pause or sentinel occupies: the pause phoneme, no
/// consonant, no markers.
pub open spec fn pause_position() -> MoraPosition {
    MoraPosition {
        vowel: PAU_PHONEME,
        consonant: -1i64,
        start_accent: 0,
        end_accent: 0,
        start_accent_phrase: 0,
        end_accent_phrase: 0,
    }
}

/// The 0-based mora index where a phrase's accent starts.
pub open spec fn accent_start_index(p: AccentPhraseView) -> int {
    if p.accent == 1 {
        0
    } else {
        1
    }
}

/// The intonation position of mora `k` of a phrase.
pub open spec fn spec_mora_position(p: AccentPhraseView, k: int) -> MoraPosition {
    MoraPosition {
        vowel: p.moras[k].vowel,
        consonant: match p.moras[k].consonant {
            Some(c) => c,
            None => -1i64,
        },
        start_accent: if k == accent_start_index(p) {
            1
        } else {
            0
        },
        end_accent: if k == p.accent - 1 {
            1
        } else {
            0
        },
        start_accent_phrase: if k == 0 {
            1
        } else {
            0
        },
        end_accent_phrase: if k == p.moras.len() - 1 {
            1
        } else {
            0
        },
    }
}

/// The positions one phrase contributes: one per mora, and one more for its
/// pause if present.
pub open spec fn phrase_positions(p: AccentPhraseView) -> Seq<MoraPosition> {
    Seq::new(p.moras.len(), |k: int| spec_mora_position(p, k)) + if p.pause_mora is Some {
        seq![pause_position()]
    } else {
        Seq::empty()
    }
}

/// The positions of a sequence of phrases, in order.
pub open spec fn phrases_positions(ps: Seq<AccentPhraseView>) -> Seq<MoraPosition>
    decreases ps.len(),
{
    if ps.len() == 0 {
        Seq::empty()
    } else {
        phrases_positions(ps.drop_last()) + phrase_positions(ps.last())
    }
}

/// The intonation model's input: the positions between a leading and a
/// trailing pause sentinel.
pub open spec fn all_positions(ps: Seq<AccentPhraseView>) -> Seq<MoraPosition> {
    seq![pause_position()] + phrases_positions(ps) + seq![pause_position()]
}

/// How many positions one phrase contributes.
pub open spec fn phrase_poscount(p: AccentPhraseView) -> nat {
    p.moras.len() + if p.pause_mora is Some {
        1nat
    } else {
        0nat
    }
}

/// How many positions a sequence of phrases contributes.
pub open spec fn phrases_poscount(ps: Seq<AccentPhraseView>) -> nat
    decreases ps.len(),
{
    if ps.len() == 0 {
        0
    } else {
        phrases_poscount(ps.drop_last()) + phrase_poscount(ps.last())
    }
}

/// The length of the intonation model's input: the positions plus the two
/// sentinels.
pub open spec fn intonation_input_len(ps: Seq<AccentPhraseView>) -> nat {
    2 + phrases_poscount(ps)
}

/// Where, in the intonation vectors, mora `k` of phrase `j` sits.
pub open spec fn mora_position_offset(ps: Seq<AccentPhraseView>, j: int, k: int) -> int {
    1 + phrases_poscount(ps.take(j)) as int + k
}

pub proof fn lemma_phrases_poscount_take_succ(ps: Seq<AccentPhraseView>, j: int)
    requires
        0 <= j < ps.len(),
    ensures
        phrases_poscount(ps.take(j + 1)) == phrases_poscount(ps.take(j)) + phrase_poscount(ps[j]),
{
    assert(ps.take(j + 1).drop_last() =~= ps.take(j));
    assert(ps.take(j + 1).last() == ps[j]);
}

pub proof fn lemma_phrases_poscount_mono(ps: Seq<AccentPhraseView>, j: int)
    requires
        0 <= j <= ps.len(),
    ensures
        phrases_poscount(ps.take(j)) <= phrases_poscount(ps),
    decreases ps.len() - j,
{
    if j == ps.len() {
        assert(ps.take(j) =~= ps);
    } else {
        lemma_phrases_poscount_take_succ(ps, j);
        lemma_phrases_poscount_mono(ps, j + 1);
    }
}

/// The flattened positions are exactly as many as the counts say.
pub proof fn lemma_phrases_positions_len(ps: Seq<AccentPhraseView>)
    ensures
        phrases_positions(ps).len() == phrases_poscount(ps),
    decreases ps.len(),
{
    if ps.len() > 0 {
        lemma_phrases_positions_len(ps.drop_last());
    }
}

/// Flattens accent phrases into the intonation model's input: one position
/// per mora carrying its vowel and consonant identifiers and the four accent
/// markers, one position per pause, and a pause sentinel at both ends.
pub fn intonation_input_positions(phrases: &Vec<AccentPhrase>) -> (r: Vec<MoraPosition>)
    ensures
        r@ == all_positions(phrase_views(phrases@)),
        r@.len() == intonation_input_len(phrase_views(phrases@)),
{
    let ghost ps = phrase_views(phrases@);
    let sentinel = MoraPosition {
        vowel: PAU_PHONEME,
        consonant: -1,
        start_accent: 0,
        end_accent: 0,
        start_accent_phrase: 0,
        end_accent_phrase: 0,
    };
    let mut r: Vec<MoraPosition> = Vec::new();
    r.push(sentinel);
    let mut j: usize = 0;
    while j < phrases.len()
        invariant
            j <= phrases.len(),
            ps == phrase_views(phrases@),
            sentinel == pause_position(),
            r@ =~= seq![pause_position()] + phrases_positions(ps.take(j as int)),
        decreases phrases.len() - j,
    {
        let p = &phrases[j];
        let mut k: usize = 0;
        while k < p.moras.len()
            invariant
                k <= p.moras.len(),
                j < phrases.len(),
                ps == phrase_views(phrases@),
                p == &phrases@[j as int],
                r@ =~= seq![pause_position()] + phrases_positions(ps.take(j as int)) + Seq::new(
                    k as nat,
                    |t: int| spec_mora_position(ps[j as int], t),
                ),
            decreases p.moras.len() - k,
        {
            let m = &p.moras[k];
            let pos = MoraPosition {
                vowel: m.vowel,
                consonant: match m.consonant {
                    Some(c) => c,
                    None => -1,
                },
                start_accent: if (p.accent == 1 && k == 0) || (p.accent != 1 && k == 1) {
                    1
                } else {
                    0
                },
                end_accent: if k + 1 == p.accent {
                    1
                } else {
                    0
                },
                start_accent_phrase: if k == 0 {
                    1
                } else {
                    0
                },
                end_accent_phrase: if k + 1 == p.moras.len() {
                    1
                } else {
                    0
                },
            };
            r.push(pos);
            proof {
                assert(ps[j as int].moras[k as int] == p.moras@[k as int]@);
                assert(pos == spec_mora_position(ps[j as int], k as int));
                assert(Seq::new((k + 1) as nat, |t: int| spec_mora_position(ps[j as int], t))
                    =~= Seq::new(k as nat, |t: int| spec_mora_position(ps[j as int], t)).push(
                    spec_mora_position(ps[j as int], k as int),
                ));
            }
            k += 1;
        }
        if p.pause_mora.is_some() {
            r.push(sentinel);
        }
        proof {
            assert(ps.take(j + 1).drop_last() =~= ps.take(j as int));
            assert(ps.take(j + 1).last() == ps[j as int]);
            assert(Seq::new(p.moras@.len() as nat, |t: int| spec_mora_position(ps[j as int], t))
                =~= Seq::new(ps[j as int].moras.len(), |t: int| spec_mora_position(ps[j as int], t)));
            assert(r@ =~= seq![pause_position()] + phrases_positions(ps.take(j + 1)));
        }
        j += 1;
    }
    r.push(sentinel);
    proof {
        assert(ps.take(ps.len() as int) =~= ps);
        assert(r@ =~= all_positions(ps));
        lemma_phrases_positions_len(ps);
    }
    r
}

/// Shapes the raw output of the intonation model: it must have exactly one
/// value per input position. Fails with `InferenceFailed` exactly when the
/// length is wrong; the values are passed through unchanged.
pub fn predict_intonation_output(raw: Vec<u32>, expected_len: usize) -> (r: Result<Vec<u32>, Error>)
    ensures
        raw@.len() == expected_len <==> r is Ok,
        raw@.len() != expected_len ==> r == Err::<Vec<u32>, Error>(Error::InferenceFailed),
        r is Ok ==> r->Ok_0@ == raw@ && r->Ok_0@.len() == expected_len,
{
    if raw.len() != expected_len {
        return Err(Error::InferenceFailed);
    }
    Ok(raw)
}

/// A mora after the pitch write-back: the same mora, its pitch taken from
/// the prediction at its position, or forced to zero when its vowel is
/// devoiced.
pub open spec fn spec_write_pitch_mora(m: MoraView, f0: Seq<u32>, off: int) -> MoraView {
    MoraView {
        text: m.text,
        consonant: m.consonant,
        consonant_length: m.consonant_length,
        vowel: m.vowel,
        vowel_kind: m.vowel_kind,
        vowel_length: m.vowel_length,
        pitch: if m.vowel_kind == VowelKind::Devoiced {
            0
        } else {
            f0[off]
        },
    }
}

/// The accent phrases after the pitch write-back: every mora's pitch comes
/// from the prediction at its position, devoiced vowels are silenced, and
/// everything else, pause moras included, is kept.
pub open spec fn spec_write_pitches(ps: Seq<AccentPhraseView>, f0: Seq<u32>) -> Seq<
    AccentPhraseView,
> {
    Seq::new(
        ps.len(),
        |j: int|
            AccentPhraseView {
                moras: Seq::new(
                    ps[j].moras.len(),
                    |k: int| spec_write_pitch_mora(ps[j].moras[k], f0, mora_position_offset(ps, j, k)),
                ),
                accent: ps[j].accent,
                pause_mora: ps[j].pause_mora,
                is_interrogative: ps[j].is_interrogative,
            },
    )
}

/// Writes predicted pitches back into fresh accent phrases: each mora's
/// pitch comes from the prediction at its position, and every mora whose
/// vowel is devoiced has its pitch forced to zero. Everything else is kept;
/// the input phrases are not mutated.
pub fn apply_mora_pitch(phrases: &Vec<AccentPhrase>, f0: &Vec<u32>) -> (r: Vec<AccentPhrase>)
    requires
        f0@.len() == intonation_input_len(phrase_views(phrases@)),
    ensures
        phrase_views(r@) == spec_write_pitches(phrase_views(phrases@), f0@),
        forall|j: int, k: int|
            0 <= j < r@.len() && 0 <= k < r@[j]@.moras.len() && (#[trigger] r@[j]@.moras[k]).vowel_kind
                == VowelKind::Devoiced ==> r@[j]@.moras[k].pitch == 0,
{
    let ghost ps = phrase_views(phrases@);
    // Reading the length records that it fits in usize.
    let _len_fits = f0.len();
    let mut r: Vec<AccentPhrase> = Vec::new();
    let mut idx: usize = 1;
    let mut j: usize = 0;
    while j < phrases.len()
        invariant
            j <= phrases.len(),
            ps == phrase_views(phrases@),
            f0@.len() == intonation_input_len(ps),
            f0@.len() <= usize::MAX,
            idx == 1 + phrases_poscount(ps.take(j as int)),
            r@.len() == j,
            forall|t: int| 0 <= t < j ==> #[trigger] r@[t]@ == spec_write_pitches(ps, f0@)[t],
        decreases phrases.len() - j,
    {
        let p = &phrases[j];
        let mut moras: Vec<Mora> = Vec::new();
        let mut k: usize = 0;
        while k < p.moras.len()
            invariant
                k <= p.moras.len(),
                j < phrases.len(),
                ps == phrase_views(phrases@),
                p == &phrases@[j as int],
                f0@.len() == intonation_input_len(ps),
                f0@.len() <= usize::MAX,
                idx == mora_position_offset(ps, j as int, k as int),
                moras@.len() == k,
                forall|t: int|
                    0 <= t < k ==> #[trigger] moras@[t]@ == spec_write_pitch_mora(
                        ps[j as int].moras[t],
                        f0@,
                        mora_position_offset(ps, j as int, t),
                    ),
            decreases p.moras.len() - k,
        {
            proof {
                lemma_phrases_poscount_mono(ps, j + 1);
                lemma_phrases_poscount_take_succ(ps, j as int);
                assert(ps[j as int].moras[k as int] == p.moras@[k as int]@);
                assert(k + 1 <= phrase_poscount(ps[j as int]));
                assert(idx + 1 <= intonation_input_len(ps) - 1);
            }
            let m = &p.moras[k];
            let pitch: u32 = if matches!(m.vowel_kind, VowelKind::Devoiced) {
                0
            } else {
                f0[idx]
            };
            let new_mora = Mora {
                text: m.text.clone(),
                consonant: m.consonant,
                consonant_length: m.consonant_length,
                vowel: m.vowel,
                vowel_kind: m.vowel_kind,
                vowel_length: m.vowel_length,
                pitch,
            };
            moras.push(new_mora);
            idx += 1;
            k += 1;
        }
        proof {
            lemma_phrases_poscount_mono(ps, j + 1);
            lemma_phrases_poscount_take_succ(ps, j as int);
        }
        let pause_mora = match &p.pause_mora {
            Some(pm) => {
                let npm = clone_mora(pm);
                idx += 1;
                Some(npm)
            },
            None => None,
        };
        let new_phrase = AccentPhrase {
            moras,
            accent: p.accent,
            pause_mora,
            is_interrogative: p.is_interrogative,
        };
        r.push(new_phrase);
        proof {
            lemma_phrases_poscount_take_succ(ps, j as int);
            assert(r@[j as int]@.moras =~= spec_write_pitches(ps, f0@)[j as int].moras);
            assert(r@[j as int]@ =~= spec_write_pitches(ps, f0@)[j as int]);
        }
        j += 1;
    }
    proof {
        assert(ps.take(ps.len() as int) =~= ps);
        assert(phrase_views(r@) =~= spec_write_pitches(ps, f0@));
    }
    r
}

/// Regenerates the mora pitches of accent phrases from a raw intonation
/// prediction for their positions: the prediction is checked for shape and
/// written back, silencing devoiced vowels. The result is a fresh sequence;
/// the input is not mutated.
pub fn replace_mora_pitch(phrases: &Vec<AccentPhrase>, raw_pitches: Vec<u32>) -> (r: Result<
    Vec<AccentPhrase>,
    Error,
>)
    ensures
        raw_pitches@.len() == intonation_input_len(phrase_views(phrases@)) <==> r is Ok,
        raw_pitches@.len() != intonation_input_len(phrase_views(phrases@)) ==> r == Err::<
            Vec<AccentPhrase>,
            Error,
        >(Error::InferenceFailed),
        r is Ok ==> phrase_views(r->Ok_0@) == spec_write_pitches(
            phrase_views(phrases@),
            raw_pitches@,
        ),
{
    let expected = intonation_input_positions(phrases).len();
    let f0 = match predict_intonation_output(raw_pitches, expected) {
        Ok(f) => f,
        Err(e) => {
            return Err(e);
        },
    };
    Ok(apply_mora_pitch(phrases, &f0))
}

/// What the write-backs keep of a mora: everything but its lengths and
/// pitch.
pub open spec fn same_mora_skeleton(a: MoraView, b: MoraView) -> bool {
    &&& a.text == b.text
    &&& a.consonant == b.consonant
    &&& a.vowel == b.vowel
    &&& a.vowel_kind == b.vowel_kind
}

/// What the write-backs keep of a phrase: its moras' skeletons, its accent,
/// the presence of its pause, and its interrogative flag.
pub open spec fn same_phrase_skeleton(a: AccentPhraseView, b: AccentPhraseView) -> bool {
    &&& a.moras.len() == b.moras.len()
    &&& forall|k: int|
        0 <= k < a.moras.len() ==> same_mora_skeleton(#[trigger] a.moras[k], #[trigger] b.moras[k])
    &&& a.accent == b.accent
    &&& (a.pause_mora is Some <==> b.pause_mora is Some)
    &&& a.is_interrogative == b.is_interrogative
}

/// Phrase-by-phrase skeleton agreement.
pub open spec fn same_skeleton(a: Seq<AccentPhraseView>, b: Seq<AccentPhraseView>) -> bool {
    &&& a.len() == b.len()
    &&& forall|j: int| 0 <= j < a.len() ==> same_phrase_skeleton(#[trigger] a[j], #[trigger] b[j])
}

/// The duration write-back changes no skeleton.
pub proof fn lemma_write_lengths_skeleton(ps: Seq<AccentPhraseView>, d: Seq<u32>)
    ensures
        same_skeleton(spec_write_lengths(ps, d), ps),
{
}

/// The pitch write-back changes no skeleton.
pub proof fn lemma_write_pitches_skeleton(ps: Seq<AccentPhraseView>, f0: Seq<u32>)
    ensures
        same_skeleton(spec_write_pitches(ps, f0), ps),
{
}

/// Moras with the same skeletons contribute the same phoneme count.
pub proof fn lemma_moras_pcount_skeleton(a: Seq<MoraView>, b: Seq<MoraView>)
    requires
        a.len() == b.len(),
        forall|k: int|
            0 <= k < a.len() ==> same_mora_skeleton(#[trigger] a[k], #[trigger] b[k]),
    ensures
        moras_pcount(a) == moras_pcount(b),
    decreases a.len(),
{
    if a.len() > 0 {
        lemma_moras_pcount_skeleton(a.drop_last(), b.drop_last());
    }
}

/// Phrases with the same skeletons contribute the same phoneme count.
pub proof fn lemma_phrases_pcount_skeleton(a: Seq<AccentPhraseView>, b: Seq<AccentPhraseView>)
    requires
        same_skeleton(a, b),
    ensures
        phrases_pcount(a) == phrases_pcount(b),
    decreases a.len(),
{
    if a.len() > 0 {
        assert(same_skeleton(a.drop_last(), b.drop_last()));
        lemma_phrases_pcount_skeleton(a.drop_last(), b.drop_last());
        lemma_moras_pcount_skeleton(a.last().moras, b.last().moras);
    }
}

/// Phrases with the same skeletons contribute the same position count.
pub proof fn lemma_phrases_poscount_skeleton(a: Seq<AccentPhraseView>, b: Seq<AccentPhraseView>)
    requires
        same_skeleton(a, b),
    ensures
        phrases_poscount(a) == phrases_poscount(b),
    decreases a.len(),
{
    if a.len() > 0 {
        assert(same_skeleton(a.drop_last(), b.drop_last()));
        lemma_phrases_poscount_skeleton(a.drop_last(), b.drop_last());
    }
}

/// Moras with the same skeletons flatten to the same phonemes.
pub proof fn lemma_moras_phonemes_skeleton(a: Seq<MoraView>, b: Seq<MoraView>)
    requires
        a.len() == b.len(),
        forall|k: int|
            0 <= k < a.len() ==> same_mora_skeleton(#[trigger] a[k], #[trigger] b[k]),
    ensures
        moras_phonemes(a) == moras_phonemes(b),
    decreases a.len(),
{
    if a.len() > 0 {
        lemma_moras_phonemes_skeleton(a.drop_last(), b.drop_last());
        assert(mora_phonemes(a.last()) =~= mora_phonemes(b.last()));
        assert(moras_phonemes(a) =~= moras_phonemes(b));
    }
}

/// Phrases with the same skeletons flatten to the same phonemes, so the
/// duration model sees the same input.
pub proof fn lemma_all_phonemes_skeleton(a: Seq<AccentPhraseView>, b: Seq<AccentPhraseView>)
    requires
        same_skeleton(a, b),
    ensures
        all_phonemes(a) == all_phonemes(b),
{
    lemma_phrases_phonemes_skeleton(a, b);
    assert(all_phonemes(a) =~= all_phonemes(b));
}

proof fn lemma_phrases_phonemes_skeleton(a: Seq<AccentPhraseView>, b: Seq<AccentPhraseView>)
    requires
        same_skeleton(a, b),
    ensures
        phrases_phonemes(a) == phrases_phonemes(b),
    decreases a.len(),
{
    if a.len() > 0 {
        assert(same_skeleton(a.drop_last(), b.drop_last()));
        lemma_phrases_phonemes_skeleton(a.drop_last(), b.drop_last());
        lemma_moras_phonemes_skeleton(a.last().moras, b.last().moras);
        assert(phrase_phonemes(a.last()) =~= phrase_phonemes(b.last()));
        assert(phrases_phonemes(a) =~= phrases_phonemes(b));
    }
}

/// Phrases with the same skeletons flatten to the same positions, so the
/// intonation model sees the same input.
pub proof fn lemma_all_positions_skeleton(a: Seq<AccentPhraseView>, b: Seq<AccentPhraseView>)
    requires
        same_skeleton(a, b),
    ensures
        all_positions(a) == all_positions(b),
{
    lemma_phrases_positions_skeleton(a, b);
    assert(all_positions(a) =~= all_positions(b));
}

proof fn lemma_phrases_positions_skeleton(a: Seq<AccentPhraseView>, b: Seq<AccentPhraseView>)
    requires
        same_skeleton(a, b),
    ensures
        phrases_positions(a) == phrases_positions(b),
    decreases a.len(),
{
    if a.len() > 0 {
        assert(same_skeleton(a.drop_last(), b.drop_last()));
        lemma_phrases_positions_skeleton(a.drop_last(), b.drop_last());
        assert forall|k: int| 0 <= k < a.last().moras.len() implies spec_mora_position(
            a.last(),
            k,
        ) == spec_mora_position(b.last(), k) by {
            assert(same_mora_skeleton(a.last().moras[k], b.last().moras[k]));
        }
        assert(phrase_positions(a.last()) =~= phrase_positions(b.last()));
        assert(phrases_positions(a) =~= phrases_positions(b));
    }
}

/// Regenerating phoneme lengths is idempotent under a deterministic model:
/// the write-back leaves the model's input unchanged, so a second run of the
/// model returns the same durations, and writing them again changes nothing.
pub proof fn lemma_replace_phoneme_length_idempotent(ps: Seq<AccentPhraseView>, d: Seq<u32>)
    requires
        d.len() == duration_input_len(ps),
    ensures
        all_phonemes(spec_write_lengths(ps, d)) == all_phonemes(ps),
        spec_write_lengths(spec_write_lengths(ps, d), d) == spec_write_lengths(ps, d),
{
    let w = spec_write_lengths(ps, d);
    lemma_write_lengths_skeleton(ps, d);
    lemma_all_phonemes_skeleton(w, ps);
    let w2 = spec_write_lengths(w, d);
    assert forall|j: int| 0 <= j < w2.len() implies w2[j] == w[j] by {
        assert forall|k: int| 0 <= k < w[j].moras.len() implies w2[j].moras[k] == w[j].moras[k] by {
            assert(same_skeleton(w.take(j), ps.take(j)));
            lemma_phrases_pcount_skeleton(w.take(j), ps.take(j));
            assert(w[j].moras.take(k) =~= spec_write_lengths(ps, d)[j].moras.take(k));
            assert forall|t: int|
                0 <= t < k implies same_mora_skeleton(
                #[trigger] w[j].moras.take(k)[t],
                ps[j].moras.take(k)[t],
            ) by {
                assert(same_phrase_skeleton(w[j], ps[j]));
                assert(same_mora_skeleton(w[j].moras[t], ps[j].moras[t]));
            }
            lemma_moras_pcount_skeleton(w[j].moras.take(k), ps[j].moras.take(k));
            assert(mora_offset(w, j, k) == mora_offset(ps, j, k));
            assert(w2[j].moras[k] =~= w[j].moras[k]);
        }
        assert(w2[j].moras =~= w[j].moras);
        assert(same_skeleton(w.take(j), ps.take(j)));
        lemma_phrases_pcount_skeleton(w.take(j), ps.take(j));
        assert(same_phrase_skeleton(w[j], ps[j]));
        lemma_moras_pcount_skeleton(w[j].moras, ps[j].moras);
        assert(pause_offset(w, j) == pause_offset(ps, j));
        assert(w2[j].pause_mora =~~= w[j].pause_mora);
        assert(w2[j] =~~= w[j]);
    }
    assert(w2 =~~= w);
}

/// Regenerates both phoneme lengths and mora pitches: the duration
/// prediction is floored and written back, then the pitch prediction is
/// written over the result. Positions depend only on the phrases' skeleton,
/// which the length write-back keeps, so both predictions are for the input
/// phrases. The result is a fresh sequence; the input is not mutated.
pub fn replace_mora_data(
    phrases: &Vec<AccentPhrase>,
    raw_durations: Vec<u32>,
    raw_pitches: Vec<u32>,
) -> (r: Result<Vec<AccentPhrase>, Error>)
    ensures
        r is Ok <==> raw_durations@.len() == duration_input_len(phrase_views(phrases@))
            && raw_pitches@.len() == intonation_input_len(phrase_views(phrases@)),
        r is Err ==> r == Err::<Vec<AccentPhrase>, Error>(Error::InferenceFailed),
        r is Ok ==> phrase_views(r->Ok_0@) == spec_write_pitches(
            spec_write_lengths(phrase_views(phrases@), spec_floor_durations(raw_durations@)),
            raw_pitches@,
        ),
{
    let ghost ps = phrase_views(phrases@);
    let with_lengths = match replace_phoneme_length(phrases, raw_durations) {
        Ok(w) => w,
        Err(e) => {
            return Err(e);
        },
    };
    proof {
        lemma_write_lengths_skeleton(ps, spec_floor_durations(raw_durations@));
        lemma_phrases_poscount_skeleton(phrase_views(with_lengths@), ps);
    }
    replace_mora_pitch(&with_lengths, raw_pitches)
}

/// The duration write-back keeps phrases well formed: the consonant and its
/// length still come together, the accent stays within the moras, and the
/// pause mora stays a pause.
pub proof fn lemma_write_lengths_wf(ps: Seq<AccentPhraseView>, d: Seq<u32>)
    requires
        crate::query::phrases_wf(ps),
    ensures
        crate::query::phrases_wf(spec_write_lengths(ps, d)),
{
    let w = spec_write_lengths(ps, d);
    assert forall|j: int| 0 <= j < w.len() implies crate::query::phrase_wf(#[trigger] w[j]) by {
        assert(crate::query::phrase_wf(ps[j]));
        assert forall|k: int| 0 <= k < w[j].moras.len() implies crate::query::mora_wf(
            #[trigger] w[j].moras[k],
        ) by {
            assert(crate::query::mora_wf(ps[j].moras[k]));
        }
    }
}

/// The pitch write-back keeps phrases well formed.
pub proof fn lemma_write_pitches_wf(ps: Seq<AccentPhraseView>, f0: Seq<u32>)
    requires
        crate::query::phrases_wf(ps),
    ensures
        crate::query::phrases_wf(spec_write_pitches(ps, f0)),
{
    let w = spec_write_pitches(ps, f0);
    assert forall|j: int| 0 <= j < w.len() implies crate::query::phrase_wf(#[trigger] w[j]) by {
        assert(crate::query::phrase_wf(ps[j]));
        assert forall|k: int| 0 <= k < w[j].moras.len() implies crate::query::mora_wf(
            #[trigger] w[j].moras[k],
        ) by {
            assert(crate::query::mora_wf(ps[j].moras[k]));
        }
    }
}

/// After the duration write-back with floored predictions, every written
/// length respects the floor: no mora is left with a degenerate consonant or
/// vowel length.
pub proof fn lemma_written_lengths_floored(ps: Seq<AccentPhraseView>, d: Seq<u32>)
    requires
        d.len() == duration_input_len(ps),
        forall|i: int| 0 <= i < d.len() ==> #[trigger] d[i] >= MIN_PHONEME_LENGTH,
    ensures
        forall|j: int, k: int|
            0 <= j < ps.len() && 0 <= k < ps[j].moras.len()
                ==> (#[trigger] spec_write_lengths(ps, d)[j].moras[k]).vowel_length
                >= MIN_PHONEME_LENGTH && (spec_write_lengths(ps, d)[j].moras[k].consonant_length
                is Some ==> spec_write_lengths(ps, d)[j].moras[k].consonant_length->Some_0
                >= MIN_PHONEME_LENGTH),
{
    assert forall|j: int, k: int|
        0 <= j < ps.len() && 0 <= k < ps[j].moras.len() implies (#[trigger] spec_write_lengths(
        ps,
        d,
    )[j].moras[k]).vowel_length >= MIN_PHONEME_LENGTH && (spec_write_lengths(
        ps,
        d,
    )[j].moras[k].consonant_length is Some ==> spec_write_lengths(
        ps,
        d,
    )[j].moras[k].consonant_length->Some_0 >= MIN_PHONEME_LENGTH) by {
        lemma_phrases_pcount_mono(ps, j + 1);
        lemma_phrases_pcount_take_succ(ps, j);
        lemma_moras_pcount_mono(ps[j].moras, k + 1);
        lemma_moras_pcount_take_succ(ps[j].moras, k);
        assert(moras_pcount(ps[j].moras.take(k + 1)) <= phrase_pcount(ps[j]));
        assert(mora_offset(ps, j, k) + mora_pcount(ps[j].moras[k]) <= duration_input_len(ps) - 1);
        assert(d[mora_offset(ps, j, k)] >= MIN_PHONEME_LENGTH);
        if ps[j].moras[k].consonant is Some {
            assert(d[mora_offset(ps, j, k) + 1] >= MIN_PHONEME_LENGTH);
        }
    }
}

} // verus!
