//! The waveform renderer: turns a refined audio query into the decode
//! model's dense inputs and the decoded samples into a WAV file. Everything
//! here is exact integer arithmetic over ticks (1/10000 of a second or of
//! the pitch unit), hundredth scale factors, and micro-amplitudes (a sample
//! value of 1_000_000 is full scale).

use vstd::prelude::*;
use crate::error::Error;
use crate::query::{
    clone_mora, phrase_views, AccentPhrase, AccentPhraseView, AudioQuery, MoraView, VowelKind,
    PAU_PHONEME,
};

verus! {

/// Frames of padding added to each end of the decode input (0.4 s worth).
pub const PADDING_FRAMES: usize = 38;

/// The pitch step added to the synthetic mora of an interrogative phrase.
pub const UPSPEAK_PITCH_STEP: u32 = 3000;

/// The cap on the synthetic mora's raised pitch (6.5 units).
pub const MAX_UPSPEAK_PITCH: u32 = 65000;

/// The upspeak rule fires for an interrogative phrase whose last mora is
/// voiced (a plain vowel or the nasal) with a positive pitch.
pub open spec fn upspeak_applies(p: AccentPhraseView) -> bool {
    &&& p.is_interrogative
    &&& p.moras.len() > 0
    &&& p.moras.last().pitch > 0
    &&& (p.moras.last().vowel_kind == VowelKind::Voiced || p.moras.last().vowel_kind
        == VowelKind::Nasal)
}

/// The synthetic mora: the phrase's last mora with its pitch raised one
/// step, capped.
pub open spec fn spec_upspeak_mora(m: MoraView) -> MoraView {
    MoraView {
        text: m.text,
        consonant: m.consonant,
        consonant_length: m.consonant_length,
        vowel: m.vowel,
        vowel_kind: m.vowel_kind,
        vowel_length: m.vowel_length,
        pitch: if m.pitch >= MAX_UPSPEAK_PITCH - UPSPEAK_PITCH_STEP {
            MAX_UPSPEAK_PITCH
        } else {
            (m.pitch + UPSPEAK_PITCH_STEP) as u32
        },
    }
}

/// A phrase after the upspeak rule: where it applies, the synthetic mora is
/// appended; otherwise the phrase is unchanged.
pub open spec fn spec_upspeak_phrase(p: AccentPhraseView) -> AccentPhraseView {
    if upspeak_applies(p) {
        AccentPhraseView {
            moras: p.moras.push(spec_upspeak_mora(p.moras.last())),
            accent: p.accent,
            pause_mora: p.pause_mora,
            is_interrogative: p.is_interrogative,
        }
    } else {
        p
    }
}

/// The phrases after the upspeak pass; disabled, they are unchanged.
pub open spec fn spec_upspeak(ps: Seq<AccentPhraseView>, enable: bool) -> Seq<AccentPhraseView> {
    if enable {
        Seq::new(ps.len(), |j: int| spec_upspeak_phrase(ps[j]))
    } else {
        ps
    }
}

/// Applies interrogative up-speak to a working copy: when enabled, every
/// interrogative phrase whose last mora is voiced with positive pitch gets a
/// synthetic copy of that mora with its pitch one step higher (capped). The
/// input phrases are not mutated.
pub fn apply_interrogative_upspeak(phrases: &Vec<AccentPhrase>, enable: bool) -> (r: Vec<
    AccentPhrase,
>)
    ensures
        phrase_views(r@) == spec_upspeak(phrase_views(phrases@), enable),
{
    let ghost ps = phrase_views(phrases@);
    let mut r: Vec<AccentPhrase> = Vec::new();
    let mut j: usize = 0;
    while j < phrases.len()
        invariant
            j <= phrases.len(),
            ps == phrase_views(phrases@),
            r@.len() == j,
            forall|t: int| 0 <= t < j ==> #[trigger] r@[t]@ == spec_upspeak(ps, enable)[t],
        decreases phrases.len() - j,
    {
        let p = &phrases[j];
        let mut copy = crate::query::clone_accent_phrase(p);
        if enable {
            let n = copy.moras.len();
            if copy.is_interrogative && n > 0 {
                let last = &copy.moras[n - 1];
                let voiced = matches!(last.vowel_kind, VowelKind::Voiced) || matches!(
                    last.vowel_kind,
                    VowelKind::Nasal,
                );
                if last.pitch > 0 && voiced {
                    let pitch = if last.pitch >= MAX_UPSPEAK_PITCH - UPSPEAK_PITCH_STEP {
                        MAX_UPSPEAK_PITCH
                    } else {
                        last.pitch + UPSPEAK_PITCH_STEP
                    };
                    let mut synth = clone_mora(last);
                    synth.pitch = pitch;
                    proof {
                        assert(copy@.moras.last() == ps[j as int].moras.last());
                        assert(synth@ == spec_upspeak_mora(ps[j as int].moras.last()));
                    }
                    copy.moras.push(synth);
                    proof {
                        assert(copy@.moras =~= spec_upspeak_phrase(ps[j as int]).moras);
                    }
                }
            }
        }
        proof {
            assert(copy@ =~= spec_upspeak(ps, enable)[j as int]);
        }
        r.push(copy);
        j += 1;
    }
    proof {
        assert(phrase_views(r@) =~= spec_upspeak(ps, enable));
    }
    r
}

/// Frames a span of `ticks` occupies at the given speed: the span in
/// seconds, times the frame rate (24000 / 256 frames per second), divided by
/// the speed factor, rounded half up. In ticks and hundredths this is
/// `round(15 * ticks / (16 * speed))`.
pub open spec fn spec_frame_count(ticks: int, speed: int) -> int {
    (30 * ticks + 16 * speed) / (32 * speed)
}

/// Computes the frame count of a span.
pub fn frame_count(ticks: u32, speed_scale: u32) -> (r: usize)
    requires
        1 <= speed_scale,
        ticks <= 10_000_000,
    ensures
        r == spec_frame_count(ticks as int, speed_scale as int),
        r <= ticks,
{
    let num: u64 = 30u64 * (ticks as u64) + 16u64 * (speed_scale as u64);
    let den: u64 = 32u64 * (speed_scale as u64);
    let f = num / den;
    proof {
        assert(f <= ticks) by (nonlinear_arith)
            requires
                ticks >= 0,
                speed_scale >= 1,
                f == (30 * (ticks as int) + 16 * (speed_scale as int)) / (32 * (speed_scale
                    as int)),
        ;
    }
    f as usize
}

/// One span of frames handed to the decode model: a phoneme, how many
/// frames it fills, and the pitch of those frames.
#[derive(Clone, Copy, Debug, PartialEq, Eq, Structural)]
pub struct FrameSegment {
    pub phoneme: i64,
    pub frames: usize,
    pub pitch: i64,
}

/// The segments one mora contributes: its consonant span where present,
/// then its vowel span, both at the mora's pitch.
pub open spec fn spec_mora_segments(m: MoraView, speed: int) -> Seq<FrameSegment> {
    let vowel_seg = FrameSegment {
        phoneme: m.vowel,
        frames: spec_frame_count(m.vowel_length as int, speed) as usize,
        pitch: m.pitch as i64,
    };
    match m.consonant {
        Some(c) => seq![
            FrameSegment {
                phoneme: c,
                frames: spec_frame_count(m.consonant_length->Some_0 as int, speed) as usize,
                pitch: m.pitch as i64,
            },
            vowel_seg,
        ],
        None => seq![vowel_seg],
    }
}

/// The segments of a sequence of moras, in order.
pub open spec fn spec_moras_segments(ms: Seq<MoraView>, speed: int) -> Seq<FrameSegment>
    decreases ms.len(),
{
    if ms.len() == 0 {
        Seq::empty()
    } else {
        spec_moras_segments(ms.drop_last(), speed) + spec_mora_segments(ms.last(), speed)
    }
}

/// The segments of one phrase: its moras, then its pause span if present.
pub open spec fn spec_phrase_segments(p: AccentPhraseView, speed: int) -> Seq<FrameSegment> {
    spec_moras_segments(p.moras, speed) + match p.pause_mora {
        Some(pm) => seq![
            FrameSegment {
                phoneme: PAU_PHONEME,
                frames: spec_frame_count(pm.vowel_length as int, speed) as usize,
                pitch: 0,
            },
        ],
        None => Seq::empty(),
    }
}

/// The segments of a sequence of phrases, in order.
pub open spec fn spec_phrases_segments(ps: Seq<AccentPhraseView>, speed: int) -> Seq<FrameSegment>
    decreases ps.len(),
{
    if ps.len() == 0 {
        Seq::empty()
    } else {
        spec_phrases_segments(ps.drop_last(), speed) + spec_phrase_segments(ps.last(), speed)
    }
}

/// The full frame plan of a query's phrases: the leading silence, the
/// phrases, the trailing silence.
pub open spec fn spec_query_segments(
    ps: Seq<AccentPhraseView>,
    speed: int,
    pre: int,
    post: int,
) -> Seq<FrameSegment> {
    seq![
        FrameSegment {
            phoneme: PAU_PHONEME,
            frames: spec_frame_count(pre, speed) as usize,
            pitch: 0,
        },
    ] + spec_phrases_segments(ps, speed) + seq![
        FrameSegment {
            phoneme: PAU_PHONEME,
            frames: spec_frame_count(post, speed) as usize,
            pitch: 0,
        },
    ]
}

/// The frames a plan fills in total.
pub open spec fn spec_total_frames(segs: Seq<FrameSegment>) -> nat
    decreases segs.len(),
{
    if segs.len() == 0 {
        0
    } else {
        spec_total_frames(segs.drop_last()) + segs.last().frames as nat
    }
}

/// Builds the frame plan of a query's phrases: a silent span of the leading
/// silence, per mora a consonant span (where present) and a vowel span at
/// the mora's pitch, a silent span per pause, and a silent span of the
/// trailing silence. Spans are sized by [`frame_count`].
pub fn build_frame_segments(
    phrases: &Vec<AccentPhrase>,
    speed_scale: u32,
    pre_phoneme_length: u32,
    post_phoneme_length: u32,
) -> (r: Vec<FrameSegment>)
    requires
        1 <= speed_scale,
        pre_phoneme_length <= 10_000_000,
        post_phoneme_length <= 10_000_000,
        crate::query::phrases_wf(phrase_views(phrases@)),
        forall|j: int|
            0 <= j < phrases@.len() ==> crate::query::phrase_bounded(
                #[trigger] phrase_views(phrases@)[j],
            ),
    ensures
        r@ == spec_query_segments(
            phrase_views(phrases@),
            speed_scale as int,
            pre_phoneme_length as int,
            post_phoneme_length as int,
        ),
{
    let ghost ps = phrase_views(phrases@);
    let ghost speed = speed_scale as int;
    let mut r: Vec<FrameSegment> = Vec::new();
    r.push(
        FrameSegment {
            phoneme: PAU_PHONEME,
            frames: frame_count(pre_phoneme_length, speed_scale),
            pitch: 0,
        },
    );
    let mut j: usize = 0;
    while j < phrases.len()
        invariant
            j <= phrases.len(),
            ps == phrase_views(phrases@),
            speed == speed_scale as int,
            1 <= speed_scale,
            crate::query::phrases_wf(ps),
            forall|t: int| 0 <= t < phrases@.len() ==> crate::query::phrase_bounded(
                #[trigger] ps[t],
            ),
            r@ =~= seq![
                FrameSegment {
                    phoneme: PAU_PHONEME,
                    frames: spec_frame_count(pre_phoneme_length as int, speed) as usize,
                    pitch: 0,
                },
            ] + spec_phrases_segments(ps.take(j as int), speed),
        decreases phrases.len() - j,
    {
        let p = &phrases[j];
        let mut k: usize = 0;
        while k < p.moras.len()
            invariant
                k <= p.moras.len(),
                j < phrases.len(),
                ps == phrase_views(phrases@),
                p == &phrases@[j as int],
                speed == speed_scale as int,
                1 <= speed_scale,
                crate::query::phrases_wf(ps),
                forall|t: int| 0 <= t < phrases@.len() ==> crate::query::phrase_bounded(
                    #[trigger] ps[t],
                ),
                r@ =~= seq![
                    FrameSegment {
                        phoneme: PAU_PHONEME,
                        frames: spec_frame_count(pre_phoneme_length as int, speed) as usize,
                        pitch: 0,
                    },
                ] + spec_phrases_segments(ps.take(j as int), speed) + spec_moras_segments(
                    ps[j as int].moras.take(k as int),
                    speed,
                ),
            decreases p.moras.len() - k,
        {
            proof {
                assert(crate::query::phrase_bounded(ps[j as int]));
                assert(crate::query::phrase_wf(ps[j as int]));
                assert(ps[j as int].moras[k as int] == p.moras@[k as int]@);
                assert(crate::query::mora_bounded(ps[j as int].moras[k as int]));
                assert(crate::query::mora_wf(ps[j as int].moras[k as int]));
            }
            let m = &p.moras[k];
            match m.consonant {
                Some(c) => {
                    let cl = match m.consonant_length {
                        Some(cl) => cl,
                        None => 0,
                    };
                    r.push(
                        FrameSegment {
                            phoneme: c,
                            frames: frame_count(cl, speed_scale),
                            pitch: m.pitch as i64,
                        },
                    );
                    r.push(
                        FrameSegment {
                            phoneme: m.vowel,
                            frames: frame_count(m.vowel_length, speed_scale),
                            pitch: m.pitch as i64,
                        },
                    );
                },
                None => {
                    r.push(
                        FrameSegment {
                            phoneme: m.vowel,
                            frames: frame_count(m.vowel_length, speed_scale),
                            pitch: m.pitch as i64,
                        },
                    );
                },
            }
            proof {
                let pm = ps[j as int].moras;
                assert(pm.take(k + 1).drop_last() =~= pm.take(k as int));
                assert(pm.take(k + 1).last() == pm[k as int]);
                assert(r@ =~= seq![
                    FrameSegment {
                        phoneme: PAU_PHONEME,
                        frames: spec_frame_count(pre_phoneme_length as int, speed) as usize,
                        pitch: 0,
                    },
                ] + spec_phrases_segments(ps.take(j as int), speed) + spec_moras_segments(
                    pm.take(k + 1),
                    speed,
                ));
            }
            k += 1;
        }
        match &p.pause_mora {
            Some(pm) => {
                proof {
                    assert(crate::query::phrase_bounded(ps[j as int]));
                    assert(crate::query::mora_bounded(ps[j as int].pause_mora->Some_0));
                }
                r.push(
                    FrameSegment {
                        phoneme: PAU_PHONEME,
                        frames: frame_count(pm.vowel_length, speed_scale),
                        pitch: 0,
                    },
                );
            },
            None => {},
        }
        proof {
            let pm = ps[j as int].moras;
            assert(pm.take(pm.len() as int) =~= pm);
            assert(ps.take(j + 1).drop_last() =~= ps.take(j as int));
            assert(ps.take(j + 1).last() == ps[j as int]);
            assert(r@ =~= seq![
                FrameSegment {
                    phoneme: PAU_PHONEME,
                    frames: spec_frame_count(pre_phoneme_length as int, speed) as usize,
                    pitch: 0,
                },
            ] + spec_phrases_segments(ps.take(j + 1), speed));
        }
        j += 1;
    }
    r.push(
        FrameSegment {
            phoneme: PAU_PHONEME,
            frames: frame_count(post_phoneme_length, speed_scale),
            pitch: 0,
        },
    );
    proof {
        assert(ps.take(ps.len() as int) =~= ps);
        assert(r@ =~= spec_query_segments(
            ps,
            speed,
            pre_phoneme_length as int,
            post_phoneme_length as int,
        ));
    }
    r
}

/// Rounds `a / b` half away from zero, for positive `b`.
pub open spec fn spec_round_div_half(a: int, b: int) -> int {
    if a >= 0 {
        (2 * a + b) / (2 * b)
    } else {
        0 - ((2 * (0 - a) + b) / (2 * b))
    }
}

/// A pitch after the octave shift: the pitch times the factor, where the
/// factor is in millionths (1_000_000 is neutral), rounded half up.
pub open spec fn spec_scale_pitch(p: int, factor_micro: int) -> int {
    spec_round_div_half(p * factor_micro, 1_000_000)
}

/// Applies the query's pitch shift to every span: each pitch is multiplied
/// by the factor (in millionths; two to the power of the pitch scale). The
/// spans' phonemes and frame counts are kept.
pub fn scale_segment_pitches(segs: &Vec<FrameSegment>, pitch_factor_micro: u64) -> (r: Vec<
    FrameSegment,
>)
    requires
        pitch_factor_micro <= 64_000_000,
        forall|i: int|
            0 <= i < segs@.len() ==> 0 <= (#[trigger] segs@[i]).pitch <= 1_000_000,
    ensures
        r@.len() == segs@.len(),
        forall|i: int|
            0 <= i < segs@.len() ==> #[trigger] r@[i] == (FrameSegment {
                phoneme: segs@[i].phoneme,
                frames: segs@[i].frames,
                pitch: spec_scale_pitch(segs@[i].pitch as int, pitch_factor_micro as int) as i64,
            }),
        forall|i: int| 0 <= i < r@.len() ==> 0 <= (#[trigger] r@[i]).pitch <= 100_000_000,
{
    let mut r: Vec<FrameSegment> = Vec::new();
    let mut i: usize = 0;
    while i < segs.len()
        invariant
            i <= segs.len(),
            pitch_factor_micro <= 64_000_000,
            forall|t: int|
                0 <= t < segs@.len() ==> 0 <= (#[trigger] segs@[t]).pitch <= 1_000_000,
            r@.len() == i,
            forall|t: int|
                0 <= t < i ==> #[trigger] r@[t] == (FrameSegment {
                    phoneme: segs@[t].phoneme,
                    frames: segs@[t].frames,
                    pitch: spec_scale_pitch(segs@[t].pitch as int, pitch_factor_micro as int)
                        as i64,
                }),
            forall|t: int| 0 <= t < i ==> 0 <= (#[trigger] r@[t]).pitch <= 100_000_000,
        decreases segs.len() - i,
    {
        let seg = segs[i];
        proof {
            assert(0 <= segs@[i as int].pitch <= 1_000_000);
        }
        let p: u64 = seg.pitch as u64;
        proof {
            assert((2 * (p as int)) * (pitch_factor_micro as int) <= 128_000_000_000_000
                && (2 * (p as int)) * (pitch_factor_micro as int) >= 0 && (2 * (p as int)) * (
            pitch_factor_micro as int) == 2 * ((p as int) * (pitch_factor_micro as int)))
                by (nonlinear_arith)
                requires
                    0 <= p <= 1_000_000,
                    0 <= pitch_factor_micro <= 64_000_000,
            ;
        }
        let num: u64 = 2u64 * p * pitch_factor_micro + 1_000_000u64;
        let scaled: u64 = num / 2_000_000u64;
        proof {
            assert(scaled <= 100_000_000) by (nonlinear_arith)
                requires
                    num == 2 * ((p as int) * (pitch_factor_micro as int)) + 1_000_000,
                    (p as int) * (pitch_factor_micro as int) <= 64_000_000_000_000,
                    scaled == num / 2_000_000,
            ;
            assert(scaled == spec_scale_pitch(seg.pitch as int, pitch_factor_micro as int));
        }
        r.push(FrameSegment { phoneme: seg.phoneme, frames: seg.frames, pitch: scaled as i64 });
        i += 1;
    }
    r
}

/// The frames of a plan whose span is voiced (its pitch is positive).
pub open spec fn spec_voiced_frames(segs: Seq<FrameSegment>) -> nat
    decreases segs.len(),
{
    if segs.len() == 0 {
        0
    } else {
        spec_voiced_frames(segs.drop_last()) + if segs.last().pitch > 0 {
            segs.last().frames as nat
        } else {
            0nat
        }
    }
}

/// The pitch of a plan summed over its voiced frames.
pub open spec fn spec_pitch_sum(segs: Seq<FrameSegment>) -> int
    decreases segs.len(),
{
    if segs.len() == 0 {
        0
    } else {
        spec_pitch_sum(segs.drop_last()) + if segs.last().pitch > 0 {
            segs.last().pitch * segs.last().frames
        } else {
            0
        }
    }
}

/// The mean pitch over the voiced frames of a plan, rounded half up; zero
/// when no frame is voiced.
pub open spec fn spec_mean_pitch(segs: Seq<FrameSegment>) -> int {
    if spec_voiced_frames(segs) == 0 {
        0
    } else {
        (2 * spec_pitch_sum(segs) + spec_voiced_frames(segs) as int) / (2 * spec_voiced_frames(segs) as int)
    }
}

pub proof fn lemma_total_frames_take_succ(segs: Seq<FrameSegment>, i: int)
    requires
        0 <= i < segs.len(),
    ensures
        spec_total_frames(segs.take(i + 1)) == spec_total_frames(segs.take(i)) + segs[i].frames,
        spec_voiced_frames(segs.take(i + 1)) == spec_voiced_frames(segs.take(i)) + if segs[i].pitch
            > 0 {
            segs[i].frames as nat
        } else {
            0nat
        },
        spec_pitch_sum(segs.take(i + 1)) == spec_pitch_sum(segs.take(i)) + if segs[i].pitch > 0 {
            segs[i].pitch * segs[i].frames
        } else {
            0
        },
{
    assert(segs.take(i + 1).drop_last() =~= segs.take(i));
    assert(segs.take(i + 1).last() == segs[i]);
}

pub proof fn lemma_total_frames_mono(segs: Seq<FrameSegment>, i: int)
    requires
        0 <= i <= segs.len(),
    ensures
        spec_total_frames(segs.take(i)) <= spec_total_frames(segs),
        spec_voiced_frames(segs.take(i)) <= spec_voiced_frames(segs),
    decreases segs.len() - i,
{
    if i == segs.len() {
        assert(segs.take(i) =~= segs);
    } else {
        lemma_total_frames_take_succ(segs, i);
        lemma_total_frames_mono(segs, i + 1);
    }
}

/// Every voiced frame is a frame.
pub proof fn lemma_voiced_le_total(segs: Seq<FrameSegment>)
    ensures
        spec_voiced_frames(segs) <= spec_total_frames(segs),
    decreases segs.len(),
{
    if segs.len() > 0 {
        lemma_voiced_le_total(segs.drop_last());
    }
}

/// The mean pitch of a plan over its voiced frames, rounded half up; zero
/// when nothing is voiced.
pub fn mean_pitch(segs: &Vec<FrameSegment>) -> (r: u64)
    requires
        forall|i: int|
            0 <= i < segs@.len() ==> 0 <= (#[trigger] segs@[i]).pitch <= 100_000_000,
        spec_total_frames(segs@) <= 100_000_000,
    ensures
        r == spec_mean_pitch(segs@),
        r <= 100_000_000,
{
    let mut sum: u64 = 0;
    let mut cnt: u64 = 0;
    let mut i: usize = 0;
    while i < segs.len()
        invariant
            i <= segs.len(),
            forall|t: int|
                0 <= t < segs@.len() ==> 0 <= (#[trigger] segs@[t]).pitch <= 100_000_000,
            spec_total_frames(segs@) <= 100_000_000,
            sum == spec_pitch_sum(segs@.take(i as int)),
            cnt == spec_voiced_frames(segs@.take(i as int)),
            cnt <= spec_total_frames(segs@.take(i as int)),
            sum <= cnt * 100_000_000,
        decreases segs.len() - i,
    {
        proof {
            lemma_total_frames_take_succ(segs@, i as int);
            lemma_total_frames_mono(segs@, i + 1);
            lemma_voiced_le_total(segs@.take(i + 1));
        }
        let seg = segs[i];
        if seg.pitch > 0 {
            proof {
                assert((seg.pitch as int) * (seg.frames as int) <= 100_000_000 * (seg.frames
                    as int)) by (nonlinear_arith)
                    requires
                        0 <= seg.pitch <= 100_000_000,
                        seg.frames >= 0,
                ;
                assert(sum + (seg.pitch as int) * (seg.frames as int) <= (cnt + seg.frames)
                    * 100_000_000) by (nonlinear_arith)
                    requires
                        sum <= cnt * 100_000_000,
                        (seg.pitch as int) * (seg.frames as int) <= 100_000_000 * (seg.frames
                            as int),
                        seg.frames >= 0,
                ;
                assert(cnt + seg.frames <= 100_000_000);
                assert((cnt + seg.frames) * 100_000_000 <= 100_000_000 * 100_000_000)
                    by (nonlinear_arith)
                    requires
                        cnt + seg.frames <= 100_000_000,
                        cnt >= 0,
                ;
            }
            sum = sum + (seg.pitch as u64) * (seg.frames as u64);
            cnt = cnt + (seg.frames as u64);
        }
        i += 1;
    }
    proof {
        assert(segs@.take(segs@.len() as int) =~= segs@);
    }
    if cnt == 0 {
        0
    } else {
        let m = (2 * sum + cnt) / (2 * cnt);
        proof {
            assert(m <= 100_000_000) by (nonlinear_arith)
                requires
                    cnt >= 1,
                    sum <= cnt * 100_000_000,
                    m == (2 * (sum as int) + cnt) / (2 * (cnt as int)),
            ;
        }
        m
    }
}

/// A pitch after intonation flattening: voiced frames are pulled toward the
/// mean by the intonation scale (in hundredths); unvoiced frames stay zero.
pub open spec fn spec_flatten_pitch(p: int, mean: int, intonation_scale: int) -> int {
    if p == 0 {
        0
    } else {
        mean + spec_round_div_half((p - mean) * intonation_scale, 100)
    }
}

/// Applies intonation flattening to every span: each voiced pitch becomes
/// `mean + (pitch - mean) * scale`, rounded half away from zero; silent
/// spans stay silent. The spans' phonemes and frame counts are kept.
pub fn flatten_intonation(segs: &Vec<FrameSegment>, mean: u64, intonation_scale: u32) -> (r: Vec<
    FrameSegment,
>)
    requires
        mean <= 100_000_000,
        intonation_scale <= 100_000,
        forall|i: int|
            0 <= i < segs@.len() ==> 0 <= (#[trigger] segs@[i]).pitch <= 100_000_000,
    ensures
        r@.len() == segs@.len(),
        forall|i: int|
            0 <= i < segs@.len() ==> #[trigger] r@[i] == (FrameSegment {
                phoneme: segs@[i].phoneme,
                frames: segs@[i].frames,
                pitch: spec_flatten_pitch(
                    segs@[i].pitch as int,
                    mean as int,
                    intonation_scale as int,
                ) as i64,
            }),
{
    let mut r: Vec<FrameSegment> = Vec::new();
    let mut i: usize = 0;
    while i < segs.len()
        invariant
            i <= segs.len(),
            mean <= 100_000_000,
            intonation_scale <= 100_000,
            forall|t: int|
                0 <= t < segs@.len() ==> 0 <= (#[trigger] segs@[t]).pitch <= 100_000_000,
            r@.len() == i,
            forall|t: int|
                0 <= t < i ==> #[trigger] r@[t] == (FrameSegment {
                    phoneme: segs@[t].phoneme,
                    frames: segs@[t].frames,
                    pitch: spec_flatten_pitch(
                        segs@[t].pitch as int,
                        mean as int,
                        intonation_scale as int,
                    ) as i64,
                }),
        decreases segs.len() - i,
    {
        let seg = segs[i];
        proof {
            assert(0 <= segs@[i as int].pitch <= 100_000_000);
        }
        let pitch: i64 = if seg.pitch == 0 {
            0
        } else {
            let diff: i128 = (seg.pitch as i128) - (mean as i128);
            proof {
                assert(-100_000_000 <= diff <= 100_000_000);
                assert(diff * (intonation_scale as int) <= 10_000_000_000_000 && diff * (
                intonation_scale as int) >= -10_000_000_000_000) by (nonlinear_arith)
                    requires
                        -100_000_000 <= diff <= 100_000_000,
                        0 <= intonation_scale <= 100_000,
                ;
            }
            let scaled: i128 = diff * (intonation_scale as i128);
            let rounded: i128 = if scaled >= 0 {
                (2 * scaled + 100) / 200
            } else {
                0 - ((2 * (0 - scaled) + 100) / 200)
            };
            let v: i128 = (mean as i128) + rounded;
            proof {
                assert(rounded == spec_round_div_half(scaled as int, 100));
                assert(v == spec_flatten_pitch(
                    seg.pitch as int,
                    mean as int,
                    intonation_scale as int,
                ));
            }
            v as i64
        };
        r.push(FrameSegment { phoneme: seg.phoneme, frames: seg.frames, pitch });
        i += 1;
    }
    r
}

/// The pitch of every frame of a plan, span by span.
pub open spec fn spec_f0_frames(segs: Seq<FrameSegment>) -> Seq<i64>
    decreases segs.len(),
{
    if segs.len() == 0 {
        Seq::empty()
    } else {
        spec_f0_frames(segs.drop_last()) + Seq::new(
            segs.last().frames as nat,
            |t: int| segs.last().pitch,
        )
    }
}

/// The phoneme of every frame of a plan, span by span.
pub open spec fn spec_phoneme_frames(segs: Seq<FrameSegment>) -> Seq<i64>
    decreases segs.len(),
{
    if segs.len() == 0 {
        Seq::empty()
    } else {
        spec_phoneme_frames(segs.drop_last()) + Seq::new(
            segs.last().frames as nat,
            |t: int| segs.last().phoneme,
        )
    }
}

/// The per-frame vectors are exactly as long as the plan's frame count.
pub proof fn lemma_frame_vectors_len(segs: Seq<FrameSegment>)
    ensures
        spec_f0_frames(segs).len() == spec_total_frames(segs),
        spec_phoneme_frames(segs).len() == spec_total_frames(segs),
    decreases segs.len(),
{
    if segs.len() > 0 {
        lemma_frame_vectors_len(segs.drop_last());
    }
}

/// Expands a frame plan into the decode model's dense per-frame vectors:
/// the pitch of every frame and the phoneme of every frame.
pub fn expand_frames(segs: &Vec<FrameSegment>) -> (r: (Vec<i64>, Vec<i64>))
    ensures
        r.0@ == spec_f0_frames(segs@),
        r.1@ == spec_phoneme_frames(segs@),
        r.0@.len() == spec_total_frames(segs@),
        r.1@.len() == spec_total_frames(segs@),
{
    let mut f0: Vec<i64> = Vec::new();
    let mut ids: Vec<i64> = Vec::new();
    let mut i: usize = 0;
    while i < segs.len()
        invariant
            i <= segs.len(),
            f0@ =~= spec_f0_frames(segs@.take(i as int)),
            ids@ =~= spec_phoneme_frames(segs@.take(i as int)),
        decreases segs.len() - i,
    {
        let seg = segs[i];
        let mut t: usize = 0;
        while t < seg.frames
            invariant
                t <= seg.frames,
                i < segs.len(),
                seg == segs@[i as int],
                f0@ =~= spec_f0_frames(segs@.take(i as int)) + Seq::new(
                    t as nat,
                    |x: int| seg.pitch,
                ),
                ids@ =~= spec_phoneme_frames(segs@.take(i as int)) + Seq::new(
                    t as nat,
                    |x: int| seg.phoneme,
                ),
            decreases seg.frames - t,
        {
            f0.push(seg.pitch);
            ids.push(seg.phoneme);
            t += 1;
        }
        proof {
            assert(segs@.take(i + 1).drop_last() =~= segs@.take(i as int));
            assert(segs@.take(i + 1).last() == segs@[i as int]);
            assert(f0@ =~= spec_f0_frames(segs@.take(i + 1)));
            assert(ids@ =~= spec_phoneme_frames(segs@.take(i + 1)));
        }
        i += 1;
    }
    proof {
        assert(segs@.take(segs@.len() as int) =~= segs@);
        lemma_frame_vectors_len(segs@);
    }
    (f0, ids)
}

/// Pads a per-frame vector with the padding span on both ends.
pub fn pad_frames(v: &Vec<i64>, fill: i64) -> (r: Vec<i64>)
    ensures
        r@ == Seq::new(PADDING_FRAMES as nat, |t: int| fill) + v@ + Seq::new(
            PADDING_FRAMES as nat,
            |t: int| fill,
        ),
        r@.len() == v@.len() + 2 * PADDING_FRAMES,
{
    let mut r: Vec<i64> = Vec::new();
    let mut i: usize = 0;
    while i < PADDING_FRAMES
        invariant
            i <= PADDING_FRAMES,
            r@ =~= Seq::new(i as nat, |t: int| fill),
        decreases PADDING_FRAMES - i,
    {
        r.push(fill);
        i += 1;
    }
    let mut j: usize = 0;
    while j < v.len()
        invariant
            j <= v.len(),
            r@ =~= Seq::new(PADDING_FRAMES as nat, |t: int| fill) + v@.take(j as int),
        decreases v.len() - j,
    {
        r.push(v[j]);
        proof {
            assert(v@.take(j + 1) =~= v@.take(j as int).push(v@[j as int]));
        }
        j += 1;
    }
    proof {
        assert(v@.take(v@.len() as int) =~= v@);
    }
    let mut k: usize = 0;
    while k < PADDING_FRAMES
        invariant
            k <= PADDING_FRAMES,
            r@ =~= Seq::new(PADDING_FRAMES as nat, |t: int| fill) + v@ + Seq::new(
                k as nat,
                |t: int| fill,
            ),
        decreases PADDING_FRAMES - k,
    {
        r.push(fill);
        k += 1;
    }
    r
}

/// One row of the one-hot matrix: a single one at the phoneme's index.
pub open spec fn spec_one_hot_row(id: i64, phoneme_size: int) -> Seq<u8> {
    Seq::new(
        phoneme_size as nat,
        |p: int|
            if id == p {
                1u8
            } else {
                0u8
            },
    )
}

/// The one-hot matrix of a phoneme vector, row by row.
pub open spec fn spec_one_hot(ids: Seq<i64>, phoneme_size: int) -> Seq<u8>
    decreases ids.len(),
{
    if ids.len() == 0 {
        Seq::empty()
    } else {
        spec_one_hot(ids.drop_last(), phoneme_size) + spec_one_hot_row(ids.last(), phoneme_size)
    }
}

/// The one-hot matrix holds one row of `phoneme_size` entries per frame.
pub proof fn lemma_one_hot_len(ids: Seq<i64>, phoneme_size: int)
    requires
        phoneme_size >= 0,
    ensures
        spec_one_hot(ids, phoneme_size).len() == ids.len() * phoneme_size,
    decreases ids.len(),
{
    if ids.len() > 0 {
        lemma_one_hot_len(ids.drop_last(), phoneme_size);
        assert((ids.len() - 1) * phoneme_size + phoneme_size == ids.len() * phoneme_size)
            by (nonlinear_arith);
    }
}

/// Expands per-frame phonemes into the decode model's one-hot matrix: one
/// row per frame, a single one at the frame's phoneme index. Fails with
/// `InferenceFailed` exactly when some phoneme identifier lies outside the
/// table.
pub fn one_hot(ids: &Vec<i64>, phoneme_size: usize) -> (r: Result<Vec<u8>, Error>)
    requires
        1 <= phoneme_size <= 100_000,
    ensures
        (forall|i: int| 0 <= i < ids@.len() ==> 0 <= #[trigger] ids@[i] < phoneme_size) <==> r
            is Ok,
        r is Err ==> r == Err::<Vec<u8>, Error>(Error::InferenceFailed),
        r is Ok ==> r->Ok_0@ == spec_one_hot(ids@, phoneme_size as int),
{
    let mut m: Vec<u8> = Vec::new();
    let mut i: usize = 0;
    while i < ids.len()
        invariant
            i <= ids.len(),
            1 <= phoneme_size <= 100_000,
            m@ =~= spec_one_hot(ids@.take(i as int), phoneme_size as int),
            forall|t: int| 0 <= t < i ==> 0 <= #[trigger] ids@[t] < phoneme_size,
        decreases ids.len() - i,
    {
        let id = ids[i];
        if id < 0 || id >= phoneme_size as i64 {
            proof {
                assert(!(0 <= ids@[i as int] < phoneme_size));
            }
            return Err(Error::InferenceFailed);
        }
        let mut p: usize = 0;
        while p < phoneme_size
            invariant
                p <= phoneme_size,
                i < ids@.len(),
                id == ids@[i as int],
                1 <= phoneme_size <= 100_000,
                m@ =~= spec_one_hot(ids@.take(i as int), phoneme_size as int) + spec_one_hot_row(
                    id,
                    phoneme_size as int,
                ).take(p as int),
            decreases phoneme_size - p,
        {
            if p as i64 == id {
                m.push(1);
            } else {
                m.push(0);
            }
            proof {
                let row = spec_one_hot_row(id, phoneme_size as int);
                assert(row.take(p + 1) =~= row.take(p as int).push(row[p as int]));
            }
            p += 1;
        }
        proof {
            let row = spec_one_hot_row(id, phoneme_size as int);
            assert(row.take(phoneme_size as int) =~= row);
            assert(ids@.take(i + 1).drop_last() =~= ids@.take(i as int));
            assert(ids@.take(i + 1).last() == ids@[i as int]);
            assert(m@ =~= spec_one_hot(ids@.take(i + 1), phoneme_size as int));
        }
        i += 1;
    }
    proof {
        assert(ids@.take(ids@.len() as int) =~= ids@);
    }
    Ok(m)
}

/// Crops the decode model's raw output back to the query's frames: the
/// samples of the padding spans are cut from both ends.
pub fn decode_crop(raw: &Vec<i64>, frames: usize) -> (r: Vec<i64>)
    requires
        raw@.len() == (frames + 2 * PADDING_FRAMES) * 256,
    ensures
        r@ == raw@.subrange(
            (PADDING_FRAMES * 256) as int,
            (PADDING_FRAMES * 256) as int + (frames * 256) as int,
        ),
        r@.len() == frames * 256,
{
    proof {
        assert((frames + 2 * PADDING_FRAMES) * 256 == frames * 256 + 2 * PADDING_FRAMES * 256)
            by (nonlinear_arith);
    }
    // Reading the length records that it fits in usize.
    let _len_fits = raw.len();
    let start: usize = PADDING_FRAMES * 256;
    let count: usize = frames * 256;
    let mut r: Vec<i64> = Vec::new();
    let mut i: usize = 0;
    while i < count
        invariant
            i <= count,
            start == PADDING_FRAMES * 256,
            count == frames * 256,
            raw@.len() == frames * 256 + 2 * PADDING_FRAMES * 256,
            raw@.len() <= usize::MAX,
            r@ =~= raw@.subrange(start as int, start as int + i as int),
        decreases count - i,
    {
        r.push(raw[start + i]);
        proof {
            assert(raw@.subrange(start as int, start as int + i + 1) =~= raw@.subrange(
                start as int,
                start as int + i as int,
            ).push(raw@[start as int + i as int]));
        }
        i += 1;
    }
    r
}

/// Clamps a value into an inclusive range.
pub open spec fn spec_clamp(v: int, lo: int, hi: int) -> int {
    if v < lo {
        lo
    } else if v > hi {
        hi
    } else {
        v
    }
}

/// A decoded micro-amplitude sample quantized to 16-bit PCM: scaled by the
/// volume (hundredths), mapped so that full scale is 32767, rounded half
/// away from zero, and clamped to the 16-bit range.
pub open spec fn spec_quantize_sample(s: int, volume: int) -> int {
    spec_clamp(spec_round_div_half(s * volume * 32767, 100_000_000), -32768, 32767)
}

/// Applies the volume scale and quantizes decoded samples to 16-bit PCM.
pub fn finish_samples(samples: &Vec<i64>, volume_scale: u32) -> (r: Vec<i16>)
    requires
        volume_scale <= 100_000,
    ensures
        r@.len() == samples@.len(),
        forall|i: int|
            0 <= i < samples@.len() ==> #[trigger] r@[i] as int == spec_quantize_sample(
                samples@[i] as int,
                volume_scale as int,
            ),
{
    let mut r: Vec<i16> = Vec::new();
    let mut i: usize = 0;
    while i < samples.len()
        invariant
            i <= samples.len(),
            volume_scale <= 100_000,
            r@.len() == i,
            forall|t: int|
                0 <= t < i ==> #[trigger] r@[t] as int == spec_quantize_sample(
                    samples@[t] as int,
                    volume_scale as int,
                ),
        decreases samples.len() - i,
    {
        let s = samples[i];
        proof {
            assert((s as int) * (volume_scale as int) <= 922_337_203_685_477_580_800_000 && (s
                as int) * (volume_scale as int) >= -922_337_203_685_477_580_900_000)
                by (nonlinear_arith)
                requires
                    -9_223_372_036_854_775_808 <= s as int <= 9_223_372_036_854_775_807,
                    0 <= volume_scale <= 100_000,
            ;
        }
        let a1: i128 = (s as i128) * (volume_scale as i128);
        proof {
            assert(a1 * 32767 <= 30_223_145_189_000_695_849_975_705_600_000 && a1 * 32767
                >= -30_223_145_189_000_695_853_252_410_900_000) by (nonlinear_arith)
                requires
                    -922_337_203_685_477_580_900_000 <= a1 <= 922_337_203_685_477_580_800_000,
            ;
        }
        let a: i128 = a1 * 32767;
        let rounded: i128 = if a >= 0 {
            (2 * a + 100_000_000) / 200_000_000
        } else {
            0 - ((2 * (0 - a) + 100_000_000) / 200_000_000)
        };
        proof {
            assert(rounded == spec_round_div_half(a as int, 100_000_000));
        }
        let q: i128 = if rounded < -32768 {
            -32768
        } else if rounded > 32767 {
            32767
        } else {
            rounded
        };
        r.push(q as i16);
        i += 1;
    }
    r
}

/// The two little-endian bytes of a 16-bit value.
pub open spec fn spec_le16(v: int) -> Seq<u8> {
    seq![(v % 256) as u8, ((v / 256) % 256) as u8]
}

/// The four little-endian bytes of a 32-bit value.
pub open spec fn spec_le32(v: int) -> Seq<u8> {
    seq![
        (v % 256) as u8,
        ((v / 256) % 256) as u8,
        ((v / 65536) % 256) as u8,
        ((v / 16777216) % 256) as u8,
    ]
}

/// A PCM sample's two bytes: its 16-bit two's-complement value, little
/// endian.
pub open spec fn spec_sample_bytes(s: int) -> Seq<u8> {
    spec_le16(
        if s >= 0 {
            s
        } else {
            s + 65536
        },
    )
}

/// The data bytes of a PCM stream, sample by sample.
pub open spec fn spec_pcm_bytes(samples: Seq<i16>) -> Seq<u8>
    decreases samples.len(),
{
    if samples.len() == 0 {
        Seq::empty()
    } else {
        spec_pcm_bytes(samples.drop_last()) + spec_sample_bytes(samples.last() as int)
    }
}

/// The 44-byte canonical WAV header for `n` mono 16-bit samples at the
/// default rate: RIFF/WAVE, a 16-byte fmt chunk with PCM format 1, one
/// channel, 24000 Hz, byte rate 48000, block align 2, 16 bits, and the data
/// chunk header.
pub open spec fn spec_wav_header(n: int) -> Seq<u8> {
    seq![82u8, 73u8, 70u8, 70u8] + spec_le32(36 + 2 * n) + seq![
        87u8,
        65u8,
        86u8,
        69u8,
        102u8,
        109u8,
        116u8,
        32u8,
    ] + spec_le32(16) + spec_le16(1) + spec_le16(1) + spec_le32(24000) + spec_le32(48000)
        + spec_le16(2) + spec_le16(16) + seq![100u8, 97u8, 116u8, 97u8] + spec_le32(2 * n)
}

/// A whole WAV file: the header, then the PCM data.
pub open spec fn spec_wav_bytes(samples: Seq<i16>) -> Seq<u8> {
    spec_wav_header(samples.len() as int) + spec_pcm_bytes(samples)
}

/// Appends the two little-endian bytes of a 16-bit value.
fn push_le16(out: &mut Vec<u8>, v: u16)
    ensures
        final(out)@ == old(out)@ + spec_le16(v as int),
{
    out.push((v % 256) as u8);
    out.push(((v / 256) % 256) as u8);
    proof {
        assert(out@ =~= old(out)@ + spec_le16(v as int));
    }
}

/// Appends the four little-endian bytes of a 32-bit value.
fn push_le32(out: &mut Vec<u8>, v: u32)
    ensures
        final(out)@ == old(out)@ + spec_le32(v as int),
{
    out.push((v % 256) as u8);
    out.push(((v / 256) % 256) as u8);
    out.push(((v / 65536) % 256) as u8);
    out.push(((v / 16777216) % 256) as u8);
    proof {
        assert(out@ =~= old(out)@ + spec_le32(v as int));
    }
}

/// Packages quantized samples as a canonical WAV file: the 44-byte header
/// for mono 16-bit PCM at the default rate, then every sample in
/// little-endian order. The result holds `44 + 2 * n` bytes.
pub fn pack_wav(samples: &Vec<i16>) -> (r: Vec<u8>)
    requires
        samples@.len() <= 100_000_000,
    ensures
        r@ == spec_wav_bytes(samples@),
        r@.len() == 44 + 2 * samples@.len(),
{
    let n = samples.len();
    let data_size: u32 = 2 * (n as u32);
    let mut r: Vec<u8> = Vec::new();
    r.push(82);
    r.push(73);
    r.push(70);
    r.push(70);
    push_le32(&mut r, 36 + data_size);
    r.push(87);
    r.push(65);
    r.push(86);
    r.push(69);
    r.push(102);
    r.push(109);
    r.push(116);
    r.push(32);
    push_le32(&mut r, 16);
    push_le16(&mut r, 1);
    push_le16(&mut r, 1);
    push_le32(&mut r, 24000);
    push_le32(&mut r, 48000);
    push_le16(&mut r, 2);
    push_le16(&mut r, 16);
    r.push(100);
    r.push(97);
    r.push(116);
    r.push(97);
    push_le32(&mut r, data_size);
    proof {
        assert(r@ =~= spec_wav_header(samples@.len() as int));
    }
    let mut i: usize = 0;
    while i < n
        invariant
            i <= n,
            n == samples@.len(),
            samples@.len() <= 100_000_000,
            r@ =~= spec_wav_header(samples@.len() as int) + spec_pcm_bytes(samples@.take(i as int)),
        decreases n - i,
    {
        let s = samples[i];
        let u: u16 = if s >= 0 {
            s as u16
        } else {
            ((s as i32) + 65536) as u16
        };
        push_le16(&mut r, u);
        proof {
            assert(samples@.take(i + 1).drop_last() =~= samples@.take(i as int));
            assert(samples@.take(i + 1).last() == samples@[i as int]);
            assert(spec_le16(u as int) == spec_sample_bytes(samples@[i as int] as int));
            assert(r@ =~= spec_wav_header(samples@.len() as int) + spec_pcm_bytes(
                samples@.take(i + 1),
            ));
        }
        i += 1;
    }
    proof {
        assert(samples@.take(samples@.len() as int) =~= samples@);
        lemma_pcm_bytes_len(samples@);
    }
    r
}

/// The PCM data holds two bytes per sample.
pub proof fn lemma_pcm_bytes_len(samples: Seq<i16>)
    ensures
        spec_pcm_bytes(samples).len() == 2 * samples.len(),
    decreases samples.len(),
{
    if samples.len() > 0 {
        lemma_pcm_bytes_len(samples.drop_last());
    }
}

/// Plans with the same frame counts fill the same number of frames.
pub proof fn lemma_total_frames_congruent(a: Seq<FrameSegment>, b: Seq<FrameSegment>)
    requires
        a.len() == b.len(),
        forall|i: int| 0 <= i < a.len() ==> (#[trigger] a[i]).frames == (#[trigger] b[i]).frames,
    ensures
        spec_total_frames(a) == spec_total_frames(b),
    decreases a.len(),
{
    if a.len() > 0 {
        lemma_total_frames_congruent(a.drop_last(), b.drop_last());
    }
}

/// A plan after the pitch shift.
pub open spec fn spec_scaled_segments(segs: Seq<FrameSegment>, factor_micro: int) -> Seq<
    FrameSegment,
> {
    Seq::new(
        segs.len(),
        |i: int|
            FrameSegment {
                phoneme: segs[i].phoneme,
                frames: segs[i].frames,
                pitch: spec_scale_pitch(segs[i].pitch as int, factor_micro) as i64,
            },
    )
}

/// A plan after intonation flattening.
pub open spec fn spec_flattened_segments(
    segs: Seq<FrameSegment>,
    mean: int,
    intonation_scale: int,
) -> Seq<FrameSegment> {
    Seq::new(
        segs.len(),
        |i: int|
            FrameSegment {
                phoneme: segs[i].phoneme,
                frames: segs[i].frames,
                pitch: spec_flatten_pitch(segs[i].pitch as int, mean, intonation_scale) as i64,
            },
    )
}

/// The frame plan a query renders, before the pitch work: upspeak, then the
/// spans of silence, moras and pauses at the query's speed.
pub open spec fn spec_base_plan(q: crate::query::AudioQueryView, enable_upspeak: bool) -> Seq<
    FrameSegment,
> {
    spec_query_segments(
        spec_upspeak(q.accent_phrases, enable_upspeak),
        q.speed_scale as int,
        q.pre_phoneme_length as int,
        q.post_phoneme_length as int,
    )
}

/// The frame plan after the query's pitch shift and intonation flattening.
pub open spec fn spec_final_plan(
    q: crate::query::AudioQueryView,
    enable_upspeak: bool,
    pitch_factor_micro: int,
) -> Seq<FrameSegment> {
    let scaled = spec_scaled_segments(spec_base_plan(q, enable_upspeak), pitch_factor_micro);
    spec_flattened_segments(scaled, spec_mean_pitch(scaled), q.intonation_scale as int)
}

/// How many frames a query renders.
pub open spec fn spec_synthesis_frames(q: crate::query::AudioQueryView, enable_upspeak: bool) -> nat {
    spec_total_frames(spec_base_plan(q, enable_upspeak))
}

/// The upspeak pass keeps phrases well formed and within the renderer's
/// machine bounds.
pub proof fn lemma_upspeak_wf(ps: Seq<crate::query::AccentPhraseView>, enable: bool)
    requires
        crate::query::phrases_wf(ps),
        forall|j: int| 0 <= j < ps.len() ==> crate::query::phrase_bounded(#[trigger] ps[j]),
    ensures
        crate::query::phrases_wf(spec_upspeak(ps, enable)),
        forall|j: int|
            0 <= j < spec_upspeak(ps, enable).len() ==> crate::query::phrase_bounded(
                #[trigger] spec_upspeak(ps, enable)[j],
            ),
{
    let up = spec_upspeak(ps, enable);
    assert forall|j: int| 0 <= j < up.len() implies crate::query::phrase_wf(#[trigger] up[j])
        && crate::query::phrase_bounded(up[j]) by {
        assert(crate::query::phrase_wf(ps[j]));
        assert(crate::query::phrase_bounded(ps[j]));
        if enable && upspeak_applies(ps[j]) {
            assert(crate::query::mora_wf(ps[j].moras.last()));
            assert(crate::query::mora_bounded(ps[j].moras.last()));
            assert forall|k: int| 0 <= k < up[j].moras.len() implies crate::query::mora_wf(
                #[trigger] up[j].moras[k],
            ) && crate::query::mora_bounded(up[j].moras[k]) by {
                if k < ps[j].moras.len() {
                    assert(up[j].moras[k] == ps[j].moras[k]);
                }
            }
        }
    }
}

/// The decode model's prepared input: the padded per-frame pitch vector,
/// the padded one-hot phoneme matrix, and the query's frame count before
/// padding.
pub struct DecodeInput {
    pub f0: Vec<i64>,
    pub phoneme: Vec<u8>,
    pub frames: usize,
}

/// Prepares the decode model's input from a refined query: interrogative
/// upspeak, the frame plan at the query's speed, the pitch shift (the factor
/// is two to the power of the query's pitch scale, in millionths),
/// intonation flattening around the voiced mean, expansion to per-frame
/// vectors, padding on both ends, and one-hot expansion of the phonemes.
/// Succeeds exactly when every phoneme identifier of the plan lies inside
/// the table; otherwise it fails with `InferenceFailed`.
pub fn synthesis_decode_input(
    query: &AudioQuery,
    enable_interrogative_upspeak: bool,
    pitch_factor_micro: u64,
    phoneme_size: usize,
) -> (r: Result<DecodeInput, Error>)
    requires
        crate::query::query_wf(query@),
        crate::query::query_bounded(query@),
        pitch_factor_micro <= 64_000_000,
        1 <= phoneme_size <= 100_000,
        spec_synthesis_frames(query@, enable_interrogative_upspeak) <= 100_000_000,
        (spec_synthesis_frames(query@, enable_interrogative_upspeak) + 2 * PADDING_FRAMES) * (
        phoneme_size as nat) <= usize::MAX,
    ensures
        r is Ok ==> {
            let input = r->Ok_0;
            let plan = spec_final_plan(
                query@,
                enable_interrogative_upspeak,
                pitch_factor_micro as int,
            );
            &&& input.frames == spec_synthesis_frames(query@, enable_interrogative_upspeak)
            &&& input.f0@ == Seq::new(PADDING_FRAMES as nat, |t: int| 0i64) + spec_f0_frames(plan)
                + Seq::new(PADDING_FRAMES as nat, |t: int| 0i64)
            &&& input.f0@.len() == input.frames + 2 * PADDING_FRAMES
            &&& input.phoneme@ == spec_one_hot(
                Seq::new(PADDING_FRAMES as nat, |t: int| PAU_PHONEME) + spec_phoneme_frames(plan)
                    + Seq::new(PADDING_FRAMES as nat, |t: int| PAU_PHONEME),
                phoneme_size as int,
            )
        },
        r is Ok <==> (forall|i: int|
            0 <= i < spec_phoneme_frames(
                spec_final_plan(query@, enable_interrogative_upspeak, pitch_factor_micro as int),
            ).len() ==> 0 <= #[trigger] spec_phoneme_frames(
                spec_final_plan(query@, enable_interrogative_upspeak, pitch_factor_micro as int),
            )[i] < phoneme_size),
        r is Err ==> r->Err_0 == Error::InferenceFailed,
{
    let ghost q = query@;
    proof {
        lemma_upspeak_wf(q.accent_phrases, enable_interrogative_upspeak);
    }
    let up = apply_interrogative_upspeak(&query.accent_phrases, enable_interrogative_upspeak);
    let segs = build_frame_segments(
        &up,
        query.speed_scale,
        query.pre_phoneme_length,
        query.post_phoneme_length,
    );
    proof {
        assert forall|i: int| 0 <= i < segs@.len() implies 0 <= (#[trigger] segs@[i]).pitch
            <= 1_000_000 by {
            lemma_plan_pitch_bounded(
                spec_upspeak(q.accent_phrases, enable_interrogative_upspeak),
                q.speed_scale as int,
                q.pre_phoneme_length as int,
                q.post_phoneme_length as int,
            );
        }
    }
    let scaled = scale_segment_pitches(&segs, pitch_factor_micro);
    proof {
        assert(scaled@ =~= spec_scaled_segments(segs@, pitch_factor_micro as int));
        lemma_total_frames_congruent(scaled@, segs@);
    }
    let mean = mean_pitch(&scaled);
    let plan = flatten_intonation(&scaled, mean, query.intonation_scale);
    proof {
        assert(plan@ =~= spec_final_plan(q, enable_interrogative_upspeak, pitch_factor_micro
            as int));
        lemma_total_frames_congruent(plan@, segs@);
    }
    let (f0, ids) = expand_frames(&plan);
    let frames = f0.len();
    let f0_padded = pad_frames(&f0, 0);
    let ids_padded = pad_frames(&ids, PAU_PHONEME);
    proof {
        lemma_frame_vectors_len(plan@);
    }
    proof {
        let spec_plan = spec_final_plan(q, enable_interrogative_upspeak, pitch_factor_micro
            as int);
        assert(spec_phoneme_frames(plan@) == spec_phoneme_frames(spec_plan));
    }
    let phoneme = match one_hot(&ids_padded, phoneme_size) {
        Ok(m) => m,
        Err(e) => {
            proof {
                if forall|t: int| 0 <= t < ids@.len() ==> 0 <= #[trigger] ids@[t] < phoneme_size {
                    assert forall|t: int|
                        0 <= t < ids_padded@.len() implies 0 <= #[trigger] ids_padded@[t]
                        < phoneme_size by {
                        if t < PADDING_FRAMES {
                            assert(ids_padded@[t] == PAU_PHONEME);
                        } else if t < PADDING_FRAMES + ids@.len() {
                            assert(ids_padded@[t] == ids@[t - PADDING_FRAMES]);
                        } else {
                            assert(ids_padded@[t] == PAU_PHONEME);
                        }
                    }
                    assert(false);
                }
            }
            return Err(e);
        },
    };
    proof {
        assert forall|t: int| 0 <= t < ids@.len() implies 0 <= #[trigger] ids@[t]
            < phoneme_size by {
            assert(ids_padded@[t + PADDING_FRAMES] == ids@[t]);
            assert(0 <= ids_padded@[t + PADDING_FRAMES] < phoneme_size);
        }
    }
    Ok(DecodeInput { f0: f0_padded, phoneme, frames })
}

/// Every span of a freshly built plan carries a pitch within the bounds the
/// scaler asks for.
pub proof fn lemma_plan_pitch_bounded(
    ps: Seq<crate::query::AccentPhraseView>,
    speed: int,
    pre: int,
    post: int,
)
    requires
        forall|j: int| 0 <= j < ps.len() ==> crate::query::phrase_bounded(#[trigger] ps[j]),
    ensures
        forall|i: int|
            0 <= i < spec_query_segments(ps, speed, pre, post).len() ==> 0 <= (
            #[trigger] spec_query_segments(ps, speed, pre, post)[i]).pitch <= 1_000_000,
{
    let segs = spec_query_segments(ps, speed, pre, post);
    assert forall|i: int| 0 <= i < segs.len() implies 0 <= (#[trigger] segs[i]).pitch
        <= 1_000_000 by {
        lemma_phrases_segments_pitch_bounded(ps, speed);
        let body = spec_phrases_segments(ps, speed);
        if 1 <= i < 1 + body.len() {
            assert(segs[i] == body[i - 1]);
        }
    }
}

proof fn lemma_phrases_segments_pitch_bounded(ps: Seq<crate::query::AccentPhraseView>, speed: int)
    requires
        forall|j: int| 0 <= j < ps.len() ==> crate::query::phrase_bounded(#[trigger] ps[j]),
    ensures
        forall|i: int|
            0 <= i < spec_phrases_segments(ps, speed).len() ==> 0 <= (
            #[trigger] spec_phrases_segments(ps, speed)[i]).pitch <= 1_000_000,
    decreases ps.len(),
{
    if ps.len() > 0 {
        lemma_phrases_segments_pitch_bounded(ps.drop_last(), speed);
        lemma_moras_segments_pitch_bounded(ps.last().moras, speed);
        assert(crate::query::phrase_bounded(ps.last()));
        let pre = spec_phrases_segments(ps.drop_last(), speed);
        let own = spec_phrase_segments(ps.last(), speed);
        assert forall|i: int| 0 <= i < spec_phrases_segments(ps, speed).len() implies 0 <= (
        #[trigger] spec_phrases_segments(ps, speed)[i]).pitch <= 1_000_000 by {
            if i < pre.len() {
                assert(spec_phrases_segments(ps, speed)[i] == pre[i]);
            } else {
                assert(spec_phrases_segments(ps, speed)[i] == own[i - pre.len()]);
                let ms = spec_moras_segments(ps.last().moras, speed);
                if i - pre.len() < ms.len() {
                    assert(own[i - pre.len()] == ms[i - pre.len()]);
                }
            }
        }
    }
}

proof fn lemma_moras_segments_pitch_bounded(ms: Seq<MoraView>, speed: int)
    requires
        forall|k: int| 0 <= k < ms.len() ==> crate::query::mora_bounded(#[trigger] ms[k]),
    ensures
        forall|i: int|
            0 <= i < spec_moras_segments(ms, speed).len() ==> 0 <= (
            #[trigger] spec_moras_segments(ms, speed)[i]).pitch <= 1_000_000,
    decreases ms.len(),
{
    if ms.len() > 0 {
        lemma_moras_segments_pitch_bounded(ms.drop_last(), speed);
        assert(crate::query::mora_bounded(ms.last()));
        let pre = spec_moras_segments(ms.drop_last(), speed);
        let own = spec_mora_segments(ms.last(), speed);
        assert forall|i: int| 0 <= i < spec_moras_segments(ms, speed).len() implies 0 <= (
        #[trigger] spec_moras_segments(ms, speed)[i]).pitch <= 1_000_000 by {
            if i < pre.len() {
                assert(spec_moras_segments(ms, speed)[i] == pre[i]);
            } else {
                assert(spec_moras_segments(ms, speed)[i] == own[i - pre.len()]);
            }
        }
    }
}

/// The decoded samples after the volume scale and quantization.
pub open spec fn spec_quantized(samples: Seq<i64>, volume: int) -> Seq<i16> {
    samples.map_values(|s: i64| spec_quantize_sample(s as int, volume) as i16)
}

/// Finishes a synthesis request from the decode model's raw output: the
/// padding samples are cropped from both ends, the volume scale is applied,
/// each sample is quantized to 16-bit PCM, and the result is packaged as a
/// canonical WAV file of `44 + 2 * 256 * frames` bytes.
pub fn synthesis_wave_from_decoded(decoded: &Vec<i64>, frames: usize, volume_scale: u32) -> (r:
    Vec<u8>)
    requires
        decoded@.len() == (frames + 2 * PADDING_FRAMES) * 256,
        volume_scale <= 100_000,
        frames * 256 <= 100_000_000,
    ensures
        r@ == spec_wav_bytes(
            spec_quantized(
                decoded@.subrange(
                    (PADDING_FRAMES * 256) as int,
                    (PADDING_FRAMES * 256) as int + (frames * 256) as int,
                ),
                volume_scale as int,
            ),
        ),
        r@.len() == 44 + 2 * 256 * frames,
{
    let cropped = decode_crop(decoded, frames);
    let samples = finish_samples(&cropped, volume_scale);
    proof {
        assert(samples@ =~= spec_quantized(cropped@, volume_scale as int));
        assert(samples@.len() == frames * 256);
    }
    let r = pack_wav(&samples);
    proof {
        assert(r@.len() == 44 + 2 * (frames * 256));
        assert(2 * ((frames as int) * 256) == 2 * 256 * (frames as int)) by (nonlinear_arith);
    }
    r
}

/// The length law of synthesis: whatever the decode model returned for the
/// padded plan of a query, the finished WAV holds the 44-byte header and two
/// bytes for each of the query's `frames * 256` samples.
pub proof fn lemma_synthesis_wave_length(
    q: crate::query::AudioQueryView,
    enable_upspeak: bool,
    decoded: Seq<i64>,
    volume: int,
)
    requires
        decoded.len() == (spec_synthesis_frames(q, enable_upspeak) + 2 * PADDING_FRAMES) * 256,
    ensures
        spec_wav_bytes(
            spec_quantized(
                decoded.subrange(
                    (PADDING_FRAMES * 256) as int,
                    PADDING_FRAMES * 256 + spec_synthesis_frames(q, enable_upspeak) * 256,
                ),
                volume,
            ),
        ).len() == 44 + 2 * 256 * spec_synthesis_frames(q, enable_upspeak),
{
    let frames = spec_synthesis_frames(q, enable_upspeak);
    let cropped = decoded.subrange(
        (PADDING_FRAMES * 256) as int,
        PADDING_FRAMES * 256 + frames * 256,
    );
    assert((frames + 2 * PADDING_FRAMES) * 256 == frames * 256 + 2 * PADDING_FRAMES * 256)
        by (nonlinear_arith);
    let quantized = spec_quantized(cropped, volume);
    lemma_pcm_bytes_len(quantized);
    assert(quantized.len() == frames * 256);
    assert(spec_wav_header(quantized.len() as int).len() == 44);
    assert(spec_wav_bytes(quantized).len() == 44 + 2 * (frames * 256));
    assert(2 * ((frames as int) * 256) == 2 * 256 * (frames as int)) by (nonlinear_arith);
}

/// Decides whether a query's frame plan fits the renderer's machine bounds:
/// at most a hundred million output samples, and a one-hot matrix that fits
/// in memory. This covers everything `synthesis_decode_input` and
/// `synthesis_wave_from_decoded` ask of the plan, so a caller can test a
/// query of unknown provenance first.
pub fn check_renderable(
    query: &AudioQuery,
    enable_interrogative_upspeak: bool,
    phoneme_size: usize,
) -> (r: bool)
    requires
        crate::query::query_wf(query@),
        crate::query::query_bounded(query@),
        1 <= phoneme_size <= 100_000,
    ensures
        r == (spec_synthesis_frames(query@, enable_interrogative_upspeak) * 256 <= 100_000_000
            && (spec_synthesis_frames(query@, enable_interrogative_upspeak) + 2 * PADDING_FRAMES)
            * (phoneme_size as nat) <= usize::MAX),
{
    let ghost q = query@;
    proof {
        lemma_upspeak_wf(q.accent_phrases, enable_interrogative_upspeak);
    }
    let up = apply_interrogative_upspeak(&query.accent_phrases, enable_interrogative_upspeak);
    let segs = build_frame_segments(
        &up,
        query.speed_scale,
        query.pre_phoneme_length,
        query.post_phoneme_length,
    );
    let ghost plan = segs@;
    proof {
        assert(plan == spec_base_plan(q, enable_interrogative_upspeak));
    }
    let mut total: u64 = 0;
    let mut i: usize = 0;
    while i < segs.len()
        invariant
            i <= segs.len(),
            plan == segs@,
            plan == spec_base_plan(q, enable_interrogative_upspeak),
            q == query@,
            total == spec_total_frames(plan.take(i as int)),
            total <= 100_000_000,
        decreases segs.len() - i,
    {
        proof {
            lemma_total_frames_take_succ(plan, i as int);
            lemma_total_frames_mono(plan, i + 1);
        }
        let frames = segs[i].frames as u64;
        if frames > 100_000_000 - total {
            proof {
                assert(spec_total_frames(plan.take(i + 1)) > 100_000_000);
                assert(spec_total_frames(plan) >= spec_total_frames(plan.take(i + 1)));
                assert(spec_synthesis_frames(query@, enable_interrogative_upspeak) > 100_000_000);
                assert(spec_synthesis_frames(query@, enable_interrogative_upspeak) * 256
                    > 100_000_000) by (nonlinear_arith)
                    requires
                        spec_synthesis_frames(query@, enable_interrogative_upspeak) > 100_000_000,
                ;
            }
            return false;
        }
        total = total + frames;
        i += 1;
    }
    proof {
        assert(plan.take(plan.len() as int) =~= plan);
        assert(total == spec_synthesis_frames(query@, enable_interrogative_upspeak));
        assert((total + 2 * (PADDING_FRAMES as int)) * (phoneme_size as int) <= (100_000_000 + 76)
            * 100_000) by (nonlinear_arith)
            requires
                total <= 100_000_000,
                1 <= phoneme_size <= 100_000,
        ;
    }
    let needed: u64 = (total + 2 * (PADDING_FRAMES as u64)) * (phoneme_size as u64);
    total * 256 <= 100_000_000 && needed <= usize::MAX as u64
}

/// Phrases that agree on their moras and pauses render the same spans: the
/// plan never reads a phrase's accent or interrogative flag.
pub proof fn lemma_phrases_segments_congruent(
    a: Seq<crate::query::AccentPhraseView>,
    b: Seq<crate::query::AccentPhraseView>,
    speed: int,
)
    requires
        a.len() == b.len(),
        forall|j: int|
            0 <= j < a.len() ==> (#[trigger] a[j]).moras == (#[trigger] b[j]).moras
                && a[j].pause_mora == b[j].pause_mora,
    ensures
        spec_phrases_segments(a, speed) == spec_phrases_segments(b, speed),
    decreases a.len(),
{
    if a.len() > 0 {
        lemma_phrases_segments_congruent(a.drop_last(), b.drop_last(), speed);
        assert(spec_phrase_segments(a.last(), speed) =~= spec_phrase_segments(b.last(), speed));
        assert(spec_phrases_segments(a, speed) =~= spec_phrases_segments(b, speed));
    }
}

/// With upspeak disabled, the interrogative flags are inert: two queries
/// that agree on their moras, pauses and numeric knobs produce the same
/// frame plan, and so the same decode input and the same frame count,
/// whatever their flags say.
pub proof fn lemma_interrogative_flag_inert_without_upspeak(
    q1: crate::query::AudioQueryView,
    q2: crate::query::AudioQueryView,
    pitch_factor_micro: int,
)
    requires
        q1.accent_phrases.len() == q2.accent_phrases.len(),
        forall|j: int|
            0 <= j < q1.accent_phrases.len() ==> (#[trigger] q1.accent_phrases[j]).moras == (
            #[trigger] q2.accent_phrases[j]).moras && q1.accent_phrases[j].pause_mora
                == q2.accent_phrases[j].pause_mora,
        q1.speed_scale == q2.speed_scale,
        q1.intonation_scale == q2.intonation_scale,
        q1.pre_phoneme_length == q2.pre_phoneme_length,
        q1.post_phoneme_length == q2.post_phoneme_length,
    ensures
        spec_base_plan(q1, false) == spec_base_plan(q2, false),
        spec_final_plan(q1, false, pitch_factor_micro) == spec_final_plan(
            q2,
            false,
            pitch_factor_micro,
        ),
        spec_synthesis_frames(q1, false) == spec_synthesis_frames(q2, false),
{
    lemma_phrases_segments_congruent(
        q1.accent_phrases,
        q2.accent_phrases,
        q1.speed_scale as int,
    );
    assert(spec_base_plan(q1, false) =~= spec_base_plan(q2, false));
}

} // verus!
