//! The value data of the pipeline: moras, accent phrases and the audio
//! query. Times and pitches are fixed-point ticks (1/10000 of a second, or
//! of the pitch unit); scale factors are hundredths, so 100 is neutral.

use vstd::prelude::*;

verus! {

/// The phoneme identifier of the pause phoneme.
pub const PAU_PHONEME: i64 = 0;

/// What the pipeline's rules read of a mora's vowel.
#[derive(Clone, Copy, Debug, PartialEq, Eq, Structural)]
pub enum VowelKind {
    /// A plain voiced vowel (written in lower case in the kana notation).
    Voiced,
    /// A devoiced vowel (written in upper case): its pitch is forced to zero.
    Devoiced,
    /// The moraic nasal.
    Nasal,
    /// The glottal stop.
    Stop,
    /// A pause.
    Pause,
}

/// A timing unit of speech: an optional consonant followed by a vowel.
/// Phonemes are carried as the identifiers of the external phoneme table.
pub struct Mora {
    /// The mora's written form.
    pub text: String,
    /// The consonant's phoneme identifier, when the mora has one.
    pub consonant: Option<i64>,
    /// The consonant's duration in ticks; present exactly with `consonant`.
    pub consonant_length: Option<u32>,
    /// The vowel's phoneme identifier.
    pub vowel: i64,
    /// What the rules read of the vowel.
    pub vowel_kind: VowelKind,
    /// The vowel's duration in ticks.
    pub vowel_length: u32,
    /// The mora's pitch in ticks; zero means unvoiced.
    pub pitch: u32,
}

/// Mathematical image of a [`Mora`].
#[verifier::ext_equal]
pub struct MoraView {
    pub text: Seq<char>,
    pub consonant: Option<i64>,
    pub consonant_length: Option<u32>,
    pub vowel: i64,
    pub vowel_kind: VowelKind,
    pub vowel_length: u32,
    pub pitch: u32,
}

impl View for Mora {
    type V = MoraView;

    open spec fn view(&self) -> MoraView {
        MoraView {
            text: self.text@,
            consonant: self.consonant,
            consonant_length: self.consonant_length,
            vowel: self.vowel,
            vowel_kind: self.vowel_kind,
            vowel_length: self.vowel_length,
            pitch: self.pitch,
        }
    }
}

/// A mora is well formed when consonant and consonant length come together.
pub open spec fn mora_wf(m: MoraView) -> bool {
    m.consonant is Some <==> m.consonant_length is Some
}

/// A pause mora: no consonant, the pause phoneme as vowel, no pitch.
pub open spec fn pause_mora_wf(m: MoraView) -> bool {
    &&& m.consonant is None
    &&& m.consonant_length is None
    &&& m.vowel == PAU_PHONEME
    &&& m.vowel_kind == VowelKind::Pause
    &&& m.pitch == 0
}

/// A prosodic unit: at least one mora, a 1-based accent position, an
/// optional trailing pause, and the interrogative flag.
pub struct AccentPhrase {
    pub moras: Vec<Mora>,
    /// 1-based position of the accent nucleus; at most `moras.len()`.
    pub accent: usize,
    pub pause_mora: Option<Mora>,
    pub is_interrogative: bool,
}

/// Mathematical image of an [`AccentPhrase`].
#[verifier::ext_equal]
pub struct AccentPhraseView {
    pub moras: Seq<MoraView>,
    pub accent: usize,
    pub pause_mora: Option<MoraView>,
    pub is_interrogative: bool,
}

impl View for AccentPhrase {
    type V = AccentPhraseView;

    open spec fn view(&self) -> AccentPhraseView {
        AccentPhraseView {
            moras: self.moras@.map_values(|m: Mora| m@),
            accent: self.accent,
            pause_mora: match self.pause_mora {
                Some(m) => Some(m@),
                None => None,
            },
            is_interrogative: self.is_interrogative,
        }
    }
}

/// The images of a sequence of moras.
pub open spec fn mora_views(s: Seq<Mora>) -> Seq<MoraView> {
    s.map_values(|m: Mora| m@)
}

/// The images of a sequence of accent phrases.
pub open spec fn phrase_views(s: Seq<AccentPhrase>) -> Seq<AccentPhraseView> {
    s.map_values(|p: AccentPhrase| p@)
}

/// An accent phrase is well formed when it has a mora, its accent position
/// is within the moras, every mora is well formed, and its pause mora, if
/// present, is a pause.
pub open spec fn phrase_wf(p: AccentPhraseView) -> bool {
    &&& p.moras.len() >= 1
    &&& 1 <= p.accent <= p.moras.len()
    &&& forall|k: int| 0 <= k < p.moras.len() ==> mora_wf(#[trigger] p.moras[k])
    &&& match p.pause_mora {
        Some(pm) => mora_wf(pm) && pause_mora_wf(pm),
        None => true,
    }
}

/// Every phrase of the sequence is well formed.
pub open spec fn phrases_wf(ps: Seq<AccentPhraseView>) -> bool {
    forall|j: int| 0 <= j < ps.len() ==> phrase_wf(#[trigger] ps[j])
}

/// A synthesis request: refined accent phrases plus the numeric knobs of the
/// renderer, with the fixed output format.
pub struct AudioQuery {
    pub accent_phrases: Vec<AccentPhrase>,
    /// Speaking speed, hundredths; 100 is neutral; larger is faster.
    pub speed_scale: u32,
    /// Pitch shift, hundredths of an octave; 0 is neutral.
    pub pitch_scale: i32,
    /// Intonation spread around the mean pitch, hundredths; 100 is neutral.
    pub intonation_scale: u32,
    /// Output amplitude factor, hundredths; 100 is neutral.
    pub volume_scale: u32,
    /// Leading silence in ticks.
    pub pre_phoneme_length: u32,
    /// Trailing silence in ticks.
    pub post_phoneme_length: u32,
    /// Output sampling rate; fixed to the default at creation.
    pub output_sampling_rate: u32,
    /// Stereo output flag; the renderer produces mono.
    pub output_stereo: bool,
    /// The kana notation the query was built from, if any.
    pub kana: Option<String>,
}

/// Mathematical image of an [`AudioQuery`].
#[verifier::ext_equal]
pub struct AudioQueryView {
    pub accent_phrases: Seq<AccentPhraseView>,
    pub speed_scale: u32,
    pub pitch_scale: i32,
    pub intonation_scale: u32,
    pub volume_scale: u32,
    pub pre_phoneme_length: u32,
    pub post_phoneme_length: u32,
    pub output_sampling_rate: u32,
    pub output_stereo: bool,
    pub kana: Option<Seq<char>>,
}

impl View for AudioQuery {
    type V = AudioQueryView;

    open spec fn view(&self) -> AudioQueryView {
        AudioQueryView {
            accent_phrases: phrase_views(self.accent_phrases@),
            speed_scale: self.speed_scale,
            pitch_scale: self.pitch_scale,
            intonation_scale: self.intonation_scale,
            volume_scale: self.volume_scale,
            pre_phoneme_length: self.pre_phoneme_length,
            post_phoneme_length: self.post_phoneme_length,
            output_sampling_rate: self.output_sampling_rate,
            output_stereo: self.output_stereo,
            kana: match self.kana {
                Some(ref k) => Some(k@),
                None => None,
            },
        }
    }
}

/// A query is well formed when its phrases are and its speed is not zero.
pub open spec fn query_wf(q: AudioQueryView) -> bool {
    &&& phrases_wf(q.accent_phrases)
    &&& q.speed_scale >= 1
}

/// Machine bounds under which the renderer's arithmetic stays exact: every
/// duration at most a thousand seconds, pitches at most a hundred units, and
/// the scale factors at most a thousandfold.
pub open spec fn query_bounded(q: AudioQueryView) -> bool {
    &&& q.speed_scale <= 100_000
    &&& q.intonation_scale <= 100_000
    &&& q.volume_scale <= 100_000
    &&& q.pre_phoneme_length <= 10_000_000
    &&& q.post_phoneme_length <= 10_000_000
    &&& forall|j: int|
        0 <= j < q.accent_phrases.len() ==> phrase_bounded(#[trigger] q.accent_phrases[j])
}

/// The per-phrase part of the renderer's machine bounds.
pub open spec fn phrase_bounded(p: AccentPhraseView) -> bool {
    &&& forall|k: int| 0 <= k < p.moras.len() ==> mora_bounded(#[trigger] p.moras[k])
    &&& match p.pause_mora {
        Some(pm) => mora_bounded(pm),
        None => true,
    }
}

/// The per-mora part of the renderer's machine bounds.
pub open spec fn mora_bounded(m: MoraView) -> bool {
    &&& m.vowel_length <= 10_000_000
    &&& match m.consonant_length {
        Some(cl) => cl <= 10_000_000,
        None => true,
    }
    &&& m.pitch <= 1_000_000
}

/// Copies a mora; the copy has the same image.
pub fn clone_mora(m: &Mora) -> (r: Mora)
    ensures
        r@ == m@,
{
    Mora {
        text: m.text.clone(),
        consonant: m.consonant,
        consonant_length: m.consonant_length,
        vowel: m.vowel,
        vowel_kind: m.vowel_kind,
        vowel_length: m.vowel_length,
        pitch: m.pitch,
    }
}

/// Copies an accent phrase; the copy has the same image.
pub fn clone_accent_phrase(p: &AccentPhrase) -> (r: AccentPhrase)
    ensures
        r@ == p@,
{
    let mut moras: Vec<Mora> = Vec::new();
    let mut i: usize = 0;
    while i < p.moras.len()
        invariant
            i <= p.moras.len(),
            moras@.len() == i,
            forall|k: int| 0 <= k < i ==> #[trigger] moras@[k]@ == p.moras@[k]@,
        decreases p.moras.len() - i,
    {
        moras.push(clone_mora(&p.moras[i]));
        i += 1;
    }
    let pause_mora = match &p.pause_mora {
        Some(pm) => Some(clone_mora(pm)),
        None => None,
    };
    let r = AccentPhrase { moras, accent: p.accent, pause_mora, is_interrogative: p.is_interrogative };
    proof {
        assert(r@.moras =~= p@.moras);
        assert(r@ =~= p@);
    }
    r
}

/// Copies a list of accent phrases; the copy has the same images.
pub fn clone_accent_phrases(ps: &Vec<AccentPhrase>) -> (r: Vec<AccentPhrase>)
    ensures
        phrase_views(r@) == phrase_views(ps@),
{
    let mut r: Vec<AccentPhrase> = Vec::new();
    let mut i: usize = 0;
    while i < ps.len()
        invariant
            i <= ps.len(),
            r@.len() == i,
            forall|k: int| 0 <= k < i ==> #[trigger] r@[k]@ == ps@[k]@,
        decreases ps.len() - i,
    {
        r.push(clone_accent_phrase(&ps[i]));
        i += 1;
    }
    proof {
        assert(phrase_views(r@) =~= phrase_views(ps@));
    }
    r
}

/// Builds an audio query around refined accent phrases, with the documented
/// defaults: neutral scales, a tenth of a second of silence on both ends,
/// the default sampling rate, mono output, and the kana the text came from.
pub fn audio_query_from_accent_phrases(accent_phrases: Vec<AccentPhrase>, kana: Option<String>) -> (q:
    AudioQuery)
    ensures
        q@.accent_phrases == phrase_views(accent_phrases@),
        q@.speed_scale == 100u32,
        q@.pitch_scale == 0i32,
        q@.intonation_scale == 100u32,
        q@.volume_scale == 100u32,
        q@.pre_phoneme_length == 1000u32,
        q@.post_phoneme_length == 1000u32,
        q@.output_sampling_rate == crate::DEFAULT_SAMPLING_RATE,
        !q@.output_stereo,
        q@.kana == match kana {
            Some(ref k) => Some(k@),
            None => None::<Seq<char>>,
        },
        phrases_wf(phrase_views(accent_phrases@)) ==> query_wf(q@),
{
    AudioQuery {
        accent_phrases,
        speed_scale: 100,
        pitch_scale: 0,
        intonation_scale: 100,
        volume_scale: 100,
        pre_phoneme_length: 1000,
        post_phoneme_length: 1000,
        output_sampling_rate: crate::DEFAULT_SAMPLING_RATE,
        output_stereo: false,
        kana,
    }
}

/// Decides well-formedness and the machine bounds of one mora.
pub fn check_mora(m: &Mora) -> (r: bool)
    ensures
        r == (mora_wf(m@) && mora_bounded(m@)),
{
    let paired = match (&m.consonant, &m.consonant_length) {
        (Some(_), Some(cl)) => *cl <= 10_000_000,
        (None, None) => true,
        _ => false,
    };
    paired && m.vowel_length <= 10_000_000 && m.pitch <= 1_000_000
}

/// Decides whether a mora is a pause.
pub fn check_pause_mora(m: &Mora) -> (r: bool)
    ensures
        r == pause_mora_wf(m@),
{
    m.consonant.is_none() && m.consonant_length.is_none() && m.vowel == PAU_PHONEME && matches!(
        m.vowel_kind,
        VowelKind::Pause,
    ) && m.pitch == 0
}

/// Decides well-formedness and the machine bounds of one accent phrase.
pub fn check_phrase(p: &AccentPhrase) -> (r: bool)
    ensures
        r == (phrase_wf(p@) && phrase_bounded(p@)),
{
    if p.moras.len() < 1 || p.accent < 1 || p.accent > p.moras.len() {
        return false;
    }
    let mut k: usize = 0;
    while k < p.moras.len()
        invariant
            k <= p.moras.len(),
            forall|t: int|
                0 <= t < k ==> mora_wf(#[trigger] p@.moras[t]) && mora_bounded(p@.moras[t]),
        decreases p.moras.len() - k,
    {
        if !check_mora(&p.moras[k]) {
            proof {
                assert(!(mora_wf(p@.moras[k as int]) && mora_bounded(p@.moras[k as int])));
            }
            return false;
        }
        k += 1;
    }
    match &p.pause_mora {
        Some(pm) => check_mora(pm) && check_pause_mora(pm),
        None => true,
    }
}

/// Decides well-formedness and the machine bounds of a whole query: what the
/// renderer's contracts ask of their input, so that a caller can test a
/// query of unknown provenance before rendering it.
pub fn check_query(q: &AudioQuery) -> (r: bool)
    ensures
        r == (query_wf(q@) && query_bounded(q@)),
{
    if q.speed_scale < 1 || q.speed_scale > 100_000 || q.intonation_scale > 100_000
        || q.volume_scale > 100_000 || q.pre_phoneme_length > 10_000_000
        || q.post_phoneme_length > 10_000_000 {
        return false;
    }
    let mut j: usize = 0;
    while j < q.accent_phrases.len()
        invariant
            j <= q.accent_phrases.len(),
            forall|t: int|
                0 <= t < j ==> phrase_wf(#[trigger] q@.accent_phrases[t]) && phrase_bounded(
                    q@.accent_phrases[t],
                ),
        decreases q.accent_phrases.len() - j,
    {
        if !check_phrase(&q.accent_phrases[j]) {
            proof {
                assert(!(phrase_wf(q@.accent_phrases[j as int]) && phrase_bounded(
                    q@.accent_phrases[j as int],
                )));
            }
            return false;
        }
        j += 1;
    }
    true
}

} // verus!
