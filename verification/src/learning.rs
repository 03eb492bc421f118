use vstd::prelude::*;
use crate::music::{ArrangementId, BeatSpan, MusicPieceId, Note, Pitch};
use crate::text::{owned, push_str, trim_spec, trim_str};

verus! {

/// The identity of a practice session.
#[derive(Debug, Clone)]
pub struct PracticeSessionId(pub String);

/// The identity of an exercise.
#[derive(Debug, Clone)]
pub struct ExerciseId(pub String);

/// The identity of one attempt in a practice session.
#[derive(Debug, Clone)]
pub struct AttemptId(pub String);

/// The error of parsing an identity: what was left after trimming is empty.
#[derive(Debug, Clone)]
pub struct LearningIdInvalidError {
    pub value: String,
}

impl View for PracticeSessionId {
    type V = Seq<char>;

    open spec fn view(&self) -> Seq<char> {
        self.0@
    }
}

impl View for ExerciseId {
    type V = Seq<char>;

    open spec fn view(&self) -> Seq<char> {
        self.0@
    }
}

impl View for AttemptId {
    type V = Seq<char>;

    open spec fn view(&self) -> Seq<char> {
        self.0@
    }
}

impl PartialEq for PracticeSessionId {
    fn eq(&self, other: &Self) -> (r: bool) {
        self.0 == other.0
    }
}

impl vstd::std_specs::cmp::PartialEqSpecImpl for PracticeSessionId {
    open spec fn obeys_eq_spec() -> bool {
        true
    }

    open spec fn eq_spec(&self, other: &Self) -> bool {
        self@ == other@
    }
}

/// The text of an identity after trimming, or the error when nothing is left.
fn parse_id(value: &str) -> (r: Result<String, LearningIdInvalidError>)
    ensures
        r is Err <==> trim_spec(value@).len() == 0,
        r matches Ok(s) ==> s@ == trim_spec(value@),
        r matches Err(e) ==> e.value@ == trim_spec(value@),
{
    let value = trim_str(value);
    if value.is_empty() {
        return Err(LearningIdInvalidError { value: owned(value) });
    }
    Ok(owned(value))
}

impl PracticeSessionId {
    pub fn new_unchecked(value: String) -> (r: Self)
        ensures
            r@ == value@,
    {
        PracticeSessionId(value)
    }

    pub fn parse(value: &str) -> (r: Result<Self, LearningIdInvalidError>)
        ensures
            r is Err <==> trim_spec(value@).len() == 0,
            r matches Ok(id) ==> id@ == trim_spec(value@),
            r matches Err(e) ==> e.value@ == trim_spec(value@),
    {
        match parse_id(value) {
            Ok(s) => Ok(PracticeSessionId(s)),
            Err(e) => Err(e),
        }
    }

    pub fn as_str(&self) -> (r: &str)
        ensures
            r@ == self@,
    {
        self.0.as_str()
    }

    /// The identity as text, as its `Display` writes it.
    pub fn to_string(&self) -> (r: String)
        ensures
            r@ == self@,
    {
        self.0.clone()
    }

    pub fn copy(&self) -> (r: Self)
        ensures
            r@ == self@,
    {
        PracticeSessionId(self.0.clone())
    }
}

impl ExerciseId {
    pub fn new_unchecked(value: String) -> (r: Self)
        ensures
            r@ == value@,
    {
        ExerciseId(value)
    }

    pub fn parse(value: &str) -> (r: Result<Self, LearningIdInvalidError>)
        ensures
            r is Err <==> trim_spec(value@).len() == 0,
            r matches Ok(id) ==> id@ == trim_spec(value@),
            r matches Err(e) ==> e.value@ == trim_spec(value@),
    {
        match parse_id(value) {
            Ok(s) => Ok(ExerciseId(s)),
            Err(e) => Err(e),
        }
    }

    pub fn as_str(&self) -> (r: &str)
        ensures
            r@ == self@,
    {
        self.0.as_str()
    }

    /// The identity as text, as its `Display` writes it.
    pub fn to_string(&self) -> (r: String)
        ensures
            r@ == self@,
    {
        self.0.clone()
    }
}

impl AttemptId {
    pub fn new_unchecked(value: String) -> (r: Self)
        ensures
            r@ == value@,
    {
        AttemptId(value)
    }

    pub fn parse(value: &str) -> (r: Result<Self, LearningIdInvalidError>)
        ensures
            r is Err <==> trim_spec(value@).len() == 0,
            r matches Ok(id) ==> id@ == trim_spec(value@),
            r matches Err(e) ==> e.value@ == trim_spec(value@),
    {
        match parse_id(value) {
            Ok(s) => Ok(AttemptId(s)),
            Err(e) => Err(e),
        }
    }

    pub fn as_str(&self) -> (r: &str)
        ensures
            r@ == self@,
    {
        self.0.as_str()
    }

    /// The identity as text, as its `Display` writes it.
    pub fn to_string(&self) -> (r: String)
        ensures
            r@ == self@,
    {
        self.0.clone()
    }
}

impl LearningIdInvalidError {
    /// The message of the error, as its `Display` writes it.
    pub fn to_string(&self) -> (r: String)
        ensures
            r@ == "learning: invalid id: '"@ + self.value@ + "'"@,
    {
        let mut r = owned("learning: invalid id: '");
        push_str(&mut r, self.value.as_str());
        push_str(&mut r, "'");
        r
    }
}

/// Where a practice session stands.
#[derive(Debug, Clone, Copy, PartialEq, Eq, Structural)]
pub enum PracticeSessionStatus {
    Active,
    Completed,
    Abandoned,
}

/// The verdict on one note of an attempt.
#[derive(Debug, Clone, Copy, PartialEq, Eq, Structural)]
pub enum JudgementKind {
    Hit,
    Missed,
    WrongPitch,
    Extra,
}

/// A verdict and how many ticks the performed note was away from the target.
#[derive(Debug, Clone, Copy, PartialEq, Eq, Structural)]
pub struct Judgement {
    pub kind: JudgementKind,
    pub timing_offset_ticks: i128,
}

/// The keys an instrument can play, from `lowest` to `highest`.
#[derive(Debug, Clone, Copy, PartialEq, Eq, Structural)]
pub struct PlayableRange {
    pub lowest: Pitch,
    pub highest: Pitch,
}

/// The error of `PlayableRange::new`: the lowest key lies above the highest.
#[derive(Debug, Clone, Copy, PartialEq, Eq, Structural)]
pub struct PlayableRangeInvalidError {
    pub lowest: u8,
    pub highest: u8,
}

/// Whether `range` holds `pitch`.
pub open spec fn range_holds(range: PlayableRange, pitch: Pitch) -> bool {
    range.lowest.0 <= pitch.0 <= range.highest.0
}

impl PlayableRange {
    pub fn new(lowest: Pitch, highest: Pitch) -> (r: Result<Self, PlayableRangeInvalidError>)
        ensures
            r is Ok <==> lowest.0 <= highest.0,
            r matches Ok(range) ==> range.lowest == lowest && range.highest == highest,
            r matches Err(e) ==> e.lowest == lowest.0 && e.highest == highest.0,
    {
        if lowest.midi_number() > highest.midi_number() {
            return Err(PlayableRangeInvalidError {
                lowest: lowest.midi_number(),
                highest: highest.midi_number(),
            });
        }
        Ok(PlayableRange { lowest, highest })
    }

    pub fn contains(&self, pitch: Pitch) -> (r: bool)
        ensures
            r == range_holds(*self, pitch),
    {
        let pitch = pitch.midi_number();
        self.lowest.midi_number() <= pitch && pitch <= self.highest.midi_number()
    }

    /// How many keys the range spans.
    pub fn key_count(&self) -> (r: u8)
        requires
            self.lowest.0 <= self.highest.0,
            self.highest.0 - self.lowest.0 < 255,
        ensures
            r == self.highest.0 - self.lowest.0 + 1,
            r == pitches_held(*self).len(),
    {
        proof {
            lemma_key_count_counts_held_pitches(*self);
        }
        self.highest.midi_number() - self.lowest.midi_number() + 1
    }
}

/// The pitches `0..n`, lowest first.
pub open spec fn pitches_below(n: nat) -> Seq<u8> {
    Seq::new(n, |i: int| i as u8)
}

/// Whether a range holds a pitch, as a predicate on pitch numbers.
pub open spec fn held_by(range: PlayableRange) -> spec_fn(u8) -> bool {
    |p: u8| range_holds(range, Pitch(p))
}

/// The pitch numbers from 0 to 255 that a range holds, lowest first.
pub open spec fn pitches_held(range: PlayableRange) -> Seq<u8> {
    pitches_below(256).filter(held_by(range))
}

proof fn lemma_held_below(range: PlayableRange, n: nat)
    requires
        n <= 256,
        range.lowest.0 <= range.highest.0,
    ensures
        pitches_below(n).filter(held_by(range)).len() == if n <= range.lowest.0 {
            0
        } else if n <= range.highest.0 {
            n - range.lowest.0
        } else {
            range.highest.0 - range.lowest.0 + 1
        },
    decreases n,
{
    if n == 0 {
        assert(pitches_below(0).filter(held_by(range)) =~= Seq::<u8>::empty());
    } else {
        lemma_held_below(range, (n - 1) as nat);
        pitches_below((n - 1) as nat).lemma_filter_push((n - 1) as u8, held_by(range));
        assert(pitches_below((n - 1) as nat).push((n - 1) as u8) =~= pitches_below(n));
    }
}

/// `key_count` counts the keys a range holds: of the pitch numbers 0 to 255,
/// exactly `highest - lowest + 1` lie in the range (88 for the piano's 21 to 108).
pub proof fn lemma_key_count_counts_held_pitches(range: PlayableRange)
    requires
        range.lowest.0 <= range.highest.0,
    ensures
        pitches_held(range).len() == range.highest.0 - range.lowest.0 + 1,
        forall|i: int| 0 <= i < pitches_held(range).len() ==> range_holds(range, Pitch(#[trigger] pitches_held(range)[i])),
{
    lemma_held_below(range, 256);
    assert forall|i: int| 0 <= i < pitches_held(range).len() implies range_holds(range, Pitch(#[trigger] pitches_held(range)[i])) by {
        pitches_below(256).filter_lemma(held_by(range));
    }
}

impl PlayableRangeInvalidError {
    /// The message of the error, as its `Display` writes it.
    pub fn to_string(&self) -> (r: String)
        ensures
            r@ == "learning: invalid playable range: lowest '"@
                + crate::text::decimal_spec(self.lowest as nat)
                + "' is above highest '"@
                + crate::text::decimal_spec(self.highest as nat) + "'"@,
    {
        let mut r = owned("learning: invalid playable range: lowest '");
        let low = crate::text::decimal_text(self.lowest as u128);
        push_str(&mut r, low.as_str());
        push_str(&mut r, "' is above highest '");
        let high = crate::text::decimal_text(self.highest as u128);
        push_str(&mut r, high.as_str());
        push_str(&mut r, "'");
        r
    }
}

/// The instrument a learner practises on.
#[derive(Debug, Clone, Copy, PartialEq, Eq, Structural)]
pub struct PracticeInstrument {
    pub playable_range: PlayableRange,
}

impl PracticeInstrument {
    pub fn new(playable_range: PlayableRange) -> (r: Self)
        ensures
            r.playable_range == playable_range,
    {
        PracticeInstrument { playable_range }
    }
}

/// What a session practises: a segment of an arrangement (in ticks of its
/// score) at a target speed, in thousandths of the written tempo, within a
/// playable range.
#[derive(Debug, Clone)]
pub struct Exercise {
    pub id: ExerciseId,
    pub segment: Option<BeatSpan>,
    pub target_speed_permille: i64,
    pub playable_range: Option<PlayableRange>,
}

/// The notes a learner played.
#[derive(Debug, Clone)]
pub struct UserPerformance {
    pub notes: Vec<Note>,
}

/// One recorded attempt and its verdicts.
#[derive(Debug, Clone)]
pub struct PracticeAttempt {
    pub id: AttemptId,
    pub performance: UserPerformance,
    pub judgements: Vec<Judgement>,
    pub recorded_at: String,
}

/// A practice session on one arrangement of a piece.
#[derive(Debug, Clone)]
pub struct PracticeSession {
    pub id: PracticeSessionId,
    pub piece_id: MusicPieceId,
    pub arrangement_id: ArrangementId,
    pub exercise: Exercise,
    pub attempts: Vec<PracticeAttempt>,
    pub status: PracticeSessionStatus,
    pub started_at: String,
    pub ended_at: Option<String>,
}

/// The event that an attempt was recorded in a session.
#[derive(Debug, Clone)]
pub struct Practiced {
    pub session_id: PracticeSessionId,
    pub piece_id: MusicPieceId,
}

/// An exercise as plain values.
pub ghost struct ExerciseView {
    pub id: Seq<char>,
    pub segment: Option<BeatSpan>,
    pub target_speed_permille: i64,
    pub playable_range: Option<PlayableRange>,
}

/// An attempt as plain values.
pub ghost struct AttemptView {
    pub id: Seq<char>,
    pub performance: Seq<Note>,
    pub judgements: Seq<Judgement>,
    pub recorded_at: Seq<char>,
}

/// A practice session as plain values.
pub ghost struct SessionView {
    pub id: Seq<char>,
    pub piece_id: Seq<char>,
    pub arrangement_id: Seq<char>,
    pub exercise: ExerciseView,
    pub attempts: Seq<AttemptView>,
    pub status: PracticeSessionStatus,
    pub started_at: Seq<char>,
    pub ended_at: Option<Seq<char>>,
}

impl View for Exercise {
    type V = ExerciseView;

    open spec fn view(&self) -> ExerciseView {
        ExerciseView {
            id: self.id@,
            segment: self.segment,
            target_speed_permille: self.target_speed_permille,
            playable_range: self.playable_range,
        }
    }
}

impl View for PracticeAttempt {
    type V = AttemptView;

    open spec fn view(&self) -> AttemptView {
        AttemptView {
            id: self.id@,
            performance: self.performance.notes@,
            judgements: self.judgements@,
            recorded_at: self.recorded_at@,
        }
    }
}

impl View for PracticeSession {
    type V = SessionView;

    open spec fn view(&self) -> SessionView {
        SessionView {
            id: self.id@,
            piece_id: self.piece_id@,
            arrangement_id: self.arrangement_id@,
            exercise: self.exercise@,
            attempts: self.attempts@.map_values(|a: PracticeAttempt| a@),
            status: self.status,
            started_at: self.started_at@,
            ended_at: crate::music::opt_text(self.ended_at),
        }
    }
}

impl PracticeSession {
    pub fn copy(&self) -> (r: Self)
        ensures
            r@ == self@,
    {
        let mut attempts: Vec<PracticeAttempt> = Vec::new();
        let mut i: usize = 0;
        while i < self.attempts.len()
            invariant
                i <= self.attempts.len(),
                attempts@.len() == i,
                forall|k: int| 0 <= k < i ==> (#[trigger] attempts@[k])@ == self.attempts@[k]@,
            decreases self.attempts.len() - i,
        {
            attempts.push(self.attempts[i].copy());
            i = i + 1;
        }
        let r = PracticeSession {
            id: self.id.copy(),
            piece_id: self.piece_id.copy(),
            arrangement_id: self.arrangement_id.copy(),
            exercise: Exercise {
                id: self.exercise.id.copy(),
                segment: self.exercise.segment,
                target_speed_permille: self.exercise.target_speed_permille,
                playable_range: self.exercise.playable_range,
            },
            attempts,
            status: self.status,
            started_at: self.started_at.clone(),
            ended_at: crate::music::copy_opt_text(&self.ended_at),
        };
        proof {
            assert(r@.attempts =~= self@.attempts);
        }
        r
    }
}

impl AttemptId {
    pub fn copy(&self) -> (r: Self)
        ensures
            r@ == self@,
    {
        AttemptId(self.0.clone())
    }
}

impl ExerciseId {
    pub fn copy(&self) -> (r: Self)
        ensures
            r@ == self@,
    {
        ExerciseId(self.0.clone())
    }
}

/// A copy of a sequence of judgements.
pub fn copy_judgements(js: &Vec<Judgement>) -> (r: Vec<Judgement>)
    ensures
        r@ == js@,
{
    let mut r: Vec<Judgement> = Vec::new();
    let mut i: usize = 0;
    while i < js.len()
        invariant
            i <= js.len(),
            r@ =~= js@.subrange(0, i as int),
        decreases js.len() - i,
    {
        r.push(js[i]);
        i = i + 1;
    }
    proof {
        assert(js@.subrange(0, i as int) =~= js@);
    }
    r
}

impl PracticeAttempt {
    pub fn copy(&self) -> (r: Self)
        ensures
            r@ == self@,
    {
        PracticeAttempt {
            id: self.id.copy(),
            performance: UserPerformance { notes: crate::music::copy_notes(&self.performance.notes) },
            judgements: copy_judgements(&self.judgements),
            recorded_at: self.recorded_at.clone(),
        }
    }
}

impl Default for UserPerformance {
    fn default() -> (r: Self)
        ensures
            r.notes@.len() == 0,
    {
        UserPerformance { notes: Vec::new() }
    }
}

} // verus!
