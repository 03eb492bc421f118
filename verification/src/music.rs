use vstd::prelude::*;
use crate::text::{owned, push_str, trim_spec, trim_str};

verus! {

/// The identity of a music piece.
#[derive(Debug, Clone)]
pub struct MusicPieceId(pub String);

/// The identity of a piano arrangement of a piece.
#[derive(Debug, Clone)]
pub struct ArrangementId(pub String);

/// The error of parsing an identity: what was left after trimming is empty.
#[derive(Debug, Clone)]
pub struct MusicIdInvalidError {
    pub value: String,
}

impl View for MusicPieceId {
    type V = Seq<char>;

    open spec fn view(&self) -> Seq<char> {
        self.0@
    }
}

impl View for ArrangementId {
    type V = Seq<char>;

    open spec fn view(&self) -> Seq<char> {
        self.0@
    }
}

impl PartialEq for MusicPieceId {
    fn eq(&self, other: &Self) -> (r: bool) {
        self.0 == other.0
    }
}

impl vstd::std_specs::cmp::PartialEqSpecImpl for MusicPieceId {
    open spec fn obeys_eq_spec() -> bool {
        true
    }

    open spec fn eq_spec(&self, other: &Self) -> bool {
        self@ == other@
    }
}

impl PartialEq for ArrangementId {
    fn eq(&self, other: &Self) -> (r: bool) {
        self.0 == other.0
    }
}

impl vstd::std_specs::cmp::PartialEqSpecImpl for ArrangementId {
    open spec fn obeys_eq_spec() -> bool {
        true
    }

    open spec fn eq_spec(&self, other: &Self) -> bool {
        self@ == other@
    }
}

/// The text of an identity after trimming, or the error when nothing is left.
fn parse_id(value: &str) -> (r: Result<String, MusicIdInvalidError>)
    ensures
        r is Err <==> trim_spec(value@).len() == 0,
        r matches Ok(s) ==> s@ == trim_spec(value@),
        r matches Err(e) ==> e.value@ == trim_spec(value@),
{
    let value = trim_str(value);
    if value.is_empty() {
        return Err(MusicIdInvalidError { value: owned(value) });
    }
    Ok(owned(value))
}

impl MusicPieceId {
    pub fn new_unchecked(value: String) -> (r: Self)
        ensures
            r@ == value@,
    {
        MusicPieceId(value)
    }

    pub fn parse(value: &str) -> (r: Result<Self, MusicIdInvalidError>)
        ensures
            r is Err <==> trim_spec(value@).len() == 0,
            r matches Ok(id) ==> id@ == trim_spec(value@),
            r matches Err(e) ==> e.value@ == trim_spec(value@),
    {
        match parse_id(value) {
            Ok(s) => Ok(MusicPieceId(s)),
            Err(e) => Err(e),
        }
    }

    pub fn as_str(&self) -> (r: &str)
        ensures
            r@ == self@,
    {
        self.0.as_str()
    }

    /// The identity as text, as its `Display` writes it.
    pub fn to_string(&self) -> (r: String)
        ensures
            r@ == self@,
    {
        self.0.clone()
    }

    pub fn copy(&self) -> (r: Self)
        ensures
            r@ == self@,
    {
        MusicPieceId(self.0.clone())
    }
}

impl ArrangementId {
    pub fn new_unchecked(value: String) -> (r: Self)
        ensures
            r@ == value@,
    {
        ArrangementId(value)
    }

    pub fn parse(value: &str) -> (r: Result<Self, MusicIdInvalidError>)
        ensures
            r is Err <==> trim_spec(value@).len() == 0,
            r matches Ok(id) ==> id@ == trim_spec(value@),
            r matches Err(e) ==> e.value@ == trim_spec(value@),
    {
        match parse_id(value) {
            Ok(s) => Ok(ArrangementId(s)),
            Err(e) => Err(e),
        }
    }

    pub fn as_str(&self) -> (r: &str)
        ensures
            r@ == self@,
    {
        self.0.as_str()
    }

    /// The identity as text, as its `Display` writes it.
    pub fn to_string(&self) -> (r: String)
        ensures
            r@ == self@,
    {
        self.0.clone()
    }

    pub fn copy(&self) -> (r: Self)
        ensures
            r@ == self@,
    {
        ArrangementId(self.0.clone())
    }
}

impl MusicIdInvalidError {
    /// The message of the error, as its `Display` writes it.
    pub fn to_string(&self) -> (r: String)
        ensures
            r@ == "music: invalid id: '"@ + self.value@ + "'"@,
    {
        let mut r = owned("music: invalid id: '");
        push_str(&mut r, self.value.as_str());
        push_str(&mut r, "'");
        r
    }
}

/// A MIDI pitch number.
#[derive(Debug, Clone, Copy, PartialEq, Eq, Structural, Hash)]
pub struct Pitch(pub u8);

/// The error of `Pitch::parse`: the value lies outside `0..=127`.
#[derive(Debug, Clone, Copy, PartialEq, Eq, Structural)]
pub struct PitchInvalidError {
    pub value: i16,
}

impl Pitch {
    pub fn new_unchecked(value: u8) -> (p: Self)
        ensures
            p.0 == value,
    {
        Pitch(value)
    }

    pub fn parse(value: i16) -> (r: Result<Self, PitchInvalidError>)
        ensures
            r is Ok <==> 0 <= value <= 127,
            r matches Ok(p) ==> p.0 == value,
            r matches Err(e) ==> e.value == value,
    {
        if !(0 <= value && value <= 127) {
            return Err(PitchInvalidError { value });
        }
        Ok(Pitch(value as u8))
    }

    pub fn midi_number(&self) -> (n: u8)
        ensures
            n == self.0,
    {
        self.0
    }
}

impl PitchInvalidError {
    /// The message of the error, as its `Display` writes it.
    pub fn to_string(&self) -> (r: String)
        ensures
            r@ == "music: invalid pitch: '"@ + crate::text::signed_decimal_spec(self.value as int) + "'"@,
    {
        let mut r = owned("music: invalid pitch: '");
        let digits = crate::text::signed_decimal_text(self.value as i64);
        push_str(&mut r, digits.as_str());
        push_str(&mut r, "'");
        r
    }
}

/// A position in a score, in ticks from its start.
#[derive(Debug, Clone, Copy, PartialEq, Eq, Structural)]
pub struct BeatPosition {
    pub ticks: i64,
}

impl BeatPosition {
    /// A position; one before the start counts as the start.
    pub fn new(ticks: i64) -> (r: Self)
        ensures
            r.ticks == if ticks < 0 { 0 } else { ticks },
    {
        BeatPosition { ticks: if ticks < 0 { 0 } else { ticks } }
    }
}

/// A stretch of a score: where it starts and how many ticks it lasts.
#[derive(Debug, Clone, Copy, PartialEq, Eq, Structural)]
pub struct BeatSpan {
    pub start: BeatPosition,
    pub duration_ticks: i64,
}

impl BeatSpan {
    /// A span; a negative length counts as zero.
    pub fn new(start: BeatPosition, duration_ticks: i64) -> (r: Self)
        ensures
            r.start == start,
            r.duration_ticks == if duration_ticks < 0 { 0 } else { duration_ticks },
    {
        BeatSpan { start, duration_ticks: if duration_ticks < 0 { 0 } else { duration_ticks } }
    }
}

/// A tempo change: from `at` on, `bpm_numerator / bpm_denominator` beats per
/// minute, an exact fraction.
#[derive(Debug, Clone, Copy, PartialEq, Eq, Structural)]
pub struct Tempo {
    pub at: BeatPosition,
    pub bpm_numerator: u64,
    pub bpm_denominator: u64,
}

impl Tempo {
    /// A tempo of `numerator / denominator` beats per minute. One below one
    /// beat per minute counts as one beat per minute, and so does a fraction
    /// with a zero denominator, which is no number of beats.
    pub fn new(at: BeatPosition, numerator: u64, denominator: u64) -> (r: Self)
        ensures
            r.at == at,
            denominator > 0 && numerator >= denominator
                ==> r.bpm_numerator == numerator && r.bpm_denominator == denominator,
            denominator == 0 || numerator < denominator ==> r.bpm_numerator == 1 && r.bpm_denominator == 1,
    {
        if denominator == 0 || numerator < denominator {
            Tempo { at, bpm_numerator: 1, bpm_denominator: 1 }
        } else {
            Tempo { at, bpm_numerator: numerator, bpm_denominator: denominator }
        }
    }
}

/// A time signature.
#[derive(Debug, Clone, Copy, PartialEq, Eq, Structural)]
pub struct Meter {
    pub numerator: u8,
    pub denominator: u8,
}

impl Meter {
    /// A time signature; a zero part counts as one.
    pub fn new(numerator: u8, denominator: u8) -> (r: Self)
        ensures
            r.numerator == if numerator == 0 { 1 } else { numerator },
            r.denominator == if denominator == 0 { 1 } else { denominator },
    {
        Meter {
            numerator: if numerator == 0 { 1 } else { numerator },
            denominator: if denominator == 0 { 1 } else { denominator },
        }
    }
}

#[derive(Debug, Clone, Copy, PartialEq, Eq, Structural)]
pub enum Tonality {
    Major,
    Minor,
}

#[derive(Debug, Clone)]
pub struct KeySignature {
    pub tonic: String,
    pub tonality: Tonality,
}

/// One note of a score or of a performance.
#[derive(Debug, Clone, Copy, PartialEq, Eq, Structural)]
pub struct Note {
    pub pitch: Pitch,
    pub span: BeatSpan,
    pub velocity: Option<u8>,
}

#[derive(Debug, Clone)]
pub struct ScorePart {
    pub name: String,
    pub tonality: Option<Tonality>,
    pub notes: Vec<Note>,
}

/// A score. Its positions and lengths count ticks, `ticks_per_beat` of them
/// to a beat.
#[derive(Debug, Clone)]
pub struct PianoScore {
    pub parts: Vec<ScorePart>,
    pub tempos: Vec<Tempo>,
    pub meters: Vec<Meter>,
    pub key_signatures: Vec<KeySignature>,
    pub ticks_per_beat: u16,
}

#[derive(Debug, Clone)]
pub struct PianoArrangement {
    pub id: ArrangementId,
    pub piece_id: MusicPieceId,
    pub title: String,
    pub score: PianoScore,
}

#[derive(Debug, Clone)]
pub struct MusicPiece {
    pub id: MusicPieceId,
    pub title: String,
    pub creator: Option<String>,
    pub arrangements: Vec<PianoArrangement>,
    pub created_at: String,
    pub updated_at: String,
}

/// The event that a music piece was created.
#[derive(Debug, Clone)]
pub struct MusicPieceCreated {
    pub piece_id: MusicPieceId,
}

/// A key signature as plain values.
pub ghost struct KeySignatureView {
    pub tonic: Seq<char>,
    pub tonality: Tonality,
}

/// A score part as plain values.
pub ghost struct PartView {
    pub name: Seq<char>,
    pub tonality: Option<Tonality>,
    pub notes: Seq<Note>,
}

/// A score as plain values.
pub ghost struct ScoreView {
    pub parts: Seq<PartView>,
    pub tempos: Seq<Tempo>,
    pub meters: Seq<Meter>,
    pub key_signatures: Seq<KeySignatureView>,
    pub ticks_per_beat: u16,
}

/// An arrangement as plain values.
pub ghost struct ArrangementView {
    pub id: Seq<char>,
    pub piece_id: Seq<char>,
    pub title: Seq<char>,
    pub score: ScoreView,
}

/// A music piece as plain values.
pub ghost struct PieceView {
    pub id: Seq<char>,
    pub title: Seq<char>,
    pub creator: Option<Seq<char>>,
    pub arrangements: Seq<ArrangementView>,
    pub created_at: Seq<char>,
    pub updated_at: Seq<char>,
}

/// An optional text as plain values.
pub open spec fn opt_text(s: Option<String>) -> Option<Seq<char>> {
    match s {
        Some(t) => Some(t@),
        None => None,
    }
}

impl View for KeySignature {
    type V = KeySignatureView;

    open spec fn view(&self) -> KeySignatureView {
        KeySignatureView { tonic: self.tonic@, tonality: self.tonality }
    }
}

impl View for ScorePart {
    type V = PartView;

    open spec fn view(&self) -> PartView {
        PartView { name: self.name@, tonality: self.tonality, notes: self.notes@ }
    }
}

impl View for PianoScore {
    type V = ScoreView;

    open spec fn view(&self) -> ScoreView {
        ScoreView {
            parts: self.parts@.map_values(|p: ScorePart| p@),
            tempos: self.tempos@,
            meters: self.meters@,
            key_signatures: self.key_signatures@.map_values(|k: KeySignature| k@),
            ticks_per_beat: self.ticks_per_beat,
        }
    }
}

impl View for PianoArrangement {
    type V = ArrangementView;

    open spec fn view(&self) -> ArrangementView {
        ArrangementView { id: self.id@, piece_id: self.piece_id@, title: self.title@, score: self.score@ }
    }
}

impl View for MusicPiece {
    type V = PieceView;

    open spec fn view(&self) -> PieceView {
        PieceView {
            id: self.id@,
            title: self.title@,
            creator: opt_text(self.creator),
            arrangements: self.arrangements@.map_values(|a: PianoArrangement| a@),
            created_at: self.created_at@,
            updated_at: self.updated_at@,
        }
    }
}

/// A copy of an optional text.
pub fn copy_opt_text(s: &Option<String>) -> (r: Option<String>)
    ensures
        opt_text(r) == opt_text(*s),
{
    match s {
        Some(t) => Some(t.clone()),
        None => None,
    }
}

impl KeySignature {
    pub fn copy(&self) -> (r: Self)
        ensures
            r@ == self@,
    {
        KeySignature { tonic: self.tonic.clone(), tonality: self.tonality }
    }
}

/// A copy of a sequence of notes.
pub fn copy_notes(notes: &Vec<Note>) -> (r: Vec<Note>)
    ensures
        r@ == notes@,
{
    let mut r: Vec<Note> = Vec::new();
    let mut i: usize = 0;
    while i < notes.len()
        invariant
            i <= notes.len(),
            r@ =~= notes@.subrange(0, i as int),
        decreases notes.len() - i,
    {
        r.push(notes[i]);
        i = i + 1;
    }
    proof {
        assert(notes@.subrange(0, i as int) =~= notes@);
    }
    r
}

impl ScorePart {
    pub fn copy(&self) -> (r: Self)
        ensures
            r@ == self@,
    {
        ScorePart { name: self.name.clone(), tonality: self.tonality, notes: copy_notes(&self.notes) }
    }
}

impl PianoScore {
    pub fn copy(&self) -> (r: Self)
        ensures
            r@ == self@,
    {
        let mut parts: Vec<ScorePart> = Vec::new();
        let mut i: usize = 0;
        while i < self.parts.len()
            invariant
                i <= self.parts.len(),
                parts@.len() == i,
                forall|k: int| 0 <= k < i ==> (#[trigger] parts@[k])@ == self.parts@[k]@,
            decreases self.parts.len() - i,
        {
            parts.push(self.parts[i].copy());
            i = i + 1;
        }
        let mut tempos: Vec<Tempo> = Vec::new();
        let mut i: usize = 0;
        while i < self.tempos.len()
            invariant
                i <= self.tempos.len(),
                tempos@ =~= self.tempos@.subrange(0, i as int),
            decreases self.tempos.len() - i,
        {
            tempos.push(self.tempos[i]);
            i = i + 1;
        }
        let mut meters: Vec<Meter> = Vec::new();
        let mut i: usize = 0;
        while i < self.meters.len()
            invariant
                i <= self.meters.len(),
                meters@ =~= self.meters@.subrange(0, i as int),
            decreases self.meters.len() - i,
        {
            meters.push(self.meters[i]);
            i = i + 1;
        }
        let mut keys: Vec<KeySignature> = Vec::new();
        let mut i: usize = 0;
        while i < self.key_signatures.len()
            invariant
                i <= self.key_signatures.len(),
                keys@.len() == i,
                forall|k: int| 0 <= k < i ==> (#[trigger] keys@[k])@ == self.key_signatures@[k]@,
            decreases self.key_signatures.len() - i,
        {
            keys.push(self.key_signatures[i].copy());
            i = i + 1;
        }
        proof {
            assert(self.tempos@.subrange(0, self.tempos@.len() as int) =~= self.tempos@);
            assert(self.meters@.subrange(0, self.meters@.len() as int) =~= self.meters@);
        }
        let r = PianoScore { parts, tempos, meters, key_signatures: keys, ticks_per_beat: self.ticks_per_beat };
        proof {
            assert(r@.parts =~= self@.parts);
            assert(r@.key_signatures =~= self@.key_signatures);
        }
        r
    }
}

impl PianoArrangement {
    pub fn copy(&self) -> (r: Self)
        ensures
            r@ == self@,
    {
        PianoArrangement {
            id: self.id.copy(),
            piece_id: self.piece_id.copy(),
            title: self.title.clone(),
            score: self.score.copy(),
        }
    }
}

impl MusicPiece {
    pub fn copy(&self) -> (r: Self)
        ensures
            r@ == self@,
    {
        let mut arrangements: Vec<PianoArrangement> = Vec::new();
        let mut i: usize = 0;
        while i < self.arrangements.len()
            invariant
                i <= self.arrangements.len(),
                arrangements@.len() == i,
                forall|k: int| 0 <= k < i ==> (#[trigger] arrangements@[k])@ == self.arrangements@[k]@,
            decreases self.arrangements.len() - i,
        {
            arrangements.push(self.arrangements[i].copy());
            i = i + 1;
        }
        let r = MusicPiece {
            id: self.id.copy(),
            title: self.title.clone(),
            creator: copy_opt_text(&self.creator),
            arrangements,
            created_at: self.created_at.clone(),
            updated_at: self.updated_at.clone(),
        };
        proof {
            assert(r@.arrangements =~= self@.arrangements);
        }
        r
    }
}

impl Default for PianoScore {
    fn default() -> (r: Self)
        ensures
            r.parts@.len() == 0,
            r.tempos@.len() == 0,
            r.meters@.len() == 0,
            r.key_signatures@.len() == 0,
            r.ticks_per_beat == 960,
    {
        PianoScore {
            parts: Vec::new(),
            tempos: Vec::new(),
            meters: Vec::new(),
            key_signatures: Vec::new(),
            ticks_per_beat: 960,
        }
    }
}

impl MusicPiece {
    /// A piece with only an identity and a title.
    pub fn new(id: String, title: String) -> (r: Self)
        ensures
            r.id@ == id@,
            r.title@ == title@,
            r.creator is None,
            r.arrangements@.len() == 0,
            r.created_at@.len() == 0,
            r.updated_at@.len() == 0,
    {
        MusicPiece {
            id: MusicPieceId::new_unchecked(id),
            title,
            creator: None,
            arrangements: Vec::new(),
            created_at: String::new(),
            updated_at: String::new(),
        }
    }
}

} // verus!
