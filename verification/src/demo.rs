use vstd::prelude::*;
use crate::api::ApiError;
use crate::learning::{ExerciseId, PracticeSessionId};
use crate::learning_commands::StartPracticeSessionCommand;
use crate::music::{
    ArrangementId, BeatPosition, BeatSpan, Meter, MusicPieceId, Note, PartView, PianoScore, Pitch, ScorePart,
    ScoreView, Tempo,
};
use crate::music::{MusicPiece, PieceView};
use crate::music_commands::{first_arrangement, position_of_arrangement, CreateMusicPieceCommand, ImportPianoArrangementCommand};
use crate::text::{decimal_spec, decimal_text, owned, push_str, trim_spec};

verus! {

/// Ticks per beat of the demo score.
pub const DEMO_TICKS_PER_BEAT: i64 = 960;

/// The pitches of the demo melody, one per beat.
pub open spec fn demo_pitches() -> Seq<u8> {
    seq![60u8, 60, 67, 67, 69, 69, 67, 65, 65, 64, 64, 62, 62, 60]
}

/// The notes of the demo melody: one beat each, back to back, velocity 90.
pub open spec fn demo_notes() -> Seq<Note> {
    Seq::new(demo_pitches().len(), |i: int| Note {
        pitch: Pitch(demo_pitches()[i]),
        span: BeatSpan { start: BeatPosition { ticks: (i * DEMO_TICKS_PER_BEAT) as i64 }, duration_ticks: DEMO_TICKS_PER_BEAT },
        velocity: Some(90u8),
    })
}

/// The score of the demo piece: one part, `Right hand`, with the demo
/// melody; 84 beats per minute from the start; 4/4; 960 ticks to a beat.
pub open spec fn demo_score_view() -> ScoreView {
    ScoreView {
        parts: seq![PartView { name: "Right hand"@, tonality: None, notes: demo_notes() }],
        tempos: seq![Tempo { at: BeatPosition { ticks: 0 }, bpm_numerator: 84, bpm_denominator: 1 }],
        meters: seq![Meter { numerator: 4, denominator: 4 }],
        key_signatures: Seq::empty(),
        ticks_per_beat: 960,
    }
}

/// The score of the demo piece.
pub fn demo_score() -> (r: PianoScore)
    ensures
        r@ == demo_score_view(),
{
    let pitches: [u8; 14] = [60, 60, 67, 67, 69, 69, 67, 65, 65, 64, 64, 62, 62, 60];
    proof {
        assert(pitches@ =~= demo_pitches());
    }
    let mut notes: Vec<Note> = Vec::new();
    let mut i: usize = 0;
    while i < 14
        invariant
            i <= 14,
            pitches@ == demo_pitches(),
            notes@ =~= demo_notes().subrange(0, i as int),
        decreases 14 - i,
    {
        notes.push(Note {
            pitch: Pitch::new_unchecked(pitches[i]),
            span: BeatSpan::new(BeatPosition::new(i as i64 * DEMO_TICKS_PER_BEAT), DEMO_TICKS_PER_BEAT),
            velocity: Some(90),
        });
        i = i + 1;
    }
    proof {
        assert(demo_notes().subrange(0, 14) =~= demo_notes());
    }
    let mut parts: Vec<ScorePart> = Vec::new();
    parts.push(ScorePart { name: owned("Right hand"), tonality: None, notes });
    let mut tempos: Vec<Tempo> = Vec::new();
    tempos.push(Tempo::new(BeatPosition::new(0), 84, 1));
    let mut meters: Vec<Meter> = Vec::new();
    meters.push(Meter::new(4, 4));
    let r = PianoScore { parts, tempos, meters, key_signatures: Vec::new(), ticks_per_beat: 960 };
    proof {
        assert(r@.parts =~= demo_score_view().parts);
        assert(r@.tempos =~= demo_score_view().tempos);
        assert(r@.meters =~= demo_score_view().meters);
        assert(r@.key_signatures =~= demo_score_view().key_signatures);
    }
    r
}

/// The identity of the demo piece.
pub fn demo_piece_id() -> (r: MusicPieceId)
    ensures
        r@ == "demo-twinkle"@,
{
    MusicPieceId::new_unchecked(owned("demo-twinkle"))
}

/// The identity of the demo arrangement.
pub fn demo_arrangement_id() -> (r: ArrangementId)
    ensures
        r@ == "demo-twinkle-piano"@,
{
    ArrangementId::new_unchecked(owned("demo-twinkle-piano"))
}

/// The request that creates the demo piece.
pub fn demo_piece_command() -> (r: CreateMusicPieceCommand)
    ensures
        r.piece_id@ == "demo-twinkle"@,
        r.title@ == "Twinkle Practice Demo"@,
        r.creator matches Some(c) && c@ == "warming"@,
        r.now@ == "2026-07-03T00:00:00Z"@,
{
    CreateMusicPieceCommand {
        piece_id: demo_piece_id(),
        title: owned("Twinkle Practice Demo"),
        creator: Some(owned("warming")),
        now: owned("2026-07-03T00:00:00Z"),
    }
}

/// The request that imports the demo arrangement.
pub fn demo_arrangement_command() -> (r: ImportPianoArrangementCommand)
    ensures
        r.piece_id@ == "demo-twinkle"@,
        r.arrangement_id@ == "demo-twinkle-piano"@,
        r.title@ == "Right hand starter"@,
        r.score@ == demo_score_view(),
        r.now@ == "2026-07-03T00:01:00Z"@,
{
    ImportPianoArrangementCommand {
        piece_id: demo_piece_id(),
        arrangement_id: demo_arrangement_id(),
        title: owned("Right hand starter"),
        score: demo_score(),
        now: owned("2026-07-03T00:01:00Z"),
    }
}

/// What making sure that the demo exists comes to, given the demo piece found.
#[derive(Debug, Clone, Copy, PartialEq, Eq, Structural)]
pub enum DemoStep {
    /// There is no demo piece: create it.
    CreatePiece,
    /// The demo piece lacks the demo arrangement: import it.
    ImportArrangement,
    /// The demo piece has the demo arrangement: nothing to do.
    Ready,
}

/// The next step towards the demo, given the demo piece found.
pub open spec fn demo_step_spec(found: Option<PieceView>) -> DemoStep {
    match found {
        None => DemoStep::CreatePiece,
        Some(p) => if first_arrangement(p.arrangements, "demo-twinkle-piano"@) is Some {
            DemoStep::Ready
        } else {
            DemoStep::ImportArrangement
        },
    }
}

/// The next step towards the demo: create the piece when none was found,
/// import the arrangement when the piece lacks it, otherwise nothing.
pub fn demo_step(found: Option<&MusicPiece>) -> (r: DemoStep)
    ensures
        r == demo_step_spec(match found { Some(p) => Some(p@), None => None }),
{
    match found {
        None => DemoStep::CreatePiece,
        Some(p) => {
            let id = demo_arrangement_id();
            if position_of_arrangement(p, &id).is_some() { DemoStep::Ready } else { DemoStep::ImportArrangement }
        },
    }
}

/// `SystemTime::now()` as milliseconds since the Unix epoch, or zero before it.
#[verifier::external_body]
fn unix_timestamp_millis() -> (r: u128) {
    std::time::SystemTime::now()
        .duration_since(std::time::UNIX_EPOCH)
        .map(|duration| duration.as_millis())
        .unwrap_or_default()
}

/// The request that starts a demo session on an arrangement: session
/// `session-` and the given milliseconds, the whole score at the written
/// tempo, no playable range; refused when either identity is empty once trimmed.
pub fn demo_session_command(piece_id: &str, arrangement_id: &str, millis: u128) -> (r: Result<StartPracticeSessionCommand, ApiError>)
    ensures
        trim_spec(piece_id@).len() == 0 ==> (r matches Err(e) && e.message@ == "music: invalid id: '"@ + trim_spec(piece_id@) + "'"@),
        trim_spec(piece_id@).len() > 0 && trim_spec(arrangement_id@).len() == 0
            ==> (r matches Err(e) && e.message@ == "music: invalid id: '"@ + trim_spec(arrangement_id@) + "'"@),
        trim_spec(piece_id@).len() > 0 && trim_spec(arrangement_id@).len() > 0 ==> (r matches Ok(c) && {
            &&& c.session_id@ == "session-"@ + decimal_spec(millis as nat)
            &&& c.piece_id@ == trim_spec(piece_id@)
            &&& c.arrangement_id@ == trim_spec(arrangement_id@)
            &&& c.exercise_id@ == "full-score"@
            &&& c.segment is None
            &&& c.target_speed_permille == 1000
            &&& c.playable_range is None
            &&& c.started_at@ == "2026-07-03T00:02:00Z"@
        }),
{
    let mut session = owned("session-");
    let digits = decimal_text(millis);
    push_str(&mut session, digits.as_str());
    let piece = match MusicPieceId::parse(piece_id) {
        Ok(id) => id,
        Err(e) => {
            return Err(ApiError::new(e.to_string()));
        },
    };
    let arrangement = match ArrangementId::parse(arrangement_id) {
        Ok(id) => id,
        Err(e) => {
            return Err(ApiError::new(e.to_string()));
        },
    };
    Ok(StartPracticeSessionCommand {
        session_id: PracticeSessionId::new_unchecked(session),
        piece_id: piece,
        arrangement_id: arrangement,
        exercise_id: ExerciseId::new_unchecked(owned("full-score")),
        segment: None,
        target_speed_permille: 1000,
        playable_range: None,
        started_at: owned("2026-07-03T00:02:00Z"),
    })
}

/// The request that starts a demo session now.
pub fn start_demo_session_command(piece_id: &str, arrangement_id: &str) -> (r: Result<StartPracticeSessionCommand, ApiError>)
    ensures
        trim_spec(piece_id@).len() == 0 ==> (r matches Err(e) && e.message@ == "music: invalid id: '"@ + trim_spec(piece_id@) + "'"@),
        trim_spec(piece_id@).len() > 0 && trim_spec(arrangement_id@).len() == 0
            ==> (r matches Err(e) && e.message@ == "music: invalid id: '"@ + trim_spec(arrangement_id@) + "'"@),
        trim_spec(piece_id@).len() > 0 && trim_spec(arrangement_id@).len() > 0 ==> (r matches Ok(c) && {
            &&& exists|millis: nat| c.session_id@ == "session-"@ + decimal_spec(millis)
            &&& c.piece_id@ == trim_spec(piece_id@)
            &&& c.arrangement_id@ == trim_spec(arrangement_id@)
            &&& c.exercise_id@ == "full-score"@
            &&& c.segment is None
            &&& c.target_speed_permille == 1000
            &&& c.playable_range is None
            &&& c.started_at@ == "2026-07-03T00:02:00Z"@
        }),
{
    let millis = unix_timestamp_millis();
    demo_session_command(piece_id, arrangement_id, millis)
}

} // verus!
