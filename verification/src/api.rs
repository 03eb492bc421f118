use vstd::prelude::*;
use crate::app_error::AppError;
use crate::learning::{PracticeSession, PracticeSessionStatus, SessionView};
use crate::local_library::MidiScanReport;
use crate::music::{MusicPiece, PianoArrangement, PieceView, ArrangementView, PartView};
use crate::music_commands::{score_note_count, total_notes};
use crate::music::{Note, Tempo};
use crate::order::{stable_order, stable_sort_order};
use crate::midi::start_pitch_keys;
use crate::text::{decimal_spec, decimal_text, owned, push_str};

verus! {

/// The error the outward interface reports: a message.
#[derive(Debug, Clone)]
pub struct ApiError {
    pub message: String,
}

impl ApiError {
    pub fn new(message: String) -> (r: Self)
        ensures
            r.message@ == message@,
    {
        ApiError { message }
    }

    /// The interface error for a failed use case: its message.
    pub fn from_app_error(err: &AppError) -> (r: Self)
        ensures
            r.message@ == match err {
                AppError::Validation(m) => "validation failed: "@ + m@,
                AppError::NotFound(m) => "not found: "@ + m@,
                AppError::Upstream(m) => "upstream failed: "@ + m@,
                AppError::Database(m) => "database failed: "@ + m@,
            },
    {
        ApiError { message: err.to_string() }
    }

    /// The message, as the error's `Display` writes it.
    pub fn to_string(&self) -> (r: String)
        ensures
            r@ == self.message@,
    {
        self.message.clone()
    }
}

/// Where the application keeps its database.
pub fn default_database_url() -> (r: &'static str)
    ensures
        r@ == "sqlite://warming.sqlite3"@,
{
    "sqlite://warming.sqlite3"
}

/// A music piece as the interface shows it.
#[derive(Debug, Clone)]
pub struct MusicPieceDTO {
    pub id: String,
    pub title: String,
    pub creator: Option<String>,
    pub arrangement_count: usize,
    pub note_count: usize,
    pub updated_at: String,
}

/// How many notes the arrangements of a piece hold together.
pub open spec fn piece_notes(arrangements: Seq<ArrangementView>) -> nat
    decreases arrangements.len(),
{
    if arrangements.len() == 0 {
        0
    } else {
        piece_notes(arrangements.drop_last()) + total_notes(arrangements.last().score.parts)
    }
}

proof fn lemma_piece_notes_prefix(arrangements: Seq<ArrangementView>, n: int)
    requires
        0 <= n <= arrangements.len(),
    ensures
        piece_notes(arrangements.subrange(0, n)) <= piece_notes(arrangements),
    decreases arrangements.len(),
{
    if n < arrangements.len() {
        lemma_piece_notes_prefix(arrangements.drop_last(), n);
        assert(arrangements.drop_last().subrange(0, n) =~= arrangements.subrange(0, n));
    } else {
        assert(arrangements.subrange(0, n) =~= arrangements);
    }
}

/// How many notes a piece holds, or `None` when that does not fit a `usize`.
pub fn piece_note_total(piece: &MusicPiece) -> (r: Option<usize>)
    ensures
        match r {
            Some(n) => n == piece_notes(piece@.arrangements),
            None => piece_notes(piece@.arrangements) > usize::MAX,
        },
{
    let ghost views = piece@.arrangements;
    let mut total: usize = 0;
    let mut i: usize = 0;
    while i < piece.arrangements.len()
        invariant
            i <= piece.arrangements.len(),
            views == piece@.arrangements,
            total == piece_notes(views.subrange(0, i as int)),
        decreases piece.arrangements.len() - i,
    {
        proof {
            assert(views.subrange(0, i + 1).drop_last() =~= views.subrange(0, i as int));
            assert(views[i as int] == piece.arrangements@[i as int]@);
        }
        let score = &piece.arrangements[i].score;
        match score_note_total(score) {
            Some(n) => {
                if n > usize::MAX - total {
                    proof {
                        lemma_piece_notes_prefix(views, i + 1);
                    }
                    return None;
                }
                total = total + n;
            },
            None => {
                proof {
                    lemma_piece_notes_prefix(views, i + 1);
                }
                return None;
            },
        }
        i = i + 1;
    }
    proof {
        assert(views.subrange(0, i as int) =~= views);
    }
    Some(total)
}

/// How many notes a score holds, or `None` when that does not fit a `usize`.
pub fn score_note_total(score: &crate::music::PianoScore) -> (r: Option<usize>)
    ensures
        match r {
            Some(n) => n == total_notes(score@.parts),
            None => total_notes(score@.parts) > usize::MAX,
        },
{
    let ghost parts = score@.parts;
    let mut total: usize = 0;
    let mut i: usize = 0;
    while i < score.parts.len()
        invariant
            i <= score.parts.len(),
            parts == score@.parts,
            total == total_notes(parts.subrange(0, i as int)),
        decreases score.parts.len() - i,
    {
        proof {
            assert(parts.subrange(0, i + 1).drop_last() =~= parts.subrange(0, i as int));
        }
        let n = score.parts[i].notes.len();
        if n > usize::MAX - total {
            proof {
                lemma_total_notes_prefix(parts, i + 1);
            }
            return None;
        }
        total = total + n;
        i = i + 1;
    }
    proof {
        assert(parts.subrange(0, i as int) =~= parts);
    }
    Some(total)
}

proof fn lemma_total_notes_prefix(parts: Seq<PartView>, n: int)
    requires
        0 <= n <= parts.len(),
    ensures
        total_notes(parts.subrange(0, n)) <= total_notes(parts),
    decreases parts.len(),
{
    if n < parts.len() {
        lemma_total_notes_prefix(parts.drop_last(), n);
        assert(parts.drop_last().subrange(0, n) =~= parts.subrange(0, n));
    } else {
        assert(parts.subrange(0, n) =~= parts);
    }
}

/// A piece as the interface shows it: how many arrangements and notes it has.
pub fn piece_to_dto(piece: MusicPiece) -> (r: MusicPieceDTO)
    requires
        piece_notes(piece@.arrangements) <= usize::MAX,
    ensures
        r.id@ == piece@.id,
        r.title@ == piece@.title,
        crate::music::opt_text(r.creator) == piece@.creator,
        r.arrangement_count == piece@.arrangements.len(),
        r.note_count == piece_notes(piece@.arrangements),
        r.updated_at@ == piece@.updated_at,
{
    let note_count = match piece_note_total(&piece) {
        Some(n) => n,
        None => 0,
    };
    MusicPieceDTO {
        id: piece.id.to_string(),
        title: piece.title,
        creator: piece.creator,
        arrangement_count: piece.arrangements.len(),
        note_count,
        updated_at: piece.updated_at,
    }
}

/// What a refresh found, as the interface shows it.
#[derive(Debug, Clone)]
pub struct MidiScanReportDTO {
    pub watched_directories: Vec<String>,
    pub discovered_files: usize,
    pub registered_files: usize,
}

pub fn report_to_dto(report: MidiScanReport) -> (r: MidiScanReportDTO)
    ensures
        r.watched_directories@ == report.watched_directories@,
        r.discovered_files == report.discovered_files,
        r.registered_files == report.registered_files,
{
    MidiScanReportDTO {
        watched_directories: report.watched_directories,
        discovered_files: report.discovered_files,
        registered_files: report.registered_files,
    }
}

/// A practice session as the interface shows it; the target speed in
/// thousandths of the written tempo.
#[derive(Debug, Clone)]
pub struct PracticeSessionDTO {
    pub id: String,
    pub piece_id: String,
    pub arrangement_id: String,
    pub target_speed_permille: i64,
    pub status: String,
    pub attempt_count: usize,
    pub started_at: String,
}

/// The name of a session status, as its `Debug` writes it.
pub open spec fn status_name(status: PracticeSessionStatus) -> Seq<char> {
    match status {
        PracticeSessionStatus::Active => "Active"@,
        PracticeSessionStatus::Completed => "Completed"@,
        PracticeSessionStatus::Abandoned => "Abandoned"@,
    }
}

pub fn status_label(status: PracticeSessionStatus) -> (r: String)
    ensures
        r@ == status_name(status),
{
    match status {
        PracticeSessionStatus::Active => owned("Active"),
        PracticeSessionStatus::Completed => owned("Completed"),
        PracticeSessionStatus::Abandoned => owned("Abandoned"),
    }
}

pub fn session_to_dto(session: PracticeSession) -> (r: PracticeSessionDTO)
    ensures
        r.id@ == session@.id,
        r.piece_id@ == session@.piece_id,
        r.arrangement_id@ == session@.arrangement_id,
        r.target_speed_permille == session@.exercise.target_speed_permille,
        r.status@ == status_name(session@.status),
        r.attempt_count == session@.attempts.len(),
        r.started_at@ == session@.started_at,
{
    PracticeSessionDTO {
        id: session.id.to_string(),
        piece_id: session.piece_id.to_string(),
        arrangement_id: session.arrangement_id.to_string(),
        target_speed_permille: session.exercise.target_speed_permille,
        status: status_label(session.status),
        attempt_count: session.attempts.len(),
        started_at: session.started_at,
    }
}

/// An arrangement as the interface lists it; the first tempo as the fraction
/// of its beats per minute.
#[derive(Debug, Clone)]
pub struct ArrangementDTO {
    pub id: String,
    pub piece_id: String,
    pub title: String,
    pub part_count: usize,
    pub note_count: usize,
    pub first_tempo_bpm: Option<(u64, u64)>,
    pub tempo_label: String,
}

/// `m / unit` rounded to the nearest whole number, ties to the even one.
pub open spec fn round_half_even(m: nat, unit: nat) -> nat {
    let q = m / unit;
    let r = m % unit;
    if r * 2 > unit || (r * 2 == unit && q % 2 == 1) { q + 1 } else { q }
}

/// A tempo of `numerator / denominator` beats per minute as `{:.0} BPM`
/// writes it: rounded to a whole number, ties to the even one. A fraction
/// with a zero denominator reads as one beat per minute, as `Tempo::new`
/// makes it.
pub open spec fn tempo_label_spec(numerator: u64, denominator: u64) -> Seq<char> {
    if denominator == 0 {
        decimal_spec(1) + " BPM"@
    } else {
        decimal_spec(round_half_even(numerator as nat, denominator as nat)) + " BPM"@
    }
}

/// A tempo's label: its beats per minute rounded to a whole number, and `BPM`.
pub fn tempo_label(numerator: u64, denominator: u64) -> (r: String)
    ensures
        r@ == tempo_label_spec(numerator, denominator),
{
    if denominator == 0 {
        let mut r = decimal_text(1);
        push_str(&mut r, " BPM");
        return r;
    }
    let q = numerator / denominator;
    let rem = (numerator % denominator) as u128;
    let rounded: u128 = if rem * 2 > denominator as u128 || (rem * 2 == denominator as u128 && q % 2 == 1) {
        q as u128 + 1
    } else {
        q as u128
    };
    let mut r = decimal_text(rounded);
    push_str(&mut r, " BPM");
    r
}

/// An arrangement as the interface lists it: its parts and notes counted,
/// its first tempo and that tempo's label, or `No tempo`.
pub fn arrangement_to_dto(arrangement: PianoArrangement) -> (r: ArrangementDTO)
    requires
        total_notes(arrangement@.score.parts) <= usize::MAX,
    ensures
        r.id@ == arrangement@.id,
        r.piece_id@ == arrangement@.piece_id,
        r.title@ == arrangement@.title,
        r.part_count == arrangement@.score.parts.len(),
        r.note_count == total_notes(arrangement@.score.parts),
        r.first_tempo_bpm == if arrangement@.score.tempos.len() > 0 {
            Some((arrangement@.score.tempos[0].bpm_numerator, arrangement@.score.tempos[0].bpm_denominator))
        } else {
            None::<(u64, u64)>
        },
        r.tempo_label@ == if arrangement@.score.tempos.len() > 0 {
            tempo_label_spec(arrangement@.score.tempos[0].bpm_numerator, arrangement@.score.tempos[0].bpm_denominator)
        } else {
            "No tempo"@
        },
{
    let note_count = score_note_count(&arrangement.score);
    let first = if arrangement.score.tempos.len() > 0 {
        Some((arrangement.score.tempos[0].bpm_numerator, arrangement.score.tempos[0].bpm_denominator))
    } else {
        None
    };
    let label = match first {
        Some((numerator, denominator)) => tempo_label(numerator, denominator),
        None => owned("No tempo"),
    };
    ArrangementDTO {
        id: arrangement.id.to_string(),
        piece_id: arrangement.piece_id.to_string(),
        title: arrangement.title,
        part_count: arrangement.score.parts.len(),
        note_count,
        first_tempo_bpm: first,
        tempo_label: label,
    }
}

/// A note of the score preview, with the name of its part.
#[derive(Debug, Clone)]
pub struct FallingNoteDTO {
    pub pitch: u8,
    pub start_ticks: i64,
    pub duration_ticks: i64,
    pub velocity: Option<u8>,
    pub part_name: String,
}

/// The preview of an arrangement: its notes sorted by start and pitch, the
/// lowest and highest pitch, where the last note ends (at least one beat),
/// the ticks per beat of its positions, and the first tempo as a fraction of
/// beats per minute.
#[derive(Debug, Clone)]
pub struct ScorePreviewDTO {
    pub piece_id: String,
    pub arrangement_id: String,
    pub title: String,
    pub lowest_pitch: u8,
    pub highest_pitch: u8,
    pub total_ticks: i128,
    pub ticks_per_beat: u16,
    pub bpm_numerator: u64,
    pub bpm_denominator: u64,
    pub notes: Vec<FallingNoteDTO>,
}

/// A preview note as plain values.
pub ghost struct FallingNoteView {
    pub pitch: u8,
    pub start_ticks: i64,
    pub duration_ticks: i64,
    pub velocity: Option<u8>,
    pub part_name: Seq<char>,
}

impl View for FallingNoteDTO {
    type V = FallingNoteView;

    open spec fn view(&self) -> FallingNoteView {
        FallingNoteView {
            pitch: self.pitch,
            start_ticks: self.start_ticks,
            duration_ticks: self.duration_ticks,
            velocity: self.velocity,
            part_name: self.part_name@,
        }
    }
}

/// The preview note of a note of the named part.
pub open spec fn falling_note(n: Note, part_name: Seq<char>) -> FallingNoteView {
    FallingNoteView {
        pitch: n.pitch.0,
        start_ticks: n.span.start.ticks,
        duration_ticks: n.span.duration_ticks,
        velocity: n.velocity,
        part_name,
    }
}

/// The notes of the parts with the index of their part, part after part.
pub open spec fn part_notes(parts: Seq<PartView>) -> Seq<(Note, int)>
    decreases parts.len(),
{
    if parts.len() == 0 {
        Seq::empty()
    } else {
        let last = parts.len() - 1;
        part_notes(parts.drop_last()) + Seq::new(parts[last].notes.len(), |i: int| (parts[last].notes[i], last))
    }
}

/// The preview notes of the parts, sorted by start and pitch (stably).
pub open spec fn preview_notes(parts: Seq<PartView>) -> Seq<FallingNoteView> {
    let entries = part_notes(parts);
    let notes = Seq::new(entries.len(), |i: int| entries[i].0);
    stable_order(start_pitch_keys(notes), notes.len()).map_values(
        |i: usize| falling_note(entries[i as int].0, parts[entries[i as int].1].name),
    )
}

/// The lowest pitch of the notes, or 21 when there is none.
pub open spec fn lowest_pitch(notes: Seq<FallingNoteView>) -> u8
    decreases notes.len(),
{
    if notes.len() == 0 {
        21
    } else if notes.len() == 1 {
        notes[0].pitch
    } else {
        let rest = lowest_pitch(notes.drop_last());
        if notes.last().pitch < rest { notes.last().pitch } else { rest }
    }
}

/// The highest pitch of the notes, or 108 when there is none.
pub open spec fn highest_pitch(notes: Seq<FallingNoteView>) -> u8
    decreases notes.len(),
{
    if notes.len() == 0 {
        108
    } else if notes.len() == 1 {
        notes[0].pitch
    } else {
        let rest = highest_pitch(notes.drop_last());
        if notes.last().pitch > rest { notes.last().pitch } else { rest }
    }
}

/// Where the last of the notes ends, and zero when that is before the start.
pub open spec fn latest_end(notes: Seq<FallingNoteView>) -> int
    decreases notes.len(),
{
    if notes.len() == 0 {
        0
    } else {
        let rest = latest_end(notes.drop_last());
        let end = notes.last().start_ticks + notes.last().duration_ticks;
        if end > rest { end } else { rest }
    }
}

/// The length of a preview in ticks: where the last note ends, at least one
/// beat of `ticks_per_beat` ticks.
pub open spec fn preview_length(notes: Seq<FallingNoteView>, ticks_per_beat: u16) -> int {
    if latest_end(notes) > ticks_per_beat { latest_end(notes) } else { ticks_per_beat as int }
}

/// The first tempo of a score as the fraction of its beats per minute, or
/// 120 beats per minute.
pub open spec fn preview_bpm(tempos: Seq<Tempo>) -> (u64, u64) {
    if tempos.len() > 0 { (tempos[0].bpm_numerator, tempos[0].bpm_denominator) } else { (120, 1) }
}

/// The preview of an arrangement.
pub fn score_preview(arrangement: PianoArrangement) -> (r: ScorePreviewDTO)
    ensures
        r.piece_id@ == arrangement@.piece_id,
        r.arrangement_id@ == arrangement@.id,
        r.title@ == arrangement@.title,
        r.notes@.map_values(|n: FallingNoteDTO| n@) == preview_notes(arrangement@.score.parts),
        r.lowest_pitch == lowest_pitch(preview_notes(arrangement@.score.parts)),
        r.highest_pitch == highest_pitch(preview_notes(arrangement@.score.parts)),
        r.total_ticks == preview_length(preview_notes(arrangement@.score.parts), arrangement@.score.ticks_per_beat),
        r.ticks_per_beat == arrangement@.score.ticks_per_beat,
        (r.bpm_numerator, r.bpm_denominator) == preview_bpm(arrangement@.score.tempos),
{
    let parts = &arrangement.score.parts;
    let ghost part_views = arrangement@.score.parts;
    assert(part_views == parts@.map_values(|q: crate::music::ScorePart| q@));
    let mut notes: Vec<Note> = Vec::new();
    let mut owners: Vec<usize> = Vec::new();
    let mut p: usize = 0;
    while p < parts.len()
        invariant
            p <= parts.len(),
            part_views == parts@.map_values(|q: crate::music::ScorePart| q@),
            notes@.len() == owners@.len(),
            part_notes(part_views.subrange(0, p as int))
                =~= Seq::new(notes@.len(), |i: int| (notes@[i], owners@[i] as int)),
            forall|i: int| 0 <= i < owners@.len() ==> #[trigger] owners@[i] < p,
        decreases parts.len() - p,
    {
        let ghost before_notes = notes@;
        let ghost before_owners = owners@;
        let part_len = parts[p].notes.len();
        let mut k: usize = 0;
        while k < part_len
            invariant
                k <= part_len,
                p < parts.len(),
                part_len == parts@[p as int].notes@.len(),
                notes@.len() == owners@.len(),
                notes@ =~= before_notes + parts@[p as int].notes@.subrange(0, k as int),
                owners@ =~= before_owners + Seq::new(k as nat, |i: int| p),
                forall|i: int| 0 <= i < before_owners.len() ==> #[trigger] before_owners[i] < p,
            decreases part_len - k,
        {
            notes.push(parts[p].notes[k]);
            owners.push(p);
            k = k + 1;
        }
        proof {
            assert(part_views.subrange(0, p + 1).drop_last() =~= part_views.subrange(0, p as int));
            assert(parts@[p as int].notes@.subrange(0, k as int) =~= parts@[p as int].notes@);
            assert(part_views[p as int].notes == parts@[p as int].notes@);
            assert forall|i: int| 0 <= i < owners@.len() implies #[trigger] owners@[i] < p + 1 by {
                if i < before_owners.len() {
                    assert(owners@[i] == before_owners[i]);
                }
            }
        }
        p = p + 1;
    }
    proof {
        assert(part_views.subrange(0, p as int) =~= part_views);
    }
    let ghost entries = part_notes(part_views);
    let mut keys: Vec<(i64, u8)> = Vec::new();
    let mut i: usize = 0;
    while i < notes.len()
        invariant
            i <= notes.len(),
            keys@ =~= start_pitch_keys(notes@).subrange(0, i as int),
        decreases notes.len() - i,
    {
        keys.push((notes[i].span.start.ticks, notes[i].pitch.0));
        i = i + 1;
    }
    proof {
        assert(keys@ =~= start_pitch_keys(notes@));
        crate::order::lemma_stable_order(keys@, keys@.len());
        assert(Seq::new(entries.len(), |i: int| entries[i].0) =~= notes@);
    }
    let order = stable_sort_order(&keys);
    let ghost expected = preview_notes(part_views);
    proof {
        assert(expected.len() == order@.len());
    }
    let mut falling: Vec<FallingNoteDTO> = Vec::new();
    let mut j: usize = 0;
    while j < order.len()
        invariant
            j <= order.len(),
            order@ == stable_order(keys@, keys@.len()),
            keys@.len() == notes@.len(),
            crate::order::is_permutation_of_range(order@, keys@.len()),
            notes@.len() == owners@.len(),
            forall|i: int| 0 <= i < owners@.len() ==> #[trigger] owners@[i] < parts.len(),
            entries =~= Seq::new(notes@.len(), |i: int| (notes@[i], owners@[i] as int)),
            keys@ =~= start_pitch_keys(notes@),
            part_views == parts@.map_values(|q: crate::music::ScorePart| q@),
            expected == preview_notes(part_views),
            expected.len() == order@.len(),
            Seq::new(entries.len(), |i: int| entries[i].0) == notes@,
            entries == part_notes(part_views),
            falling@.len() == j,
            forall|m: int| 0 <= m < j ==> (#[trigger] falling@[m])@ == expected[m],
        decreases order.len() - j,
    {
        let idx = order[j];
        let n = notes[idx];
        let owner = owners[idx];
        falling.push(FallingNoteDTO {
            pitch: n.pitch.0,
            start_ticks: n.span.start.ticks,
            duration_ticks: n.span.duration_ticks,
            velocity: n.velocity,
            part_name: parts[owner].name.clone(),
        });
        proof {
            assert(part_views[owner as int].name == parts@[owner as int].name@);
            assert(entries[idx as int] == (notes@[idx as int], owner as int));
            let ns = Seq::new(entries.len(), |i: int| entries[i].0);
            assert(start_pitch_keys(ns) == keys@);
            assert(stable_order(start_pitch_keys(ns), ns.len()) == order@);
            assert(expected[j as int] == falling_note(entries[order@[j as int] as int].0, part_views[entries[order@[j as int] as int].1].name));
        }
        j = j + 1;
    }
    proof {
        assert(falling@.map_values(|n: FallingNoteDTO| n@) =~= expected);
    }
    let ticks_per_beat = arrangement.score.ticks_per_beat;
    let (lowest, highest, total) = preview_bounds(&falling, ticks_per_beat);
    let (bpm_numerator, bpm_denominator) = if arrangement.score.tempos.len() > 0 {
        (arrangement.score.tempos[0].bpm_numerator, arrangement.score.tempos[0].bpm_denominator)
    } else {
        (120, 1)
    };
    ScorePreviewDTO {
        piece_id: arrangement.piece_id.to_string(),
        arrangement_id: arrangement.id.to_string(),
        title: arrangement.title,
        lowest_pitch: lowest,
        highest_pitch: highest,
        total_ticks: total,
        ticks_per_beat,
        bpm_numerator,
        bpm_denominator,
        notes: falling,
    }
}

/// The lowest and highest pitch of the preview notes and their length.
fn preview_bounds(notes: &Vec<FallingNoteDTO>, ticks_per_beat: u16) -> (r: (u8, u8, i128))
    ensures
        r.0 == lowest_pitch(notes@.map_values(|n: FallingNoteDTO| n@)),
        r.1 == highest_pitch(notes@.map_values(|n: FallingNoteDTO| n@)),
        r.2 == preview_length(notes@.map_values(|n: FallingNoteDTO| n@), ticks_per_beat),
{
    let ghost views = notes@.map_values(|n: FallingNoteDTO| n@);
    let mut low: u8 = 21;
    let mut high: u8 = 108;
    let mut end: i128 = 0;
    let mut i: usize = 0;
    while i < notes.len()
        invariant
            i <= notes.len(),
            views == notes@.map_values(|n: FallingNoteDTO| n@),
            low == lowest_pitch(views.subrange(0, i as int)),
            high == highest_pitch(views.subrange(0, i as int)),
            end == latest_end(views.subrange(0, i as int)),
            i64::MIN * 2 <= end <= i64::MAX * 2,
        decreases notes.len() - i,
    {
        proof {
            assert(views.subrange(0, i + 1).drop_last() =~= views.subrange(0, i as int));
        }
        let n = &notes[i];
        if i == 0 {
            low = n.pitch;
            high = n.pitch;
        } else {
            if n.pitch < low {
                low = n.pitch;
            }
            if n.pitch > high {
                high = n.pitch;
            }
        }
        let e = n.start_ticks as i128 + n.duration_ticks as i128;
        if e > end {
            end = e;
        }
        i = i + 1;
    }
    proof {
        assert(views.subrange(0, i as int) =~= views);
    }
    let total = if end > ticks_per_beat as i128 { end } else { ticks_per_beat as i128 };
    (low, high, total)
}

/// The preview's pitch bounds are the lowest and the highest pitch of its
/// notes: no note lies below the lowest or above the highest, and each is the
/// pitch of one of the notes; with no note they are the piano's 21 and 108.
pub proof fn lemma_preview_bounds_span_the_notes(notes: Seq<FallingNoteView>)
    ensures
        forall|i: int| 0 <= i < notes.len() ==> lowest_pitch(notes) <= (#[trigger] notes[i]).pitch <= highest_pitch(notes),
        notes.len() > 0 ==> exists|i: int| 0 <= i < notes.len() && (#[trigger] notes[i]).pitch == lowest_pitch(notes),
        notes.len() > 0 ==> exists|i: int| 0 <= i < notes.len() && (#[trigger] notes[i]).pitch == highest_pitch(notes),
        notes.len() == 0 ==> lowest_pitch(notes) == 21 && highest_pitch(notes) == 108,
    decreases notes.len(),
{
    if notes.len() > 1 {
        let rest = notes.drop_last();
        lemma_preview_bounds_span_the_notes(rest);
        assert forall|i: int| 0 <= i < notes.len() implies lowest_pitch(notes) <= (#[trigger] notes[i]).pitch <= highest_pitch(notes) by {
            if i < notes.len() - 1 {
                assert(notes[i] == rest[i]);
            }
        }
        let a = choose|i: int| 0 <= i < rest.len() && (#[trigger] rest[i]).pitch == lowest_pitch(rest);
        let b = choose|i: int| 0 <= i < rest.len() && (#[trigger] rest[i]).pitch == highest_pitch(rest);
        assert(notes[a] == rest[a]);
        assert(notes[b] == rest[b]);
        let last = notes.len() - 1;
        if notes[last].pitch < lowest_pitch(rest) {
            assert(notes[last].pitch == lowest_pitch(notes));
        } else {
            assert(notes[a].pitch == lowest_pitch(notes));
        }
        if notes[last].pitch > highest_pitch(rest) {
            assert(notes[last].pitch == highest_pitch(notes));
        } else {
            assert(notes[b].pitch == highest_pitch(notes));
        }
    } else if notes.len() == 1 {
        assert(notes[0].pitch == lowest_pitch(notes));
    }
}

} // verus!
