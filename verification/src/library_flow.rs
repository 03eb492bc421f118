use vstd::prelude::*;
use crate::app_error::AppError;
use crate::local_library::{
    local_midi_piece_id, midi_arrangement_id, midi_piece_id, plan_registration, registration_import_command,
    registration_piece_command, DiscoveredMidiFile, MidiScanReport, RegisterLocalMidiFileCommand,
    RegisterLocalMidiFileResult, RegistrationPlan, local_midi_arrangement_id,
};
use crate::music::{MusicPiece, MusicPieceId, PianoScore};
use crate::music_commands::{first_arrangement, CreateMusicPieceCommand, ImportPianoArrangementCommand};
use crate::text::owned;

verus! {

// ---------------------------------------------------------------------------
// Registering a MIDI file: which port to call next, given what the last call
// gave back.

/// Where the registration of a MIDI file stands: which reply it waits for.
#[derive(Debug)]
pub enum RegistrationStage {
    /// The piece under the file's identity is being looked up.
    FindingPiece,
    /// The file's score is being read, for the given plan.
    ReadingScore(RegistrationPlan),
    /// The piece is being created; the score read waits for its import.
    CreatingPiece(PianoScore),
    /// The arrangement is being imported; whether the piece was created.
    Importing(bool),
    /// Nothing more to do.
    Finished,
}

/// What a port gave back to a registration.
#[derive(Debug)]
pub enum RegistrationEvent {
    PieceFound(Option<MusicPiece>),
    ScoreRead(PianoScore),
    PieceCreated,
    ArrangementImported(MusicPiece),
    Failed(AppError),
}

/// What a registration asks for next.
#[derive(Debug)]
pub enum RegistrationAction {
    FindPiece(MusicPieceId),
    ReadScore(String),
    CreatePiece(CreateMusicPieceCommand),
    ImportArrangement(ImportPianoArrangementCommand),
    Finish(Result<RegisterLocalMidiFileResult, AppError>),
}

/// Whether a registration at `stage` waits for the reply `event`: each stage
/// for the reply of its own call, and every stage but the last for a failure.
pub open spec fn registration_accepts_spec(stage: RegistrationStage, event: RegistrationEvent) -> bool {
    match event {
        RegistrationEvent::Failed(_) => !(stage is Finished),
        RegistrationEvent::PieceFound(_) => stage is FindingPiece,
        RegistrationEvent::ScoreRead(_) => stage is ReadingScore,
        RegistrationEvent::PieceCreated => stage is CreatingPiece,
        RegistrationEvent::ArrangementImported(_) => stage is Importing,
    }
}

pub fn registration_accepts(stage: &RegistrationStage, event: &RegistrationEvent) -> (r: bool)
    ensures
        r == registration_accepts_spec(*stage, *event),
{
    match event {
        RegistrationEvent::Failed(_) => !matches!(stage, RegistrationStage::Finished),
        RegistrationEvent::PieceFound(_) => matches!(stage, RegistrationStage::FindingPiece),
        RegistrationEvent::ScoreRead(_) => matches!(stage, RegistrationStage::ReadingScore(_)),
        RegistrationEvent::PieceCreated => matches!(stage, RegistrationStage::CreatingPiece(_)),
        RegistrationEvent::ArrangementImported(_) => matches!(stage, RegistrationStage::Importing(_)),
    }
}

/// A registration starts by looking up the piece under the file's identity.
pub fn start_registration(input: &RegisterLocalMidiFileCommand) -> (r: (RegistrationStage, RegistrationAction))
    ensures
        r.0 is FindingPiece,
        r.1 matches RegistrationAction::FindPiece(id) && id@ == midi_piece_id(input.file.fingerprint@),
{
    (RegistrationStage::FindingPiece, RegistrationAction::FindPiece(local_midi_piece_id(input.file.fingerprint.as_str())))
}

/// Whether an import request is the one that registers the file with the score.
pub open spec fn is_registration_import(cmd: ImportPianoArrangementCommand, input: RegisterLocalMidiFileCommand, score: PianoScore) -> bool {
    &&& cmd.piece_id@ == midi_piece_id(input.file.fingerprint@)
    &&& cmd.arrangement_id@ == midi_arrangement_id(input.file.fingerprint@)
    &&& cmd.title@ == "MIDI import"@
    &&& cmd.score@ == score@
    &&& cmd.now@ == input.discovered_at@
}

/// The next step of a registration, given the reply to its last call. The
/// piece is looked up first; a piece that has the file's arrangement ends
/// the registration with nothing created. Otherwise the score is read
/// before anything is written: then the piece is created when there was
/// none, and the arrangement is imported. A failure ends the registration
/// with that error, and no port is called after it.
pub fn registration_step(input: &RegisterLocalMidiFileCommand, stage: RegistrationStage, event: RegistrationEvent)
    -> (r: (RegistrationStage, RegistrationAction))
    requires
        registration_accepts_spec(stage, event),
    ensures
        event matches RegistrationEvent::Failed(e) ==> r.0 is Finished && r.1 == RegistrationAction::Finish(Err(e)),
        event matches RegistrationEvent::PieceFound(found) ==> {
            let arrangement = midi_arrangement_id(input.file.fingerprint@);
            match found {
                Some(p) => if first_arrangement(p@.arrangements, arrangement) is Some {
                    &&& r.0 is Finished
                    &&& r.1 matches RegistrationAction::Finish(Ok(res)) && res.piece == p && !res.created
                } else {
                    &&& r.0 == RegistrationStage::ReadingScore(RegistrationPlan::ImportIntoPiece)
                    &&& r.1 matches RegistrationAction::ReadScore(path) && path@ == input.file.path@
                },
                None => {
                    &&& r.0 == RegistrationStage::ReadingScore(RegistrationPlan::CreatePieceAndImport)
                    &&& r.1 matches RegistrationAction::ReadScore(path) && path@ == input.file.path@
                },
            }
        },
        event matches RegistrationEvent::ScoreRead(score) ==> (stage == RegistrationStage::ReadingScore(RegistrationPlan::CreatePieceAndImport) ==> {
            &&& r.0 == RegistrationStage::CreatingPiece(score)
            &&& r.1 matches RegistrationAction::CreatePiece(cmd) && {
                &&& cmd.piece_id@ == midi_piece_id(input.file.fingerprint@)
                &&& cmd.title@ == input.file.title@
                &&& cmd.creator matches Some(c) && c@ == input.file.path@
                &&& cmd.now@ == input.discovered_at@
            }
        }),
        event matches RegistrationEvent::ScoreRead(score) ==> (stage != RegistrationStage::ReadingScore(RegistrationPlan::CreatePieceAndImport) ==> {
            &&& r.0 == RegistrationStage::Importing(false)
            &&& r.1 matches RegistrationAction::ImportArrangement(cmd) && is_registration_import(cmd, *input, score)
        }),
        event is PieceCreated ==> (stage matches RegistrationStage::CreatingPiece(score) && {
            &&& r.0 == RegistrationStage::Importing(true)
            &&& r.1 matches RegistrationAction::ImportArrangement(cmd) && is_registration_import(cmd, *input, score)
        }),
        event matches RegistrationEvent::ArrangementImported(piece) ==> (stage matches RegistrationStage::Importing(created) && {
            &&& r.0 is Finished
            &&& r.1 matches RegistrationAction::Finish(Ok(res)) && res.piece == piece && res.created == created
        }),
        r.1 is CreatePiece ==> stage is ReadingScore && event is ScoreRead,
{
    match event {
        RegistrationEvent::Failed(e) => (RegistrationStage::Finished, RegistrationAction::Finish(Err(e))),
        RegistrationEvent::PieceFound(found) => {
            let arrangement = local_midi_arrangement_id(input.file.fingerprint.as_str());
            let plan = plan_registration(found.as_ref(), &arrangement);
            match found {
                Some(p) => {
                    if plan == RegistrationPlan::AlreadyRegistered {
                        (RegistrationStage::Finished, RegistrationAction::Finish(Ok(RegisterLocalMidiFileResult { piece: p, created: false })))
                    } else {
                        (RegistrationStage::ReadingScore(plan), RegistrationAction::ReadScore(input.file.path.clone()))
                    }
                },
                None => (RegistrationStage::ReadingScore(plan), RegistrationAction::ReadScore(input.file.path.clone())),
            }
        },
        RegistrationEvent::ScoreRead(score) => {
            if matches!(stage, RegistrationStage::ReadingScore(RegistrationPlan::CreatePieceAndImport)) {
                (RegistrationStage::CreatingPiece(score), RegistrationAction::CreatePiece(registration_piece_command(input)))
            } else {
                (RegistrationStage::Importing(false), RegistrationAction::ImportArrangement(registration_import_command(input, score)))
            }
        },
        RegistrationEvent::PieceCreated => {
            match stage {
                RegistrationStage::CreatingPiece(score) => (
                    RegistrationStage::Importing(true),
                    RegistrationAction::ImportArrangement(registration_import_command(input, score)),
                ),
                _ => {
                    proof {
                        assert(false);
                    }
                    (RegistrationStage::Finished, RegistrationAction::Finish(Err(AppError::upstream(owned("")))))
                },
            }
        },
        RegistrationEvent::ArrangementImported(piece) => {
            match stage {
                RegistrationStage::Importing(created) => (
                    RegistrationStage::Finished,
                    RegistrationAction::Finish(Ok(RegisterLocalMidiFileResult { piece, created })),
                ),
                _ => {
                    proof {
                        assert(false);
                    }
                    (RegistrationStage::Finished, RegistrationAction::Finish(Err(AppError::upstream(owned("")))))
                },
            }
        },
    }
}

// ---------------------------------------------------------------------------
// Refreshing the watched directories: which port to call next.

/// Which reply a refresh waits for.
#[derive(Debug, Clone, Copy, PartialEq, Eq, Structural)]
pub enum RefreshStage {
    ListingDirectories,
    ScanningDirectory,
    RegisteringFile,
    ClearingDirty,
    Finished,
}

/// Where a refresh stands: the watched directories, how many of them were
/// scanned, the files of the last scan still to register (the first is being
/// registered), and the counts so far.
#[derive(Debug)]
pub struct RefreshState {
    pub stage: RefreshStage,
    pub directories: Vec<String>,
    pub scanned: usize,
    pub pending: Vec<DiscoveredMidiFile>,
    pub report: MidiScanReport,
}

/// What a port gave back to a refresh.
#[derive(Debug)]
pub enum RefreshEvent {
    DirectoriesListed(Vec<String>),
    DirectoryScanned(Vec<DiscoveredMidiFile>),
    FileRegistered(bool),
    DirtyCleared,
    Failed(AppError),
}

/// What a refresh asks for next.
#[derive(Debug)]
pub enum RefreshAction {
    ListDirectories,
    ScanDirectory(String),
    RegisterFile(DiscoveredMidiFile),
    ClearDirty,
    Finish(Result<MidiScanReport, AppError>),
}

/// Whether a refresh waits for the reply `event`, and its counts have room for it.
pub open spec fn refresh_accepts_spec(state: RefreshState, event: RefreshEvent) -> bool {
    match event {
        RefreshEvent::Failed(_) => state.stage != RefreshStage::Finished,
        RefreshEvent::DirectoriesListed(_) => state.stage == RefreshStage::ListingDirectories,
        RefreshEvent::DirectoryScanned(files) => state.stage == RefreshStage::ScanningDirectory
            && state.report.discovered_files + files@.len() <= usize::MAX,
        RefreshEvent::FileRegistered(created) => state.stage == RefreshStage::RegisteringFile
            && state.pending@.len() > 0
            && (created ==> state.report.registered_files < usize::MAX),
        RefreshEvent::DirtyCleared => state.stage == RefreshStage::ClearingDirty,
    }
}

pub fn refresh_accepts(state: &RefreshState, event: &RefreshEvent) -> (r: bool)
    ensures
        r == refresh_accepts_spec(*state, *event),
{
    match event {
        RefreshEvent::Failed(_) => state.stage != RefreshStage::Finished,
        RefreshEvent::DirectoriesListed(_) => state.stage == RefreshStage::ListingDirectories,
        RefreshEvent::DirectoryScanned(files) => state.stage == RefreshStage::ScanningDirectory
            && files.len() <= usize::MAX - state.report.discovered_files,
        RefreshEvent::FileRegistered(created) => state.stage == RefreshStage::RegisteringFile
            && state.pending.len() > 0
            && (!*created || state.report.registered_files < usize::MAX),
        RefreshEvent::DirtyCleared => state.stage == RefreshStage::ClearingDirty,
    }
}

/// A refresh starts by asking which directories are watched.
pub fn start_refresh() -> (r: (RefreshState, RefreshAction))
    ensures
        r.0.stage == RefreshStage::ListingDirectories,
        r.0.directories@.len() == 0,
        r.0.scanned == 0,
        r.0.pending@.len() == 0,
        r.0.report.discovered_files == 0,
        r.0.report.registered_files == 0,
        r.1 is ListDirectories,
{
    (
        RefreshState {
            stage: RefreshStage::ListingDirectories,
            directories: Vec::new(),
            scanned: 0,
            pending: Vec::new(),
            report: MidiScanReport::new(Vec::new()),
        },
        RefreshAction::ListDirectories,
    )
}

/// The call that follows once the pending files are registered, or the
/// first of them: register the first pending file; else scan the next
/// directory; else clear the mark of changes.
fn refresh_next(state: RefreshState) -> (r: (RefreshState, RefreshAction))
    requires
        state.scanned <= state.directories@.len(),
    ensures
        r.0.directories@ == state.directories@,
        r.0.pending@ == state.pending@,
        r.0.report == state.report,
        state.pending@.len() > 0 ==> {
            &&& r.0.stage == RefreshStage::RegisteringFile
            &&& r.0.scanned == state.scanned
            &&& r.1 matches RefreshAction::RegisterFile(f) && f.path@ == state.pending@[0].path@
                && f.title@ == state.pending@[0].title@ && f.fingerprint@ == state.pending@[0].fingerprint@
        },
        state.pending@.len() == 0 && state.scanned < state.directories@.len() ==> {
            &&& r.0.stage == RefreshStage::ScanningDirectory
            &&& r.0.scanned == state.scanned + 1
            &&& r.1 matches RefreshAction::ScanDirectory(d) && d@ == state.directories@[state.scanned as int]@
        },
        state.pending@.len() == 0 && state.scanned == state.directories@.len() ==> {
            &&& r.0.stage == RefreshStage::ClearingDirty
            &&& r.0.scanned == state.scanned
            &&& r.1 is ClearDirty
        },
{
    let mut state = state;
    if state.pending.len() > 0 {
        let file = state.pending[0].copy();
        state.stage = RefreshStage::RegisteringFile;
        (state, RefreshAction::RegisterFile(file))
    } else if state.scanned < state.directories.len() {
        let directory = state.directories[state.scanned].clone();
        state.scanned = state.scanned + 1;
        state.stage = RefreshStage::ScanningDirectory;
        (state, RefreshAction::ScanDirectory(directory))
    } else {
        state.stage = RefreshStage::ClearingDirty;
        (state, RefreshAction::ClearDirty)
    }
}

/// The next step of a refresh, given the reply to its last call. The watched
/// directories are listed; each is scanned in turn, and each file it holds
/// is registered before the next directory is scanned; then the mark of
/// changes is cleared and the report given back. The report counts every
/// file scanned and every registration that created a piece. A failure ends
/// the refresh with that error, and no port is called after it.
pub fn refresh_step(state: RefreshState, event: RefreshEvent) -> (r: (RefreshState, RefreshAction))
    requires
        refresh_accepts_spec(state, event),
        state.scanned <= state.directories@.len(),
    ensures
        r.0.scanned <= r.0.directories@.len(),
        event matches RefreshEvent::Failed(e) ==> r.0.stage == RefreshStage::Finished && r.1 == RefreshAction::Finish(Err(e)),
        event matches RefreshEvent::DirectoriesListed(dirs) ==> {
            &&& r.0.directories@ == dirs@
            &&& r.0.report.watched_directories@ == dirs@
            &&& r.0.report.discovered_files == 0
            &&& r.0.report.registered_files == 0
            &&& r.0.pending@.len() == 0
            &&& dirs@.len() > 0 ==> r.0.stage == RefreshStage::ScanningDirectory && r.0.scanned == 1
                && (r.1 matches RefreshAction::ScanDirectory(d) && d@ == dirs@[0]@)
            &&& dirs@.len() == 0 ==> r.0.stage == RefreshStage::ClearingDirty && r.1 is ClearDirty
        },
        event matches RefreshEvent::DirectoryScanned(files) ==> {
            &&& r.0.directories@ == state.directories@
            &&& r.0.report.watched_directories@ == state.report.watched_directories@
            &&& r.0.report.discovered_files == state.report.discovered_files + files@.len()
            &&& r.0.report.registered_files == state.report.registered_files
            &&& r.0.pending@ == files@
            &&& files@.len() > 0 ==> r.0.stage == RefreshStage::RegisteringFile && r.0.scanned == state.scanned
                && (r.1 matches RefreshAction::RegisterFile(f) && f.path@ == files@[0].path@
                    && f.title@ == files@[0].title@ && f.fingerprint@ == files@[0].fingerprint@)
            &&& files@.len() == 0 && state.scanned < state.directories@.len() ==> r.0.stage == RefreshStage::ScanningDirectory
                && r.0.scanned == state.scanned + 1
                && (r.1 matches RefreshAction::ScanDirectory(d) && d@ == state.directories@[state.scanned as int]@)
            &&& files@.len() == 0 && state.scanned == state.directories@.len() ==> r.0.stage == RefreshStage::ClearingDirty
                && r.1 is ClearDirty
        },
        event matches RefreshEvent::FileRegistered(created) ==> {
            let rest = state.pending@.drop_first();
            &&& r.0.directories@ == state.directories@
            &&& r.0.report.watched_directories@ == state.report.watched_directories@
            &&& r.0.report.discovered_files == state.report.discovered_files
            &&& r.0.report.registered_files == state.report.registered_files + if created { 1usize } else { 0usize }
            &&& r.0.pending@ == rest
            &&& rest.len() > 0 ==> r.0.stage == RefreshStage::RegisteringFile && r.0.scanned == state.scanned
                && (r.1 matches RefreshAction::RegisterFile(f) && f.path@ == rest[0].path@
                    && f.title@ == rest[0].title@ && f.fingerprint@ == rest[0].fingerprint@)
            &&& rest.len() == 0 && state.scanned < state.directories@.len() ==> r.0.stage == RefreshStage::ScanningDirectory
                && r.0.scanned == state.scanned + 1
                && (r.1 matches RefreshAction::ScanDirectory(d) && d@ == state.directories@[state.scanned as int]@)
            &&& rest.len() == 0 && state.scanned == state.directories@.len() ==> r.0.stage == RefreshStage::ClearingDirty
                && r.1 is ClearDirty
        },
        event is DirtyCleared ==> r.0.stage == RefreshStage::Finished && (r.1 matches RefreshAction::Finish(Ok(report)) && {
            &&& report.watched_directories@ == state.report.watched_directories@
            &&& report.discovered_files == state.report.discovered_files
            &&& report.registered_files == state.report.registered_files
        }),
{
    let mut state = state;
    match event {
        RefreshEvent::Failed(e) => {
            state.stage = RefreshStage::Finished;
            (state, RefreshAction::Finish(Err(e)))
        },
        RefreshEvent::DirectoriesListed(dirs) => {
            let listed = RefreshState {
                stage: RefreshStage::ListingDirectories,
                directories: dirs.clone(),
                scanned: 0,
                pending: Vec::new(),
                report: MidiScanReport::new(dirs),
            };
            refresh_next(listed)
        },
        RefreshEvent::DirectoryScanned(files) => {
            state.report.record_scan(files.len());
            state.pending = files;
            refresh_next(state)
        },
        RefreshEvent::FileRegistered(created) => {
            state.report.record_registration(created);
            state.pending.remove(0);
            refresh_next(state)
        },
        RefreshEvent::DirtyCleared => {
            let report = MidiScanReport {
                watched_directories: state.report.watched_directories.clone(),
                discovered_files: state.report.discovered_files,
                registered_files: state.report.registered_files,
            };
            state.stage = RefreshStage::Finished;
            (state, RefreshAction::Finish(Ok(report)))
        },
    }
}

} // verus!
