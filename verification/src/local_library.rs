use vstd::prelude::*;
use std::hash::{Hash, Hasher};
use crate::music::{ArrangementId, MusicPiece, MusicPieceId, PianoScore};
use crate::music_commands::{first_arrangement, position_of_arrangement, CreateMusicPieceCommand, ImportPianoArrangementCommand};
use crate::text::{decimal_spec, decimal_text, hex_spec, hex_text, owned, push_str, trim_spec, trim_str};

verus! {

/// A MIDI file found on disk: its path, its title and what identifies its
/// content (path, length and modification time).
#[derive(Debug, Clone)]
pub struct DiscoveredMidiFile {
    pub path: String,
    pub title: String,
    pub fingerprint: String,
}

impl DiscoveredMidiFile {
    pub fn copy(&self) -> (r: Self)
        ensures
            r.path@ == self.path@,
            r.title@ == self.title@,
            r.fingerprint@ == self.fingerprint@,
    {
        DiscoveredMidiFile { path: self.path.clone(), title: self.title.clone(), fingerprint: self.fingerprint.clone() }
    }
}

/// What a refresh of the watched directories found.
#[derive(Debug, Clone)]
pub struct MidiScanReport {
    pub watched_directories: Vec<String>,
    pub discovered_files: usize,
    pub registered_files: usize,
}

/// A request to register a MIDI file found on disk.
#[derive(Debug, Clone)]
pub struct RegisterLocalMidiFileCommand {
    pub file: DiscoveredMidiFile,
    pub discovered_at: String,
}

/// The piece a registration ended with, and whether it created it.
#[derive(Debug, Clone)]
pub struct RegisterLocalMidiFileResult {
    pub piece: MusicPiece,
    pub created: bool,
}

/// What `DefaultHasher::new()` gives for a text hashed into it with `Hash`
/// (the same for the same text within one build of the program).
pub uninterp spec fn default_text_hash(text: Seq<char>) -> u64;

/// `DefaultHasher`: the hash of a text hashed with `Hash` into a new hasher.
#[verifier::external_body]
fn hash_text(text: &str) -> (r: u64)
    ensures
        r == default_text_hash(text@),
{
    let mut hasher = std::collections::hash_map::DefaultHasher::new();
    text.hash(&mut hasher);
    hasher.finish()
}

/// The identity of the piece registered for a MIDI file.
pub open spec fn midi_piece_id(fingerprint: Seq<char>) -> Seq<char> {
    "midi-"@ + hex_spec(default_text_hash(fingerprint) as nat, 16)
}

/// The identity of the arrangement registered for a MIDI file.
pub open spec fn midi_arrangement_id(fingerprint: Seq<char>) -> Seq<char> {
    "midi-arrangement-"@ + hex_spec(default_text_hash(fingerprint) as nat, 16)
}

/// The piece identity of a MIDI file: `midi-` and the sixteen hex digits of
/// the hash of its fingerprint.
pub fn local_midi_piece_id(fingerprint: &str) -> (r: MusicPieceId)
    ensures
        r@ == midi_piece_id(fingerprint@),
{
    let mut id = owned("midi-");
    let digits = hex_text(hash_text(fingerprint), 16);
    push_str(&mut id, digits.as_str());
    MusicPieceId::new_unchecked(id)
}

/// The arrangement identity of a MIDI file: `midi-arrangement-` and the
/// sixteen hex digits of the hash of its fingerprint.
pub fn local_midi_arrangement_id(fingerprint: &str) -> (r: ArrangementId)
    ensures
        r@ == midi_arrangement_id(fingerprint@),
{
    let mut id = owned("midi-arrangement-");
    let digits = hex_text(hash_text(fingerprint), 16);
    push_str(&mut id, digits.as_str());
    ArrangementId::new_unchecked(id)
}

/// What registering a MIDI file comes to, given the piece found for it.
#[derive(Debug, Clone, Copy, PartialEq, Eq, Structural)]
pub enum RegistrationPlan {
    /// The piece has the file's arrangement already: nothing to do.
    AlreadyRegistered,
    /// The piece exists: read the score and import it as its arrangement.
    ImportIntoPiece,
    /// No piece: read the score, create the piece, then import it.
    CreatePieceAndImport,
}

/// The plan for registering a MIDI file, given the piece found under its identity.
pub fn plan_registration(found: Option<&MusicPiece>, arrangement_id: &ArrangementId) -> (r: RegistrationPlan)
    ensures
        r == match found {
            None => RegistrationPlan::CreatePieceAndImport,
            Some(p) => if first_arrangement(p@.arrangements, arrangement_id@) is Some {
                RegistrationPlan::AlreadyRegistered
            } else {
                RegistrationPlan::ImportIntoPiece
            },
        },
{
    match found {
        None => RegistrationPlan::CreatePieceAndImport,
        Some(p) => if position_of_arrangement(p, arrangement_id).is_some() {
            RegistrationPlan::AlreadyRegistered
        } else {
            RegistrationPlan::ImportIntoPiece
        },
    }
}

/// The request that creates the piece of a MIDI file: titled as the file,
/// its path as creator.
pub fn registration_piece_command(input: &RegisterLocalMidiFileCommand) -> (r: CreateMusicPieceCommand)
    ensures
        r.piece_id@ == midi_piece_id(input.file.fingerprint@),
        r.title@ == input.file.title@,
        r.creator matches Some(c) && c@ == input.file.path@,
        r.now@ == input.discovered_at@,
{
    CreateMusicPieceCommand {
        piece_id: local_midi_piece_id(input.file.fingerprint.as_str()),
        title: input.file.title.clone(),
        creator: Some(input.file.path.clone()),
        now: input.discovered_at.clone(),
    }
}

/// The request that imports the score of a MIDI file, titled `MIDI import`.
pub fn registration_import_command(input: &RegisterLocalMidiFileCommand, score: PianoScore) -> (r: ImportPianoArrangementCommand)
    ensures
        r.piece_id@ == midi_piece_id(input.file.fingerprint@),
        r.arrangement_id@ == midi_arrangement_id(input.file.fingerprint@),
        r.title@ == "MIDI import"@,
        r.score@ == score@,
        r.now@ == input.discovered_at@,
{
    ImportPianoArrangementCommand {
        piece_id: local_midi_piece_id(input.file.fingerprint.as_str()),
        arrangement_id: local_midi_arrangement_id(input.file.fingerprint.as_str()),
        title: owned("MIDI import"),
        score,
        now: input.discovered_at.clone(),
    }
}

/// The final part of a path's file name (`Path::file_stem`), as text.
pub uninterp spec fn path_file_stem(path: Seq<char>) -> Option<Seq<char>>;

/// `Path::file_stem` of a path given as text, when it is text.
#[verifier::external_body]
fn file_stem_text(path: &str) -> (r: Option<&str>)
    ensures
        match r {
            Some(s) => path_file_stem(path@) == Some(s@),
            None => path_file_stem(path@) is None,
        },
{
    std::path::Path::new(path).file_stem().and_then(|s| s.to_str())
}

/// The title of a MIDI file: its file stem trimmed, or the whole path when
/// the stem is missing or empty once trimmed.
pub open spec fn midi_title_spec(path: Seq<char>) -> Seq<char> {
    match path_file_stem(path) {
        Some(stem) => if trim_spec(stem).len() > 0 { trim_spec(stem) } else { path },
        None => path,
    }
}

/// The title of a MIDI file at the given path.
pub fn midi_title(path: &str) -> (r: String)
    ensures
        r@ == midi_title_spec(path@),
{
    match file_stem_text(path) {
        Some(stem) => {
            let t = trim_str(stem);
            if !t.is_empty() { owned(t) } else { owned(path) }
        },
        None => owned(path),
    }
}

/// Whether a file extension names a MIDI file: `mid` or `midi` in any case.
pub open spec fn is_midi_extension_spec(ext: Seq<char>) -> bool {
    ext.len() >= 3 && ext.len() <= 4 && {
        let lower = Seq::new(ext.len(), |i: int| ascii_lower(ext[i]));
        lower == "mid"@ || lower == "midi"@
    }
}

/// The ASCII lower case of a character.
pub open spec fn ascii_lower(c: char) -> char {
    if 'A' <= c && c <= 'Z' { ((c as u32) + 32) as char } else { c }
}

fn lower_char(c: char) -> (r: char)
    ensures
        r == ascii_lower(c),
{
    if 'A' <= c && c <= 'Z' {
        proof {
            assert(('a' as u32) == ('A' as u32) + 32);
        }
        let v = (c as u32) + 32;
        char_from(v)
    } else {
        c
    }
}

fn char_from(v: u32) -> (r: char)
    requires
        0x61 <= v <= 0x7A,
    ensures
        r == v as char,
{
    if v == 0x61 { 'a' } else if v == 0x62 { 'b' } else if v == 0x63 { 'c' } else if v == 0x64 { 'd' }
    else if v == 0x65 { 'e' } else if v == 0x66 { 'f' } else if v == 0x67 { 'g' } else if v == 0x68 { 'h' }
    else if v == 0x69 { 'i' } else if v == 0x6A { 'j' } else if v == 0x6B { 'k' } else if v == 0x6C { 'l' }
    else if v == 0x6D { 'm' } else if v == 0x6E { 'n' } else if v == 0x6F { 'o' } else if v == 0x70 { 'p' }
    else if v == 0x71 { 'q' } else if v == 0x72 { 'r' } else if v == 0x73 { 's' } else if v == 0x74 { 't' }
    else if v == 0x75 { 'u' } else if v == 0x76 { 'v' } else if v == 0x77 { 'w' } else if v == 0x78 { 'x' }
    else if v == 0x79 { 'y' } else { 'z' }
}

/// Whether a file extension names a MIDI file: `mid` or `midi` in any ASCII case.
pub fn is_midi_extension(ext: &str) -> (r: bool)
    ensures
        r == is_midi_extension_spec(ext@),
{
    let n = ext.unicode_len();
    if n < 3 || n > 4 {
        return false;
    }
    let mut lower: Vec<char> = Vec::new();
    let mut i: usize = 0;
    while i < n
        invariant
            i <= n,
            n == ext@.len(),
            lower@ =~= Seq::new(i as nat, |k: int| ascii_lower(ext@[k])),
        decreases n - i,
    {
        lower.push(lower_char(ext.get_char(i)));
        i = i + 1;
    }
    proof {
        reveal_strlit("mid");
        reveal_strlit("midi");
    }
    if n == 3 {
        let r = lower[0] == 'm' && lower[1] == 'i' && lower[2] == 'd';
        proof {
            if r { assert(lower@ =~= "mid"@); } else { assert(lower@ != "mid"@); }
        }
        r
    } else {
        let r = lower[0] == 'm' && lower[1] == 'i' && lower[2] == 'd' && lower[3] == 'i';
        proof {
            if r { assert(lower@ =~= "midi"@); } else { assert(lower@ != "midi"@); }
        }
        r
    }
}

/// The extension of a path's file name (`Path::extension`), as text.
pub uninterp spec fn path_extension(path: Seq<char>) -> Option<Seq<char>>;

/// `Path::extension` of a path given as text, when it is text.
#[verifier::external_body]
fn extension_text(path: &str) -> (r: Option<&str>)
    ensures
        match r {
            Some(s) => path_extension(path@) == Some(s@),
            None => path_extension(path@) is None,
        },
{
    std::path::Path::new(path).extension().and_then(|s| s.to_str())
}

/// Whether a path names a MIDI file by its extension.
pub fn has_midi_extension(path: &str) -> (r: bool)
    ensures
        r == match path_extension(path@) {
            Some(ext) => is_midi_extension_spec(ext),
            None => false,
        },
{
    match extension_text(path) {
        Some(ext) => is_midi_extension(ext),
        None => false,
    }
}

/// Whether bytes start as a standard MIDI file does: with `MThd`.
pub open spec fn has_midi_header_spec(bytes: Seq<u8>) -> bool {
    bytes.len() >= 4 && bytes[0] == 0x4D && bytes[1] == 0x54 && bytes[2] == 0x68 && bytes[3] == 0x64
}

/// Whether bytes start with the MIDI header tag `MThd`.
pub fn has_midi_header(bytes: &[u8]) -> (r: bool)
    ensures
        r == has_midi_header_spec(bytes@),
{
    bytes.len() >= 4 && bytes[0] == 0x4D && bytes[1] == 0x54 && bytes[2] == 0x68 && bytes[3] == 0x64
}

/// The fingerprint of a file: its path, its length and its modification
/// time in seconds, joined by colons.
pub fn midi_fingerprint(path: &str, len: u64, modified_secs: u64) -> (r: String)
    ensures
        r@ == path@ + ":"@ + decimal_spec(len as nat) + ":"@ + decimal_spec(modified_secs as nat),
{
    let mut r = owned(path);
    push_str(&mut r, ":");
    let l = decimal_text(len as u128);
    push_str(&mut r, l.as_str());
    push_str(&mut r, ":");
    let m = decimal_text(modified_secs as u128);
    push_str(&mut r, m.as_str());
    r
}

/// A directory to watch as given: trimmed, refused when nothing is left.
pub fn directory_request(directory: &str) -> (r: Result<String, String>)
    ensures
        r is Err <==> trim_spec(directory@).len() == 0,
        r matches Ok(d) ==> d@ == trim_spec(directory@),
        r matches Err(e) ==> e@ == "directory path is empty"@,
{
    let d = trim_str(directory);
    if d.is_empty() {
        return Err(owned("directory path is empty"));
    }
    Ok(owned(d))
}

/// `SystemTime::now()` as whole seconds since the Unix epoch, or `None`
/// before it.
#[verifier::external_body]
fn clock_seconds() -> (r: Option<u64>) {
    std::time::SystemTime::now().duration_since(std::time::UNIX_EPOCH).ok().map(|duration| duration.as_secs())
}

/// A timestamp as decimal seconds, `0` when there is none.
pub fn timestamp_text(secs: Option<u64>) -> (r: String)
    ensures
        r@ == decimal_spec(match secs { Some(s) => s as nat, None => 0 }),
{
    match secs {
        Some(s) => decimal_text(s as u128),
        None => decimal_text(0),
    }
}

/// The current time as decimal seconds since the Unix epoch.
pub fn unix_timestamp_seconds() -> (r: String)
    ensures
        exists|s: nat| r@ == decimal_spec(s),
{
    timestamp_text(clock_seconds())
}

impl MidiScanReport {
    /// A report for the given directories before anything was found.
    pub fn new(watched_directories: Vec<String>) -> (r: Self)
        ensures
            r.watched_directories@ == watched_directories@,
            r.discovered_files == 0,
            r.registered_files == 0,
    {
        MidiScanReport { watched_directories, discovered_files: 0, registered_files: 0 }
    }

    /// Counts the files a directory scan found.
    pub fn record_scan(&mut self, found: usize)
        requires
            old(self).discovered_files + found <= usize::MAX,
        ensures
            final(self).discovered_files == old(self).discovered_files + found,
            final(self).registered_files == old(self).registered_files,
            final(self).watched_directories@ == old(self).watched_directories@,
    {
        self.discovered_files = self.discovered_files + found;
    }

    /// Counts a registration when it created a piece.
    pub fn record_registration(&mut self, created: bool)
        requires
            created ==> old(self).registered_files < usize::MAX,
        ensures
            final(self).registered_files == old(self).registered_files + if created { 1usize } else { 0usize },
            final(self).discovered_files == old(self).discovered_files,
            final(self).watched_directories@ == old(self).watched_directories@,
    {
        if created {
            self.registered_files = self.registered_files + 1;
        }
    }
}

} // verus!
