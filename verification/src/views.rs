use vstd::prelude::*;
use crate::api::{MidiScanReportDTO, MusicPieceDTO};
use crate::text::{decimal_spec, decimal_text, owned, push_str};

verus! {

/// The piece the home view shows: the first with the selected identity, or
/// else the first piece; none when there is no piece.
pub fn shown_piece(pieces: &Vec<MusicPieceDTO>, selected_id: &str) -> (r: Option<usize>)
    ensures
        match r {
            Some(k) => k < pieces@.len() && (
                (pieces@[k as int].id@ == selected_id@
                    && forall|j: int| 0 <= j < k ==> (#[trigger] pieces@[j]).id@ != selected_id@)
                || (k == 0 && forall|j: int| 0 <= j < pieces@.len() ==> (#[trigger] pieces@[j]).id@ != selected_id@)),
            None => pieces@.len() == 0,
        },
{
    let selected = owned(selected_id);
    let mut i: usize = 0;
    while i < pieces.len()
        invariant
            i <= pieces.len(),
            selected@ == selected_id@,
            forall|j: int| 0 <= j < i ==> (#[trigger] pieces@[j]).id@ != selected_id@,
        decreases pieces.len() - i,
    {
        if pieces[i].id == selected {
            return Some(i);
        }
        i = i + 1;
    }
    if pieces.len() > 0 { Some(0) } else { None }
}

/// Whether the home view's "Start practice" button is disabled: when no
/// piece is shown.
pub fn start_practice_disabled(shown: Option<usize>) -> (r: bool)
    ensures
        r == shown is None,
{
    shown.is_none()
}

/// The title the home view shows: the shown piece's, or `No score selected`.
pub fn shown_title(pieces: &Vec<MusicPieceDTO>, shown: Option<usize>) -> (r: String)
    ensures
        match shown {
            Some(k) => k < pieces@.len() ==> r@ == pieces@[k as int].title@,
            None => r@ == "No score selected"@,
        },
        shown matches Some(k) && k >= pieces@.len() ==> r@ == "No score selected"@,
{
    match shown {
        Some(k) => if k < pieces.len() { pieces[k].title.clone() } else { owned("No score selected") },
        None => owned("No score selected"),
    }
}

/// Where the practice view of an arrangement is found.
pub open spec fn practice_route_spec(piece_id: Seq<char>, arrangement_id: Seq<char>) -> Seq<char> {
    "/practice/"@ + piece_id + "/"@ + arrangement_id
}

pub fn practice_route(piece_id: &str, arrangement_id: &str) -> (r: String)
    ensures
        r@ == practice_route_spec(piece_id@, arrangement_id@),
{
    let mut r = owned("/practice/");
    push_str(&mut r, piece_id);
    push_str(&mut r, "/");
    push_str(&mut r, arrangement_id);
    r
}

/// The arrangement that practice starts on: the first one listed, or the
/// message that there is none.
pub fn practice_arrangement(count: usize) -> (r: Result<usize, String>)
    ensures
        count > 0 ==> r == Ok::<usize, String>(0),
        count == 0 ==> (r matches Err(m) && m@ == "No arrangement available"@),
{
    if count > 0 { Ok(0) } else { Err(owned("No arrangement available")) }
}

/// How the library lists a piece under its title.
pub open spec fn piece_summary_spec(piece: MusicPieceDTO) -> Seq<char> {
    decimal_spec(piece.arrangement_count as nat) + " arrangements · "@ + decimal_spec(piece.note_count as nat) + " notes"@
}

pub fn piece_summary(piece: &MusicPieceDTO) -> (r: String)
    ensures
        r@ == piece_summary_spec(*piece),
{
    let mut r = decimal_text(piece.arrangement_count as u128);
    push_str(&mut r, " arrangements · ");
    let notes = decimal_text(piece.note_count as u128);
    push_str(&mut r, notes.as_str());
    push_str(&mut r, " notes");
    r
}

/// What the settings view says after directories were added.
pub open spec fn added_message_spec(report: MidiScanReportDTO) -> Seq<char> {
    "成功添加！正在监听 "@ + decimal_spec(report.watched_directories@.len()) + " 个目录，扫描到 "@
        + decimal_spec(report.discovered_files as nat) + " 个 MIDI，登记 "@
        + decimal_spec(report.registered_files as nat) + " 个曲目。"@
}

pub fn added_message(report: &MidiScanReportDTO) -> (r: String)
    ensures
        r@ == added_message_spec(*report),
{
    let mut r = owned("成功添加！正在监听 ");
    let watched = decimal_text(report.watched_directories.len() as u128);
    push_str(&mut r, watched.as_str());
    push_str(&mut r, " 个目录，扫描到 ");
    let found = decimal_text(report.discovered_files as u128);
    push_str(&mut r, found.as_str());
    push_str(&mut r, " 个 MIDI，登记 ");
    let registered = decimal_text(report.registered_files as u128);
    push_str(&mut r, registered.as_str());
    push_str(&mut r, " 个曲目。");
    r
}

/// What the settings view says after a refresh.
pub open spec fn refreshed_message_spec(report: MidiScanReportDTO) -> Seq<char> {
    "已成功刷新！当前正在监听 "@ + decimal_spec(report.watched_directories@.len()) + " 个目录。"@
}

pub fn refreshed_message(report: &MidiScanReportDTO) -> (r: String)
    ensures
        r@ == refreshed_message_spec(*report),
{
    let mut r = owned("已成功刷新！当前正在监听 ");
    let watched = decimal_text(report.watched_directories.len() as u128);
    push_str(&mut r, watched.as_str());
    push_str(&mut r, " 个目录。");
    r
}

/// What the settings view says when the folder picker gave no directory:
/// none was chosen, or the platform has no picker.
pub fn no_directory_message(picker_available: bool) -> (r: String)
    ensures
        r@ == if picker_available { "未选择任何目录"@ } else { "此平台暂不支持目录选择"@ },
{
    if picker_available { owned("未选择任何目录") } else { owned("此平台暂不支持目录选择") }
}

} // verus!
