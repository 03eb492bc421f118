use warming::learning_commands::{new_session, StartPracticeSessionCommand};
use warming::learning::{ExerciseId, PracticeSession, PracticeSessionId};
use warming::listing::{list_pieces_in_order, list_sessions_in_order, sessions_of_piece, text_comes_before};
use warming::music::{ArrangementId, MusicPiece, MusicPieceId};

fn piece(id: &str, title: &str) -> MusicPiece {
    MusicPiece::new(id.to_string(), title.to_string())
}

fn session(id: &str, piece_id: &str, started_at: &str) -> PracticeSession {
    let command = StartPracticeSessionCommand {
        session_id: PracticeSessionId::new_unchecked(id.to_string()),
        piece_id: MusicPieceId::new_unchecked(piece_id.to_string()),
        arrangement_id: ArrangementId::new_unchecked("a".to_string()),
        exercise_id: ExerciseId::new_unchecked("e".to_string()),
        segment: None,
        target_speed_permille: 1000,
        playable_range: None,
        started_at: started_at.to_string(),
    };
    new_session(command, false).unwrap().session
}

#[test]
fn texts_compare_as_strings_do() {
    let cases = ["", "a", "ab", "b", "B", "é", "z", "Étude", "\u{10348}", "aa"];
    for a in cases {
        for b in cases {
            assert_eq!(text_comes_before(a, b), a < b, "{:?} {:?}", a, b);
        }
    }
}

#[test]
fn pieces_are_listed_by_title_then_identity() {
    let listed = list_pieces_in_order(vec![
        piece("p3", "Nocturne"),
        piece("p2", "Etude"),
        piece("p1", "Nocturne"),
        piece("p0", "Ballade"),
    ]);
    let ids: Vec<&str> = listed.iter().map(|p| p.id.as_str()).collect();
    assert_eq!(ids, vec!["p0", "p2", "p1", "p3"]);
    assert!(list_pieces_in_order(Vec::new()).is_empty());
}

#[test]
fn sessions_are_listed_by_start_then_identity() {
    let listed = list_sessions_in_order(vec![
        session("s2", "p", "2024-01-02"),
        session("s9", "p", "2024-01-01"),
        session("s1", "p", "2024-01-02"),
    ]);
    let ids: Vec<&str> = listed.iter().map(|s| s.id.as_str()).collect();
    assert_eq!(ids, vec!["s9", "s1", "s2"]);
}

#[test]
fn sessions_of_a_piece_are_selected_in_order() {
    let all = vec![session("s1", "p", "t1"), session("s2", "q", "t2"), session("s3", "p", "t3")];
    let chosen = sessions_of_piece(all, &MusicPieceId::new_unchecked("p".to_string()));
    let ids: Vec<&str> = chosen.iter().map(|s| s.id.as_str()).collect();
    assert_eq!(ids, vec!["s1", "s3"]);
}
