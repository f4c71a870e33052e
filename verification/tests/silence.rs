use ttsvii::silence::{find_silence, list_pieces, plan_silences, Piece, Silence};

fn silence(position: usize, millis: i64) -> Silence {
    Silence { position, millis }
}

#[test]
fn silences_fill_what_clips_leave() {
    let times = vec![(500, 1500), (1500, 2000), (2600, 3000)];
    let plan = plan_silences(&times, 4000);
    assert_eq!(plan, vec![silence(0, 500), silence(2, 600), silence(3, 1000)]);
    let silent: i64 = plan.iter().map(|s| s.millis).sum();
    let spoken: i64 = times.iter().map(|t| t.1 - t.0).sum();
    assert_eq!(silent + spoken, 4000);
}

#[test]
fn overlapping_clips_have_no_silence_between_them() {
    assert_eq!(plan_silences(&vec![(0, 2000), (1500, 3000)], 3000), vec![]);
    assert_eq!(plan_silences(&vec![(0, 2000), (1500, 3000)], 2500), vec![]);
}

#[test]
fn pieces_come_in_order_and_each_silence_once() {
    let s = vec![silence(0, 500), silence(2, 600), silence(3, 1000)];
    assert_eq!(find_silence(&s, 2), Some(1));
    assert_eq!(find_silence(&s, 1), None);
    let pieces = list_pieces(&s, &vec![false, true, false], false);
    assert_eq!(
        pieces,
        vec![
            Piece::Silence(0),
            Piece::Clip { index: 0, corrected: false },
            Piece::Clip { index: 1, corrected: true },
            Piece::Silence(1),
            Piece::Clip { index: 2, corrected: false },
            Piece::Silence(2),
        ]
    );
    let pieces = list_pieces(&s, &vec![false, true, false], true);
    assert_eq!(pieces.last(), Some(&Piece::Tail));
    assert_eq!(pieces.len(), 6);
}
