use tuning::equal::EqualTemperament;
use tuning::pitch::{NoteMap, Ratio};
use tuning::pythag::PythagoreanTemperament;
use tuning::temperament::Temperament;

fn hz_of_equal(reference: f32, steps: i64, divisions: u8) -> f32 {
    reference * (steps as f32 / divisions as f32).exp2()
}

fn hz_of_ratio(reference: f32, r: Ratio) -> f32 {
    reference * 3f32.powi(r.threes as i32) * 2f32.powi(r.twos as i32)
}

fn ratio_value(r: Ratio) -> f64 {
    3f64.powi(r.threes as i32) * 2f64.powi(r.twos as i32)
}

#[test]
fn test_tet() {
    let tet = EqualTemperament::tet();
    assert_eq!(tet.reference_note(), 69);
    let r = tet.frequency(75);
    assert_eq!(hz_of_equal(440.0, r.steps, r.divisions), 622.25397);

    assert_eq!(tet.note(2, 5), 41);
    assert_eq!(tet.note(-1, 11), 11);
    assert_eq!(tet.tone(69), 9);
    assert_eq!(tet.octave(69), 4);
}

#[test]
fn pythag_pythag_temp_test() {
    let py = PythagoreanTemperament::standard();
    let a = hz_of_ratio(440.0, py.frequency(69));
    let e = hz_of_ratio(440.0, py.frequency(69 + 7));
    assert_eq!(a, 440.0);
    assert_eq!(e, 440.0 * (3.0 / 2.0));
}

#[test]
fn note_round_trip_for_all_notes() {
    let nineteen = EqualTemperament::new(19, NoteMap::concert_a());
    let tet = EqualTemperament::tet();
    let py = PythagoreanTemperament::standard();
    for note in -300i64..300 {
        for t in [&nineteen as &dyn Temperament, &tet, &py] {
            let tone = t.tone(note);
            assert!((tone as usize) < t.tone_count());
            assert_eq!(t.note(t.octave(note), tone), note);
        }
    }
    assert_eq!(nineteen.tone(69), 9);
    assert_eq!(nineteen.octave(69), 4);
}

#[test]
fn negative_notes_use_non_negative_tones() {
    let tet = EqualTemperament::tet();
    assert_eq!(tet.tone(-1), 11);
    assert_eq!(tet.octave(-1), -2);
    assert_eq!(tet.tone(11), 11);
    assert_eq!(tet.octave(11), -1);
    assert_eq!(tet.tone(12), 0);
    assert_eq!(tet.octave(12), 0);
}

#[test]
fn equal_octave_doubles() {
    let tet = EqualTemperament::tet();
    let same = tet.frequency(69);
    assert_eq!((same.steps, same.divisions), (0, 12));
    assert_eq!(hz_of_equal(440.0, same.steps, same.divisions), 440.0);
    let up = tet.frequency(81);
    assert_eq!((up.steps, up.divisions), (12, 12));
    assert_eq!(hz_of_equal(440.0, up.steps, up.divisions), 880.0);
    let down = tet.frequency(57);
    assert_eq!(down.steps, -12);
    assert_eq!(hz_of_equal(440.0, down.steps, down.divisions), 220.0);
}

#[test]
fn pythagorean_fifth_is_three_halves() {
    let py = PythagoreanTemperament::standard();
    assert_eq!(py.frequency(69), Ratio { threes: 0, twos: 0 });
    assert_eq!(py.frequency(76), Ratio { threes: 1, twos: -1 });
    assert_eq!(py.frequency(81), Ratio { threes: 0, twos: 1 });
    assert_eq!(py.frequency(71), Ratio { threes: 2, twos: -3 });
    assert_eq!(py.frequency(64), Ratio { threes: 1, twos: -2 });
    assert_eq!(py.root(), 9);
}

#[test]
fn absolute_ratio_counts_fifths_the_short_way() {
    let py = PythagoreanTemperament::standard();
    assert_eq!(py.absolute_ratio(9), Ratio { threes: 0, twos: 0 });
    assert_eq!(py.absolute_ratio(4), Ratio { threes: 1, twos: -1 });
    assert_eq!(py.absolute_ratio(11), Ratio { threes: 2, twos: -2 });
    assert_eq!(py.absolute_ratio(3), Ratio { threes: 6, twos: -6 });
    assert_eq!(py.absolute_ratio(2), Ratio { threes: 1, twos: -1 });
    assert_eq!(py.absolute_ratio(21), py.absolute_ratio(9));
}

#[test]
fn tone_space_ratio_lies_in_first_octave() {
    let py = PythagoreanTemperament::standard();
    for tone in 0u8..24 {
        let r = py.tone_space_ratio(tone);
        assert_eq!(r.threes, py.absolute_ratio(tone).threes);
        let v = ratio_value(r);
        assert!((1.0..2.0).contains(&v), "tone {} gave {}", tone, v);
    }
    assert_eq!(py.tone_space_ratio(11), Ratio { threes: 2, twos: -3 });
}

#[test]
fn sanitize_ratio_folds_both_ways() {
    let py = PythagoreanTemperament::standard();
    assert_eq!(py.sanitize_ratio(Ratio { threes: -3, twos: 0 }), Ratio { threes: -3, twos: 5 });
    assert_eq!(py.sanitize_ratio(Ratio { threes: 5, twos: 0 }), Ratio { threes: 5, twos: -7 });
    assert_eq!(py.sanitize_ratio(Ratio { threes: 0, twos: 9 }), Ratio { threes: 0, twos: 0 });
    assert_eq!(py.sanitize_ratio(Ratio { threes: 1, twos: -40 }), Ratio { threes: 1, twos: -1 });
    for threes in -80i64..=80 {
        let r = py.sanitize_ratio(Ratio { threes, twos: 3 });
        assert_eq!(r.threes, threes);
        let p = 3u128.pow(threes.unsigned_abs() as u32);
        if threes >= 0 {
            let k = (-r.twos) as u32;
            assert!(1u128 << k <= p && p < 1u128 << (k + 1).min(127) || k == 126);
        } else {
            let k = r.twos as u32;
            assert!(p <= 1u128 << k && (1u128 << k) < 2 * p);
        }
    }
}

#[test]
fn move_root_keeps_new_root_frequency() {
    let mut py = PythagoreanTemperament::standard();
    let d = py.frequency(62);
    let d_up = py.frequency(74);
    let d_down = py.frequency(38);
    py.move_root(62);
    assert_eq!(py.root(), 2);
    assert_eq!(py.frequency(62), d);
    assert_eq!(py.frequency(74), d_up);
    assert_eq!(py.frequency(38), d_down);
    assert_eq!(d, Ratio { threes: 1, twos: -2 });
}

#[test]
fn move_root_to_an_octave_keeps_every_frequency() {
    let mut py = PythagoreanTemperament::standard();
    let before: Vec<Ratio> = (40i64..100).map(|n| py.frequency(n)).collect();
    py.move_root(81);
    let after: Vec<Ratio> = (40i64..100).map(|n| py.frequency(n)).collect();
    assert_eq!(before, after);
}

#[test]
fn move_root_may_change_other_notes() {
    let mut py = PythagoreanTemperament::standard();
    let e = py.frequency(76);
    py.move_root(71);
    assert_ne!(py.frequency(76), e);
}

#[test]
fn pythagorean_octaves_double() {
    let py = PythagoreanTemperament::new(7, NoteMap::new(30, 2, 4));
    for note in 0i64..60 {
        let here = py.frequency(note);
        let up = py.frequency(note + 7);
        assert_eq!(up, Ratio { threes: here.threes, twos: here.twos + 1 });
    }
}
