use tuning::circle::{circle_step, Circle};
use tuning::circle_of_fifths::CircleOfFifths;

fn walk(mut circle: Circle) -> Vec<u8> {
    let mut results = Vec::new();
    while let Some(t) = circle.next() {
        results.push(t);
    }
    results
}

#[test]
fn circle_step_test() {
    assert_eq!(7, circle_step(12));
}

#[test]
#[should_panic]
fn circle_step_overflow_test() {
    circle_step(1);
}

#[test]
fn circle_test() {
    let results = walk(Circle::circle_of_fifths());
    assert_eq!(vec![0, 7, 2, 9, 4, 11, 6, 1, 8, 3, 10], results);
}

#[test]
fn cof_test() {
    let circle = CircleOfFifths::new(12, 0);
    println!("circle {} has an interval of {}", circle.tone_count(), circle.fifth());
    let mut copy = circle;
    while let Some(i) = copy.next() {
        println!("{}", i);
    }

    let tone = circle.tone(9);
    let index = circle.index(8);
    println!("tone at 9 = {}", tone);
    println!("index at 8 = {}", index);
}

#[test]
fn circle_step_values() {
    assert_eq!(circle_step(2), 3);
    assert_eq!(circle_step(5), 3);
    assert_eq!(circle_step(8), 5);
    assert_eq!(circle_step(10), 7);
    assert_eq!(circle_step(19), 10);
}

#[test]
fn circle_of_fifths_run_has_no_repeats() {
    let results = walk(Circle::circle_of_fifths());
    assert_eq!(results.len(), 11);
    for i in 0..results.len() {
        for j in 0..i {
            assert_ne!(results[i], results[j]);
        }
    }
}

#[test]
fn perfect_circle_reaches_every_tone_once() {
    for n in 2..=256usize {
        let circle = Circle::new(n);
        let mut seen = vec![false; n];
        for t in 0..n {
            let i = circle.index(t as u8).expect("every tone is reached");
            assert!(i < n);
            assert!(!seen[i]);
            seen[i] = true;
        }
        assert_eq!(walk(Circle::new(n)).len(), n - 1);
    }
}

#[test]
fn circle_index_finds_first_step() {
    let circle = Circle::circle_of_fifths();
    assert_eq!(circle.index(0), Some(0));
    assert_eq!(circle.index(7), Some(1));
    assert_eq!(circle.index(5), Some(11));
    assert_eq!(circle.index(12), None);
}

#[test]
fn imperfect_circle_misses_tones() {
    let circle = Circle::new_raw(2, 12);
    assert_eq!(circle.index(4), Some(2));
    assert_eq!(circle.index(1), None);
    assert_eq!(walk(Circle::new_raw(2, 12)), vec![0, 2, 4, 6, 8, 10, 0, 2, 4, 6, 8]);
}

#[test]
fn circle_walk_starts_over() {
    let mut circle = Circle::circle_of_fifths();
    for _ in 0..11 {
        assert!(circle.next().is_some());
    }
    assert_eq!(circle.next(), None);
    assert_eq!(circle.next(), Some(0));
    assert_eq!(circle.next(), Some(7));
}

#[test]
fn circle_of_fifths_walks_whole_octave() {
    let mut circle = CircleOfFifths::new(12, 0);
    let mut results = Vec::new();
    while let Some(t) = circle.next() {
        results.push(t);
    }
    assert_eq!(results, vec![0, 7, 2, 9, 4, 11, 6, 1, 8, 3, 10, 5]);
    assert_eq!(circle.fifth(), 7);
}

#[test]
fn circle_of_fifths_tone_and_index() {
    let circle = CircleOfFifths::new(12, 0);
    assert_eq!(circle.tone(9), 3);
    assert_eq!(circle.index(8), 8);
    assert_eq!(circle.index(20), 8);
    let shifted = CircleOfFifths::new(12, 4);
    assert_eq!(shifted.tone(1), 11);
    assert_eq!(shifted.index(4), 0);
    assert_eq!(shifted.index(11), 1);
}
