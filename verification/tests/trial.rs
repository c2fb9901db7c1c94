use btama::font::CANDIDATES;
use btama::trial::{next_step, Step};

fn finished(works: &[bool]) -> (Step, Vec<usize>) {
    let mut tried = Vec::new();
    let mut last = None;
    loop {
        match next_step(works.len(), last) {
            Step::Try(i) => {
                tried.push(i);
                last = Some((i, works[i]));
            }
            end => return (end, tried),
        }
    }
}

#[test]
fn the_first_candidate_that_works_is_taken() {
    assert_eq!(finished(&[true, true, true]), (Step::Done(0), vec![0]));
    assert_eq!(finished(&[false, true, true]), (Step::Done(1), vec![0, 1]));
    assert_eq!(finished(&[false, false, true]), (Step::Done(2), vec![0, 1, 2]));
}

#[test]
fn without_a_working_candidate_all_are_tried_once() {
    assert_eq!(finished(&[]), (Step::NoneLeft, vec![]));
    assert_eq!(finished(&[false]), (Step::NoneLeft, vec![0]));
    assert_eq!(finished(&[false; CANDIDATES.len()]), (Step::NoneLeft, vec![0, 1, 2, 3]));
}

#[test]
fn numbers_beyond_the_candidates_end_the_trial() {
    assert_eq!(next_step(3, Some((7, false))), Step::NoneLeft);
    assert_eq!(next_step(usize::MAX, Some((usize::MAX, false))), Step::NoneLeft);
    assert_eq!(next_step(0, Some((0, true))), Step::Done(0));
}
