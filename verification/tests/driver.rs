use sans_effort::driver::step::Step;
use sans_effort::driver::Yield;
use sans_effort::select::Either;

#[test]
fn a_step_is_its_effects_and_its_closed_ids() {
    let step = Step::new(vec!["WriteLine", "ReadLine"], vec![]);
    assert_eq!(step.effects(), ["WriteLine", "ReadLine"]);
    assert!(step.closed().is_empty());
    assert!(!step.is_empty());
    let (effects, closed) = step.into_parts();
    assert_eq!(effects, ["WriteLine", "ReadLine"]);
    assert!(closed.is_empty());
    assert!(Step::<u8>::default().is_empty());
}

#[test]
fn mapping_a_yield_keeps_order_and_closed_ids() {
    let yielded = Yield::new(vec![1, 2, 3], vec![7]);
    let mapped = yielded.map(|x| x * 10);
    assert_eq!(mapped.effects(), [10, 20, 30]);
    assert_eq!(mapped.closed(), [7]);
    assert!(Yield::<u8>::new(Vec::new(), Vec::new()).is_empty());
    assert!(!Yield::<u8>::new(Vec::new(), vec![1]).is_empty());
    assert_eq!(Step::new(vec!['a'], vec![2]).map(|c| c.to_ascii_uppercase()).into_parts(), (vec!['A'], vec![2]));
}

#[test]
fn either_names_which_finished() {
    let left: Either<char, char> = Either::Left('a');
    assert_eq!(left, Either::Left('a'));
    assert_ne!(left, Either::Right('a'));
}
