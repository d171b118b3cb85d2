use obsc::arity::Arity;
use obsc::word::{word_arity, Word};

#[test]
fn concat_adds_both_counts() {
    assert_eq!(Arity(2, 1).concat(Arity(2, 1)), Arity(4, 2));
    assert_eq!(Arity(0, 0).concat(Arity(3, 5)), Arity(3, 5));
}

#[test]
fn compose_takes_the_shortfall_from_below() {
    // The second fragment needs two more values than the first supplies.
    assert_eq!(Arity(1, 1).compose(Arity(3, 1)), Arity(3, 1));
}

#[test]
fn compose_passes_the_surplus_through() {
    // The first fragment leaves two values that the second does not consume.
    assert_eq!(Arity(0, 3).compose(Arity(1, 1)), Arity(0, 3));
}

#[test]
fn compose_of_balanced_fragments() {
    assert_eq!(Arity(2, 1).compose(Arity(1, 0)), Arity(2, 0));
}

#[test]
fn compose_is_associative_on_samples() {
    let samples = [Arity(0, 0), Arity(0, 1), Arity(1, 0), Arity(2, 1), Arity(1, 2), Arity(3, 3)];
    for a in samples {
        for b in samples {
            for c in samples {
                assert_eq!(a.compose(b).compose(c), a.compose(b.compose(c)));
            }
        }
    }
}

#[test]
fn concat_is_associative_on_samples() {
    let samples = [Arity(0, 0), Arity(0, 1), Arity(1, 0), Arity(2, 1), Arity(1, 2)];
    for a in samples {
        for b in samples {
            for c in samples {
                assert_eq!(a.concat(b).concat(c), a.concat(b.concat(c)));
            }
        }
    }
}

#[test]
fn checked_combinators_refuse_what_does_not_fit() {
    assert_eq!(Arity(u32::MAX, 0).checked_concat(Arity(1, 0)), None);
    assert_eq!(Arity(0, u32::MAX).checked_concat(Arity(0, 1)), None);
    assert_eq!(Arity(1, 1).checked_concat(Arity(2, 3)), Some(Arity(3, 4)));
    assert_eq!(Arity(u32::MAX, 0).checked_compose(Arity(1, 0)), None);
    assert_eq!(Arity(0, u32::MAX).checked_compose(Arity(0, 1)), None);
    assert_eq!(Arity(u32::MAX, 1).checked_compose(Arity(1, 0)), Some(Arity(u32::MAX, 0)));
}

#[test]
fn every_word_has_its_arity() {
    let table = [
        (Word::Gt, Arity(2, 1)),
        (Word::Eq, Arity(2, 1)),
        (Word::Lt, Arity(2, 1)),
        (Word::Plus, Arity(2, 1)),
        (Word::Minus, Arity(2, 1)),
        (Word::Prod, Arity(2, 1)),
        (Word::Div, Arity(2, 1)),
        (Word::Swap, Arity(2, 2)),
        (Word::Dup, Arity(1, 2)),
        (Word::Drop, Arity(1, 0)),
        (Word::Id, Arity(1, 1)),
        (Word::Zilde, Arity(0, 1)),
        (Word::Comma, Arity(2, 1)),
        (Word::Behead, Arity(1, 2)),
        (Word::Print, Arity(1, 0)),
        (Word::Rec, Arity(2, 1)),
    ];
    for (word, arity) in table {
        assert_eq!(word_arity(&word), arity);
    }
}
