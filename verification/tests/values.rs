use std::cell::Cell;

use fold::pipeline::{Keyed, Scored};

/// Counts how often it is cloned, so that a clone can be told from a copy.
struct Traced<'a> {
    clones: &'a Cell<u32>,
    id: u32,
}

impl<'a> Clone for Traced<'a> {
    fn clone(&self) -> Self {
        self.clones.set(self.clones.get() + 1);
        Traced { clones: self.clones, id: self.id + 100 }
    }
}

#[test]
fn keyed_new_pairs_key_and_value() {
    let keyed = Keyed::new("ny", 7u32);
    assert_eq!(keyed.key, "ny");
    assert_eq!(keyed.val, 7);
}

#[test]
fn keyed_new_by_keys_a_value_by_itself() {
    let keyed = Keyed::new_by(String::from("court"), |s: &String| s.len());
    assert_eq!(keyed.key, 5);
    assert_eq!(keyed.val, "court");
}

#[test]
fn keyed_new_by_calls_the_function_once() {
    let calls = Cell::new(0u32);
    let keyed = Keyed::new_by(3u8, |v: &u8| {
        calls.set(calls.get() + 1);
        *v == 3
    });
    assert!(keyed.key);
    assert_eq!(calls.get(), 1);
}

#[test]
fn unkey_gives_the_value_back() {
    assert_eq!(Keyed::new(1u8, "church").unkey(), "church");
    assert_eq!(Keyed::new(2u8, "church").unkey(), "church");
    assert_eq!(Keyed::new_by(41i64, |v: &i64| *v + 1).unkey(), 41);
}

#[test]
fn keyed_clone_clones_both_parts() {
    let key_clones = Cell::new(0);
    let val_clones = Cell::new(0);
    let keyed = Keyed::new(
        Traced { clones: &key_clones, id: 1 },
        Traced { clones: &val_clones, id: 2 },
    );
    let copy = keyed.clone();
    assert_eq!((copy.key.id, copy.val.id), (101, 102));
    assert_eq!((keyed.key.id, keyed.val.id), (1, 2));
    assert_eq!((key_clones.get(), val_clones.get()), (1, 1));
}

#[test]
fn scored_new_pairs_score_and_value() {
    let scored = Scored::new(-4i64, "ping");
    assert_eq!(scored.score, -4);
    assert_eq!(scored.val, "ping");
}

#[test]
fn scored_new_by_scores_a_value_by_itself() {
    let scored = Scored::new_by((1_700_000_000u64, "ping"), |v: &(u64, &str)| v.0);
    assert_eq!(scored.score, 1_700_000_000);
    assert_eq!(scored.val, (1_700_000_000, "ping"));
}

#[test]
fn scored_takes_scores_that_are_only_partly_ordered() {
    let scored = Scored::new_by(9u32, |v: &u32| *v as f64 / 2.0);
    assert_eq!(scored.score, 4.5);
    assert_eq!(scored.unscore(), 9);
}

#[test]
fn unscore_gives_the_value_back() {
    assert_eq!(Scored::new(0u64, "old").unscore(), "old");
    assert_eq!(Scored::new(9u64, "old").unscore(), "old");
    assert_eq!(Scored::new_by(41i64, |v: &i64| -*v).unscore(), 41);
}

#[test]
fn scored_clone_clones_both_parts() {
    let score_clones = Cell::new(0);
    let val_clones = Cell::new(0);
    let scored = Scored::new(
        Traced { clones: &score_clones, id: 1 },
        Traced { clones: &val_clones, id: 2 },
    );
    let copy = scored.clone();
    assert_eq!((copy.score.id, copy.val.id), (101, 102));
    assert_eq!((score_clones.get(), val_clones.get()), (1, 1));
}
