use suinput::parallel_arena::ParallelArena;

#[test]
fn entries_sit_at_the_slots_of_their_indices() {
    let mut arena = thunderdome::Arena::new();
    let a = arena.insert("a");
    let b = arena.insert("b");
    let c = arena.insert("c");
    let mut parallel = ParallelArena::new();
    assert_eq!(parallel.insert_at(c, 30), None);
    assert_eq!(parallel.insert_at(a, 10), None);
    assert_eq!(parallel.get(a), Some(&10));
    assert_eq!(parallel.get(b), None);
    assert_eq!(parallel.get(c), Some(&30));
    assert_eq!(parallel.insert_at(a, 11), Some(10));
    assert_eq!(parallel.get(a), Some(&11));
    if let Some(v) = parallel.get_mut(c) {
        *v += 1;
    }
    assert_eq!(parallel.get(c), Some(&31));
    assert!(parallel.get_mut(b).is_none());
}

#[test]
fn iteration_skips_empty_slots() {
    let mut arena = thunderdome::Arena::new();
    let a = arena.insert(());
    let _b = arena.insert(());
    let c = arena.insert(());
    let mut parallel = ParallelArena::new();
    parallel.insert_at(c, 3);
    parallel.insert_at(a, 1);
    let mut seen = Vec::new();
    let mut it = parallel.iter();
    while let Some(v) = it.next() {
        seen.push(*v);
    }
    assert_eq!(seen, vec![1, 3]);
    let mut it = parallel.iter_mut();
    while let Some(v) = it.next() {
        *v *= 10;
    }
    assert_eq!(parallel.get(a), Some(&10));
    assert_eq!(parallel.get(c), Some(&30));
}
