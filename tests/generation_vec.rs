use cac_renderer::GenerationVec;

#[test]
fn clear() {
    let mut gen_vec: GenerationVec<usize, i32> = GenerationVec::with_capacity(2);
    gen_vec.push(1);
    gen_vec.push(2);
    let to_be_removed = gen_vec.push(3);
    gen_vec.push(4);
    gen_vec.push(5);

    gen_vec.remove(to_be_removed);
    gen_vec.clear();

    assert_eq!(gen_vec.free_len(), 5);
    // they still hold None
    assert_eq!(gen_vec.slot_count(), 5);

    let none_count = gen_vec.vacant_count();
    assert_eq!(none_count, 5);
    let next_handle = gen_vec.push(5);
    assert_eq!(next_handle.generation, 1);
    assert_eq!(next_handle.index, 4);

    assert_eq!(*gen_vec.get(next_handle).unwrap(), 5);
}

#[test]
fn insert() {
    let mut gen_vec: GenerationVec<usize, &str> = GenerationVec::with_capacity(2);
    let some_resource = "farty";
    let handle = gen_vec.push(some_resource);

    assert!(handle.index == 0);
    assert!(handle.generation == 0);

    let resource = gen_vec.get(handle);
    assert_eq!(resource.unwrap(), &"farty");

    let other_resource = "twart";
    let other_handle = gen_vec.push(other_resource);
    assert!(other_handle.index == 1);

    let resource = gen_vec.get(other_handle).unwrap();
    assert_eq!(resource, &"twart");
}

#[test]
fn recycle_index() {
    let mut gen_vec: GenerationVec<usize, &str> = GenerationVec::with_capacity(2);
    let some_resource = "farty";
    let handle = gen_vec.push(some_resource);

    gen_vec.remove(handle);
    assert_eq!(gen_vec.free_len(), 1);

    let new_handle = gen_vec.push(some_resource);

    let no_handle = gen_vec.get_mut(handle);
    assert_eq!(no_handle, None);
    let no_handle = gen_vec.get(handle);
    assert_eq!(no_handle, None);

    assert_eq!(new_handle.generation, 1);
    assert_eq!(new_handle.index, 0);
}

#[test]
fn update_value() {
    let mut gen_vec: GenerationVec<usize, &str> = GenerationVec::with_capacity(2);
    let some_resource = "farty";
    let handle = gen_vec.push(some_resource);

    let resource = gen_vec.get_mut(handle).unwrap();
    assert_eq!(resource, &"farty");

    *resource = "party";

    let resource = gen_vec.get(handle).unwrap();
    assert_eq!(resource, &"party");
}

#[test]
fn stale_handle_after_remove_and_reuse() {
    let mut arena: GenerationVec<u8, u32> = GenerationVec::new();
    let a = arena.push(10);
    let b = arena.push(20);
    arena.remove(a);
    assert_eq!(arena.get(a), None);
    let c = arena.push(30);
    assert_eq!(c.index, a.index);
    assert_eq!(c.generation, a.generation + 1);
    assert_eq!(arena.get(a), None);
    assert_eq!(arena.get(c), Some(&30));
    arena.remove(c);
    let d = arena.push(40);
    assert_eq!(d.generation, 2);
    assert_eq!(arena.get(a), None);
    assert_eq!(arena.get(c), None);
    assert_eq!(arena.get(b), Some(&20));
}

#[test]
fn removing_twice_frees_once() {
    let mut arena: GenerationVec<u8, u32> = GenerationVec::new();
    let a = arena.push(1);
    arena.remove(a);
    arena.remove(a);
    assert_eq!(arena.free_len(), 1);
    let b = arena.push(2);
    let c = arena.push(3);
    assert_eq!(b.index, 0);
    assert_eq!(c.index, 1);
    assert_eq!(arena.get(b), Some(&2));
}

#[test]
fn clear_then_push_reuses_every_index_with_new_generations() {
    let mut arena: GenerationVec<u8, u32> = GenerationVec::new();
    let before: Vec<_> = (0..3).map(|v| arena.push(v)).collect();
    arena.clear();
    assert_eq!(arena.free_len(), 3);
    assert_eq!(arena.vacant_count(), 3);
    for h in &before {
        assert_eq!(arena.get(*h), None);
    }
    let after: Vec<_> = (0..3).map(|v| arena.push(v + 100)).collect();
    let indices: Vec<usize> = after.iter().map(|h| h.index).collect();
    assert_eq!(indices, vec![2, 1, 0]);
    for h in &after {
        assert_eq!(h.generation, 1);
        assert!(!before.contains(h));
    }
}

#[test]
fn push_without_free_appends_at_generation_zero() {
    let mut arena: GenerationVec<u8, u32> = GenerationVec::new();
    for i in 0..4usize {
        let h = arena.push(i as u32);
        assert_eq!(h.index, i);
        assert_eq!(h.generation, 0);
        assert_eq!(arena.slot_count(), i + 1);
    }
}

#[test]
fn update_changes_value_in_place() {
    let mut arena: GenerationVec<u8, u32> = GenerationVec::new();
    let h = arena.push(7);
    *arena.update(h).unwrap() = 8;
    assert_eq!(arena.get(h), Some(&8));
    arena.remove(h);
    assert!(arena.update(h).is_none());
}

#[test]
fn end_to_end_push_remove_clear_push() {
    let mut arena: GenerationVec<u8, u32> = GenerationVec::default();
    let first: Vec<_> = (0..5).map(|v| arena.push(v)).collect();
    arena.remove(first[2]);
    arena.clear();
    let second: Vec<_> = (0..5).map(|v| arena.push(v + 10)).collect();
    assert_eq!(arena.free_len(), 0);
    assert_eq!(arena.slot_count(), 5);
    let oldest = first.iter().map(|h| h.generation).max().unwrap();
    for h in &second {
        assert!(h.generation > oldest);
    }
    for h in &first {
        assert_eq!(arena.get(*h), None);
    }
}
