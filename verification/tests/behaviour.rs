use generational_buffer::{GenerationalBuffer, Handle};

#[test]
fn new_buffer_is_empty() {
    let buffer: GenerationalBuffer<u8> = GenerationalBuffer::new(4);
    assert_eq!(buffer.capacity(), 4);
    assert_eq!(buffer.len(), 0);
    assert!(buffer.is_empty());
    assert!(!buffer.is_full());
    assert!(buffer.handles().is_empty());
    assert!(buffer.values().is_empty());
    assert!(buffer.iter().is_empty());
}

#[test]
fn zero_capacity_buffer_is_permanently_empty() {
    let buffer: GenerationalBuffer<u8> = GenerationalBuffer::new(0);
    assert_eq!(buffer.capacity(), 0);
    assert_eq!(buffer.len(), 0);
    assert!(buffer.is_empty());
    assert!(buffer.is_full());
    assert!(buffer.handles().is_empty());

    let mut other = GenerationalBuffer::new(1);
    let foreign = other.push(7u8);
    assert!(!buffer.is_valid(foreign));
    assert_eq!(buffer.get(foreign), None);
}

#[test]
fn pushed_value_is_found_through_its_handle() {
    let mut buffer = GenerationalBuffer::new(4);
    for round in 0..25u32 {
        let handle = buffer.push(round * 3);
        assert_eq!(buffer.get(handle), Some(&(round * 3)));
        assert!(buffer.is_valid(handle));
    }
}

#[test]
fn handle_lives_until_its_slot_is_overwritten() {
    let mut buffer = GenerationalBuffer::new(3);
    let first = buffer.push('a');
    let second = buffer.push('b');
    assert_eq!(buffer.get(first), Some(&'a'));
    let third = buffer.push('c');
    assert_eq!(buffer.get(first), Some(&'a'));
    assert_eq!(buffer.get(second), Some(&'b'));
    assert_eq!(buffer.get(third), Some(&'c'));
    let fourth = buffer.push('d');
    assert_eq!(buffer.get(first), None);
    assert_eq!(buffer.get(second), Some(&'b'));
    assert_eq!(buffer.get(third), Some(&'c'));
    assert_eq!(buffer.get(fourth), Some(&'d'));
}

#[test]
fn one_lap_and_one_push_drops_only_the_first_handle() {
    for capacity in 1..=6usize {
        for already in 0..=13usize {
            let mut buffer = GenerationalBuffer::new(capacity);
            for value in 0..already {
                buffer.push(value);
            }
            let handles: Vec<Handle<usize>> =
                (0..=capacity).map(|value| buffer.push(1000 + value)).collect();
            assert!(!buffer.is_valid(handles[0]));
            assert_eq!(buffer.get(handles[0]), None);
            for (offset, &handle) in handles.iter().enumerate().skip(1) {
                assert!(buffer.is_valid(handle));
                assert_eq!(buffer.get(handle), Some(&(1000 + offset)));
            }
        }
    }
}

#[test]
fn only_the_last_capacity_handles_are_valid() {
    for capacity in 1..=5usize {
        for pushes in 0..=17usize {
            let mut buffer = GenerationalBuffer::new(capacity);
            let handles: Vec<Handle<usize>> =
                (0..pushes).map(|value| buffer.push(value * 2)).collect();
            for (position, &handle) in handles.iter().enumerate() {
                if pushes - position <= capacity {
                    assert_eq!(buffer.get(handle), Some(&(position * 2)));
                } else {
                    assert_eq!(buffer.get(handle), None);
                }
            }
        }
    }
}

#[test]
fn validity_agrees_with_lookup() {
    let mut source = GenerationalBuffer::new(3);
    let foreign: Vec<Handle<i64>> = (0..8).map(|value| source.push(value)).collect();

    let mut buffer = GenerationalBuffer::new(5);
    let mut own: Vec<Handle<i64>> = Vec::new();
    for value in 0..12 {
        own.push(buffer.push(value));
        for &handle in own.iter().chain(foreign.iter()) {
            assert_eq!(buffer.is_valid(handle), buffer.get(handle).is_some());
        }
    }
}

#[test]
fn length_never_passes_capacity() {
    let mut buffer = GenerationalBuffer::new(4);
    for pushes in 1..=20usize {
        buffer.push(pushes);
        assert!(buffer.len() <= buffer.capacity());
        assert_eq!(buffer.len(), pushes.min(4));
        assert_eq!(buffer.is_full(), pushes >= 4);
        assert!(!buffer.is_empty());
    }
}

#[test]
fn clear_drops_every_value_and_every_handle() {
    let mut buffer = GenerationalBuffer::new(3);
    let handles: Vec<Handle<u16>> = (0..5).map(|value| buffer.push(value)).collect();
    buffer.clear();
    assert_eq!(buffer.len(), 0);
    assert_eq!(buffer.capacity(), 3);
    assert!(buffer.is_empty());
    assert!(!buffer.is_full());
    for &handle in &handles {
        assert!(!buffer.is_valid(handle));
        assert_eq!(buffer.get(handle), None);
    }
    assert!(buffer.handles().is_empty());
    assert!(buffer.values().is_empty());
}

#[test]
fn cleared_buffer_starts_over() {
    let mut buffer = GenerationalBuffer::new(2);
    let before: Vec<Handle<u16>> = (0..3).map(|value| buffer.push(value)).collect();
    buffer.clear();
    let first = buffer.push(70);
    let second = buffer.push(80);
    assert_eq!(buffer.get(first), Some(&70));
    assert_eq!(buffer.get(second), Some(&80));
    assert_eq!(format!("{:?}", first), format!("{:?}", before[0]));
    assert!(first == before[0]);
    assert!(!buffer.is_valid(before[2]));
    assert_eq!(buffer.len(), 2);
}

#[test]
fn enumerations_list_each_valid_handle_once() {
    for capacity in 1..=4usize {
        for pushes in 0..=9usize {
            let mut buffer = GenerationalBuffer::new(capacity);
            let issued: Vec<Handle<usize>> =
                (0..pushes).map(|value| buffer.push(value + 100)).collect();

            let handles = buffer.handles();
            assert_eq!(handles.len(), buffer.len());
            for (position, &handle) in handles.iter().enumerate() {
                assert!(buffer.is_valid(handle));
                assert!(handles[..position].iter().all(|&earlier| earlier != handle));
            }
            for &handle in &issued {
                assert_eq!(buffer.is_valid(handle), handles.contains(&handle));
            }

            let pairs = buffer.iter();
            assert_eq!(pairs.len(), buffer.len());
            for &(handle, value) in &pairs {
                assert!(buffer.is_valid(handle));
                assert_eq!(buffer.get(handle), Some(value));
                assert!(handles.contains(&handle));
            }

            let mut values: Vec<usize> = buffer.values().into_iter().copied().collect();
            values.sort();
            let kept = pushes.min(capacity);
            let expected: Vec<usize> = (pushes - kept..pushes).map(|value| value + 100).collect();
            assert_eq!(values, expected);
        }
    }
}

#[test]
fn get_mut_writes_through_a_valid_handle() {
    let mut buffer = GenerationalBuffer::new(2);
    let first = buffer.push(String::from("one"));
    let second = buffer.push(String::from("two"));

    match buffer.get_mut(first) {
        Some(value) => value.push_str("!"),
        None => panic!("the handle is valid"),
    }
    assert_eq!(buffer.get(first).map(|value| value.as_str()), Some("one!"));
    assert_eq!(buffer.get(second).map(|value| value.as_str()), Some("two"));
    assert_eq!(buffer.len(), 2);
    assert!(buffer.is_valid(first));
    assert!(buffer.is_valid(second));

    let third = buffer.push(String::from("three"));
    assert!(buffer.get_mut(first).is_none());
    assert_eq!(buffer.get(third).map(|value| value.as_str()), Some("three"));
    assert_eq!(buffer.get_mut(second).map(|value| value.len()), Some(3));
}

#[test]
fn get_mut_rejects_foreign_handles() {
    let mut source = GenerationalBuffer::new(4);
    let foreign: Vec<Handle<u8>> = (0..4).map(|value| source.push(value)).collect();

    let mut buffer = GenerationalBuffer::new(4);
    buffer.push(9u8);
    assert_eq!(buffer.get_mut(foreign[0]), Some(&mut 9));
    assert_eq!(buffer.get_mut(foreign[1]), None);
    assert_eq!(buffer.get_mut(foreign[3]), None);
}

#[test]
fn handles_carry_slot_and_generation() {
    let mut buffer = GenerationalBuffer::new(3);
    let shown: Vec<String> = (0..8).map(|value| format!("{:?}", buffer.push(value))).collect();
    let expected = [(0, 0), (1, 0), (2, 0), (0, 1), (1, 1), (2, 1), (0, 2), (1, 2)];
    for (text, (index, generation)) in shown.iter().zip(expected) {
        assert!(text.starts_with("Handle {"));
        assert!(text.contains(&format!("index: {index}, generation: {generation},")));
    }

    // Slots behind the cursor are of the current generation, the others of
    // the one before.
    let listed: Vec<String> =
        buffer.handles().iter().map(|handle| format!("{:?}", handle)).collect();
    assert_eq!(listed.len(), 3);
    assert!(listed.iter().any(|text| text.contains("index: 0, generation: 2,")));
    assert!(listed.iter().any(|text| text.contains("index: 1, generation: 2,")));
    assert!(listed.iter().any(|text| text.contains("index: 2, generation: 1,")));
}

#[test]
fn capacity_one_keeps_only_the_last_value() {
    let mut buffer = GenerationalBuffer::new(1);
    let first = buffer.push(1.5f64);
    assert!(buffer.is_full());
    assert_eq!(buffer.get(first), Some(&1.5));
    let second = buffer.push(2.5f64);
    assert_eq!(buffer.get(first), None);
    assert_eq!(buffer.get(second), Some(&2.5));
    assert_eq!(buffer.len(), 1);
    assert!(first != second);
}

#[test]
fn handles_compare_by_slot_and_generation() {
    let mut buffer = GenerationalBuffer::new(2);
    let first = buffer.push(());
    let second = buffer.push(());
    let third = buffer.push(());
    let copy = first;
    assert!(copy == first);
    assert!(first.clone() == first);
    assert!(first != second);
    assert!(first != third);
    assert!(second != third);

    let mut twin = GenerationalBuffer::new(2);
    assert!(twin.push(()) == first);
}

#[test]
fn buffer_can_be_shown() {
    let mut buffer = GenerationalBuffer::new(2);
    buffer.push(5u8);
    let shown = format!("{:?}", buffer);
    assert!(shown.starts_with("GenerationalBuffer"));
    assert!(shown.contains("[5]"));
}
