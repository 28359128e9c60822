use audio_logger::cir_buf;
use audio_logger::circular_buffer::CircularBuffer;
use audio_logger::circular_buffer_stack::CircularBufferStack;

#[test]
fn mod_test_circular_buffer() {
    let mut buffer = cir_buf::CircularBuffer::<5, i32>::new();

    buffer.put(1);
    buffer.put(2);
    buffer.put(3);
    buffer.put(4);
    buffer.put(5);
    buffer.put(6); // overwrites first value

    let fifo_values = buffer.read_fifo();
    assert_eq!(fifo_values, [&2, &3, &4, &5, &6]);

    let unordered_values = buffer.read_unordered();
    let unordered_expected: Vec<&i32> = vec![&6, &2, &3, &4, &5];
    assert_eq!(unordered_values, unordered_expected);
}

#[test]
fn circular_buffer_test_circular_buffer() {
    let mut buffer = CircularBuffer::<5, i32>::new();

    buffer.put(1);
    buffer.put(2);
    buffer.put(3);
    buffer.put(4);
    buffer.put(5);
    buffer.put(6); // overwrites first value

    let fifo_values = buffer.read_fifo_all();
    assert_eq!(fifo_values, [&2, &3, &4, &5, &6]);

    let fifo_last_n_values = buffer.read_fifo_last_n(3);
    assert_eq!(fifo_last_n_values, [&4, &5, &6]);

    let unordered_values = buffer.read_unordered();
    let unordered_expected: Vec<&i32> = vec![&6, &2, &3, &4, &5];
    assert_eq!(unordered_values, unordered_expected);
}

#[test]
fn circular_buffer_stack_test_circular_buffer() {
    let mut buffer = CircularBufferStack::<5, i32>::new();

    buffer.put(1);
    buffer.put(2);
    buffer.put(3);
    buffer.put(4);
    buffer.put(5);
    buffer.put(6); // overwrites first value

    let fifo_values = buffer.clone();
    assert_eq!(fifo_values, [&2, &3, &4, &5, &6]);

    let fifo_last_n_values = buffer.clone_last_n(3);
    assert_eq!(fifo_last_n_values, [&4, &5, &6]);

    let unordered_values = buffer.clone_unordered();
    let unordered_expected: Vec<&i32> = vec![&6, &2, &3, &4, &5];
    assert_eq!(unordered_values, unordered_expected);
}

#[test]
fn ordered_read_keeps_the_last_n_in_write_order() {
    let mut buffer = CircularBuffer::<3, u32>::new();
    for item in 0..10u32 {
        buffer.put(item);
    }
    assert_eq!(buffer.read_fifo_all(), [&7, &8, &9]);
    assert_eq!(buffer.read_fifo_last_n(3), [&7, &8, &9]);
    assert_eq!(buffer.read_fifo_last_n(2), [&8, &9]);
    assert_eq!(buffer.read_fifo_last_n(1), [&9]);
    assert!(buffer.read_fifo_last_n(0).is_empty());
}

#[test]
fn reads_of_a_buffer_that_is_not_full_give_only_what_was_put() {
    let mut buffer = CircularBuffer::<5, i32>::new();
    assert!(buffer.read_fifo_all().is_empty());
    assert!(buffer.read_unordered().is_empty());
    assert!(buffer.read_fifo_last_n(5).is_empty());

    buffer.put(10);
    buffer.put(20);
    assert_eq!(buffer.read_fifo_all(), [&10, &20]);
    assert_eq!(buffer.read_unordered(), [&10, &20]);
    assert_eq!(buffer.read_fifo_last_n(1), [&20]);
    assert_eq!(buffer.read_fifo_last_n(2), [&10, &20]);
    assert_eq!(buffer.read_fifo_last_n(4), [&10, &20]);
    assert_eq!(buffer.read_fifo_last_n(5), [&10, &20]);
}

#[test]
fn a_buffer_that_has_just_filled_reads_from_its_first_slot() {
    let mut buffer = cir_buf::CircularBuffer::<4, i32>::new();
    for item in 1..=4 {
        buffer.put(item);
    }
    assert_eq!(buffer.read_fifo(), [&1, &2, &3, &4]);
    assert_eq!(buffer.read_unordered(), [&1, &2, &3, &4]);
}

#[test]
fn a_buffer_of_one_slot_holds_the_latest_item() {
    let mut buffer = CircularBufferStack::<1, i32>::new();
    assert!(!buffer.is_full());
    buffer.put(1);
    assert!(buffer.is_full());
    buffer.put(2);
    assert!(buffer.is_full());
    assert_eq!(buffer.clone(), [&2]);
    assert_eq!(buffer.clone_last_n(1), [&2]);
    assert_eq!(buffer.clone_unordered(), [&2]);
}

#[test]
fn unordered_read_is_a_permutation_of_the_ordered_read() {
    let mut buffer = CircularBufferStack::<7, i32>::new();
    for item in 0..40 {
        buffer.put((item * 37) % 11);
        let ordered: Vec<i32> = buffer.clone().into_iter().copied().collect();
        let mut sorted_ordered = ordered.clone();
        sorted_ordered.sort();
        let mut sorted_stored: Vec<i32> = buffer.clone_unordered().into_iter().copied().collect();
        sorted_stored.sort();
        assert_eq!(sorted_ordered, sorted_stored);
    }
}

#[test]
fn unordered_read_puts_the_newest_items_first_once_wrapped() {
    let mut buffer = CircularBufferStack::<5, i32>::new();
    for item in 1..=8 {
        buffer.put(item);
    }
    assert_eq!(buffer.clone(), [&4, &5, &6, &7, &8]);
    assert_eq!(buffer.clone_unordered(), [&6, &7, &8, &4, &5]);
}

#[test]
fn is_full_turns_true_with_the_last_free_slot_and_stays_true() {
    let mut buffer = CircularBufferStack::<3, u8>::new();
    assert!(!buffer.is_full());
    buffer.put(1);
    assert!(!buffer.is_full());
    buffer.put(2);
    assert!(!buffer.is_full());
    buffer.put(3);
    assert!(buffer.is_full());
    for item in 0..10 {
        buffer.put(item);
        assert!(buffer.is_full());
    }
}
