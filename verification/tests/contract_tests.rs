use core::mem::MaybeUninit;
use prefix_arena::{PrefixArena, StagingBuffer, StagingBufferError};

#[test]
fn readme_detach_with_initializer() {
    let mut storage = [0u8; 8];
    let arena = PrefixArena::new(&mut storage);

    let prefix = arena
        .init_prefix_with(|buffer| {
            buffer[..4].copy_from_slice(b"rust");
            Ok::<usize, core::convert::Infallible>(4)
        })
        .unwrap();

    assert_eq!(prefix, b"rust");
}

#[test]
fn readme_stage_and_commit() {
    let mut storage = [0u8; 16];
    let mut arena = PrefixArena::new(&mut storage);
    let mut staging = StagingBuffer::new(&mut arena);

    staging.extend_from_slice(b"prefix").unwrap();
    staging.push_byte(b'-').unwrap();
    staging.extend_from_slice(b"arena").unwrap();

    let written = staging.into_written_slice();
    assert_eq!(written, b"prefix-arena");
    assert_eq!(arena.len(), 4);
}

#[test]
fn detaching_twice_matches_detaching_once() {
    let mut one = [1u8, 2, 3, 4, 5, 6, 7];
    let mut two = one;

    let mut arena_one = PrefixArena::new(&mut one);
    let whole = arena_one.take_prefix(5);
    assert_eq!(whole, &[1, 2, 3, 4, 5]);
    assert_eq!(arena_one.take_remaining(), &[6, 7]);

    let mut arena_two = PrefixArena::new(&mut two);
    let first = arena_two.take_prefix(2);
    let second = arena_two.take_prefix(3);
    assert_eq!(first, &[1, 2]);
    assert_eq!(second, &[3, 4, 5]);
    assert_eq!(arena_two.take_remaining(), &[6, 7]);
}

#[test]
fn detached_prefix_and_remainder_cover_storage() {
    let mut data = [9u8, 8, 7, 6];
    let mut arena = PrefixArena::new(&mut data);
    let head = arena.take_prefix(1);
    let tail = arena.take_remaining();
    let mut joined = head.to_vec();
    joined.extend_from_slice(tail);
    assert_eq!(joined, vec![9, 8, 7, 6]);
}

#[test]
fn take_prefix_checked_exact_length_empties_arena() {
    let mut data = [4u8, 5, 6];
    let mut arena = PrefixArena::new(&mut data);
    assert_eq!(arena.take_prefix_checked(3).unwrap(), &[4, 5, 6]);
    assert!(arena.is_empty());
    assert!(arena.take_prefix_checked(1).is_none());
    assert_eq!(arena.take_prefix_checked(0).unwrap().len(), 0);
}

#[test]
fn from_slice_and_uninit_conversions_keep_length() {
    let mut bytes = [1u8, 2, 3];
    let arena = PrefixArena::from(&mut bytes[..]);
    assert_eq!(arena.take_remaining(), &[1, 2, 3]);

    let mut slots = [MaybeUninit::<u8>::uninit(); 4];
    let mut arena = PrefixArena::from(&mut slots);
    assert_eq!(arena.len(), 4);
    assert_eq!(arena.take_prefix(3).len(), 3);
    assert_eq!(arena.len(), 1);

    let mut more_slots = [MaybeUninit::<u8>::uninit(); 2];
    let arena = PrefixArena::from(&mut more_slots[..]);
    assert_eq!(arena.take_remaining().len(), 2);
}

#[test]
fn view_init_with_error_keeps_view_and_arena() {
    let mut data = [1u8, 2, 3];
    let mut arena = PrefixArena::new(&mut data);
    {
        let mut view = arena.view();
        let result = view.init_with(|buffer| {
            buffer[2] = 30;
            Err::<usize, u8>(7)
        });
        assert_eq!(result.unwrap_err(), 7);
        assert_eq!(view.len(), 3);
        assert_eq!(view.as_slice(), &[1, 2, 30]);
        assert_eq!(view.as_uninit_slice(), &[1, 2, 30]);
    }
    assert_eq!(arena.len(), 3);
    assert_eq!(arena.take_remaining(), &[1, 2, 30]);
}

#[test]
fn view_init_with_zero_length_detaches_nothing() {
    let mut data = [1u8, 2];
    let mut arena = PrefixArena::new(&mut data);
    let detached = arena
        .view()
        .init_prefix_with(|_| Ok::<usize, ()>(0))
        .unwrap();
    assert_eq!(detached.len(), 0);
    assert_eq!(arena.len(), 2);
}

#[test]
fn view_uninit_slice_mut_writes_reach_arena() {
    let mut data = [0u8; 3];
    let mut arena = PrefixArena::new(&mut data);
    {
        let mut view = arena.view();
        view.as_uninit_slice_mut()[2] = 5;
    }
    assert_eq!(arena.take_remaining(), &[0, 0, 5]);
}

#[test]
fn prefix_arena_checked_init_full_length() {
    let mut data = [0u8; 2];
    let arena = PrefixArena::new(&mut data);
    let detached = arena
        .init_prefix_with_checked(|buffer| {
            buffer.copy_from_slice(&[3, 4]);
            Ok::<usize, ()>(2)
        })
        .unwrap()
        .unwrap();
    assert_eq!(detached, &[3, 4]);
}

#[test]
fn prefix_arena_checked_init_error() {
    let mut data = [0u8; 2];
    let arena = PrefixArena::new(&mut data);
    let result = arena.init_prefix_with_checked(|_| Err::<usize, &str>("no"));
    assert_eq!(result.unwrap_err(), "no");
}

#[test]
fn staging_error_message() {
    assert_eq!(
        StagingBufferError.to_string(),
        "staging buffer capacity exceeded"
    );
}

#[test]
fn staging_error_values() {
    let mut storage = [0u8; 1];
    let mut arena = PrefixArena::new(&mut storage);
    let mut staging = StagingBuffer::new(&mut arena);
    assert_eq!(staging.extend_from_slice(&[1, 2]), Err(StagingBufferError));
    assert_eq!(staging.push_byte(1), Ok(()));
    assert_eq!(staging.push_byte(2), Err(StagingBufferError));
}

#[test]
fn staging_pieces_equal_whole() {
    let mut one = [0u8; 6];
    let mut two = [0u8; 6];
    {
        let mut arena = PrefixArena::new(&mut one);
        let mut staging = StagingBuffer::new(&mut arena);
        staging.extend_from_slice(&[1, 2]).unwrap();
        staging.extend_from_slice(&[3, 4, 5]).unwrap();
        assert_eq!(staging.written(), &[1, 2, 3, 4, 5]);
    }
    {
        let mut arena = PrefixArena::new(&mut two);
        let mut staging = StagingBuffer::new(&mut arena);
        staging.extend_from_slice(&[1, 2, 3, 4, 5]).unwrap();
        assert_eq!(staging.written(), &[1, 2, 3, 4, 5]);
    }
    assert_eq!(one, two);
}

#[test]
fn staging_pieces_fail_when_whole_fails() {
    let mut storage = [0u8; 4];
    let mut arena = PrefixArena::new(&mut storage);
    let mut staging = StagingBuffer::new(&mut arena);
    assert!(staging.extend_from_slice(&[1, 2, 3, 4, 5]).is_err());
    staging.extend_from_slice(&[1, 2]).unwrap();
    assert!(staging.extend_from_slice(&[3, 4, 5]).is_err());
    assert_eq!(staging.written(), &[1, 2]);
}

#[test]
fn push_byte_matches_one_byte_extend() {
    let mut one = [7u8; 3];
    let mut two = [7u8; 3];
    {
        let mut arena = PrefixArena::new(&mut one);
        let mut staging = StagingBuffer::new(&mut arena);
        staging.push_byte(1).unwrap();
    }
    {
        let mut arena = PrefixArena::new(&mut two);
        let mut staging = StagingBuffer::new(&mut arena);
        staging.extend_from_slice(&[1]).unwrap();
    }
    assert_eq!(one, two);
    assert_eq!(one, [1, 7, 7]);
}

#[test]
fn staging_len_and_spare_always_sum_to_capacity() {
    let mut storage = [0u8; 4];
    let mut arena = PrefixArena::new(&mut storage);
    let mut staging = StagingBuffer::new(&mut arena);
    assert!(staging.is_empty());
    for byte in 0..6u8 {
        let _ = staging.push_byte(byte);
        assert_eq!(staging.len() + staging.spare_capacity(), staging.capacity());
        assert_eq!(staging.capacity(), 4);
    }
    assert!(!staging.is_empty());
    assert_eq!(staging.written(), &[0, 1, 2, 3]);
}

#[test]
fn cleared_bytes_stay_in_arena_storage() {
    let mut storage = [0u8; 4];
    let mut arena = PrefixArena::new(&mut storage);
    {
        let mut staging = StagingBuffer::new(&mut arena);
        staging.extend_from_slice(&[1, 2, 3]).unwrap();
        staging.clear();
        staging.push_byte(9).unwrap();
        let written = staging.into_written_slice();
        assert_eq!(written, &[9]);
    }
    assert_eq!(arena.take_remaining(), &[2, 3, 0]);
}

#[test]
fn written_mut_edits_are_committed() {
    let mut storage = [0u8; 4];
    let mut arena = PrefixArena::new(&mut storage);
    let mut staging = StagingBuffer::new(&mut arena);
    staging.extend_from_slice(&[1, 2]).unwrap();
    staging.written_mut()[0] = 42;
    let written = staging.into_written_slice();
    assert_eq!(written, &[42, 2]);
    assert_eq!(arena.len(), 2);
}

#[test]
fn capped_extend_on_partial_buffer() {
    let mut storage = [0u8; 4];
    let mut arena = PrefixArena::new(&mut storage);
    let mut staging = StagingBuffer::new(&mut arena);
    staging.push_byte(1).unwrap();
    assert_eq!(staging.extend_from_slice_capped(&[2, 3, 4, 5, 6]), 3);
    assert_eq!(staging.written(), &[1, 2, 3, 4]);
    assert_eq!(staging.spare_capacity(), 0);
}

#[test]
fn detached_writes_land_in_caller_storage() {
    let mut data = [1u8, 2, 3, 4];
    {
        let mut arena = PrefixArena::new(&mut data);
        let head = arena.take_prefix(1);
        {
            let mut view = arena.view();
            view.as_slice_mut()[1] = 30;
            let middle = view.take_prefix(1);
            middle[0] = 20;
        }
        head[0] = 10;
        let rest = arena.take_remaining();
        rest[1] = 40;
    }
    assert_eq!(data, [10, 20, 30, 40]);
}
