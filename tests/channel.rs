use automata::channel::{kernel_channel, SendError};

#[test]
fn wrong_length_is_refused() {
    let (mut tx, _rx) = kernel_channel::<u32>(4, 3);
    assert_eq!(tx.chunk_len(), 4);
    assert_eq!(tx.send(&[1, 2, 3]), Err(SendError::WrongLength));
    assert_eq!(tx.send(&[1, 2, 3, 4, 5]), Err(SendError::WrongLength));
}

#[test]
fn empty_channel_keeps_the_old_kernel() {
    let (_tx, mut rx) = kernel_channel::<u32>(3, 2);
    assert_eq!(rx.max_chunks(), 2);
    let mut kernel = [7, 8, 9];
    assert!(!rx.receive_latest(&mut kernel));
    assert_eq!(kernel, [7, 8, 9]);
}

#[test]
fn newest_kernel_wins() {
    let (mut tx, mut rx) = kernel_channel::<u32>(3, 3);
    assert_eq!(tx.send(&[1, 1, 1]), Ok(()));
    assert_eq!(tx.send(&[2, 2, 2]), Ok(()));
    let mut kernel = [0; 3];
    assert!(rx.receive_latest(&mut kernel));
    assert_eq!(kernel, [2, 2, 2]);
    assert!(!rx.receive_latest(&mut kernel));
    assert_eq!(kernel, [2, 2, 2]);
}

#[test]
fn full_channel_drops_the_kernel() {
    let (mut tx, mut rx) = kernel_channel::<u32>(2, 2);
    assert_eq!(tx.send(&[1, 1]), Ok(()));
    assert_eq!(tx.send(&[2, 2]), Ok(()));
    assert_eq!(tx.send(&[3, 3]), Err(SendError::Full));
    let mut kernel = [0; 2];
    assert!(rx.receive_latest(&mut kernel));
    assert_eq!(kernel, [2, 2]);
    assert_eq!(rx.chunk_len(), 2);
}

#[test]
fn interleaved_kernels_are_whole_and_in_order() {
    let len = 385usize;
    let (mut tx, mut rx) = kernel_channel::<(f32, f32)>(len, 3);
    let mut kernel = vec![(0.0f32, 0.0f32); len];
    let mut last = 0.0f32;
    let mut state: u32 = 12345;
    let mut sent = 0u32;
    let mut received = 0u32;
    for generation in 1..=2000u32 {
        // Push between zero and three kernels, then read, in a varying rhythm.
        state = state.wrapping_mul(1103515245).wrapping_add(12345);
        for extra in 0..(state >> 16) % 4 {
            let value = (generation * 4 + extra) as f32;
            if tx.send(&vec![(value, -value); len]).is_ok() {
                sent += 1;
            }
        }
        let got = rx.receive_latest(&mut kernel);
        let first = kernel[0];
        assert!(kernel.iter().all(|&bin| bin == first), "torn kernel");
        assert_eq!(first.1, -first.0);
        assert!(first.0 >= last, "kernels out of order");
        if got {
            assert!(first.0 > last);
            received += 1;
        }
        last = first.0;
    }
    assert!(sent > received);
    assert!(received > 0);
}
