use rust_video_devices::buffer_pool::BufferPool as SlicePool;
use rust_video_devices::slint_renderer::BufferPool;

#[test]
fn first_request_gives_zeroed_buffer_of_that_size() {
    let mut pool = BufferPool::new();
    let buf = pool.get_buffer(5);
    assert_eq!(buf.len(), 5);
    assert!(buf.iter().all(|b| *b == 0));
}

#[test]
fn second_request_gives_back_what_was_written() {
    let mut pool = BufferPool::new();
    pool.get_buffer(3).copy_from_slice(&[1, 2, 3]);
    assert_eq!(pool.get_buffer(3).as_slice(), &[1, 2, 3]);
    assert_eq!(pool.get_buffer(4).as_slice(), &[0, 0, 0, 0]);
    assert_eq!(pool.get_buffer(3).as_slice(), &[1, 2, 3]);
}

#[test]
fn slice_pool_keeps_sizes_and_contents() {
    let mut pool = SlicePool::new();
    {
        let buf = pool.get_buffer(4);
        assert_eq!(buf, &[0, 0, 0, 0]);
        buf[2] = 9;
    }
    assert_eq!(pool.get_buffer(4), &[0, 0, 9, 0]);
    assert_eq!(pool.get_buffer(0).len(), 0);
    assert_eq!(pool.get_buffer(2), &[0, 0]);
}

#[test]
fn buffer_survives_any_run_of_other_sizes() {
    let mut pool = BufferPool::new();
    pool.get_buffer(6).copy_from_slice(&[6, 5, 4, 3, 2, 1]);
    for size in [1usize, 2, 7, 12, 3, 0, 5] {
        let buf = pool.get_buffer(size);
        for b in buf.iter_mut() {
            *b = 0xAB;
        }
    }
    assert_eq!(pool.get_buffer(6).as_slice(), &[6, 5, 4, 3, 2, 1]);
    assert_eq!(pool.get_buffer(7).as_slice(), &[0xAB; 7]);
}
