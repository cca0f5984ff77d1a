use blockcopy::copy::copy_slice;
use blockcopy::progress::progress_total;
use blockcopy::session::{Action, CopyError, Phase, Session};

fn pattern(len: usize) -> Vec<u8> {
    (0..len).map(|i| (i * 7 % 251) as u8).collect()
}

#[test]
fn thousand_bytes_in_blocks_of_512() {
    let src = pattern(1000);
    let r = copy_slice(&src, 512, 10, 4096);
    assert_eq!(r.output, src);
    assert_eq!(r.blocks, 1);
    assert_eq!(r.advances, 1);
    assert_eq!(r.bytes_read, 1000);
}

#[test]
fn empty_source() {
    let src: Vec<u8> = Vec::new();
    let r = copy_slice(&src, 512, 1, 512);
    assert!(r.output.is_empty());
    assert_eq!(r.blocks, 0);
    assert_eq!(r.advances, 0);
    assert_eq!(r.bytes_read, 0);
}

#[test]
fn exact_multiple_copied_whole() {
    let src = pattern(3 * 64);
    for chunk in [1usize, 5, 64, 1000] {
        let r = copy_slice(&src, 64, 3, chunk);
        assert_eq!(r.output, src);
        assert_eq!(r.blocks, 3);
        assert_eq!(r.advances, 3);
    }
    let r = copy_slice(&src, 64, 8, 17);
    assert_eq!(r.output, src);
    assert_eq!(r.blocks, 3);
}

#[test]
fn partial_tail_written_not_counted() {
    let src = pattern(100);
    let r = copy_slice(&src, 30, 5, 7);
    assert_eq!(r.output, src);
    assert_eq!(r.blocks, 3);
    assert_eq!(r.advances, 3);
}

#[test]
fn limit_stops_reading() {
    let src = pattern(1000);
    let r = copy_slice(&src, 100, 4, 33);
    assert_eq!(r.output, src[..400].to_vec());
    assert_eq!(r.blocks, 4);
    assert_eq!(r.advances, 4);
    assert_eq!(r.bytes_read, 400);
}

#[test]
fn copy_back_reproduces_source() {
    let src = pattern(777);
    let there = copy_slice(&src, 128, 10, 50);
    let back = copy_slice(&there.output, 128, 10, 50);
    assert_eq!(back.output, src);
}

#[test]
fn single_byte_blocks() {
    let src = pattern(10);
    let r = copy_slice(&src, 1, 100, 3);
    assert_eq!(r.output, src);
    assert_eq!(r.blocks, 10);
    let r = copy_slice(&src, 1, 4, 3);
    assert_eq!(r.output, src[..4].to_vec());
    assert_eq!(r.blocks, 4);
}

#[test]
fn zero_limit_does_nothing() {
    let src = pattern(10);
    let r = copy_slice(&src, 4, 0, 4);
    assert!(r.output.is_empty());
    assert_eq!(r.blocks, 0);
    assert_eq!(r.bytes_read, 0);
    let s = Session::new(4, 0);
    assert!(s.is_done());
    assert_eq!(s.next_action(), Action::Finish);
}

#[test]
fn session_steps_through_a_block() {
    let mut s = Session::new(4, 2);
    assert_eq!(s.phase_of(), Phase::Assembling);
    assert_eq!(s.next_action(), Action::Read(4));
    s.on_read(&[1, 2]);
    assert_eq!(s.next_action(), Action::Read(2));
    s.on_read(&[3, 4]);
    assert_eq!(s.next_action(), Action::Write);
    assert_eq!(s.pending(), &[1, 2, 3, 4]);
    assert_eq!(s.on_written(4), Ok(true));
    assert_eq!(s.blocks_completed_of(), 1);
    assert_eq!(s.next_action(), Action::Read(4));
    s.on_read(&[5]);
    s.on_read(&[]);
    assert!(s.is_end_of_source());
    assert_eq!(s.next_action(), Action::Write);
    assert_eq!(s.pending(), &[5]);
    assert_eq!(s.on_written(1), Ok(false));
    assert_eq!(s.blocks_completed_of(), 1);
    assert_eq!(s.next_action(), Action::Flush);
    s.on_flushed();
    assert_eq!(s.next_action(), Action::Finish);
    assert_eq!(s.block_size_of(), 4);
    assert_eq!(s.block_limit_of(), 2);
}

#[test]
fn session_end_on_limit() {
    let mut s = Session::new(2, 1);
    s.on_read(&[9, 8]);
    assert_eq!(s.on_written(2), Ok(true));
    assert!(!s.is_end_of_source());
    assert_eq!(s.next_action(), Action::Flush);
}

#[test]
fn short_write_fails() {
    let mut s = Session::new(4, 1);
    s.on_read(&[1, 2, 3, 4]);
    assert_eq!(
        s.on_written(3),
        Err(CopyError::ShortWrite { requested: 4, written: 3 })
    );
    assert_eq!(s.next_action(), Action::Write);
    assert_eq!(s.pending(), &[1, 2, 3, 4]);
}

#[test]
fn progress_total_is_capped_ceiling() {
    assert_eq!(progress_total(1000, 512, 10), 2);
    assert_eq!(progress_total(1024, 512, 10), 2);
    assert_eq!(progress_total(1025, 512, 10), 3);
    assert_eq!(progress_total(0, 512, 10), 0);
    assert_eq!(progress_total(10_000, 512, 3), 3);
    assert_eq!(progress_total(u64::MAX, 1, 5), 5);
}
