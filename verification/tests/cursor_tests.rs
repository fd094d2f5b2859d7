use wings_rs::cursor::{move_saturating, ReadCursor, SeekTarget};

#[test]
fn seek_from_start_and_end() {
    let mut c = ReadCursor::new(100);
    assert_eq!(c.offset, 0);
    assert_eq!(c.seek(SeekTarget::Start(40)), 40);
    assert_eq!(c.seek(SeekTarget::End(0)), 100);
    assert_eq!(c.seek(SeekTarget::End(-30)), 70);
    assert_eq!(c.seek(SeekTarget::End(5)), 105);
    assert_eq!(c.file_size, 100);
}

#[test]
fn seek_relative_saturates() {
    let mut c = ReadCursor::new(10);
    c.seek(SeekTarget::Start(5));
    assert_eq!(c.seek(SeekTarget::Current(-20)), 0);
    c.seek(SeekTarget::Start(u64::MAX - 1));
    assert_eq!(c.seek(SeekTarget::Current(10)), u64::MAX);
    assert_eq!(c.seek(SeekTarget::End(i64::MIN)), 0);
}

#[test]
fn seek_forth_and_back_returns() {
    let mut c = ReadCursor::new(10);
    c.seek(SeekTarget::Start(1000));
    c.seek(SeekTarget::Current(123));
    assert_eq!(c.seek(SeekTarget::Current(-123)), 1000);
}

#[test]
fn saturating_move_of_most_negative_delta() {
    assert_eq!(move_saturating(u64::MAX, i64::MIN), u64::MAX - (1u64 << 63));
    assert_eq!(move_saturating(3, -1), 2);
    assert_eq!(move_saturating(3, 4), 7);
}

#[test]
fn reads_advance_the_offset() {
    let mut c = ReadCursor::new(50);
    c.advance(20);
    c.advance(0);
    assert_eq!(c.offset, 20);
}
