use git_repository::glob::pattern::{Mode, ENDS_WITH, MUST_BE_DIR, NEGATIVE, NO_SUB_DIR};
use git_repository::glob::Pattern;

#[test]
fn pattern_keeps_bytes_and_mode() {
    let mode = Mode { no_sub_dir: true, ends_with: false, must_be_dir: true, negative: false };
    let pattern = Pattern::new(b"*.o".to_vec(), mode);
    assert_eq!(pattern.text(), b"*.o");
    assert_eq!(pattern.mode(), mode);
}

#[test]
fn mode_bits_of_each_facet() {
    assert_eq!(Mode::empty().bits(), 0);
    assert_eq!(Mode { no_sub_dir: true, ..Mode::empty() }.bits(), 1 << 0);
    assert_eq!(Mode { ends_with: true, ..Mode::empty() }.bits(), 1 << 1);
    assert_eq!(Mode { must_be_dir: true, ..Mode::empty() }.bits(), 1 << 2);
    assert_eq!(Mode { negative: true, ..Mode::empty() }.bits(), 1 << 3);
    assert_eq!((NO_SUB_DIR, ENDS_WITH, MUST_BE_DIR, NEGATIVE), (1, 2, 4, 8));
    assert_eq!(Mode { no_sub_dir: true, ends_with: true, must_be_dir: true, negative: true }.bits(), 15);
}

#[test]
fn mode_bits_round_trip() {
    for bits in 0..16u32 {
        let mode = Mode::from_bits(bits).unwrap();
        assert_eq!(mode.bits(), bits);
        assert_eq!(mode.no_sub_dir, bits & NO_SUB_DIR != 0);
        assert_eq!(mode.ends_with, bits & ENDS_WITH != 0);
        assert_eq!(mode.must_be_dir, bits & MUST_BE_DIR != 0);
        assert_eq!(mode.negative, bits & NEGATIVE != 0);
    }
}

#[test]
fn unknown_mode_bits_are_refused() {
    assert_eq!(Mode::from_bits(16), None);
    assert_eq!(Mode::from_bits(1 << 31), None);
    assert_eq!(Mode::from_bits(u32::MAX), None);
}
