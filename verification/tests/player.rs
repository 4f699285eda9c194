use playcore::player::MAX_FILE_SIZE_FOR_SEEK_INDEX;
use playcore::player::Player;
use playcore::player::PlayerError;
use playcore::seek_index::SeekIndex;
use playcore::seek_index::SeekSample;

fn sample(time_ms: u64, byte_offset: u64) -> SeekSample {
    SeekSample { time_ms, byte_offset }
}

fn small_index() -> SeekIndex {
    SeekIndex::from_samples(vec![sample(0, 0), sample(1000, 1000), sample(2000, 2000)])
        .expect("table should be sorted")
}

#[test]
fn fresh_player_is_empty_and_not_seekable() {
    let p = Player::new();
    assert!(!p.is_file_loaded());
    assert!(!p.is_seekable());
    assert_eq!(p.duration(), None);
}

#[test]
fn load_installs_duration_and_index() {
    let mut p = Player::new();
    let r = p.finish_load(3_000, Some(2_000), Some(small_index()), true);
    assert_eq!(r, Ok(()));
    assert!(p.is_file_loaded());
    assert!(p.is_seekable());
    assert_eq!(p.duration(), Some(2_000));
}

#[test]
fn seek_resolves_to_floor_offset_and_elapsed_reads_it_back() {
    let mut p = Player::new();
    p.finish_load(3_000, Some(2_000), Some(small_index()), true).unwrap();
    // a seek to 1.5 s lands on the 1 s sample's byte offset
    assert_eq!(p.seek_target(1_500), Ok(1_000));
    // with the cursor at that offset, the reported position is 1 s
    assert_eq!(p.elapsed_at(1_000), Ok(1_000));
}

#[test]
fn analysis_failures_downgrade_but_do_not_fail_the_load() {
    let mut p = Player::new();
    let r = p.finish_load(3_000, None, None, true);
    assert_eq!(r, Ok(()));
    assert!(p.is_file_loaded());
    assert!(!p.is_seekable());
    assert_eq!(p.duration(), None);
    assert_eq!(p.seek_target(0), Err(PlayerError::NoSeekIndex));
    assert_eq!(p.elapsed_at(0), Err(PlayerError::NoSeekIndex));
}

#[test]
fn oversize_file_keeps_duration_but_is_never_seekable() {
    let mut p = Player::new();
    let r = p.finish_load(MAX_FILE_SIZE_FOR_SEEK_INDEX + 1, Some(9_000), Some(small_index()), true);
    assert_eq!(r, Ok(()));
    assert_eq!(p.duration(), Some(9_000));
    assert!(p.is_file_loaded());
    assert!(!p.is_seekable());
    assert_eq!(p.seek_target(0), Err(PlayerError::NoSeekIndex));
    assert_eq!(p.seek_target(u64::MAX), Err(PlayerError::NoSeekIndex));
}

#[test]
fn file_at_the_ceiling_is_still_indexed() {
    let mut p = Player::new();
    p.finish_load(MAX_FILE_SIZE_FOR_SEEK_INDEX, Some(1), Some(small_index()), true).unwrap();
    assert!(p.is_seekable());
}

#[test]
fn failed_handle_clone_fails_the_load_and_leaves_the_player_empty() {
    let mut p = Player::new();
    p.finish_load(3_000, Some(2_000), Some(small_index()), true).unwrap();
    let r = p.finish_load(3_000, Some(5_000), Some(small_index()), false);
    assert_eq!(r, Err(PlayerError::UnableToCloneFileHandle));
    assert!(!p.is_file_loaded());
    assert!(!p.is_seekable());
    assert_eq!(p.duration(), None);
}

#[test]
fn second_load_fully_replaces_the_first() {
    let mut p = Player::new();
    p.finish_load(3_000, Some(2_000), Some(small_index()), true).unwrap();
    let second = SeekIndex::from_samples(vec![sample(0, 0), sample(500, 4_096)])
        .expect("table should be sorted");
    p.finish_load(8_000, Some(7_000), Some(second), true).unwrap();
    assert_eq!(p.duration(), Some(7_000));
    assert_eq!(p.seek_target(1_500), Ok(4_096));
    assert_eq!(p.elapsed_at(4_096), Ok(500));
    assert_eq!(p.elapsed_at(1_000), Ok(0));
}

#[test]
fn stop_releases_everything_and_is_idempotent() {
    let mut p = Player::new();
    p.finish_load(3_000, Some(2_000), Some(small_index()), true).unwrap();
    p.stop();
    assert!(!p.is_file_loaded());
    assert!(!p.is_seekable());
    assert_eq!(p.duration(), None);
    assert_eq!(p.seek_target(0), Err(PlayerError::NoSeekIndex));
    assert_eq!(p.elapsed_at(0), Err(PlayerError::NoFileHandle));
    p.stop();
    assert!(!p.is_seekable());
}

#[test]
fn elapsed_without_a_file_reports_no_file_handle() {
    let p = Player::new();
    assert_eq!(p.elapsed_at(0), Err(PlayerError::NoFileHandle));
}

#[test]
fn should_build_seek_index_honours_the_ceiling() {
    assert!(Player::should_build_seek_index(0));
    assert!(Player::should_build_seek_index(MAX_FILE_SIZE_FOR_SEEK_INDEX));
    assert!(!Player::should_build_seek_index(MAX_FILE_SIZE_FOR_SEEK_INDEX + 1));
}
