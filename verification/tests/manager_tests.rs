use rbd::job::JobState;
use rbd::manager::{DownloadManager, DownloadMode, ManagerError};

#[test]
fn test_initial_state_is_pending() {
    let mgr = DownloadManager::new(DownloadMode::Parallel);
    assert_eq!(mgr.job_state(), JobState::Pending);
}

#[test]
fn test_mark_running() {
    let mut mgr = DownloadManager::new(DownloadMode::Parallel);
    let state = mgr.mark_running();
    assert_eq!(state, JobState::Running);
    assert_eq!(mgr.job_state(), JobState::Running);
}

#[test]
fn test_pause_from_running() {
    let mut mgr = DownloadManager::new(DownloadMode::Parallel);
    mgr.mark_running();
    let state = mgr.pause();
    assert_eq!(state, JobState::Paused);
}

#[test]
fn test_pause_fails_from_pending() {
    let mut mgr = DownloadManager::new(DownloadMode::Parallel);
    let state = mgr.pause();
    assert_eq!(state, JobState::Pending);
}

#[test]
fn test_cancel_from_pending() {
    let mut mgr = DownloadManager::new(DownloadMode::Parallel);
    let state = mgr.cancel();
    assert_eq!(state, JobState::Cancelled);
    assert!(mgr.cancelled_flag());
}

#[test]
fn test_resume_from_paused() {
    let mut mgr = DownloadManager::new(DownloadMode::Parallel);
    mgr.mark_running();
    mgr.pause();
    let state = mgr.resume();
    assert_eq!(state, JobState::Running);
}

#[test]
fn test_cancel_is_terminal() {
    let mut mgr = DownloadManager::new(DownloadMode::Parallel);
    mgr.cancel();
    let state = mgr.mark_running();
    assert_eq!(state, JobState::Cancelled);
}

#[test]
fn test_mark_failed() {
    let mut mgr = DownloadManager::new(DownloadMode::Parallel);
    mgr.mark_running();
    let state = mgr.mark_failed("network timeout".to_string());
    assert_eq!(state, JobState::Failed("network timeout".into()));
}

#[test]
fn resume_leaves_a_cancelled_job_cancelled_and_flagged() {
    let mut mgr = DownloadManager::new(DownloadMode::Aria2c);
    assert_eq!(mgr.mode(), DownloadMode::Aria2c);
    assert!(mgr.video_tasks().is_empty() && mgr.audio_tasks().is_empty());
    mgr.cancel();
    assert!(mgr.cancelled_flag());
    assert_eq!(mgr.resume(), JobState::Cancelled);
    assert!(mgr.cancelled_flag());
}

#[test]
fn resume_leaves_a_pending_job_pending() {
    let mut mgr = DownloadManager::new(DownloadMode::Parallel);
    assert_eq!(mgr.resume(), JobState::Pending);
    assert_eq!(mgr.job_state(), JobState::Pending);
}

#[test]
fn begin_download_in_parallel_mode() {
    let mut mgr = DownloadManager::new(DownloadMode::Parallel);
    assert_eq!(mgr.begin_download(true, false), Ok(()));
    assert_eq!(mgr.job_state(), JobState::Running);
    assert_eq!(mgr.mark_done(), JobState::Done);
}

#[test]
fn begin_download_without_streams_fails_the_job() {
    let mut mgr = DownloadManager::new(DownloadMode::Parallel);
    assert_eq!(mgr.begin_download(false, false), Err(ManagerError::NothingToDownload));
    assert_eq!(
        mgr.job_state(),
        JobState::Failed("至少需要视频或音频下载任务之一".to_string())
    );
}

#[test]
fn begin_download_refused_through_aria2c() {
    let mut mgr = DownloadManager::new(DownloadMode::Aria2c);
    assert_eq!(mgr.begin_download(true, true), Err(ManagerError::Aria2cUnsupported));
    assert_eq!(mgr.job_state(), JobState::Pending);
}
