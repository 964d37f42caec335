//! The download manager's decisions: the job's state, its cancellation flag,
//! and when a download may start. The transfers themselves are the caller's.

use vstd::prelude::*;
use crate::job::{JobState, JobStateView, step_or_stay};

verus! {

/// How files are fetched.
#[derive(Debug, Clone, Copy, PartialEq, Eq, Structural)]
pub enum DownloadMode {
    /// With the built-in parallel downloader.
    Parallel,
    /// Through an aria2c server.
    Aria2c,
}

/// Why a download could not start.
#[derive(Debug, Clone, PartialEq, Eq, Structural)]
pub enum ManagerError {
    /// Downloads through aria2c are not handled here.
    Aria2cUnsupported,
    /// Neither a video nor an audio download was asked for.
    NothingToDownload,
}

/// The reason recorded when neither a video nor an audio download is asked
/// for.
pub open spec fn nothing_to_download() -> Seq<char> {
    "至少需要视频或音频下载任务之一"@
}

/// A download job: its mode, its tasks, its state and its cancellation flag.
pub struct DownloadManager {
    mode: DownloadMode,
    video_tasks: Vec<String>,
    audio_tasks: Vec<String>,
    state: JobState,
    cancelled: bool,
}

impl DownloadManager {
    /// A cancelled job has its cancellation flag set.
    #[verifier::type_invariant]
    closed spec fn flag_follows_state(&self) -> bool {
        self.state@ is Cancelled ==> self.cancelled
    }

    /// How files are fetched.
    pub closed spec fn mode_of(&self) -> DownloadMode {
        self.mode
    }

    /// The video and audio tasks.
    pub closed spec fn tasks_of(&self) -> (Seq<String>, Seq<String>) {
        (self.video_tasks@, self.audio_tasks@)
    }

    /// The state of the job.
    pub closed spec fn state_view(&self) -> JobStateView {
        self.state@
    }

    /// The cancellation flag.
    pub closed spec fn cancel_flag(&self) -> bool {
        self.cancelled
    }

    /// A manager of a pending job in the given mode, not cancelled, with no
    /// tasks.
    pub fn new(mode: DownloadMode) -> (r: DownloadManager)
        ensures
            r.state_view() == JobStateView::Pending,
            !r.cancel_flag(),
            r.mode_of() == mode,
            r.tasks_of().0.len() == 0 && r.tasks_of().1.len() == 0,
    {
        DownloadManager {
            mode,
            video_tasks: Vec::new(),
            audio_tasks: Vec::new(),
            state: JobState::Pending,
            cancelled: false,
        }
    }

    /// How files are fetched.
    pub fn mode(&self) -> (r: DownloadMode)
        ensures
            r == self.mode_of(),
    {
        self.mode
    }

    /// The video tasks.
    pub fn video_tasks(&self) -> (r: &Vec<String>)
        ensures
            r@ == self.tasks_of().0,
    {
        &self.video_tasks
    }

    /// The audio tasks.
    pub fn audio_tasks(&self) -> (r: &Vec<String>)
        ensures
            r@ == self.tasks_of().1,
    {
        &self.audio_tasks
    }

    /// The current state.
    pub fn job_state(&self) -> (r: JobState)
        ensures
            r@ == self.state_view(),
    {
        self.state.duplicate()
    }

    /// Whether cancellation was asked for; always so for a cancelled job.
    pub fn cancelled_flag(&self) -> (r: bool)
        ensures
            r == self.cancel_flag(),
            self.state_view() is Cancelled ==> r,
    {
        proof {
            use_type_invariant(self);
        }
        self.cancelled
    }

    fn request(&mut self, next: JobState) -> (r: JobState)
        requires
            next@ is Cancelled ==> old(self).cancel_flag(),
        ensures
            final(self).state_view() == step_or_stay(old(self).state_view(), next@),
            final(self).cancel_flag() == old(self).cancel_flag(),
            r@ == final(self).state_view(),
            final(self).mode_of() == old(self).mode_of(),
            final(self).tasks_of() == old(self).tasks_of(),
    {
        match self.state.transition(&next) {
            Ok(s) => {
                self.state = s;
                self.state.duplicate()
            },
            Err(_) => self.state.duplicate(),
        }
    }

    /// Sets the cancellation flag and moves to `Cancelled` where allowed;
    /// gives the resulting state.
    pub fn cancel(&mut self) -> (r: JobState)
        ensures
            final(self).state_view() == step_or_stay(old(self).state_view(), JobStateView::Cancelled),
            final(self).cancel_flag(),
            r@ == final(self).state_view(),
            final(self).mode_of() == old(self).mode_of(),
            final(self).tasks_of() == old(self).tasks_of(),
    {
        self.cancelled = true;
        self.request(JobState::Cancelled)
    }

    /// Moves a running job to `Paused`; gives the resulting state.
    pub fn pause(&mut self) -> (r: JobState)
        ensures
            final(self).state_view() == step_or_stay(old(self).state_view(), JobStateView::Paused),
            final(self).cancel_flag() == old(self).cancel_flag(),
            r@ == final(self).state_view(),
            final(self).mode_of() == old(self).mode_of(),
            final(self).tasks_of() == old(self).tasks_of(),
    {
        self.request(JobState::Paused)
    }

    /// Resumes a paused job: clears the cancellation flag and moves it to
    /// `Running`. A job in any other state is left as it is. Gives the
    /// resulting state.
    pub fn resume(&mut self) -> (r: JobState)
        ensures
            old(self).state_view() is Paused ==> final(self).state_view() == JobStateView::Running
                && !final(self).cancel_flag(),
            !(old(self).state_view() is Paused) ==> final(self).state_view() == old(
                self,
            ).state_view() && final(self).cancel_flag() == old(self).cancel_flag(),
            r@ == final(self).state_view(),
            final(self).mode_of() == old(self).mode_of(),
            final(self).tasks_of() == old(self).tasks_of(),
    {
        if let JobState::Paused = self.state {
            self.cancelled = false;
            self.request(JobState::Running)
        } else {
            self.state.duplicate()
        }
    }

    /// Moves to `Running` where allowed; gives the resulting state.
    pub fn mark_running(&mut self) -> (r: JobState)
        ensures
            final(self).state_view() == step_or_stay(old(self).state_view(), JobStateView::Running),
            final(self).cancel_flag() == old(self).cancel_flag(),
            r@ == final(self).state_view(),
            final(self).mode_of() == old(self).mode_of(),
            final(self).tasks_of() == old(self).tasks_of(),
    {
        self.request(JobState::Running)
    }

    /// Moves to `Done` where allowed; gives the resulting state.
    pub fn mark_done(&mut self) -> (r: JobState)
        ensures
            final(self).state_view() == step_or_stay(old(self).state_view(), JobStateView::Done),
            final(self).cancel_flag() == old(self).cancel_flag(),
            r@ == final(self).state_view(),
            final(self).mode_of() == old(self).mode_of(),
            final(self).tasks_of() == old(self).tasks_of(),
    {
        self.request(JobState::Done)
    }

    /// Moves to `Failed(reason)` where allowed; gives the resulting state.
    pub fn mark_failed(&mut self, reason: String) -> (r: JobState)
        ensures
            final(self).state_view() == step_or_stay(
                old(self).state_view(),
                JobStateView::Failed(reason@),
            ),
            final(self).cancel_flag() == old(self).cancel_flag(),
            r@ == final(self).state_view(),
            final(self).mode_of() == old(self).mode_of(),
            final(self).tasks_of() == old(self).tasks_of(),
    {
        self.request(JobState::Failed(reason))
    }
}


impl DownloadManager {
    /// Starts a download of a video and/or an audio stream: refused in the
    /// aria2c mode (nothing changes); otherwise the job is marked running, and
    /// when neither stream is asked for it is then marked failed and the
    /// download refused.
    pub fn begin_download(&mut self, has_video: bool, has_audio: bool) -> (r: Result<(), ManagerError>)
        ensures
            final(self).cancel_flag() == old(self).cancel_flag(),
            final(self).mode_of() == old(self).mode_of(),
            final(self).tasks_of() == old(self).tasks_of(),
            old(self).mode_of() == DownloadMode::Aria2c ==> {
                &&& r == Err::<(), ManagerError>(ManagerError::Aria2cUnsupported)
                &&& final(self).state_view() == old(self).state_view()
            },
            (old(self).mode_of() == DownloadMode::Parallel && (has_video || has_audio)) ==> {
                &&& r is Ok
                &&& final(self).state_view() == step_or_stay(
                    old(self).state_view(),
                    JobStateView::Running,
                )
            },
            (old(self).mode_of() == DownloadMode::Parallel && !has_video && !has_audio) ==> {
                &&& r == Err::<(), ManagerError>(ManagerError::NothingToDownload)
                &&& final(self).state_view() == step_or_stay(
                    step_or_stay(old(self).state_view(), JobStateView::Running),
                    JobStateView::Failed(nothing_to_download()),
                )
            },
    {
        if self.mode == DownloadMode::Aria2c {
            return Err(ManagerError::Aria2cUnsupported);
        }
        self.mark_running();
        if !has_video && !has_audio {
            proof {
                reveal_strlit("至少需要视频或音频下载任务之一");
            }
            self.mark_failed(crate::text::owned("至少需要视频或音频下载任务之一"));
            return Err(ManagerError::NothingToDownload);
        }
        Ok(())
    }
}

} // verus!
