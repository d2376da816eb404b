//! Job lifecycle core of a local download daemon: the job store, the parser
//! for the downloader's progress lines, the status projection, the stream
//! publisher, the supervisor's decisions and cancellation.

pub mod cancel;
pub mod progress;
pub mod status;
pub mod store;
pub mod stream;
pub mod supervisor;

pub use cancel::cancel;
pub use progress::{parse_progress_line, Progress, ProgressView};
pub use status::{project, status_of, StatusResponse, StatusView};
pub use store::{Job, JobStore, JobView, Phase};
pub use stream::Subscription;
pub use supervisor::{
    build_args, on_exit, on_output_line, on_spawn_failed, on_spawned, start_download,
    DownloadRequest,
};
