//! A per-host process supervisor and job scheduler: the job registry, the
//! life cycle and restart policy of supervised children, their bounded output
//! buffers and log tailing, the length-prefixed message framing, and the
//! commands and replies of the daemon's protocol.

pub mod batch;
pub mod command;
pub mod dispatcher;
pub mod display;
pub mod errors;
pub mod framing;
pub mod justfile;
pub mod model;
pub mod output;
pub mod process;
pub mod runner;
pub mod schedule;
pub mod telemetry;
pub mod text;

pub use model::{
    copy_strings, recipe_runner, Job, JobId, JobInfo, JobSpawnInfo, JobType, Pid, Restart,
    RestartInfo, Timestamp, INITIAL_WAIT_MS, RESET_THRESHOLD_MS,
};

pub use command::{ClientAction, Cli, CliCommand, ExecCommand, Message};
pub use dispatcher::{Dispatcher, StopPlan};
pub use display::{Formatter, LogColor, PALETTE_LEN};
pub use errors::DispatcherError;
pub use justfile::{Justfile, JustfileRecipe};
pub use output::OutputBuffer;
pub use process::{LogLine, ProcInfo, ProcStatus, ProcUsage, WaitStatus};
pub use telemetry::{main_pid, per_second, HostProcess};
pub use runner::{split_command, Runner, OUTPUT_LINES};
