//! The time limit of queued work and the observable state of a batch job.
//!
//! The limit (seconds) has three sources, in order of precedence: the
//! environment variable `NEXOSIGN_BATCH_JOB_MAX_SECS` when it holds a valid
//! value, the value saved in the settings, and the default.

use vstd::prelude::*;
use crate::text;

verus! {

/// Default when nothing was saved and the environment does not override.
pub const DEFAULT_QUEUE_MAX_WALL_CLOCK_SECS: u64 = 300;

/// Smallest value accepted for the setting and for the environment variable.
pub const MIN_QUEUE_MAX_SECS: u64 = 60;

/// Largest value accepted for the setting and for the environment variable.
pub const MAX_QUEUE_MAX_SECS: u64 = 604800;

/// Environment variable that, when valid, takes precedence over the saved setting.
pub const ENV_BATCH_JOB_MAX_SECS: &'static str = "NEXOSIGN_BATCH_JOB_MAX_SECS";

/// How long a finished job's snapshot and outputs stay in memory.
pub const BATCH_JOB_RAM_GC_AFTER_TERMINAL_SECS: i64 = 900;

pub open spec fn in_range(n: nat) -> bool {
    MIN_QUEUE_MAX_SECS <= n <= MAX_QUEUE_MAX_SECS
}

/// The override the environment gives: a `u64` in range, or nothing.
pub open spec fn env_override(raw: Option<Seq<char>>) -> Option<nat> {
    match raw {
        None => None,
        Some(s) => match text::parsed_unsigned(s, u64::MAX as nat) {
            Some(n) => if in_range(n) {
                Some(n)
            } else {
                None
            },
            None => None,
        },
    }
}

/// The value kept after loading the saved setting.
pub open spec fn init_value(stored: Option<u64>) -> nat {
    match stored {
        Some(n) => if in_range(n as nat) {
            n as nat
        } else {
            DEFAULT_QUEUE_MAX_WALL_CLOCK_SECS as nat
        },
        None => DEFAULT_QUEUE_MAX_WALL_CLOCK_SECS as nat,
    }
}

/// Environment (if valid) over the saved setting.
pub open spec fn effective_secs(env: Option<Seq<char>>, stored: nat) -> nat {
    match env_override(env) {
        Some(n) => n,
        None => stored,
    }
}

pub open spec fn str_opt(o: Option<&str>) -> Option<Seq<char>> {
    match o {
        Some(s) => Some(s@),
        None => None,
    }
}

/// The saved limit, as the process keeps it between reads of the settings.
#[derive(Debug)]
pub struct QueueMaxStore {
    stored_secs: u64,
}

impl View for QueueMaxStore {
    type V = nat;

    closed spec fn view(&self) -> nat {
        self.stored_secs as nat
    }
}

impl QueueMaxStore {
    /// The saved value is always within the accepted range.
    pub closed spec fn wf(&self) -> bool {
        in_range(self.stored_secs as nat)
    }

    /// Before the settings are read: the default.
    pub fn new() -> (r: Self)
        ensures
            r@ == DEFAULT_QUEUE_MAX_WALL_CLOCK_SECS,
            r.wf(),
    {
        QueueMaxStore { stored_secs: DEFAULT_QUEUE_MAX_WALL_CLOCK_SECS }
    }

    /// The saved value (without the environment override).
    pub fn stored_queue_max_wall_clock_secs(&self) -> (r: u64)
        ensures
            r == self@,
    {
        self.stored_secs
    }

    /// Loads the value read from the database: kept if in range, else the default.
    pub fn init_stored_queue_max_secs_from_db(&mut self, stored: Option<u64>)
        ensures
            final(self)@ == init_value(stored),
            final(self).wf(),
    {
        self.stored_secs = match stored {
            Some(n) => if MIN_QUEUE_MAX_SECS <= n && n <= MAX_QUEUE_MAX_SECS {
                n
            } else {
                DEFAULT_QUEUE_MAX_WALL_CLOCK_SECS
            },
            None => DEFAULT_QUEUE_MAX_WALL_CLOCK_SECS,
        };
    }
}

/// The value of `NEXOSIGN_BATCH_JOB_MAX_SECS` (as read from the environment)
/// if it parses as a `u64` within range.
pub fn env_batch_job_max_secs_override(raw: Option<&str>) -> (r: Option<u64>)
    ensures
        match r {
            Some(n) => env_override(str_opt(raw)) == Some(n as nat),
            None => env_override(str_opt(raw)) is None,
        },
{
    match raw {
        None => None,
        Some(s) => match text::parse_unsigned(&text::chars_of(s), u64::MAX) {
            Some(n) => if MIN_QUEUE_MAX_SECS <= n && n <= MAX_QUEUE_MAX_SECS {
                Some(n)
            } else {
                None
            },
            None => None,
        },
    }
}

/// The time limit for pending intents and queued jobs: environment (if valid) > saved setting.
pub fn queue_max_wall_clock_secs(env_raw: Option<&str>, store: &QueueMaxStore) -> (r: u64)
    ensures
        r == effective_secs(str_opt(env_raw), store@),
{
    match env_batch_job_max_secs_override(env_raw) {
        Some(n) => n,
        None => store.stored_queue_max_wall_clock_secs(),
    }
}

/// The same limit as an `i64`, for Unix timestamps and SQLite.
pub fn batch_job_max_wall_clock_secs_i64(env_raw: Option<&str>, store: &QueueMaxStore) -> (r: i64)
    requires
        store.wf(),
    ensures
        r == effective_secs(str_opt(env_raw), store@),
{
    proof {
        use_store_wf(store);
    }
    let s = queue_max_wall_clock_secs(env_raw, store);
    s as i64
}

proof fn use_store_wf(store: &QueueMaxStore)
    requires
        store.wf(),
    ensures
        in_range(store@),
{
}

pub open spec fn timeout_message(secs: nat) -> Seq<char> {
    "Tiempo máximo del trabajo ("@ + text::decimal(secs) + " s) superado."@
}

/// The message shown when the queue watchdog stops a job for running too long.
pub fn batch_job_timeout_user_message(env_raw: Option<&str>, store: &QueueMaxStore) -> (r: String)
    ensures
        r@ == timeout_message(effective_secs(str_opt(env_raw), store@)),
{
    let s = queue_max_wall_clock_secs(env_raw, store);
    let mut v = text::chars_of("Tiempo máximo del trabajo (");
    text::append_chars(&mut v, &text::decimal_chars(s));
    text::append_chars(&mut v, &text::chars_of(" s) superado."));
    text::string_of(&v)
}

pub open spec fn env_locked_message() -> Seq<char> {
    "NEXOSIGN_BATCH_JOB_MAX_SECS está definida en el entorno; tiene prioridad. Quítala para usar el valor de Ajustes."@
}

pub open spec fn out_of_range_message() -> Seq<char> {
    "el valor debe estar entre 60 y 604800 segundos"@
}

/// When a new setting may be saved.
pub open spec fn set_check(env: Option<Seq<char>>, secs: nat) -> Result<(), Seq<char>> {
    if env_override(env) is Some {
        Err(env_locked_message())
    } else if !in_range(secs) {
        Err(out_of_range_message())
    } else {
        Ok(())
    }
}

/// Checks a new value for the setting: refused while the environment
/// overrides it, and outside `[60, 604800]`.
pub fn check_batch_job_max_secs(env_raw: Option<&str>, secs: u64) -> (r: Result<(), String>)
    ensures
        match r {
            Ok(()) => set_check(str_opt(env_raw), secs as nat) is Ok,
            Err(e) => set_check(str_opt(env_raw), secs as nat) == Err::<(), Seq<char>>(e@),
        },
{
    if env_batch_job_max_secs_override(env_raw).is_some() {
        return Err(
            String::from_str(
                "NEXOSIGN_BATCH_JOB_MAX_SECS está definida en el entorno; tiene prioridad. Quítala para usar el valor de Ajustes.",
            ),
        );
    }
    if !(MIN_QUEUE_MAX_SECS <= secs && secs <= MAX_QUEUE_MAX_SECS) {
        return Err(String::from_str("el valor debe estar entre 60 y 604800 segundos"));
    }
    Ok(())
}

pub open spec fn stored_parse_error() -> Seq<char> {
    "batch_job_max_secs almacenado no es un entero válido"@
}

/// Reads the text saved for the setting as a `u64`.
pub fn parse_stored_batch_job_max_secs(s: &str) -> (r: Result<u64, String>)
    ensures
        match r {
            Ok(n) => text::parsed_unsigned(s@, u64::MAX as nat) == Some(n as nat),
            Err(e) => text::parsed_unsigned(s@, u64::MAX as nat) is None && e@ == stored_parse_error(),
        },
{
    match text::parse_unsigned(&text::chars_of(s), u64::MAX) {
        Some(n) => Ok(n),
        None => Err(String::from_str("batch_job_max_secs almacenado no es un entero válido")),
    }
}

/// What the settings screen shows of the limit.
#[derive(Debug)]
pub struct BatchJobMaxSecsConfig {
    /// The value in use (environment > setting > default).
    pub effective_secs: u64,
    /// The environment overrides the setting.
    pub locked_by_env: bool,
    /// The saved value (or the default if none was saved).
    pub stored_secs: u64,
}

pub fn get_batch_job_max_secs_config(env_raw: Option<&str>, store: &QueueMaxStore) -> (r:
    BatchJobMaxSecsConfig)
    ensures
        r.effective_secs == effective_secs(str_opt(env_raw), store@),
        r.locked_by_env == env_override(str_opt(env_raw)) is Some,
        r.stored_secs == store@,
{
    BatchJobMaxSecsConfig {
        effective_secs: queue_max_wall_clock_secs(env_raw, store),
        locked_by_env: env_batch_job_max_secs_override(env_raw).is_some(),
        stored_secs: store.stored_queue_max_wall_clock_secs(),
    }
}

/// The limit in use always lies within `[60, 604800]`.
pub proof fn law_effective_limit_in_range(env: Option<Seq<char>>, store: QueueMaxStore)
    requires
        store.wf(),
    ensures
        in_range(effective_secs(env, store@)),
{
}

/// A value that `check_batch_job_max_secs` accepts, once saved and loaded, is the limit in use.
pub proof fn law_saved_setting_takes_effect(env: Option<Seq<char>>, secs: u64)
    requires
        set_check(env, secs as nat) is Ok,
    ensures
        init_value(Some(secs)) == secs,
        effective_secs(env, init_value(Some(secs))) == secs,
{
}

/// While the environment holds a valid value, it is the limit whatever was saved.
pub proof fn law_environment_takes_precedence(env: Option<Seq<char>>, stored: nat)
    requires
        env_override(env) is Some,
    ensures
        effective_secs(env, stored) == env_override(env).unwrap(),
        set_check(env, stored) is Err,
{
}

/// Phase of a batch job.
#[derive(PartialEq, Eq, Structural, Clone, Copy, Debug)]
pub enum BatchJobPhase {
    Queued,
    Running,
    Completed,
    Failed,
    Cancelled,
}

/// Observable state of a batch job (served over HTTP, updated by the worker).
#[derive(Clone, Debug)]
pub struct BatchJobSnapshot {
    pub job_id: String,
    pub phase: BatchJobPhase,
    pub actual: u32,
    pub total: u32,
    /// Unix seconds at which the job was queued.
    pub queued_at_unix: Option<i64>,
    pub current_file_name: Option<String>,
    pub error: Option<String>,
    /// Unix seconds at which the job reached a terminal phase.
    pub terminal_at_unix: Option<i64>,
}

/// The `total` a queued job shows: the number of inputs, at least one
/// (`u32::try_from(n).unwrap_or(1).max(1)`).
pub open spec fn queued_total(n: nat) -> nat {
    if n > u32::MAX {
        1
    } else if n == 0 {
        1
    } else {
        n
    }
}

/// The snapshot of a job that was just queued.
pub fn queued_snapshot(job_id: String, input_count: usize, queued_at_unix: Option<i64>) -> (r:
    BatchJobSnapshot)
    ensures
        r.job_id == job_id,
        r.phase == BatchJobPhase::Queued,
        r.actual == 0,
        r.total == queued_total(input_count as nat),
        r.queued_at_unix == queued_at_unix,
        r.current_file_name is None,
        r.error is None,
        r.terminal_at_unix is None,
{
    let total: u32 = if input_count > 4294967295 {
        1
    } else if input_count == 0 {
        1
    } else {
        input_count as u32
    };
    BatchJobSnapshot {
        job_id,
        phase: BatchJobPhase::Queued,
        actual: 0,
        total,
        queued_at_unix,
        current_file_name: None,
        error: None,
        terminal_at_unix: None,
    }
}

/// The snapshot after a progress event of its batch: running, with the
/// event's position, total and file name; an error the event carries is kept.
pub fn snapshot_after_progress(
    s: BatchJobSnapshot,
    current: u32,
    total: u32,
    file_name: String,
    error: Option<String>,
) -> (r: BatchJobSnapshot)
    ensures
        r.job_id == s.job_id,
        r.phase == BatchJobPhase::Running,
        r.actual == current,
        r.total == total,
        r.queued_at_unix == s.queued_at_unix,
        r.current_file_name == Some(file_name),
        r.error == match error {
            Some(e) => Some(e),
            None => s.error,
        },
        r.terminal_at_unix == s.terminal_at_unix,
{
    BatchJobSnapshot {
        job_id: s.job_id,
        phase: BatchJobPhase::Running,
        actual: current,
        total,
        queued_at_unix: s.queued_at_unix,
        current_file_name: Some(file_name),
        error: match error {
            Some(e) => Some(e),
            None => s.error,
        },
        terminal_at_unix: s.terminal_at_unix,
    }
}

/// The snapshot of a batch that is over: cancelled or completed, stamped
/// with the time it ended.
pub fn finished_snapshot(s: BatchJobSnapshot, cancelled: bool, now: Option<i64>) -> (r: BatchJobSnapshot)
    ensures
        r.job_id == s.job_id,
        r.phase == if cancelled {
            BatchJobPhase::Cancelled
        } else {
            BatchJobPhase::Completed
        },
        r.actual == s.actual,
        r.total == s.total,
        r.queued_at_unix == s.queued_at_unix,
        r.current_file_name == s.current_file_name,
        r.error == s.error,
        r.terminal_at_unix == now,
{
    BatchJobSnapshot {
        job_id: s.job_id,
        phase: if cancelled {
            BatchJobPhase::Cancelled
        } else {
            BatchJobPhase::Completed
        },
        actual: s.actual,
        total: s.total,
        queued_at_unix: s.queued_at_unix,
        current_file_name: s.current_file_name,
        error: s.error,
        terminal_at_unix: now,
    }
}

} // verus!
