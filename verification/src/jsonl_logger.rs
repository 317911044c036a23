//! The per-project log of requests and responses, one JSON object per
//! line, in files rotated at 10 MB. Writing the files is the
//! application's part.

use vstd::prelude::*;
use crate::paths::{join_path, join_str};
use crate::text::{decimal, decimal_chars, owned, push_all, push_str, string_from};

verus! {

/// Log files are rotated at this size in bytes (10 MB).
pub const MAX_LOG_FILE_SIZE: u64 = 10485760;

/// The request of a logged turn.
#[derive(Debug, Clone)]
pub struct RequestLog {
    pub model: String,
    pub messages: Vec<MessageLog>,
    pub system: Option<String>,
}

/// A message of a logged request.
#[derive(Debug, Clone)]
pub struct MessageLog {
    pub role: String,
    pub content: String,
}

/// The response of a logged turn.
#[derive(Debug, Clone)]
pub struct ResponseLog {
    pub content: String,
    pub stop_reason: Option<String>,
}

/// The tokens of a logged turn.
#[derive(Debug, Clone)]
pub struct TokenUsageLog {
    pub input_tokens: u32,
    pub output_tokens: u32,
}

/// Where the log of a project goes and which file is being written.
pub struct JsonlLogger {
    pub project_name: String,
    pub log_dir: String,
    pub current_log_file: Option<String>,
    pub max_file_size: u64,
}

/// `decimal(n)` with leading zeros up to `width` digits.
pub open spec fn zero_padded(n: nat, width: nat) -> Seq<char> {
    let d = decimal(n);
    if d.len() < width {
        Seq::new((width - d.len()) as nat, |i: int| '0') + d
    } else {
        d
    }
}

/// The name of a log file started at the time `stamp` (`%Y%m%d_%H%M%S`)
/// and `nanos` nanoseconds.
pub open spec fn log_file_name(stamp: Seq<char>, nanos: u32) -> Seq<char> {
    stamp + "_"@ + zero_padded(nanos as nat, 9) + ".jsonl"@
}

/// The present UTC time as `%Y%m%d_%H%M%S` and its nanoseconds, from
/// `chrono::Utc::now()`. The clock decides it: nothing is stated.
#[verifier::external_body]
fn now_stamp() -> (r: (String, u32)) {
    let now = chrono::Utc::now();
    (now.format("%Y%m%d_%H%M%S").to_string(), chrono::Timelike::nanosecond(&now))
}

/// The base directory of all project logs under the home directory.
pub fn get_projects_log_dir(home: &str) -> (r: String)
    ensures
        r@ == join_path(join_path(home@, ".synthia"@), "projects"@),
{
    let a = join_str(home, ".synthia");
    join_str(a.as_str(), "projects")
}

/// The name of the log file started at `stamp` and `nanos`.
pub fn log_file_name_for(stamp: &str, nanos: u32) -> (r: String)
    ensures
        r@ == log_file_name(stamp@, nanos),
{
    let mut m: Vec<char> = Vec::new();
    push_str(&mut m, stamp);
    push_str(&mut m, "_");
    let d = decimal_chars(nanos as u64);
    let ghost head = m@;
    let mut k: usize = d.len();
    while k < 9
        invariant
            d.len() <= k <= 9 || (d.len() > 9 && k == d.len()),
            d@ == decimal(nanos as nat),
            m@ == head + Seq::new((k - d.len()) as nat, |i: int| '0'),
        decreases 9 - k,
    {
        m.push('0');
        k = k + 1;
        assert(m@ =~= head + Seq::new((k - d.len()) as nat, |i: int| '0'));
    }
    push_all(&mut m, d.as_slice());
    push_str(&mut m, ".jsonl");
    proof {
        if d@.len() >= 9 {
            assert(Seq::new(0nat, |i: int| '0') + d@ =~= d@);
        }
    }
    assert(m@ =~= log_file_name(stamp@, nanos));
    string_from(m.as_slice())
}

impl JsonlLogger {
    /// A logger for `project_name`, whose logs go under `projects_dir`;
    /// no file is open yet.
    pub fn new(project_name: &str, projects_dir: &str) -> (r: JsonlLogger)
        ensures
            r.project_name@ == project_name@,
            r.log_dir@ == join_path(projects_dir@, project_name@),
            r.current_log_file is None,
            r.max_file_size == MAX_LOG_FILE_SIZE,
    {
        JsonlLogger {
            project_name: owned(project_name),
            log_dir: join_str(projects_dir, project_name),
            current_log_file: None,
            max_file_size: MAX_LOG_FILE_SIZE,
        }
    }

    /// The project's name.
    pub fn project_name(&self) -> (r: &str)
        ensures
            r@ == self.project_name@,
    {
        self.project_name.as_str()
    }

    /// A new file is started when there is none, when it no longer exists
    /// (`current_size` is `None`) or when it reached the size limit.
    pub fn needs_rotation(&self, current_size: Option<u64>) -> (r: bool)
        ensures
            r == (self.current_log_file is None || current_size is None || current_size->0
                >= self.max_file_size),
    {
        match (&self.current_log_file, current_size) {
            (Some(_), Some(n)) => n >= self.max_file_size,
            _ => true,
        }
    }

    /// Starts the file named for `stamp` and `nanos` in the log directory.
    pub fn rotate_to(&mut self, stamp: &str, nanos: u32)
        ensures
            final(self).current_log_file is Some,
            final(self).current_log_file->0@ == join_path(old(self).log_dir@, log_file_name(stamp@, nanos)),
            final(self).project_name == old(self).project_name,
            final(self).log_dir == old(self).log_dir,
            final(self).max_file_size == old(self).max_file_size,
    {
        let name = log_file_name_for(stamp, nanos);
        self.current_log_file = Some(join_str(self.log_dir.as_str(), name.as_str()));
    }

    /// The file to log to: the current one, or a new one named for the
    /// present time when a rotation is due (see `needs_rotation`).
    pub fn get_or_create_log_file(&mut self, current_size: Option<u64>) -> (r: String)
        ensures
            final(self).current_log_file is Some,
            final(self).current_log_file->0@ == r@,
            !old(self).needs_rotation_spec(current_size) ==> r@ == old(self).current_log_file->0@,
            old(self).needs_rotation_spec(current_size) ==> exists|stamp: Seq<char>, nanos: u32|
                r@ == join_path(old(self).log_dir@, #[trigger] log_file_name(stamp, nanos)),
            final(self).project_name == old(self).project_name,
            final(self).log_dir == old(self).log_dir,
            final(self).max_file_size == old(self).max_file_size,
    {
        if self.needs_rotation(current_size) {
            let (stamp, nanos) = now_stamp();
            self.rotate_to(stamp.as_str(), nanos);
            assert(self.current_log_file->0@ == join_path(self.log_dir@, log_file_name(stamp@, nanos)));
        }
        match &self.current_log_file {
            Some(f) => owned(f.as_str()),
            None => String::new(),
        }
    }

    /// Whether a rotation is due (see `needs_rotation`).
    pub open spec fn needs_rotation_spec(&self, current_size: Option<u64>) -> bool {
        self.current_log_file is None || current_size is None || current_size->0 >= self.max_file_size
    }
}

} // verus!
