//! Errors of the lock file, and the checks made before it is read or written.

use vstd::prelude::*;
use crate::text::join;

verus! {

/// Why the lock file could not be read or written. The paths and messages are text.
pub enum ConfigError {
    /// No file at the path.
    NotFound(String),
    /// The path names a directory.
    NotAFile(String),
    /// Reading or writing failed; the system's message.
    IoError(String),
    /// The contents are not the expected JSON; the parser's message.
    JsonError(String),
}

/// The message of an error.
pub open spec fn config_error_message(e: ConfigError) -> Seq<char> {
    match e {
        ConfigError::NotFound(p) => "Config file not found at: "@ + p@,
        ConfigError::NotAFile(p) => "Path is a directory, not a file: "@ + p@,
        ConfigError::IoError(e) => "IO error: "@ + e@,
        ConfigError::JsonError(e) => "Serialization error: "@ + e@,
    }
}

impl ConfigError {
    /// The error's message.
    pub fn to_string(&self) -> (r: String)
        ensures
            r@ == config_error_message(*self),
    {
        let (head, tail) = match self {
            ConfigError::NotFound(p) => ("Config file not found at: ", p),
            ConfigError::NotAFile(p) => ("Path is a directory, not a file: ", p),
            ConfigError::IoError(e) => ("IO error: ", e),
            ConfigError::JsonError(e) => ("Serialization error: ", e),
        };
        let mut m = String::from_str(head);
        m.append(tail.as_str());
        m
    }
}

/// Before a read: the file must exist and be a regular file.
pub fn ensure_config_file_exists(config_file_path: &str, exists: bool, is_file: bool) -> (r: Result<
    (),
    ConfigError,
>)
    ensures
        !exists ==> (r matches Err(ConfigError::NotFound(p)) && p@ == config_file_path@),
        exists && !is_file ==> (r matches Err(ConfigError::NotAFile(p)) && p@ == config_file_path@),
        exists && is_file ==> r is Ok,
{
    if !exists {
        return Err(ConfigError::NotFound(config_file_path.to_owned()));
    }
    if !is_file {
        return Err(ConfigError::NotAFile(config_file_path.to_owned()));
    }
    Ok(())
}

/// Before a write: the path must not name a directory.
pub fn ensure_config_file_writable(config_file_path: &str, exists: bool, is_dir: bool) -> (r: Result<
    (),
    ConfigError,
>)
    ensures
        exists && is_dir ==> (r matches Err(ConfigError::NotAFile(p)) && p@ == config_file_path@),
        !(exists && is_dir) ==> r is Ok,
{
    if exists && is_dir {
        return Err(ConfigError::NotAFile(config_file_path.to_owned()));
    }
    Ok(())
}

/// Where the lock file is: the path given to override it, or `lock.json` in
/// the updater's data directory.
pub fn config_file_path(override_path: Option<&str>, appdata_dir: &str) -> (r: String)
    ensures
        r@ == match override_path {
            Some(p) => p@,
            None => crate::text::join_path(appdata_dir@, "lock.json"@),
        },
{
    match override_path {
        Some(p) => p.to_owned(),
        None => join(appdata_dir, "lock.json"),
    }
}

/// What to do when the lock file could not be read at start-up.
pub enum InitAction {
    /// Offer to create a default lock file at the path.
    CreateDefault(String),
    /// Report the message and stop.
    Exit(String),
}

/// The start-up decision on a failed read: a missing file is created, any
/// other failure ends the run with a message.
pub fn init_error_action(err: ConfigError) -> (r: InitAction)
    ensures
        match err {
            ConfigError::NotFound(p) => r matches InitAction::CreateDefault(q) && q@ == p@,
            ConfigError::NotAFile(p) => r matches InitAction::Exit(m) && m@
                == "Error: Config path is a directory, not a file: "@ + p@,
            ConfigError::JsonError(e) => r matches InitAction::Exit(m) && m@
                == "Error: Config file contains invalid JSON: "@ + e@,
            ConfigError::IoError(e) => r matches InitAction::Exit(m) && m@
                == "Error: Could not read config file: "@ + e@,
        },
{
    let (head, tail) = match err {
        ConfigError::NotFound(p) => return InitAction::CreateDefault(p),
        ConfigError::NotAFile(p) => ("Error: Config path is a directory, not a file: ", p),
        ConfigError::JsonError(e) => ("Error: Config file contains invalid JSON: ", e),
        ConfigError::IoError(e) => ("Error: Could not read config file: ", e),
    };
    let mut m = String::from_str(head);
    m.append(tail.as_str());
    InitAction::Exit(m)
}

/// The question asked before a default lock file is created at `absolute_path`.
pub fn create_config_question(absolute_path: &str) -> (r: String)
    ensures
        r@ == "Can't find lock.json at "@ + absolute_path@ + ". Create it now?"@,
{
    let mut q = String::from_str("Can't find lock.json at ");
    q.append(absolute_path);
    q.append(". Create it now?");
    q
}

/// What to do when writing the default lock file failed.
pub enum WriteRecovery {
    /// Create the missing file at the path, then write again.
    CreateFileAndRetry(String),
    /// Report the message and stop.
    Exit(String),
}

/// A missing file is created and written again; any other failure ends the run.
pub fn default_write_recovery(err: ConfigError) -> (r: WriteRecovery)
    ensures
        match err {
            ConfigError::NotFound(p) => r matches WriteRecovery::CreateFileAndRetry(q) && q@ == p@,
            _ => r matches WriteRecovery::Exit(m) && m@ == "Error: Failed to create default config: "@
                + config_error_message(err),
        },
{
    match err {
        ConfigError::NotFound(p) => WriteRecovery::CreateFileAndRetry(p),
        _ => {
            let reason = err.to_string();
            let mut m = String::from_str("Error: Failed to create default config: ");
            m.append(reason.as_str());
            WriteRecovery::Exit(m)
        },
    }
}

} // verus!
