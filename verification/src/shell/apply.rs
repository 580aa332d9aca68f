//! Applying the picked wallpaper through the `jobowalls` command.
use vstd::prelude::*;
use crate::command::CommandSpec;
use crate::text::{texts, trim, trim_str, cat, owned, chars_of};

verus! {

/// How long applying may take, in seconds.
pub const APPLY_TIMEOUT_SECS: u64 = 15;

/// `jobowalls set <path> --monitor <monitor>`.
pub fn apply_command(path: &str, monitor: &str) -> (c: CommandSpec)
    ensures
        c.program@ == "jobowalls"@,
        texts(c.args@) == seq!["set"@, path@, "--monitor"@, monitor@],
{
    let mut args: Vec<String> = Vec::new();
    args.push(owned("set"));
    args.push(owned(path));
    args.push(owned("--monitor"));
    args.push(owned(monitor));
    assert(texts(args@) =~= seq!["set"@, path@, "--monitor"@, monitor@]);
    CommandSpec::new("jobowalls", args)
}

/// The error when applying failed: what it printed on stderr, else on stdout, trimmed.
pub fn apply_failure(stderr: &str, stdout: &str) -> (r: String)
    ensures
        r@ == "jobowalls set failed: "@ + if trim(stderr@).len() > 0 {
            trim(stderr@)
        } else {
            trim(stdout@)
        },
{
    let e = trim_str(stderr);
    if chars_of(e.as_str()).len() > 0 {
        cat("jobowalls set failed: ", e.as_str())
    } else {
        let o = trim_str(stdout);
        cat("jobowalls set failed: ", o.as_str())
    }
}

/// The error when applying took too long.
pub fn apply_timeout_message() -> (r: String)
    ensures
        r@ == "jobowalls set timed out after "@ + crate::text::decimal(APPLY_TIMEOUT_SECS as nat) + " seconds"@,
{
    let secs = crate::text::decimal_string(APPLY_TIMEOUT_SECS);
    crate::text::cat3("jobowalls set timed out after ", secs.as_str(), " seconds")
}

} // verus!
