//! Updates, cleanup and directories.
use vstd::prelude::*;
use vstd::string::StringExecFns;

use crate::duration::Duration;

verus! {

/// An update is due: updates are configured, and there was none yet or the last one was started at
/// least the interval ago.
pub open spec fn is_update_due(interval: Option<Duration>, since_last: Option<Duration>) -> bool {
    match (interval, since_last) {
        (None, _) => false,
        (Some(_), None) => true,
        (Some(interval), Some(elapsed)) => elapsed.nanos >= interval.nanos,
    }
}

/// Whether an update is due, `since_last` after the last one was started.
pub fn update_due(interval: Option<Duration>, since_last: Option<Duration>) -> (due: bool)
    ensures
        due == is_update_due(interval, since_last),
{
    match (interval, since_last) {
        (None, _) => false,
        (Some(_), None) => true,
        (Some(interval), Some(elapsed)) => elapsed.nanos >= interval.nanos,
    }
}

/// The time since the last update was started, where `last` and `now` are counted from the same
/// moment.
pub open spec fn since(last: Option<Duration>, now: Duration) -> Option<Duration> {
    match last {
        Some(last) => Some(
            Duration {
                nanos: if now.nanos >= last.nanos {
                    (now.nanos - last.nanos) as u128
                } else {
                    0
                },
            },
        ),
        None => None,
    }
}

/// Whether an update is started now. If it is, it is the last one from now on, whatever becomes of
/// it. Both `last` and `now` are counted from the start of the program.
pub fn start_update(last: &mut Option<Duration>, interval: Option<Duration>, now: Duration) -> (due:
    bool)
    ensures
        due == is_update_due(interval, since(*old(last), now)),
        *final(last) == (if due {
            Some(now)
        } else {
            *old(last)
        }),
{
    let since_last = match *last {
        Some(last) => Some(
            Duration {
                nanos: if now.nanos >= last.nanos {
                    now.nanos - last.nanos
                } else {
                    0
                },
            },
        ),
        None => None,
    };
    let due = update_due(interval, since_last);
    if due {
        *last = Some(now);
    }
    due
}

/// The first update is due at once. After an update was started, even one that failed, the next one
/// is due when the interval has passed, and not before. Without an interval none is ever due.
pub proof fn law_updates_keep_their_distance(
    interval: Option<Duration>,
    last: Duration,
    now: Duration,
)
    requires
        last.nanos <= now.nanos,
    ensures
        is_update_due(interval, since(None, now)) <==> interval is Some,
        is_update_due(interval, since(Some(last), now)) <==> interval is Some && last.nanos
            + interval->0.nanos <= now.nanos,
{
}

/// Whether an archived file is deleted: a file that is older than the retention period. A file
/// from the future has no age, and counts as new.
pub fn is_expired(is_file: bool, age: Option<Duration>, retention_period: Duration) -> (expired:
    bool)
    ensures
        expired == (is_file && match age {
            Some(age) => age.nanos > retention_period.nanos,
            None => false,
        }),
{
    is_file && match age {
        Some(age) => age.nanos > retention_period.nanos,
        None => false,
    }
}

/// Whether a directory has to be created. The error says that a file is in its place.
pub fn needs_creation(path: &str, is_file: bool, exists: bool) -> (create: Result<bool, String>)
    ensures
        match create {
            Ok(create) => !is_file && create == !exists,
            Err(message) => is_file && message@ == path@ + " is not a directory"@,
        },
{
    if is_file {
        Err(path.to_string().concat(" is not a directory"))
    } else {
        Ok(!exists)
    }
}

} // verus!
