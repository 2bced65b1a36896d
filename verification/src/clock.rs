//! Wall-clock time, as whole seconds since the Unix epoch.

use vstd::prelude::*;

verus! {

#[verifier::external_type_specification]
#[verifier::external_body]
pub struct ExSystemTime(std::time::SystemTime);

/// The present time (`SystemTime::now`). Nothing is stated of it: it is
/// whatever the system clock reads.
#[verifier::external_body]
fn system_now() -> std::time::SystemTime {
    std::time::SystemTime::now()
}

/// Time elapsed from the Unix epoch to `t` (`SystemTime::duration_since`
/// with `UNIX_EPOCH`); `None` where `t` lies before the epoch. Nothing is
/// stated of the value: `SystemTime` is opaque here.
#[verifier::external_body]
fn since_unix_epoch(t: &std::time::SystemTime) -> Option<core::time::Duration> {
    t.duration_since(std::time::UNIX_EPOCH).ok()
}

/// Whole seconds of a duration (`Duration::as_secs`); `Duration` is opaque
/// here, so nothing is stated of the value.
pub assume_specification[ core::time::Duration::as_secs ](d: &core::time::Duration) -> u64;

/// The timestamp stored for a time that lies `secs` seconds after the
/// epoch, or 0 for a time before it. As in `secs as i64`, counts above
/// `i64::MAX` wrap.
pub open spec fn epoch_timestamp(secs: Option<u64>) -> i64 {
    match secs {
        Some(s) => s as i64,
        None => 0,
    }
}

/// The timestamp for `secs` seconds after the epoch (`None`: before it).
pub fn timestamp_from_secs(secs: Option<u64>) -> (r: i64)
    ensures
        r == epoch_timestamp(secs),
{
    match secs {
        Some(s) => s as i64,
        None => 0,
    }
}

/// Seconds since the Unix epoch now, 0 if the clock reads a time before it.
/// Which second that is depends on the clock alone, so nothing is stated of
/// the value here; how a reading becomes the timestamp is the contract of
/// `timestamp_from_secs`, which this function applies to the reading.
pub fn now_ts() -> i64 {
    let now = system_now();
    let secs = match since_unix_epoch(&now) {
        Some(d) => Some(d.as_secs()),
        None => None,
    };
    timestamp_from_secs(secs)
}

/// Polling state of a file that an external editor is changing: the last
/// modification time seen, in nanoseconds from the epoch (negative before
/// it). Every save the editor makes is seen by the next poll, for as long as
/// the application runs.
pub struct EditWatch {
    pub last_modified: i128,
}

impl EditWatch {
    /// A watch that starts from the modification time `before`.
    pub fn new(before: i128) -> (r: EditWatch)
        ensures
            r.last_modified == before,
    {
        EditWatch { last_modified: before }
    }

    /// Records one poll that saw modification time `modified`; true when the
    /// file changed since the last time seen, which then becomes `modified`.
    pub fn poll(&mut self, modified: i128) -> (changed: bool)
        ensures
            changed == (modified > old(self).last_modified),
            final(self).last_modified == if changed {
                modified
            } else {
                old(self).last_modified
            },
    {
        if modified > self.last_modified {
            self.last_modified = modified;
            true
        } else {
            false
        }
    }
}

} // verus!
