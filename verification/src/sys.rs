//! Platform values that the multiplexer carries through its state: wall-clock
//! timestamps and filesystem paths.

use vstd::prelude::*;
use std::collections::HashMap;
use std::path::PathBuf;
use std::time::{Duration, SystemTime};

verus! {

/// `std::time::SystemTime` is held opaquely: the library stores timestamps
/// and never inspects them.
#[verifier::external_type_specification]
#[verifier::external_body]
pub struct ExSystemTime(SystemTime);

/// `std::path::PathBuf` is held opaquely: paths are stored, never inspected.
#[verifier::external_type_specification]
#[verifier::external_body]
pub struct ExPathBuf(PathBuf);

/// `SystemTime::clone`: copies a timestamp. Nothing is stated of the copy.
pub assume_specification[ <SystemTime as Clone>::clone ](t: &SystemTime) -> (r: SystemTime);

/// `PathBuf::clone`: copies a path; the copy is the same path.
pub assume_specification[ <PathBuf as Clone>::clone ](p: &PathBuf) -> (r: PathBuf)
    ensures
        r == *p,
;

/// Calls `std::time::SystemTime::now`. The result depends on the clock, so
/// nothing is stated of it.
#[verifier::external_body]
pub(crate) fn system_time_now() -> (t: SystemTime) {
    SystemTime::now()
}

/// Calls `HashMap::get_mut` on a map keyed by `u64`: a handle on the value
/// stored under `k`, if any. Writing through the handle replaces that value
/// and leaves every other entry as it was; without an entry the map is
/// unchanged.
#[verifier::external_body]
pub(crate) fn hash_map_get_mut<'a, V>(m: &'a mut HashMap<u64, V>, k: u64) -> (r: Option<&'a mut V>)
    ensures
        r is Some <==> old(m)@.contains_key(k),
        r is Some ==> *r.unwrap() == old(m)@[k],
        r is Some ==> final(m)@ == old(m)@.insert(k, *final(r.unwrap())),
        r is None ==> final(m)@ == old(m)@,
{
    m.get_mut(&k)
}

/// Calls `SystemTime::elapsed`: the time since `t`, or a zero duration
/// where the clock reads earlier than `t`. The result depends on the clock,
/// so nothing is stated of it.
#[verifier::external_body]
pub(crate) fn elapsed_since(t: &SystemTime) -> (d: Duration) {
    t.elapsed().unwrap_or_default()
}

/// The text that `Debug` gives a duration of `secs` seconds and `nanos`
/// nanoseconds (such as `1.5s` or `250ms`).
pub uninterp spec fn duration_text(secs: u64, nanos: u32) -> Seq<char>;

/// Calls `Duration::as_secs`: the whole seconds of a duration. The
/// durations here come from the clock, so nothing is stated of the result.
#[verifier::external_body]
pub(crate) fn duration_seconds(d: &Duration) -> (s: u64) {
    d.as_secs()
}

/// Calls `Duration::subsec_nanos`: the fractional part of a duration in
/// nanoseconds, which is always less than one billion.
#[verifier::external_body]
pub(crate) fn duration_subsec_nanos(d: &Duration) -> (n: u32)
    ensures
        n < 1_000_000_000,
{
    d.subsec_nanos()
}

/// Formats the duration of `secs` seconds and `nanos` nanoseconds with its
/// `Debug` implementation; the text is [`duration_text`] of the two. With
/// `nanos` below one billion, `Duration::new` cannot panic.
#[verifier::external_body]
pub(crate) fn duration_debug_text(secs: u64, nanos: u32) -> (s: String)
    requires
        nanos < 1_000_000_000,
    ensures
        s@ == duration_text(secs, nanos),
{
    format!("{:?}", Duration::new(secs, nanos))
}

} // verus!
