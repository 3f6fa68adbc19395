//! Values that come from outside the store: the current time and fresh
//! random passwords.

use vstd::prelude::*;
use rand::distributions::{Alphanumeric, DistString};
use rand::rngs::ThreadRng;
use crate::args::CreateArgs;
use crate::store::{clone_opt, opt_view, Metadata, MetadataView, Timestamp};
pub use crate::handles::ClockReading;
use crate::handles::system_now;

verus! {

#[verifier::external_type_specification]
#[verifier::external_body]
pub struct ExThreadRng(rand::rngs::ThreadRng);

/// The number of characters of a generated password.
pub const PASSWORD_LEN: usize = 16;

/// An ASCII letter or digit.
pub open spec fn is_alphanumeric(c: char) -> bool {
    ('A' <= c <= 'Z') || ('a' <= c <= 'z') || ('0' <= c <= '9')
}

/// Calls `rand::thread_rng`: the thread's random generator. Nothing is
/// claimed of it.
#[verifier::external_body]
fn thread_rng() -> ThreadRng {
    rand::thread_rng()
}

/// Calls `DistString::sample_string` of `rand::distributions::Alphanumeric`.
/// Claimed, as the source shows: `len` characters, each an ASCII letter or
/// digit. Which ones is left unsaid.
#[verifier::external_body]
fn alphanumeric_string(rng: &mut ThreadRng, len: usize) -> (r: String)
    ensures
        r@.len() == len,
        forall|i: int| 0 <= i < len ==> is_alphanumeric(#[trigger] r@[i]),
{
    Alphanumeric.sample_string(rng, len)
}

/// The current time, `None` when the clock is set before the UNIX epoch.
pub fn now() -> (r: Option<Timestamp>)
    ensures
        r matches Some(t) ==> t.nanos < 1_000_000_000,
{
    match system_now() {
        Some(c) => Some(c.time()),
        None => None,
    }
}

/// A reading of the clock, `None` when it is set before the UNIX epoch.
pub fn read_clock() -> (r: Option<ClockReading>)
    ensures
        r matches Some(c) ==> c@.nanos < 1_000_000_000,
{
    system_now()
}

/// A valid generated password: `PASSWORD_LEN` ASCII letters and digits.
pub open spec fn is_generated_password(p: Seq<char>) -> bool {
    &&& p.len() == PASSWORD_LEN
    &&& forall|i: int| 0 <= i < p.len() ==> is_alphanumeric(#[trigger] p[i])
}

/// A fresh random password.
pub fn generate_password() -> (p: String)
    ensures
        is_generated_password(p@),
{
    let mut rng = thread_rng();
    alphanumeric_string(&mut rng, PASSWORD_LEN)
}

/// The metadata that `create` records: the given text and url, and the date
/// `date` when one is asked for.
pub open spec fn created_metadata(args: &CreateArgs, date: Timestamp) -> MetadataView {
    MetadataView {
        date: if args.with_date {
            Some(date)
        } else {
            None
        },
        text: opt_view(args.text),
        url: opt_view(args.url),
    }
}

/// `m` is a result that `Metadata::from` may give for `args`: none only when
/// a date is asked for; otherwise the given text and url, dated (if asked)
/// with some time whose nanoseconds are below one second.
pub open spec fn metadata_from_ok(args: CreateArgs, m: Option<MetadataView>) -> bool {
    match m {
        None => args.with_date,
        Some(mm) => exists|t: Timestamp| t.nanos < 1_000_000_000 && mm == #[trigger] created_metadata(&args, t),
    }
}

impl Metadata {
    /// The metadata of `create` with `now` as the date.
    pub fn dated(value: &CreateArgs, now: Timestamp) -> (r: Metadata)
        ensures
            r@ == created_metadata(value, now),
    {
        Metadata {
            url: clone_opt(&value.url),
            text: clone_opt(&value.text),
            date: if value.with_date {
                Some(now)
            } else {
                None
            },
        }
    }

    /// The metadata of `create`, dated with the current time when a date is
    /// asked for; `None` when it is and the clock is set before the UNIX epoch.
    pub fn from(value: &CreateArgs) -> (r: Option<Metadata>)
        ensures
            metadata_from_ok(
                *value,
                match r {
                    Some(m) => Some(m@),
                    None => None,
                },
            ),
    {
        if value.with_date {
            match now() {
                Some(t) => Some(Metadata::dated(value, t)),
                None => None,
            }
        } else {
            let m = Metadata::dated(value, Timestamp { secs: 0, nanos: 0 });
            Some(m)
        }
    }
}

} // verus!
