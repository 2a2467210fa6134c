//! One-shot handling of user-supplied V8 flags.
//!
//! V8 only honours flags set before its platform starts, so the first
//! non-empty flag string is handed on once and every later one is dropped.
//! An empty or whitespace-only string is a no-op and does not use up the
//! single shot.

use vstd::prelude::*;

use crate::text::{trim, trim_seq};

verus! {

/// The one-shot guard: whether flags have been handed to V8 already.
#[derive(Debug)]
pub struct V8FlagsOnce {
    pub consumed: bool,
}

impl V8FlagsOnce {
    /// A guard that has not been used yet.
    pub fn new() -> (g: V8FlagsOnce)
        ensures
            !g.consumed,
    {
        V8FlagsOnce { consumed: false }
    }
}

/// The flag string that a call hands to V8, if any: the trimmed flags when
/// they are non-empty and the guard is still unused.
pub open spec fn flags_to_apply(consumed: bool, flags: Seq<char>) -> Option<Seq<char>> {
    if trim_seq(flags).len() == 0 || consumed {
        None
    } else {
        Some(trim_seq(flags))
    }
}

/// Whether a call uses up the guard.
pub open spec fn consumes_guard(consumed: bool, flags: Seq<char>) -> bool {
    consumed || trim_seq(flags).len() > 0
}

/// Applies user-supplied V8 flags (a raw flag string such as
/// `"--max-old-space-size=4096 --max-semi-space-size=64"`) at most once.
/// Returns the trimmed string to hand to V8, or `None` when the call is a
/// no-op: the string is empty or white space only (the guard stays unused),
/// or flags were already applied.
pub fn set_v8_flags(once: &mut V8FlagsOnce, flags: &str) -> (apply: Option<String>)
    ensures
        final(once).consumed == consumes_guard(old(once).consumed, flags@),
        match apply {
            Some(a) => flags_to_apply(old(once).consumed, flags@) == Some(a@),
            None => flags_to_apply(old(once).consumed, flags@) is None,
        },
{
    let trimmed = trim(flags);
    if trimmed.as_str().is_empty() {
        return None;
    }
    if once.consumed {
        return None;
    }
    once.consumed = true;
    Some(trimmed)
}

/// A call with empty or white-space-only flags changes nothing, so a later
/// call with real flags still applies them.
pub proof fn lemma_blank_flags_keep_the_shot(consumed: bool, blank: Seq<char>, flags: Seq<char>)
    requires
        trim_seq(blank).len() == 0,
    ensures
        flags_to_apply(consumed, blank) is None,
        consumes_guard(consumed, blank) == consumed,
        flags_to_apply(consumes_guard(consumed, blank), flags) == flags_to_apply(
            consumed,
            flags,
        ),
{
}

/// Flags are applied at most once: once a call has applied flags, every
/// later call is dropped.
pub proof fn lemma_flags_applied_at_most_once(
    consumed: bool,
    first: Seq<char>,
    later: Seq<char>,
)
    requires
        flags_to_apply(consumed, first) is Some,
    ensures
        consumes_guard(consumed, first),
        flags_to_apply(consumes_guard(consumed, first), later) is None,
        consumes_guard(consumes_guard(consumed, first), later),
{
}

/// Whether the guard is used up after a run of calls, starting from
/// `consumed`.
pub open spec fn guard_after(consumed: bool, calls: Seq<Seq<char>>) -> bool
    decreases calls.len(),
{
    if calls.len() == 0 {
        consumed
    } else {
        guard_after(consumes_guard(consumed, calls[0]), calls.drop_first())
    }
}

/// After a run of calls the guard is used up exactly when it was before or
/// one of the calls had non-blank flags.
pub proof fn lemma_guard_after(consumed: bool, calls: Seq<Seq<char>>)
    ensures
        guard_after(consumed, calls) == (consumed || exists|j: int|
            0 <= j < calls.len() && #[trigger] trim_seq(calls[j]).len() > 0),
    decreases calls.len(),
{
    if calls.len() > 0 {
        let rest = calls.drop_first();
        lemma_guard_after(consumes_guard(consumed, calls[0]), rest);
        if exists|j: int| 0 <= j < rest.len() && #[trigger] trim_seq(rest[j]).len() > 0 {
            let j = choose|j: int| 0 <= j < rest.len() && #[trigger] trim_seq(rest[j]).len() > 0;
            assert(calls[j + 1] == rest[j]);
        }
        if exists|j: int| 0 <= j < calls.len() && #[trigger] trim_seq(calls[j]).len() > 0 {
            let j = choose|j: int| 0 <= j < calls.len() && #[trigger] trim_seq(calls[j]).len() > 0;
            if j > 0 {
                assert(rest[j - 1] == calls[j]);
            }
        }
    }
}

/// In a run of calls on an unused guard, call `k` applies flags exactly when
/// its flags are the first non-blank ones, and then it applies them trimmed:
/// blank calls before it do not block it and every call after it is dropped.
pub proof fn lemma_first_nonblank_call_applies(calls: Seq<Seq<char>>, k: int)
    requires
        0 <= k < calls.len(),
    ensures
        ({
            let applied = flags_to_apply(guard_after(false, calls.take(k)), calls[k]);
            &&& applied is Some <==> (trim_seq(calls[k]).len() > 0 && forall|j: int|
                0 <= j < k ==> #[trigger] trim_seq(calls[j]).len() == 0)
            &&& applied is Some ==> applied == Some(trim_seq(calls[k]))
        }),
{
    let pre = calls.take(k);
    lemma_guard_after(false, pre);
    if exists|j: int| 0 <= j < k && #[trigger] trim_seq(calls[j]).len() > 0 {
        let j = choose|j: int| 0 <= j < k && #[trigger] trim_seq(calls[j]).len() > 0;
        assert(pre[j] == calls[j]);
    }
    if exists|j: int| 0 <= j < pre.len() && #[trigger] trim_seq(pre[j]).len() > 0 {
        let j = choose|j: int| 0 <= j < pre.len() && #[trigger] trim_seq(pre[j]).len() > 0;
        assert(pre[j] == calls[j]);
    }
}

} // verus!
