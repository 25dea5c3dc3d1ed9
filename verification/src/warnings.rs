//! Rate-limited diagnostic output.
//!
//! Usage discrepancies are advisory only: they are collected as warning
//! lines, never panics. To avoid flooding interactive programs the sink
//! accepts at most a fixed number of messages per sink; when the cap is
//! reached one final sentinel line is recorded and everything after it is
//! dropped silently. The lines themselves are plain values; printing them to
//! an error stream is left to unverified callers.

use vstd::prelude::*;

verus! {

/// Hard cap on the number of warning messages one sink will ever hold.
pub const MAX_WARNING_COUNT: usize = 100;

/// The sentinel message recorded once, when the cap is reached.
pub open spec fn suppression_notice() -> Seq<char> {
    "Too many warnings, suppressing further ones."@
}

/// Collects warning messages, counting every attempt and keeping at most
/// [`MAX_WARNING_COUNT`] lines. The count saturates at the cap; once it is
/// reached, further messages are discarded.
pub struct WarningSink {
    /// Warning attempts seen so far, saturated at [`MAX_WARNING_COUNT`].
    pub count: usize,
    /// The recorded warning lines, in order of arrival.
    pub lines: Vec<String>,
}

impl WarningSink {
    /// The recorded lines as sequences of characters.
    pub open spec fn spec_lines(self) -> Seq<Seq<char>> {
        self.lines.deep_view()
    }

    /// Well-formedness: the count never exceeds the cap, and there are never
    /// more lines than counted attempts.
    pub open spec fn wf(self) -> bool {
        &&& self.count <= MAX_WARNING_COUNT
        &&& self.spec_lines().len() <= self.count
    }

    /// An empty sink.
    pub fn new() -> (r: WarningSink)
        ensures
            r.count == 0,
            r.spec_lines() == Seq::<Seq<char>>::empty(),
            r.wf(),
    {
        let r = WarningSink { count: 0, lines: Vec::new() };
        proof {
            assert(r.spec_lines() =~= Seq::<Seq<char>>::empty());
        }
        r
    }
}

/// Records `msg` unconditionally, without touching the attempt count.
fn warning_no_count_check(sink: &mut WarningSink, msg: &str)
    ensures
        final(sink).count == old(sink).count,
        final(sink).spec_lines() =~= old(sink).spec_lines().push(msg@),
{
    sink.lines.push(msg.to_owned());
}

/// Counts one warning attempt and says whether the message should still be
/// recorded. Returns `true` for the attempts below the cap; the attempt that
/// reaches the cap records the sentinel line instead and returns `false`, as
/// does every attempt after it.
pub fn inc_and_check_warning_count(sink: &mut WarningSink) -> (ok: bool)
    ensures
        ok == (old(sink).count + 1 < MAX_WARNING_COUNT),
        final(sink).count == if old(sink).count < MAX_WARNING_COUNT {
            old(sink).count + 1
        } else {
            old(sink).count as int
        },
        final(sink).spec_lines() =~= if old(sink).count + 1 == MAX_WARNING_COUNT {
            old(sink).spec_lines().push(suppression_notice())
        } else {
            old(sink).spec_lines()
        },
        old(sink).wf() ==> final(sink).wf(),
{
    if sink.count < MAX_WARNING_COUNT {
        sink.count = sink.count + 1;
        let ok = sink.count < MAX_WARNING_COUNT;
        if !ok {
            warning_no_count_check(sink, "Too many warnings, suppressing further ones.");
        }
        ok
    } else {
        false
    }
}

/// The effect one warning attempt with message `msg` has on the recorded
/// lines: below the cap the message is kept, the attempt reaching the cap
/// keeps the sentinel instead, and later attempts keep nothing.
pub open spec fn warning_lines_after(lines: Seq<Seq<char>>, count: nat, msg: Seq<char>) -> Seq<
    Seq<char>,
> {
    if count + 1 < MAX_WARNING_COUNT {
        lines.push(msg)
    } else if count + 1 == MAX_WARNING_COUNT {
        lines.push(suppression_notice())
    } else {
        lines
    }
}

/// Records one warning message, subject to the cap.
pub fn warning(sink: &mut WarningSink, msg: &str)
    ensures
        final(sink).count == if old(sink).count < MAX_WARNING_COUNT {
            old(sink).count + 1
        } else {
            old(sink).count as int
        },
        final(sink).spec_lines() =~= warning_lines_after(
            old(sink).spec_lines(),
            old(sink).count as nat,
            msg@,
        ),
        old(sink).wf() ==> final(sink).wf(),
{
    if inc_and_check_warning_count(sink) {
        warning_no_count_check(sink, msg)
    }
}

/// Relates a sink before and after one warning attempt with message `msg`.
pub open spec fn warned(older: WarningSink, newer: WarningSink, msg: Seq<char>) -> bool {
    &&& newer.count == if older.count < MAX_WARNING_COUNT {
        older.count + 1
    } else {
        older.count as int
    }
    &&& newer.spec_lines() =~= warning_lines_after(older.spec_lines(), older.count as nat, msg)
}

/// Warning-count cap: a well-formed sink never holds more than
/// [`MAX_WARNING_COUNT`] lines, however many warning attempts were made.
pub proof fn lemma_warning_cap(sink: WarningSink)
    requires
        sink.wf(),
    ensures
        sink.spec_lines().len() <= MAX_WARNING_COUNT,
{
}

} // verus!
