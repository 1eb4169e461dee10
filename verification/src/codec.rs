//! Record boundary scanner: finds how many leading bytes of a buffer form one
//! complete JSON record, without parsing field contents.
//!
//! A record on the wire is a single JSON object, possibly preceded by
//! whitespace (the stream uses lone whitespace as a keep-alive). The scanner
//! tracks bracket nesting and string/escape state byte by byte; it reports how
//! many leading bytes a complete record occupies, that more input is needed,
//! or that the head of the buffer can never become a record no matter what
//! bytes follow.

use vstd::prelude::*;

verus! {

/// Scanner state between bytes: the stack of open brackets (`true` for an
/// object, `false` for an array), whether we are inside a string literal, and
/// whether the previous byte was an unconsumed backslash escape.
pub struct ScanState {
    pub stack: Seq<bool>,
    pub in_str: bool,
    pub esc: bool,
}

/// What one byte does to the scanner.
pub enum ScanStep {
    Next(ScanState),
    Done,
    Bad,
}

/// JSON insignificant whitespace.
pub open spec fn is_ws(b: u8) -> bool {
    b == 0x20 || b == 0x09 || b == 0x0a || b == 0x0d
}

/// State before any byte of a record has been seen.
pub open spec fn init_state() -> ScanState {
    ScanState { stack: Seq::empty(), in_str: false, esc: false }
}

/// One byte of the boundary scan. `Done` means this byte closed the
/// outermost bracket of the record; `Bad` means no continuation can ever
/// complete a record.
pub open spec fn scan_step(st: ScanState, b: u8) -> ScanStep {
    if st.in_str {
        if st.esc {
            ScanStep::Next(ScanState { esc: false, ..st })
        } else if b == 0x5c {
            ScanStep::Next(ScanState { esc: true, ..st })
        } else if b == 0x22 {
            ScanStep::Next(ScanState { in_str: false, ..st })
        } else {
            ScanStep::Next(st)
        }
    } else if st.stack.len() == 0 {
        if is_ws(b) {
            ScanStep::Next(st)
        } else if b == 0x7b {
            ScanStep::Next(ScanState { stack: st.stack.push(true), ..st })
        } else {
            ScanStep::Bad
        }
    } else {
        if b == 0x7b {
            ScanStep::Next(ScanState { stack: st.stack.push(true), ..st })
        } else if b == 0x5b {
            ScanStep::Next(ScanState { stack: st.stack.push(false), ..st })
        } else if b == 0x22 {
            ScanStep::Next(ScanState { in_str: true, ..st })
        } else if b == 0x7d {
            if st.stack.last() == true {
                if st.stack.len() == 1 {
                    ScanStep::Done
                } else {
                    ScanStep::Next(ScanState { stack: st.stack.drop_last(), ..st })
                }
            } else {
                ScanStep::Bad
            }
        } else if b == 0x5d {
            if st.stack.last() == false {
                if st.stack.len() == 1 {
                    ScanStep::Done
                } else {
                    ScanStep::Next(ScanState { stack: st.stack.drop_last(), ..st })
                }
            } else {
                ScanStep::Bad
            }
        } else {
            ScanStep::Next(st)
        }
    }
}

/// Result of scanning: `Complete(n)` — the first `n` bytes are exactly one
/// record; `Incomplete(st)` — the whole input was consumed without finishing
/// a record, leaving the scanner in state `st`; `Malformed` — the head of the
/// input can never start a record.
pub enum ScanRes {
    Complete(int),
    Incomplete(ScanState),
    Malformed,
}

/// Run the scanner over `s` starting at index `i` in state `st`.
pub open spec fn scan_from(s: Seq<u8>, i: int, st: ScanState) -> ScanRes
    decreases s.len() - i,
{
    if i < 0 || i >= s.len() {
        ScanRes::Incomplete(st)
    } else {
        match scan_step(st, s[i]) {
            ScanStep::Bad => ScanRes::Malformed,
            ScanStep::Done => ScanRes::Complete(i + 1),
            ScanStep::Next(st2) => scan_from(s, i + 1, st2),
        }
    }
}

/// Scan a whole buffer from its start.
pub open spec fn scan(s: Seq<u8>) -> ScanRes {
    scan_from(s, 0, init_state())
}

/// A complete scan consumes at least one byte and no more than the input.
pub proof fn lemma_scan_complete_range(s: Seq<u8>, i: int, st: ScanState, n: int)
    requires
        0 <= i,
        scan_from(s, i, st) == ScanRes::Complete(n),
    ensures
        i < n <= s.len(),
    decreases s.len() - i,
{
    if i < s.len() {
        match scan_step(st, s[i]) {
            ScanStep::Bad => {},
            ScanStep::Done => {},
            ScanStep::Next(st2) => {
                lemma_scan_complete_range(s, i + 1, st2, n);
            },
        }
    }
}

/// The scan of a prefix determines the scan of any extension: a completed or
/// hopeless prefix stays so, and an exhausted prefix resumes in its end state.
pub proof fn lemma_scan_prefix(s: Seq<u8>, t: Seq<u8>, i: int, st: ScanState)
    requires
        0 <= i <= s.len(),
        s.len() <= t.len(),
        s == t.take(s.len() as int),
    ensures
        scan_from(s, i, st) matches ScanRes::Complete(n) ==> scan_from(t, i, st)
            == ScanRes::Complete(n),
        scan_from(s, i, st) == ScanRes::Malformed ==> scan_from(t, i, st) == ScanRes::Malformed,
        scan_from(s, i, st) matches ScanRes::Incomplete(st2) ==> scan_from(t, i, st)
            == scan_from(t, s.len() as int, st2),
    decreases s.len() - i,
{
    if i < s.len() {
        assert(s[i] == t[i]);
        match scan_step(st, s[i]) {
            ScanStep::Bad => {},
            ScanStep::Done => {},
            ScanStep::Next(st2) => {
                lemma_scan_prefix(s, t, i + 1, st2);
            },
        }
    }
}

/// A head of the stream that can never form a record stays that way no
/// matter how many further bytes arrive.
pub proof fn lemma_malformed_stable(s: Seq<u8>, ext: Seq<u8>)
    requires
        scan(s) == ScanRes::Malformed,
    ensures
        scan(s + ext) == ScanRes::Malformed,
{
    assert(s == (s + ext).take(s.len() as int));
    lemma_scan_prefix(s, s + ext, 0, init_state());
}

/// Scanning a strict prefix of a complete record reports `Incomplete`.
pub proof fn lemma_scan_proper_prefix(s: Seq<u8>, k: int)
    requires
        scan(s) matches ScanRes::Complete(n) && k < n,
        0 <= k <= s.len(),
    ensures
        scan(s.take(k)) is Incomplete,
{
    let p = s.take(k);
    assert(p == s.take(p.len() as int));
    lemma_scan_prefix(p, s, 0, init_state());
    match scan(p) {
        ScanRes::Complete(m) => {
            assert(scan(s) == ScanRes::Complete(m));
            lemma_scan_complete_range(p, 0, init_state(), m);
            assert(false);
        },
        ScanRes::Incomplete(_) => {},
        ScanRes::Malformed => {
            assert(scan(s) == ScanRes::Malformed);
            assert(false);
        },
    }
}

/// Outcome of scanning the current buffer, as reported to executable callers.
pub enum ScanOutcome {
    /// The first `n` bytes of the buffer are exactly one record.
    Complete(usize),
    /// No complete record yet; keep the buffer and wait for more bytes.
    Incomplete,
    /// The buffer head can never become a record.
    Malformed,
}

/// Find the boundary of the first record in `buf`, per the `scan` model.
pub fn scan_record(buf: &Vec<u8>) -> (r: ScanOutcome)
    ensures
        match r {
            ScanOutcome::Complete(n) => scan(buf@) == ScanRes::Complete(n as int),
            ScanOutcome::Incomplete => scan(buf@) is Incomplete,
            ScanOutcome::Malformed => scan(buf@) == ScanRes::Malformed,
        },
{
    let mut i: usize = 0;
    let mut stack: Vec<bool> = Vec::new();
    let mut in_str: bool = false;
    let mut esc: bool = false;
    while i < buf.len()
        invariant
            i <= buf@.len(),
            scan(buf@) == scan_from(
                buf@,
                i as int,
                ScanState { stack: stack@, in_str, esc },
            ),
        decreases buf@.len() - i,
    {
        let ghost st = ScanState { stack: stack@, in_str, esc };
        let b = buf[i];
        if in_str {
            if esc {
                esc = false;
            } else if b == 0x5c {
                esc = true;
            } else if b == 0x22 {
                in_str = false;
            }
        } else if stack.len() == 0 {
            if b == 0x20 || b == 0x09 || b == 0x0a || b == 0x0d {
                // whitespace before the record: skip
            } else if b == 0x7b {
                stack.push(true);
            } else {
                assert(scan_step(st, b) == ScanStep::Bad);
                return ScanOutcome::Malformed;
            }
        } else {
            let top = stack[stack.len() - 1];
            if b == 0x7b {
                stack.push(true);
            } else if b == 0x5b {
                stack.push(false);
            } else if b == 0x22 {
                in_str = true;
            } else if b == 0x7d {
                if top {
                    if stack.len() == 1 {
                        assert(scan_step(st, b) == ScanStep::Done);
                        return ScanOutcome::Complete(i + 1);
                    } else {
                        stack.pop();
                        assert(stack@ == st.stack.drop_last());
                    }
                } else {
                    assert(scan_step(st, b) == ScanStep::Bad);
                    return ScanOutcome::Malformed;
                }
            } else if b == 0x5d {
                if !top {
                    if stack.len() == 1 {
                        assert(scan_step(st, b) == ScanStep::Done);
                        return ScanOutcome::Complete(i + 1);
                    } else {
                        stack.pop();
                        assert(stack@ == st.stack.drop_last());
                    }
                } else {
                    assert(scan_step(st, b) == ScanStep::Bad);
                    return ScanOutcome::Malformed;
                }
            }
        }
        assert(scan_step(st, b) == ScanStep::Next(
            ScanState { stack: stack@, in_str, esc },
        ));
        i = i + 1;
    }
    ScanOutcome::Incomplete
}

} // verus!
