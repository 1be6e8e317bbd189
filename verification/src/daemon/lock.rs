//! How the daemon makes sure that it is the only one.

use vstd::prelude::*;

use crate::text::{chars_of, decimal, digit, is_digit, number, trim, trimmed};

verus! {

/// The value of a text of decimal digits.
pub open spec fn digits_value(s: Seq<char>) -> nat
    decreases s.len(),
{
    if s.len() == 0 {
        0
    } else {
        10 * digits_value(s.drop_last()) + (s.last() as nat - '0' as nat) as nat
    }
}

pub open spec fn all_digits(s: Seq<char>) -> bool {
    s.len() > 0 && forall|i: int| 0 <= i < s.len() ==> is_digit(#[trigger] s[i])
}

/// A number in decimal is made of digits and has its own value.
pub(crate) proof fn lemma_decimal(n: nat)
    ensures
        all_digits(decimal(n)),
        digits_value(decimal(n)) == n,
        decimal(n)[0] != '+',
    decreases n,
{
    if n < 10 {
        let s = decimal(n);
        assert(s.drop_last() =~= Seq::empty());
        assert(s.last() as nat == '0' as nat + n);
        assert(digits_value(s.drop_last()) == 0);
    } else {
        lemma_decimal(n / 10);
        let s = decimal(n);
        assert(s.drop_last() =~= decimal(n / 10));
        assert(s.last() as nat == '0' as nat + n % 10);
        assert(10 * (n / 10) + n % 10 == n);
        assert forall|i: int| 0 <= i < s.len() implies is_digit(#[trigger] s[i]) by {
            if i < s.len() - 1 {
                assert(s[i] == decimal(n / 10)[i]);
            }
        }
        assert(s[0] == decimal(n / 10)[0]);
    }
}

/// The number that a text stands for: digits, with a sign before them or not.
pub open spec fn signed_value(s: Seq<char>) -> Option<int> {
    if s.len() > 0 && s[0] == '-' && all_digits(s.skip(1)) {
        Some(-digits_value(s.skip(1)))
    } else if s.len() > 0 && s[0] == '+' && all_digits(s.skip(1)) {
        Some(digits_value(s.skip(1)) as int)
    } else if all_digits(s) {
        Some(digits_value(s) as int)
    } else {
        None
    }
}

/// The process that a PID file names, if it names one.
pub open spec fn pid_of(content: Seq<char>) -> Option<int> {
    match signed_value(trimmed(content)) {
        Some(n) => if i32::MIN <= n <= i32::MAX {
            Some(n)
        } else {
            None
        },
        None => None,
    }
}

proof fn lemma_digits_grow(s: Seq<char>, k: int)
    requires
        0 <= k <= s.len(),
    ensures
        digits_value(s.take(k)) <= digits_value(s),
    decreases s.len() - k,
{
    if k < s.len() {
        lemma_digits_grow(s, k + 1);
        assert(s.take(k + 1).drop_last() =~= s.take(k));
    } else {
        assert(s.take(k) =~= s);
    }
}

/// The value of the digits from a position on, where they are digits and the
/// value is at most 2^31.
fn read_digits(v: &Vec<char>, from: usize) -> (r: Option<i64>)
    requires
        from <= v@.len(),
    ensures
        match r {
            Some(n) => all_digits(v@.skip(from as int)) && n == digits_value(v@.skip(from as int))
                && n <= 0x8000_0000,
            None => !all_digits(v@.skip(from as int)) || digits_value(v@.skip(from as int))
                > 0x8000_0000,
        },
{
    let ghost s = v@.skip(from as int);
    if from == v.len() {
        return None;
    }
    let mut n: i64 = 0;
    let mut i: usize = from;
    assert(s.take(0) =~= Seq::empty());
    while i < v.len()
        invariant
            from <= i <= v@.len(),
            from < v@.len(),
            s == v@.skip(from as int),
            0 <= n <= 0x8000_0000,
            n == digits_value(s.take(i - from)),
            forall|j: int| 0 <= j < i - from ==> is_digit(#[trigger] s[j]),
        decreases v@.len() - i,
    {
        let c = v[i];
        assert(c == s[i - from]);
        if !digit(c) {
            return None;
        }
        let d: i64 = (c as u32 - '0' as u32) as i64;
        assert(s.take(i - from + 1).drop_last() =~= s.take(i - from));
        assert(s.take(i - from + 1).last() == c);
        n = n * 10 + d;
        i += 1;
        if n > 0x8000_0000 {
            proof {
                lemma_digits_grow(s, i - from);
            }
            return None;
        }
    }
    assert(s.take(i - from) =~= s);
    Some(n)
}

/// Reads the process that a PID file names.
pub fn pid_in_file(content: &str) -> (r: Option<i32>)
    ensures
        match r {
            Some(p) => pid_of(content@) == Some(p as int),
            None => pid_of(content@) is None,
        },
{
    let text = trim(content);
    let v = chars_of(text.as_str());
    if v.len() == 0 {
        return None;
    }
    if v[0] == '-' {
        assert(!is_digit(v@[0]));
        match read_digits(&v, 1) {
            Some(n) => Some((0 - n) as i32),
            None => None,
        }
    } else {
        let from: usize = if v[0] == '+' {
            1
        } else {
            0
        };
        assert(v@.skip(0) =~= v@);
        assert(v@[0] == '+' ==> !is_digit(v@[0]));
        match read_digits(&v, from) {
            Some(n) => if n <= 0x7fff_ffff {
                Some(n as i32)
            } else {
                None
            },
            None => None,
        }
    }
}

/// A number in decimal, with a minus sign before it where it is negative.
pub open spec fn signed_text(n: int) -> Seq<char> {
    if n < 0 {
        "-"@ + decimal((-n) as nat)
    } else {
        decimal(n as nat)
    }
}

fn signed_number(n: i32) -> (r: String)
    ensures
        r@ == signed_text(n as int),
{
    if n < 0 {
        let mut s = "-".to_owned();
        let m: i64 = 0 - (n as i64);
        let t = number(m as u64);
        s.append(t.as_str());
        s
    } else {
        number(n as u64)
    }
}

/// What was found of an earlier daemon.
pub enum LockEvent {
    /// There is no PID file.
    NoPidFile,
    /// There is a PID file that holds this.
    PidFile(String),
    /// The process is alive, or not.
    Pinged(i32, bool),
    PidRemoved,
    NoSocket,
    /// There is a socket, and it answers, or not.
    Socket(bool),
    SocketRemoved,
}

/// What is done next.
pub enum LockAction {
    /// Asks whether the process is alive.
    Ping(i32),
    RemovePid,
    CheckSocket,
    RemoveSocket,
    /// There is no other daemon.
    Acquire,
    /// There is another daemon.
    Fail(String),
}

#[verifier::ext_equal]
pub enum LockActionView {
    Ping(i32),
    RemovePid,
    CheckSocket,
    RemoveSocket,
    Acquire,
    Fail(Seq<char>),
}

impl View for LockAction {
    type V = LockActionView;

    open spec fn view(&self) -> LockActionView {
        match *self {
            LockAction::Ping(pid) => LockActionView::Ping(pid),
            LockAction::RemovePid => LockActionView::RemovePid,
            LockAction::CheckSocket => LockActionView::CheckSocket,
            LockAction::RemoveSocket => LockActionView::RemoveSocket,
            LockAction::Acquire => LockActionView::Acquire,
            LockAction::Fail(m) => LockActionView::Fail(m@),
        }
    }
}

/// The step after an event.
pub open spec fn lock_step(e: LockEvent) -> LockActionView {
    match e {
        LockEvent::NoPidFile => LockActionView::CheckSocket,
        LockEvent::PidFile(content) => match pid_of(content@) {
            Some(p) => LockActionView::Ping(p as i32),
            None => LockActionView::RemovePid,
        },
        LockEvent::Pinged(pid, alive) => if alive {
            LockActionView::Fail(
                "Error: Daemon is already running with PID: "@ + signed_text(pid as int),
            )
        } else {
            LockActionView::RemovePid
        },
        LockEvent::PidRemoved => LockActionView::CheckSocket,
        LockEvent::NoSocket => LockActionView::Acquire,
        LockEvent::Socket(answers) => if answers {
            LockActionView::Fail(
                "Error: Daemon socket is active. Another instance is running."@,
            )
        } else {
            LockActionView::RemoveSocket
        },
        LockEvent::SocketRemoved => LockActionView::Acquire,
    }
}

/// Decides whether this daemon is the only one, one step at a time: what an
/// earlier one left behind is removed, and a running one is left alone.
pub fn is_unique(e: &LockEvent) -> (r: LockAction)
    ensures
        r@ == lock_step(*e),
{
    match e {
        LockEvent::NoPidFile => LockAction::CheckSocket,
        LockEvent::PidFile(content) => match pid_in_file(content.as_str()) {
            Some(p) => LockAction::Ping(p),
            None => LockAction::RemovePid,
        },
        LockEvent::Pinged(pid, alive) => if *alive {
            let mut m = "Error: Daemon is already running with PID: ".to_owned();
            let t = signed_number(*pid);
            m.append(t.as_str());
            LockAction::Fail(m)
        } else {
            LockAction::RemovePid
        },
        LockEvent::PidRemoved => LockAction::CheckSocket,
        LockEvent::NoSocket => LockAction::Acquire,
        LockEvent::Socket(answers) => if *answers {
            LockAction::Fail(
                "Error: Daemon socket is active. Another instance is running.".to_owned(),
            )
        } else {
            LockAction::RemoveSocket
        },
        LockEvent::SocketRemoved => LockAction::Acquire,
    }
}

/// The event is what can come of the action. What ends the search is followed by
/// nothing.
pub open spec fn lock_answers(a: LockActionView, e: LockEvent) -> bool {
    match a {
        LockActionView::Ping(pid) => e matches LockEvent::Pinged(p, _) && p == pid,
        LockActionView::RemovePid => e is PidRemoved,
        LockActionView::CheckSocket => e is NoSocket || e is Socket,
        LockActionView::RemoveSocket => e is SocketRemoved,
        LockActionView::Acquire => false,
        LockActionView::Fail(_) => false,
    }
}

/// The event at this place comes of the step after the one before it.
pub open spec fn lock_follows(c: Seq<LockEvent>, i: int) -> bool {
    lock_answers(lock_step(c[i - 1]), c[i])
}

/// A course of the search for another daemon, from its start on.
pub open spec fn is_lock_course(c: Seq<LockEvent>) -> bool {
    &&& c.len() > 0
    &&& c[0] is NoPidFile || c[0] is PidFile
    &&& forall|i: int| 0 < i < c.len() ==> #[trigger] lock_follows(c, i)
}

/// A daemon is started only where no process of an earlier one was found alive
/// and no socket of one answered.
pub proof fn law_lock_is_exclusive(c: Seq<LockEvent>, i: int)
    requires
        is_lock_course(c),
        lock_step(c.last()) == LockActionView::Acquire,
        0 <= i < c.len(),
    ensures
        !(c[i] matches LockEvent::Pinged(_, alive) && alive),
        c[i] != LockEvent::Socket(true),
{
    if i < c.len() - 1 {
        assert(lock_follows(c, i + 1));
    }
}

/// How far the search has come at the least.
spec fn lock_rank(e: LockEvent) -> int {
    match e {
        LockEvent::NoPidFile => 0,
        LockEvent::PidFile(_) => 0,
        LockEvent::Pinged(_, _) => 1,
        LockEvent::PidRemoved => 2,
        LockEvent::NoSocket => 3,
        LockEvent::Socket(_) => 3,
        LockEvent::SocketRemoved => 4,
    }
}

proof fn lemma_lock_rank(c: Seq<LockEvent>, i: int)
    requires
        is_lock_course(c),
        0 <= i < c.len(),
    ensures
        i <= lock_rank(c[i]),
    decreases i,
{
    if i > 0 {
        lemma_lock_rank(c, i - 1);
        assert(lock_follows(c, i));
    }
}

/// The search for another daemon comes to its end: no course has more than five
/// events.
pub proof fn law_lock_courses_end(c: Seq<LockEvent>)
    requires
        is_lock_course(c),
    ensures
        c.len() <= 5,
{
    lemma_lock_rank(c, c.len() - 1);
}

/// The steps of the search: a PID file that names a process has it asked after, a process
/// that is alive or a socket that answers ends the search, and what was left behind is
/// removed.
pub proof fn law_lock_steps(e: LockEvent)
    ensures
        lock_step(e) == LockActionView::CheckSocket <==> e is NoPidFile || e is PidRemoved,
        lock_step(e) == LockActionView::Acquire <==> e is NoSocket || e is SocketRemoved,
        lock_step(e) == LockActionView::RemoveSocket <==> e == LockEvent::Socket(false),
        lock_step(e) == LockActionView::RemovePid <==> (e is PidFile && pid_of(
            e->PidFile_0@,
        ) is None) || (e matches LockEvent::Pinged(_, alive) && !alive),
        e is PidFile && pid_of(e->PidFile_0@) is Some ==> lock_step(e) == LockActionView::Ping(
            pid_of(e->PidFile_0@)->Some_0 as i32,
        ),
        lock_step(e) is Ping ==> e is PidFile,
        lock_step(e) is Fail <==> e == LockEvent::Socket(true) || (e matches LockEvent::Pinged(
            _,
            alive,
        ) && alive),
{
}

/// The process whose number is written into a PID file, with or without white space
/// around it, is the one that is read from it.
pub proof fn law_pid_files_read_back(n: i32, a: Seq<char>, b: Seq<char>)
    requires
        forall|i: int| 0 <= i < a.len() ==> crate::text::is_white(#[trigger] a[i]),
        forall|i: int| 0 <= i < b.len() ==> crate::text::is_white(#[trigger] b[i]),
    ensures
        pid_of(a + signed_text(n as int) + b) == Some(n as int),
{
    reveal_strlit("-");
    let m: nat = if n < 0 {
        (-n) as nat
    } else {
        n as nat
    };
    lemma_decimal(m);
    let d = decimal(m);
    let s = signed_text(n as int);
    assert(is_digit(d[0]) && is_digit(d[d.len() - 1]));
    if n < 0 {
        assert(s[0] == '-');
        assert(s.skip(1) =~= d);
    } else {
        assert(s == d);
    }
    assert(s.last() == d.last());
    crate::text::law_trim_removes_white_space(a, s, b);
}

/// A file without a number names no process.
pub proof fn law_only_numbers_name_a_process(content: Seq<char>, i: int)
    requires
        pid_of(content) is Some,
    ensures
        ({
            let t = trimmed(content);
            &&& t.len() > 0
            &&& 1 <= i < t.len() ==> is_digit(t[i])
            &&& is_digit(t[0]) || t[0] == '-' || t[0] == '+'
        }),
{
    let t = trimmed(content);
    if 1 <= i < t.len() {
        assert(t.skip(1)[i - 1] == t[i]);
    }
}

} // verus!
