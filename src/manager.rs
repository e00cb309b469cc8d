use vstd::prelude::*;

use crate::config::{Config, ProgramConfig};
use crate::program::Program;
use crate::relay::tag_bar;
use crate::task::{ExitResult, TaskError};

verus! {

/// The widest task name, in characters; zero for no tasks.
pub open spec fn max_name_len(programs: Seq<Program>) -> nat
    decreases programs.len(),
{
    if programs.len() == 0 {
        0
    } else {
        let rest = max_name_len(programs.drop_last());
        let n = programs.last().name@.len();
        if n > rest {
            n
        } else {
            rest
        }
    }
}

/// `n` spaces.
pub open spec fn spaces(n: nat) -> Seq<char> {
    Seq::new(n, |i: int| ' ')
}

/// A name right-padded with spaces to `width` characters.
pub open spec fn padded(name: Seq<char>, width: nat) -> Seq<char> {
    name + spaces((width - name.len()) as nat)
}

pub proof fn lemma_max_name_len(programs: Seq<Program>)
    ensures
        forall|i: int| 0 <= i < programs.len() ==> (#[trigger] programs[i]).name@.len() <= max_name_len(programs),
        programs.len() > 0 ==> exists|i: int|
            0 <= i < programs.len() && (#[trigger] programs[i]).name@.len() == max_name_len(programs),
    decreases programs.len(),
{
    if programs.len() > 0 {
        let rest = programs.drop_last();
        lemma_max_name_len(rest);
        assert forall|i: int| 0 <= i < programs.len() implies (#[trigger] programs[i]).name@.len()
            <= max_name_len(programs) by {
            if i < rest.len() {
                assert(programs[i] == rest[i]);
            }
        }
        if rest.len() > 0 && programs.last().name@.len() <= max_name_len(rest) {
            let j = choose|j: int| 0 <= j < rest.len() && (#[trigger] rest[j]).name@.len() == max_name_len(rest);
            assert(programs[j] == rest[j]);
        } else {
            assert(programs[programs.len() - 1] == programs.last());
        }
    }
}

/// Every tag, each name padded to the widest name, has exactly that width.
pub proof fn lemma_tags_aligned(programs: Seq<Program>)
    ensures
        forall|i: int|
            0 <= i < programs.len() ==> (#[trigger] padded(programs[i].name@, max_name_len(programs))).len()
                == max_name_len(programs),
{
    lemma_max_name_len(programs);
    assert forall|i: int| 0 <= i < programs.len() implies (#[trigger] padded(
        programs[i].name@,
        max_name_len(programs),
    )).len() == max_name_len(programs) by {
        assert(programs[i].name@.len() <= max_name_len(programs));
    }
}

fn copy_strings(v: &Vec<String>) -> (r: Vec<String>)
    ensures
        r@ == v@,
{
    let mut r: Vec<String> = Vec::new();
    let mut i: usize = 0;
    while i < v.len()
        invariant
            0 <= i <= v@.len(),
            r@ == v@.subrange(0, i as int),
        decreases v@.len() - i,
    {
        r.push(v[i].clone());
        assert(r@ =~= v@.subrange(0, i + 1));
        i = i + 1;
    }
    assert(r@ =~= v@);
    r
}

/// Does the program carry exactly the fields of its configuration entry?
pub open spec fn program_of(p: Program, c: ProgramConfig) -> bool {
    &&& p.name == c.name
    &&& p.command == c.command
    &&& p.environment@ == c.environment@
}

/// The supervisor's fixed set of tasks.
#[derive(Debug, Clone)]
pub struct TaskManager {
    pub config: Config,
    pub programs: Vec<Program>,
}

impl TaskManager {
    /// Builds the supervisor for a loaded configuration: one program per
    /// entry, in order.
    pub fn new(config: Config) -> (r: TaskManager)
        ensures
            r.config == config,
            r.programs@.len() == config.programs@.len(),
            forall|i: int| 0 <= i < r.programs@.len() ==> program_of(#[trigger] r.programs@[i], config.programs@[i]),
    {
        let mut programs: Vec<Program> = Vec::new();
        let mut i: usize = 0;
        while i < config.programs.len()
            invariant
                0 <= i <= config.programs@.len(),
                programs@.len() == i,
                forall|j: int| 0 <= j < i ==> program_of(#[trigger] programs@[j], config.programs@[j]),
            decreases config.programs@.len() - i,
        {
            let pc = &config.programs[i];
            programs.push(Program { name: pc.name.clone(), command: pc.command.clone(), environment: copy_strings(&pc.environment) });
            i = i + 1;
        }
        TaskManager { config, programs }
    }

    /// The width of the tag column: the length of the widest task name.
    pub fn tag_width(&self) -> (r: usize)
        ensures
            r == max_name_len(self.programs@),
    {
        let mut w: usize = 0;
        let mut i: usize = 0;
        while i < self.programs.len()
            invariant
                0 <= i <= self.programs@.len(),
                w == max_name_len(self.programs@.subrange(0, i as int)),
            decreases self.programs@.len() - i,
        {
            let n = self.programs[i].name.as_str().unicode_len();
            assert(self.programs@.subrange(0, i + 1).drop_last() =~= self.programs@.subrange(0, i as int));
            if n > w {
                w = n;
            }
            i = i + 1;
        }
        assert(self.programs@.subrange(0, i as int) =~= self.programs@);
        w
    }

    /// The tag of every task, each name padded to the tag column width.
    pub fn tags(&self) -> (r: Vec<String>)
        ensures
            r@.len() == self.programs@.len(),
            forall|i: int|
                0 <= i < r@.len() ==> (#[trigger] r@[i])@ == padded(self.programs@[i].name@, max_name_len(self.programs@)),
    {
        let w = self.tag_width();
        proof {
            lemma_max_name_len(self.programs@);
        }
        let mut r: Vec<String> = Vec::new();
        let mut i: usize = 0;
        while i < self.programs.len()
            invariant
                0 <= i <= self.programs@.len(),
                w == max_name_len(self.programs@),
                forall|j: int| 0 <= j < self.programs@.len() ==> (#[trigger] self.programs@[j]).name@.len() <= w,
                r@.len() == i,
                forall|j: int| 0 <= j < i ==> (#[trigger] r@[j])@ == padded(self.programs@[j].name@, w as nat),
            decreases self.programs@.len() - i,
        {
            assert(self.programs@[i as int].name@.len() <= w);
            r.push(pad_tag(self.programs[i].name.as_str(), w));
            i = i + 1;
        }
        r
    }
}

/// Right-pads `name` with spaces to `width` characters.
pub fn pad_tag(name: &str, width: usize) -> (r: String)
    requires
        name@.len() <= width,
    ensures
        r@ == padded(name@, width as nat),
        r@.len() == width,
{
    let n = name.unicode_len();
    let mut r = String::from_str(name);
    let mut k: usize = n;
    while k < width
        invariant
            n == name@.len(),
            n <= k <= width,
            r@ == name@ + spaces((k - n) as nat),
        decreases width - k,
    {
        r.append(" ");
        proof {
            reveal_strlit(" ");
        }
        assert(" "@ =~= seq![' ']);
        assert(spaces((k + 1 - n) as nat) =~= spaces((k - n) as nat).push(' '));
        assert(r@ =~= name@ + spaces((k + 1 - n) as nat));
        k = k + 1;
    }
    r
}

/// The ten decimal digits, in order.
pub open spec fn digit_chars() -> Seq<char> {
    seq!['0', '1', '2', '3', '4', '5', '6', '7', '8', '9']
}

/// `n` written in decimal, without leading zeros.
pub open spec fn decimal(n: nat) -> Seq<char>
    decreases n,
{
    if n < 10 {
        seq![digit_chars()[n as int]]
    } else {
        decimal(n / 10) + seq![digit_chars()[(n % 10) as int]]
    }
}

/// `n` written in decimal, with a leading `-` when negative.
pub open spec fn signed_decimal(n: int) -> Seq<char> {
    if n < 0 {
        seq!['-'] + decimal((-n) as nat)
    } else {
        decimal(n as nat)
    }
}

pub(crate) fn push_decimal(out: &mut String, n: u64)
    ensures
        final(out)@ == old(out)@ + decimal(n as nat),
    decreases n,
{
    if n >= 10 {
        push_decimal(out, n / 10);
    }
    let d = (n % 10) as usize;
    let digits = "0123456789";
    proof {
        reveal_strlit("0123456789");
        assert(digits@ =~= digit_chars());
    }
    out.append(digits.substring_char(d, d + 1));
    assert(digits@.subrange(d as int, d + 1) =~= seq![digit_chars()[d as int]]);
}

/// Appends an exit code in decimal.
fn push_code(out: &mut String, code: i32)
    ensures
        final(out)@ == old(out)@ + signed_decimal(code as int),
{
    let c: i64 = code as i64;
    if c < 0 {
        out.append("-");
        proof {
            reveal_strlit("-");
        }
        push_decimal(out, (-c) as u64);
        assert(final(out)@ =~= old(out)@ + signed_decimal(code as int));
    } else {
        push_decimal(out, c as u64);
    }
}

/// The status reported for a task once it has resolved.
pub open spec fn status_text(r: Result<ExitResult, TaskError>) -> Seq<char> {
    match r {
        Ok(ExitResult::Output(_)) => "exited"@,
        Ok(ExitResult::Interrupted) => "Interrupted"@,
        Err(TaskError::IoError(m)) => "exited with error: "@ + m@,
        Err(TaskError::NonZeroExitCode { code, output: _ }) => "exited with non-zero code: "@ + match code {
            Some(c) => signed_decimal(c as int),
            None => "none"@,
        },
    }
}

/// The status message for a resolved task.
pub fn status_message(r: &Result<ExitResult, TaskError>) -> (m: String)
    ensures
        m@ == status_text(*r),
{
    match r {
        Ok(ExitResult::Output(_)) => String::from_str("exited"),
        Ok(ExitResult::Interrupted) => String::from_str("Interrupted"),
        Err(TaskError::IoError(e)) => {
            let mut m = String::from_str("exited with error: ");
            m.append(e.as_str());
            m
        },
        Err(TaskError::NonZeroExitCode { code, output: _ }) => {
            let mut m = String::from_str("exited with non-zero code: ");
            match code {
                Some(c) => push_code(&mut m, *c),
                None => m.append("none"),
            }
            m
        },
    }
}

/// `"<tag> | <status>"`: the line reported when a task resolves.
pub fn status_line(tag: &str, r: &Result<ExitResult, TaskError>) -> (l: String)
    ensures
        l@ == tag@ + tag_bar() + status_text(*r),
{
    let mut l = String::from_str(tag);
    l.append(" | ");
    proof {
        reveal_strlit(" | ");
        assert(" | "@ =~= tag_bar());
    }
    let m = status_message(r);
    l.append(m.as_str());
    l
}

/// How many of a fixed number of tasks have finished, by any outcome.
pub struct CompletionTracker {
    finished: usize,
    total: usize,
}

impl CompletionTracker {
    pub closed spec fn finished_spec(&self) -> nat {
        self.finished as nat
    }

    pub closed spec fn total_spec(&self) -> nat {
        self.total as nat
    }

    pub open spec fn wf(&self) -> bool {
        self.finished_spec() <= self.total_spec()
    }

    /// Have all tasks finished?
    pub open spec fn done(&self) -> bool {
        self.finished_spec() == self.total_spec()
    }

    /// The tracker after one more task has finished.
    pub closed spec fn recorded(self) -> CompletionTracker {
        CompletionTracker { finished: (self.finished + 1) as usize, total: self.total }
    }

    /// A fresh tracker after `k` tasks have finished.
    pub open spec fn after(total: nat, k: nat) -> CompletionTracker
        decreases k,
    {
        if k == 0 {
            Self::start(total)
        } else {
            Self::after(total, (k - 1) as nat).recorded()
        }
    }

    /// A tracker with no task finished yet.
    pub closed spec fn start(total: nat) -> CompletionTracker {
        CompletionTracker { finished: 0, total: total as usize }
    }

    pub fn new(total: usize) -> (r: Self)
        ensures
            r == Self::start(total as nat),
            r.wf(),
            r.finished_spec() == 0,
            r.total_spec() == total,
    {
        CompletionTracker { finished: 0, total }
    }

    /// Records that one more task has finished.
    pub fn record(&mut self)
        requires
            old(self).wf(),
            !old(self).done(),
        ensures
            *final(self) == old(self).recorded(),
            final(self).wf(),
            final(self).finished_spec() == old(self).finished_spec() + 1,
            final(self).total_spec() == old(self).total_spec(),
    {
        self.finished = self.finished + 1;
    }

    /// Whether the supervisor may return: every task has finished.
    pub fn is_done(&self) -> (r: bool)
        ensures
            r == self.done(),
    {
        self.finished == self.total
    }

    pub fn finished(&self) -> (r: usize)
        ensures
            r == self.finished_spec(),
    {
        self.finished
    }

    pub fn total(&self) -> (r: usize)
        ensures
            r == self.total_spec(),
    {
        self.total
    }
}

/// Of `total` tasks, after `k` completion signals the supervisor is done
/// exactly when `k` is `total`: never earlier, whatever each outcome was.
pub proof fn lemma_done_after_all(total: nat, k: nat)
    requires
        total <= usize::MAX,
        k <= total,
    ensures
        CompletionTracker::after(total, k).finished_spec() == k,
        CompletionTracker::after(total, k).total_spec() == total,
        CompletionTracker::after(total, k).done() <==> k == total,
    decreases k,
{
    if k > 0 {
        lemma_done_after_all(total, (k - 1) as nat);
    }
}

} // verus!
