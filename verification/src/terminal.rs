//! The bottom command runner: its scroll-back, its command history and what
//! it records when a command starts, ends or is interrupted. Starting and
//! watching the shell process is left to the caller.
use vstd::prelude::*;

use crate::git::trimmed;
use crate::text::{concat, int_text, int_to_string, lines_of, split_lines, string_of, trim, views_of, CharClass};

verus! {

/// The most lines the scroll-back keeps.
pub const MAX_LINES: usize = 2000;

pub struct CmdRunner {
    pub visible: bool,
    pub height_percent: u16,
    pub output: Vec<String>,
    pub input: String,
    pub history: Vec<String>,
    pub hist_idx: Option<usize>,
    pub running: bool,
    pub scroll: usize,
}

pub open spec fn texts(v: Seq<String>) -> Seq<Seq<char>> {
    v.map_values(|s: String| s@)
}

/// The scroll-back after appending the lines of `text`: only the last 2000
/// lines are kept.
pub open spec fn pushed(out: Seq<Seq<char>>, text: Seq<char>) -> Seq<Seq<char>> {
    let all = out + lines_of(text);
    if all.len() > 2000 {
        all.skip(all.len() - 2000)
    } else {
        all
    }
}

pub open spec fn welcome_line() -> Seq<char> {
    "输入命令并回车执行（Ctrl+C 中断，Esc 收起）"@
}

impl CmdRunner {
    /// A visible runner taking a quarter of the height, with a one-line
    /// greeting and no history.
    pub fn new() -> (r: CmdRunner)
        ensures
            r.visible,
            r.height_percent == 25,
            texts(r.output@) == seq![welcome_line()],
            r.input@ == Seq::<char>::empty(),
            r.history@.len() == 0,
            r.hist_idx is None,
            !r.running,
            r.scroll == 0,
    {
        let mut output: Vec<String> = Vec::new();
        output.push("输入命令并回车执行（Ctrl+C 中断，Esc 收起）".to_string());
        assert(texts(output@) =~= seq![welcome_line()]);
        CmdRunner {
            visible: true,
            height_percent: 25,
            output,
            input: String::new(),
            history: Vec::new(),
            hist_idx: None,
            running: false,
            scroll: 0,
        }
    }

    /// Appends each line of `line` to the scroll-back, keeping the last 2000.
    pub fn push_output(&mut self, line: String)
        ensures
            *final(self) == (CmdRunner { output: final(self).output, ..*old(self) }),
            texts(final(self).output@) == pushed(texts(old(self).output@), line@),
            final(self).output@.len() <= MAX_LINES,
    {
        let ls = split_lines(line.as_str());
        let ghost start = texts(self.output@);
        let mut i: usize = 0;
        while i < ls.len()
            invariant
                0 <= i <= ls.len(),
                views_of(ls@) == lines_of(line@),
                start == texts(old(self).output@),
                texts(self.output@) == start + views_of(ls@).take(i as int),
                self.visible == old(self).visible,
                self.height_percent == old(self).height_percent,
                self.input == old(self).input,
                self.history == old(self).history,
                self.hist_idx == old(self).hist_idx,
                self.running == old(self).running,
                self.scroll == old(self).scroll,
            decreases ls.len() - i,
        {
            let ghost prev = texts(self.output@);
            self.output.push(string_of(&ls[i]));
            assert(texts(self.output@) =~= prev.push(ls@[i as int]@));
            assert(views_of(ls@).take(i + 1) =~= views_of(ls@).take(i as int).push(ls@[i as int]@));
            i = i + 1;
        }
        assert(views_of(ls@).take(ls.len() as int) =~= views_of(ls@));
        let n = self.output.len();
        if n > MAX_LINES {
            let excess = n - MAX_LINES;
            let mut kept: Vec<String> = Vec::new();
            let mut k: usize = excess;
            while k < n
                invariant
                    excess <= k <= n,
                    n == self.output.len(),
                    texts(kept@) == texts(self.output@).subrange(excess as int, k as int),
                decreases n - k,
            {
                let ghost prev = texts(kept@);
                kept.push(self.output[k].clone());
                assert(texts(kept@) =~= prev.push(self.output@[k as int]@));
                assert(texts(self.output@).subrange(excess as int, k + 1) =~= texts(self.output@).subrange(excess as int, k as int).push(self.output@[k as int]@));
                k = k + 1;
            }
            assert(texts(self.output@).subrange(excess as int, n as int) =~= texts(self.output@).skip(excess as int));
            self.output = kept;
        }
    }

    /// The runner after taking the command `cmd`.
    pub open spec fn spawned(o: CmdRunner, cmd: Seq<char>, n: CmdRunner) -> bool {
        &&& n == (CmdRunner { output: n.output, history: n.history, hist_idx: None, input: n.input, ..o })
        &&& texts(n.output@) == pushed(texts(o.output@), "$ "@ + cmd)
        &&& texts(n.history@) == texts(o.history@).push(cmd)
        &&& n.input@ == Seq::<char>::empty()
    }

    /// Takes a command line to run: an empty one (after trimming) is
    /// ignored; otherwise it is echoed after `$ `, added to the history, the
    /// history position and the runner's input are reset, and the trimmed
    /// command is handed back to be started.
    pub fn spawn(&mut self, cmdline: &str) -> (r: Option<String>)
        ensures
            trim(cmdline@, CharClass::Whitespace).len() == 0 ==> r is None && *final(self) == *old(self),
            trim(cmdline@, CharClass::Whitespace).len() > 0 ==> {
                &&& r is Some
                &&& r->0@ == trim(cmdline@, CharClass::Whitespace)
                &&& Self::spawned(*old(self), trim(cmdline@, CharClass::Whitespace), *final(self))
            },
    {
        let cmd = trimmed(cmdline);
        if cmd.as_str().is_empty() {
            return None;
        }
        self.push_output(concat("$ ", cmd.as_str()));
        let ghost prev = texts(self.history@);
        self.history.push(cmd.clone());
        assert(texts(self.history@) =~= prev.push(cmd@));
        self.hist_idx = None;
        self.input = String::new();
        Some(cmd)
    }

    /// The command could not be started: the error is recorded.
    pub fn start_failed(&mut self, error: &str)
        ensures
            *final(self) == (CmdRunner { output: final(self).output, ..*old(self) }),
            texts(final(self).output@) == pushed(texts(old(self).output@), "[启动失败] "@ + error@),
    {
        self.push_output(concat("[启动失败] ", error));
    }

    /// The command was started.
    pub fn started(&mut self)
        ensures
            *final(self) == (CmdRunner { running: true, ..*old(self) }),
    {
        self.running = true;
    }

    /// The command ended with exit status `code` (none when a signal ended
    /// it): it is no longer running and the status is recorded.
    pub fn exited(&mut self, code: Option<i32>)
        ensures
            *final(self) == (CmdRunner { output: final(self).output, running: false, ..*old(self) }),
            texts(final(self).output@) == pushed(texts(old(self).output@), "[退出: "@ + match code {
                Some(c) => int_text(c as int),
                None => "signal"@,
            } + "]"@),
    {
        let text = match code {
            Some(c) => int_to_string(c as i64),
            None => "signal".to_string(),
        };
        let a = concat("[退出: ", text.as_str());
        let msg = concat(a.as_str(), "]");
        self.running = false;
        self.push_output(msg);
    }

    /// The runner after an interruption: no longer running, the
    /// interruption recorded.
    pub open spec fn interrupted(o: CmdRunner, n: CmdRunner) -> bool {
        &&& n == (CmdRunner { output: n.output, running: false, ..o })
        &&& texts(n.output@) == pushed(texts(o.output@), "[已中断]"@)
    }

    /// The running command was interrupted.
    pub fn interrupt(&mut self)
        ensures
            Self::interrupted(*old(self), *final(self)),
    {
        self.running = false;
        self.push_output("[已中断]".to_string());
    }

    /// `hist_up` reads the history entry before the current position.
    pub open spec fn hist_up_ok(&self) -> bool {
        self.history@.len() > 0 ==> match self.hist_idx {
            Some(i) => i == 0 || i - 1 < self.history@.len(),
            None => true,
        }
    }

    /// The history position one step back.
    pub open spec fn up_index(len: nat, idx: Option<usize>) -> int {
        match idx {
            None => len - 1,
            Some(i) => if i == 0 { 0 } else { i - 1 },
        }
    }

    pub open spec fn hist_up_post(o: CmdRunner, n: CmdRunner) -> bool {
        if o.history@.len() == 0 {
            n == o
        } else {
            let idx = Self::up_index(o.history@.len(), o.hist_idx);
            &&& n == (CmdRunner { hist_idx: Some(idx as usize), input: n.input, ..o })
            &&& n.input@ == o.history@[idx]@
        }
    }

    /// Moves back in the history: from no position to the last command,
    /// otherwise one command earlier (staying at the first); the runner's
    /// input shows the command reached.
    pub fn hist_up(&mut self)
        requires
            old(self).hist_up_ok(),
        ensures
            Self::hist_up_post(*old(self), *final(self)),
    {
        if self.history.len() == 0 {
            return;
        }
        let idx = match self.hist_idx {
            None => self.history.len() - 1,
            Some(i) => if i == 0 {
                0
            } else {
                i - 1
            },
        };
        self.hist_idx = Some(idx);
        self.input = self.history[idx].clone();
    }

    /// `hist_down` can step past the current position.
    pub open spec fn hist_down_ok(&self) -> bool {
        self.history@.len() > 0 ==> match self.hist_idx {
            Some(i) => i < usize::MAX,
            None => true,
        }
    }

    /// The history position one step forward: none past the last command.
    pub open spec fn down_index(len: nat, idx: Option<usize>) -> Option<int> {
        match idx {
            None => None,
            Some(i) => if i + 1 >= len { None } else { Some(i + 1) },
        }
    }

    pub open spec fn hist_down_post(o: CmdRunner, n: CmdRunner) -> bool {
        if o.history@.len() == 0 || o.hist_idx is None {
            n == o
        } else {
            match Self::down_index(o.history@.len(), o.hist_idx) {
                None => n == (CmdRunner { hist_idx: None, input: n.input, ..o }) && n.input@.len() == 0,
                Some(j) => n == (CmdRunner { hist_idx: Some(j as usize), input: n.input, ..o }) && n.input@ == o.history@[j]@,
            }
        }
    }

    /// Moves forward in the history: past the last command the position is
    /// dropped and the runner's input emptied; without a position nothing
    /// changes.
    pub fn hist_down(&mut self)
        requires
            old(self).hist_down_ok(),
        ensures
            Self::hist_down_post(*old(self), *final(self)),
    {
        if self.history.len() == 0 {
            return;
        }
        match self.hist_idx {
            None => {},
            Some(i) => {
                if i + 1 >= self.history.len() {
                    self.hist_idx = None;
                    self.input = String::new();
                } else {
                    self.hist_idx = Some(i + 1);
                    self.input = self.history[i + 1].clone();
                }
            },
        }
    }
}

/// Stepping back through the history and forward again returns to the
/// position one started from, unless one started at the first command.
pub proof fn law_history_up_down(len: nat, idx: Option<usize>)
    requires
        0 < len <= usize::MAX,
        match idx {
            Some(i) => 0 < i < len,
            None => true,
        },
    ensures
        CmdRunner::down_index(len, Some(CmdRunner::up_index(len, idx) as usize)) == match idx {
            Some(i) => Some(i as int),
            None => None::<int>,
        },
{
}

} // verus!
