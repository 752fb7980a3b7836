//! The shell seam: the three "open" actions (open a URL in the browser,
//! reveal a file in Finder, open a file in its default app), and an
//! in-memory shell that records the actions asked of it. The real shell
//! (`open(1)`) is driven by the application.

use vstd::prelude::*;

verus! {

/// Why a shell action failed.
#[derive(Debug, Clone, PartialEq, Eq)]
pub enum ShellError {
    /// Spawning the helper process failed.
    Spawn(String),
}

/// The user-facing message of a shell error.
pub open spec fn shell_error_message(e: ShellError) -> Seq<char> {
    match e {
        ShellError::Spawn(m) => "shell spawn error: "@ + m@,
    }
}

impl ShellError {
    /// The user-facing message of the error.
    pub fn to_message(&self) -> (r: String)
        ensures
            r@ == shell_error_message(*self),
    {
        match self {
            ShellError::Spawn(m) => crate::store::concat_str("shell spawn error: ", m.as_str()),
        }
    }
}

/// One shell action with its argument.
#[derive(Debug, Clone, PartialEq, Eq)]
pub enum ShellCall {
    OpenInBrowser(String),
    RevealInFinder(String),
    OpenPath(String),
}

/// A shell call as mathematical values: which action (0 browser, 1 reveal,
/// 2 open) and its argument.
pub open spec fn call_view(c: ShellCall) -> (int, Seq<char>) {
    match c {
        ShellCall::OpenInBrowser(u) => (0, u@),
        ShellCall::RevealInFinder(p) => (1, p@),
        ShellCall::OpenPath(p) => (2, p@),
    }
}

impl ShellCall {
    /// A copy of the call.
    pub fn copy(&self) -> (r: ShellCall)
        ensures
            call_view(r) == call_view(*self),
    {
        match self {
            ShellCall::OpenInBrowser(u) => ShellCall::OpenInBrowser(u.clone()),
            ShellCall::RevealInFinder(p) => ShellCall::RevealInFinder(p.clone()),
            ShellCall::OpenPath(p) => ShellCall::OpenPath(p.clone()),
        }
    }
}

/// The views of a list of calls.
pub open spec fn calls_view(v: Seq<ShellCall>) -> Seq<(int, Seq<char>)> {
    v.map_values(|c: ShellCall| call_view(c))
}

/// A shell answer as a value: success, or the user-facing message of the
/// error.
pub open spec fn answer_view(a: Result<(), ShellError>) -> Result<(), Seq<char>> {
    match a {
        Ok(()) => Ok(()),
        Err(e) => Err(shell_error_message(e)),
    }
}

/// A result with a text error, as a value.
pub open spec fn result_text(r: Result<(), String>) -> Result<(), Seq<char>> {
    match r {
        Ok(()) => Ok(()),
        Err(m) => Err(m@),
    }
}

/// The three open actions. `requested` is the list of actions asked of
/// the shell so far, as `call_view` values; `answered` is what the shell
/// answered to each of them, in the same order.
pub trait Shell {
    spec fn requested(&self) -> Seq<(int, Seq<char>)>;

    spec fn answered(&self) -> Seq<Result<(), ShellError>>;

    fn open_in_browser(&mut self, url: &str) -> (r: Result<(), ShellError>)
        ensures
            final(self).requested() == old(self).requested().push((0, url@)),
            final(self).answered() == old(self).answered().push(r),
    ;

    fn reveal_in_finder(&mut self, path: &str) -> (r: Result<(), ShellError>)
        ensures
            final(self).requested() == old(self).requested().push((1, path@)),
            final(self).answered() == old(self).answered().push(r),
    ;

    fn open_path(&mut self, path: &str) -> (r: Result<(), ShellError>)
        ensures
            final(self).requested() == old(self).requested().push((2, path@)),
            final(self).answered() == old(self).answered().push(r),
    ;
}

/// A shell that records every action asked of it and always succeeds.
pub struct FakeShell {
    calls: Vec<ShellCall>,
}

impl FakeShell {
    /// A shell with no recorded action.
    pub fn new() -> (s: Self)
        ensures
            s.recorded().len() == 0,
            s.answered().len() == 0,
    {
        FakeShell { calls: Vec::new() }
    }

    /// The actions recorded so far, oldest first.
    pub closed spec fn recorded(&self) -> Seq<(int, Seq<char>)> {
        calls_view(self.calls@)
    }

    /// A copy of the recorded actions, oldest first.
    pub fn calls(&self) -> (r: Vec<ShellCall>)
        ensures
            calls_view(r@) == self.recorded(),
    {
        let mut r: Vec<ShellCall> = Vec::new();
        let mut i: usize = 0;
        while i < self.calls.len()
            invariant
                i <= self.calls.len(),
                calls_view(r@) == calls_view(self.calls@.take(i as int)),
            decreases self.calls.len() - i,
        {
            let c = self.calls[i].copy();
            let ghost before = r@;
            r.push(c);
            assert(calls_view(r@) =~= calls_view(before).push(call_view(self.calls@[i as int])));
            assert(self.calls@.take(i + 1) =~= self.calls@.take(i as int).push(self.calls@[i as int]));
            i = i + 1;
            assert(calls_view(r@) =~= calls_view(self.calls@.take(i as int)));
        }
        assert(self.calls@.take(self.calls.len() as int) =~= self.calls@);
        r
    }

    fn record(&mut self, c: ShellCall)
        ensures
            final(self).recorded() == old(self).recorded().push(call_view(c)),
            final(self).answered() == old(self).answered().push(Ok(())),
    {
        self.calls.push(c);
        assert(calls_view(self.calls@) =~= calls_view(old(self).calls@).push(call_view(c)));
        assert(self.answered() =~= old(self).answered().push(Ok(())));
    }
}

impl Default for FakeShell {
    fn default() -> (s: Self)
        ensures
            s.recorded().len() == 0,
            s.answered().len() == 0,
    {
        FakeShell::new()
    }
}

impl Shell for FakeShell {
    open spec fn requested(&self) -> Seq<(int, Seq<char>)> {
        self.recorded()
    }

    /// Every action succeeded.
    open spec fn answered(&self) -> Seq<Result<(), ShellError>> {
        Seq::new(self.recorded().len(), |i: int| Ok(()))
    }

    fn open_in_browser(&mut self, url: &str) -> (r: Result<(), ShellError>)
        ensures
            r is Ok,
    {
        self.record(ShellCall::OpenInBrowser(String::from_str(url)));
        Ok(())
    }

    fn reveal_in_finder(&mut self, path: &str) -> (r: Result<(), ShellError>)
        ensures
            r is Ok,
    {
        self.record(ShellCall::RevealInFinder(String::from_str(path)));
        Ok(())
    }

    fn open_path(&mut self, path: &str) -> (r: Result<(), ShellError>)
        ensures
            r is Ok,
    {
        self.record(ShellCall::OpenPath(String::from_str(path)));
        Ok(())
    }
}

} // verus!
