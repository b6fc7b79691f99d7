//! Messages recorded while configuration is compiled and requests are evaluated.

use vstd::prelude::*;

verus! {

#[derive(Debug, Clone, Copy, PartialEq, Eq, Structural)]
pub enum LogLevel {
    Debug,
    Info,
    Warning,
    Error,
}

/// One recorded message.
#[derive(Debug)]
pub struct Log {
    pub level: LogLevel,
    pub message: String,
}

/// The messages recorded so far, oldest first.
#[derive(Debug)]
pub struct Logs {
    pub logs: Vec<Log>,
}

/// What a list of messages says: level and text of each.
pub open spec fn log_view(s: Seq<Log>) -> Seq<(LogLevel, Seq<char>)> {
    Seq::new(s.len(), |i: int| (s[i].level, s[i].message@))
}

impl View for Logs {
    type V = Seq<(LogLevel, Seq<char>)>;

    open spec fn view(&self) -> Seq<(LogLevel, Seq<char>)> {
        log_view(self.logs@)
    }
}

impl Logs {
    pub fn new() -> (l: Self)
        ensures
            l@ == Seq::<(LogLevel, Seq<char>)>::empty(),
    {
        let l = Logs { logs: Vec::new() };
        assert(l@ =~= Seq::<(LogLevel, Seq<char>)>::empty());
        l
    }

    /// Records `message` at `level`.
    pub fn log(&mut self, level: LogLevel, message: String)
        ensures
            final(self)@ == old(self)@.push((level, message@)),
    {
        self.logs.push(Log { level, message });
        assert(self@ =~= old(self)@.push((level, message@)));
    }

    pub fn debug(&mut self, message: String)
        ensures
            final(self)@ == old(self)@.push((LogLevel::Debug, message@)),
    {
        self.log(LogLevel::Debug, message)
    }

    pub fn error(&mut self, message: String)
        ensures
            final(self)@ == old(self)@.push((LogLevel::Error, message@)),
    {
        self.log(LogLevel::Error, message)
    }
}

} // verus!
