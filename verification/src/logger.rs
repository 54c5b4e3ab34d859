use vstd::prelude::*;

use crate::span::{duration_text, Span};
use crate::text::{dec_i64, signed_decimal};

verus! {

/// A message for the log, by kind.
pub enum MessageType {
    /// An error so serious that the program stops.
    Grave(String),
    /// An error.
    Error(String),
    /// A point of attention.
    Warning(String),
    /// Normal information.
    Info(String),
    /// Information shown only in verbose mode.
    Verbose(String),
    /// Verbose information with the time it took.
    Timed(String, Span),
    /// Verbose information with the time spent working and the time elapsed.
    DualTimed(String, Span, Span),
}

/// The text of a message, as it is displayed.
pub open spec fn message_text(m: MessageType) -> Seq<char> {
    match m {
        MessageType::Grave(s) => "!Major Error! ==> "@ + s@ + ". STOPPING"@,
        MessageType::Error(s) => "!Error! ==> "@ + s@,
        MessageType::Warning(s) => "Warning ==> "@ + s@,
        MessageType::Info(s) => s@,
        MessageType::Verbose(s) => s@,
        MessageType::Timed(s, t) => s@ + " in "@ + duration_text(t.secs, t.nanos),
        MessageType::DualTimed(s, t, te) => s@ + " in "@ + duration_text(t.secs, t.nanos) + "/"@
            + duration_text(te.secs, te.nanos) + " "@,
    }
}

/// The line that a component called `name` sends to the log for a message
/// whose text is `text`.
pub open spec fn log_line(name: Seq<char>, text: Seq<char>) -> Seq<char> {
    name + " says: '"@ + text + "'"@
}

impl MessageType {
    /// The spans of timed messages are well formed.
    pub open spec fn wf(&self) -> bool {
        match self {
            MessageType::Timed(_, t) => t.wf(),
            MessageType::DualTimed(_, t, te) => t.wf() && te.wf(),
            _ => true,
        }
    }

    /// The displayed text of the message.
    pub fn to_string(&self) -> (r: String)
        requires
            self.wf(),
        ensures
            r@ == message_text(*self),
    {
        match self {
            MessageType::Grave(s) => {
                let mut r = String::from_str("!Major Error! ==> ");
                r.append(s.as_str());
                r.append(". STOPPING");
                r
            },
            MessageType::Error(s) => {
                let mut r = String::from_str("!Error! ==> ");
                r.append(s.as_str());
                r
            },
            MessageType::Warning(s) => {
                let mut r = String::from_str("Warning ==> ");
                r.append(s.as_str());
                r
            },
            MessageType::Info(s) => s.clone(),
            MessageType::Verbose(s) => s.clone(),
            MessageType::Timed(s, t) => {
                let mut r = s.clone();
                r.append(" in ");
                let tt = t.text();
                r.append(tt.as_str());
                r
            },
            MessageType::DualTimed(s, t, te) => {
                let mut r = s.clone();
                r.append(" in ");
                let tt = t.text();
                r.append(tt.as_str());
                r.append("/");
                let tte = te.text();
                r.append(tte.as_str());
                r.append(" ");
                r
            },
        }
    }
}

/// Formats the log lines of one component of the program.  The lines are
/// handed back to the caller, which forwards them to the log.
pub struct Logger {
    pub name: String,
    pub verbose: bool,
}

impl Logger {
    /// A logger for the component `name`; `verbose` enables verbose lines.
    pub fn new(name: String, verbose: bool) -> (r: Logger)
        ensures
            r.name@ == name@,
            r.verbose == verbose,
    {
        Logger { name, verbose }
    }

    /// The log line for a message: `<name> says: '<text>'`.
    pub fn line(&self, data: &MessageType) -> (r: String)
        requires
            data.wf(),
        ensures
            r@ == log_line(self.name@, message_text(*data)),
    {
        let mut r = self.name.clone();
        r.append(" says: '");
        let t = data.to_string();
        r.append(t.as_str());
        r.append("'");
        r
    }

    /// The line announcing that the component starts.
    pub fn starting(&self) -> (r: String)
        ensures
            r@ == log_line(self.name@, "Starting"@),
    {
        let m = MessageType::Info(String::from_str("Starting"));
        self.line(&m)
    }

    /// The line for some information.
    pub fn log(&self, data: String) -> (r: String)
        ensures
            r@ == log_line(self.name@, message_text(MessageType::Info(data))),
    {
        self.line(&MessageType::Info(data))
    }

    /// The line for an error.
    pub fn error(&self, data: String) -> (r: String)
        ensures
            r@ == log_line(self.name@, message_text(MessageType::Error(data))),
    {
        self.line(&MessageType::Error(data))
    }

    /// The line for a warning.
    pub fn warning(&self, data: String) -> (r: String)
        ensures
            r@ == log_line(self.name@, message_text(MessageType::Warning(data))),
    {
        self.line(&MessageType::Warning(data))
    }

    /// The line for verbose information: only in verbose mode.
    pub fn verbose(&self, data: String) -> (r: Option<String>)
        ensures
            self.verbose ==> r is Some && r->0@ == log_line(self.name@, message_text(MessageType::Verbose(data))),
            !self.verbose ==> r is None,
    {
        if self.verbose {
            Some(self.line(&MessageType::Verbose(data)))
        } else {
            None
        }
    }

    /// The line for a step that took `elapsed`, with the time it counts:
    /// in verbose mode the line and `elapsed`, otherwise no line and zero.
    pub fn timed(&self, data: String, elapsed: Span) -> (r: (Option<String>, Span))
        requires
            elapsed.wf(),
        ensures
            self.verbose ==> r.0 is Some && r.0->0@ == log_line(self.name@, message_text(MessageType::Timed(data, elapsed)))
                && r.1 == elapsed,
            !self.verbose ==> r.0 is None && r.1.total() == 0,
            r.1.wf(),
    {
        if self.verbose {
            (Some(self.line(&MessageType::Timed(data, elapsed))), elapsed)
        } else {
            (None, Span::zero())
        }
    }

    /// The closing line of a component: the time spent working (`work`)
    /// and the time elapsed since it started (`elapse`), which it returns.
    pub fn dual_timed(&self, data: String, work: Span, elapse: Span) -> (r: (String, Span))
        requires
            work.wf(),
            elapse.wf(),
        ensures
            r.0@ == log_line(self.name@, message_text(MessageType::DualTimed(data, work, elapse))),
            r.1 == elapse,
    {
        (self.line(&MessageType::DualTimed(data, work, elapse)), elapse)
    }

    /// The last line of the log: how many lines were written (`nb_ecr`),
    /// the time spent writing them (`work`) and the time elapsed
    /// (`elapse`).
    pub fn closing_line(&self, nb_ecr: i32, work: Span, elapse: Span) -> (r: String)
        requires
            work.wf(),
            elapse.wf(),
        ensures
            r@ == log_line(
                self.name@,
                signed_decimal(nb_ecr as int) + " lines writes in "@ + duration_text(work.secs, work.nanos) + "/"@
                    + duration_text(elapse.secs, elapse.nanos),
            ),
    {
        let mut m = dec_i64(nb_ecr as i64);
        m.append(" lines writes in ");
        let a = work.text();
        m.append(a.as_str());
        m.append("/");
        let b = elapse.text();
        m.append(b.as_str());
        self.line(&MessageType::Info(m))
    }
}

} // verus!
