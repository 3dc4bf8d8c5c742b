//! Problems and how they are reported.
use vstd::prelude::*;
use vstd::string::StringExecFns;

use crate::text::{join, joined, texts};

verus! {

/// How serious a problem is.
#[derive(Debug, Clone, Copy, PartialEq, Eq, Structural)]
pub enum Level {
    Warn,
    Error,
}

impl Level {
    /// The name of the level in a report.
    pub open spec fn name(self) -> Seq<char> {
        match self {
            Level::Warn => "WARN"@,
            Level::Error => "ERROR"@,
        }
    }

    /// The name of the level in a report.
    pub fn as_str(&self) -> (name: &'static str)
        ensures
            name@ == self.name(),
    {
        match self {
            Level::Warn => "WARN",
            Level::Error => "ERROR",
        }
    }
}

/// Something that went wrong.
#[derive(Debug)]
pub struct Problem {
    pub level: Level,
    pub message: String,
}

impl Clone for Problem {
    /// The same problem.
    fn clone(&self) -> (problem: Self)
        ensures
            problem == *self,
    {
        Problem { level: self.level, message: self.message.clone() }
    }
}

impl Problem {
    /// A problem that needs attention, while the run goes on as planned.
    pub fn warning(message: String) -> (problem: Self)
        ensures
            problem == (Problem { level: Level::Warn, message }),
    {
        Problem { level: Level::Warn, message }
    }

    /// Something that failed.
    pub fn error(message: String) -> (problem: Self)
        ensures
            problem == (Problem { level: Level::Error, message }),
    {
        Problem { level: Level::Error, message }
    }
}

/// What is known of a problem: its level and its message.
pub type ProblemParts = (Level, Seq<char>);

impl Problem {
    /// The level and the message.
    pub open spec fn parts(self) -> ProblemParts {
        (self.level, self.message@)
    }
}

/// The parts of the problems.
pub open spec fn problem_parts(problems: Seq<Problem>) -> Seq<ProblemParts> {
    problems.map_values(|problem: Problem| problem.parts())
}

/// A warning with the message.
pub open spec fn warning_parts(message: Seq<char>) -> ProblemParts {
    (Level::Warn, message)
}

/// An error with the message.
pub open spec fn error_parts(message: Seq<char>) -> ProblemParts {
    (Level::Error, message)
}

/// Problems that are reported together, and what they have in common.
#[derive(Debug)]
pub struct Report {
    pub subject: String,
    pub problems: Vec<Problem>,
}

impl Report {
    /// The report has the subject, and these problems.
    pub open spec fn says(self, subject: Seq<char>, problems: Seq<ProblemParts>) -> bool {
        self.subject@ == subject && problem_parts(self.problems@) == problems
    }

    /// A report on one problem.
    pub fn single(subject: String, problem: Problem) -> (report: Report)
        ensures
            report.says(subject@, seq![problem.parts()]),
    {
        let mut problems: Vec<Problem> = Vec::new();
        problems.push(problem);
        assert(problem_parts(problems@) =~= seq![problem.parts()]);
        Report { subject, problems }
    }
}

/// The lines of an email on the problems.
pub open spec fn body_lines(problems: Seq<ProblemParts>) -> Seq<Seq<char>> {
    problems.map_values(|problem: ProblemParts| problem.0.name() + ": "@ + problem.1)
}

/// The body of an email on the problems: one line for each.
pub open spec fn body(problems: Seq<ProblemParts>) -> Seq<char> {
    joined(body_lines(problems), "\n"@)
}

/// The body of an email on the problems.
pub fn email_body(problems: &Vec<Problem>) -> (text: String)
    ensures
        text@ == body(problem_parts(problems@)),
{
    let mut lines: Vec<String> = Vec::new();
    let ghost all = body_lines(problem_parts(problems@));
    let mut i: usize = 0;
    assert(texts(lines@) =~= all.take(0));
    while i < problems.len()
        invariant
            i <= problems@.len(),
            all == body_lines(problem_parts(problems@)),
            texts(lines@) == all.take(i as int),
        decreases problems@.len() - i,
    {
        let ghost before = lines@;
        let problem = &problems[i];
        let line = problem.level.as_str().to_string().concat(": ").concat(problem.message.as_str());
        lines.push(line);
        assert(texts(lines@) =~= texts(before).push(line@));
        assert(all.take(i + 1) =~= all.take(i as int).push(all[i as int]));
        i += 1;
    }
    assert(all.take(i as int) =~= all);
    join(&lines, "\n")
}

/// What is done next with a report.
#[derive(Debug)]
pub enum Delivery {
    /// Nothing is left to do.
    Done,
    /// An email with this body is sent.
    Email(String),
    /// Each problem is logged.
    Log,
}

/// What is done first with the problems of a report: nothing without problems; else an email is
/// sent if that is configured, and the problems are logged if it is not.
pub fn first_delivery(problems: &Vec<Problem>, email_configured: bool) -> (delivery: Delivery)
    ensures
        match delivery {
            Delivery::Done => problems@.len() == 0,
            Delivery::Email(text) => problems@.len() > 0 && email_configured && text@ == body(
                problem_parts(problems@),
            ),
            Delivery::Log => problems@.len() > 0 && !email_configured,
        },
{
    if problems.len() == 0 {
        Delivery::Done
    } else if email_configured {
        Delivery::Email(email_body(problems))
    } else {
        Delivery::Log
    }
}

/// What is done after the attempt to send an email: the problems are logged if it failed.
pub fn delivery_after_email(sent: bool) -> (delivery: Delivery)
    ensures
        delivery == (if sent {
            Delivery::Done
        } else {
            Delivery::Log
        }),
{
    if sent {
        Delivery::Done
    } else {
        Delivery::Log
    }
}

/// The report on a run that failed.
pub fn run_failed(path: &str, error: &str) -> (report: Report)
    ensures
        report.says(
            "Could not process "@ + path@,
            seq![error_parts("could not process "@ + path@ + ": "@ + error@)],
        ),
{
    Report::single(
        "Could not process ".to_string().concat(path),
        Problem::error("could not process ".to_string().concat(path).concat(": ").concat(error)),
    )
}

/// The report on a cleanup of the archive that failed.
pub fn cleanup_failed(path: &str, error: &str) -> (report: Report)
    ensures
        report.says(
            "Could not clean up "@ + path@,
            seq![error_parts("could not delete old files in "@ + path@ + ": "@ + error@)],
        ),
{
    Report::single(
        "Could not clean up ".to_string().concat(path),
        Problem::error(
            "could not delete old files in ".to_string().concat(path).concat(": ").concat(error),
        ),
    )
}

/// The report on the open file limit that could not be increased.
pub fn limit_failed(error: &str) -> (report: Report)
    ensures
        report.says(
            "Could not increase open file limit"@,
            seq![warning_parts("could not increase open file limit: "@ + error@)],
        ),
{
    Report::single(
        "Could not increase open file limit".to_string(),
        Problem::warning("could not increase open file limit: ".to_string().concat(error)),
    )
}

/// The report on an update of a program that failed.
pub fn update_failed(executable: &str, error: &str) -> (report: Report)
    ensures
        report.says(
            "Could not update "@ + executable@,
            seq![error_parts("could not update "@ + executable@ + ": "@ + error@)],
        ),
{
    Report::single(
        "Could not update ".to_string().concat(executable),
        Problem::error(
            "could not update ".to_string().concat(executable).concat(": ").concat(error),
        ),
    )
}

} // verus!
