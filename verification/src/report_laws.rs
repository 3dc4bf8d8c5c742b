//! What holds of all reports, emails and requests.
use vstd::prelude::*;

use crate::commands::{failure_text, filled_lines, is_retried, last_of, tail};
use crate::duration::Duration;
use crate::email::{
    encryption_of, is_notifier_given, mailbox_parts, EmailConfiguration, EmailError, EmailNotifier,
    Encryption, Mailbox, MailboxParts,
};
use crate::maintenance::{is_update_due, since};
use crate::qbittorrent::{address, is_first_named};
use crate::report::{
    body, body_lines, error_parts, problem_parts, warning_parts, Level, Problem, ProblemParts,
    Report,
};
use crate::text::{joined, lacks, optional_text, pieces, trimmed};
use crate::text_laws::{law_text_is_split_at_separators, law_texts_are_joined};

verus! {

/// What is known of a problem is its level and its message, and of a list of problems what is known
/// of each of them, in order.
pub proof fn law_problems_are_known(problem: Problem, problems: Seq<Problem>, message: Seq<char>)
    ensures
        problem.parts() == (problem.level, problem.message@),
        problem_parts(problems).len() == problems.len(),
        forall|i: int|
            0 <= i < problems.len() ==> (#[trigger] problem_parts(problems)[i]) == (
                problems[i].level,
                problems[i].message@,
            ),
        warning_parts(message) == (Level::Warn, message),
        error_parts(message) == (Level::Error, message),
        Level::Warn.name() == "WARN"@,
        Level::Error.name() == "ERROR"@,
{
}

/// A report says its subject and all its problems.
pub proof fn law_report_says_what_it_holds(
    report: Report,
    subject: Seq<char>,
    problems: Seq<ProblemParts>,
)
    ensures
        report.says(subject, problems) <==> report.subject@ == subject && report.problems@.len()
            == problems.len() && forall|i: int|
            0 <= i < problems.len() ==> report.problems@[i].level == (#[trigger] problems[i]).0
                && report.problems@[i].message@ == problems[i].1,
{
    let known = problem_parts(report.problems@);
    if report.says(subject, problems) {
        assert forall|i: int| 0 <= i < problems.len() implies report.problems@[i].level == (
        #[trigger] problems[i]).0 && report.problems@[i].message@ == problems[i].1 by {
            assert(known[i] == problems[i]);
        }
    } else if report.problems@.len() == problems.len() && (forall|i: int|
        0 <= i < problems.len() ==> report.problems@[i].level == (#[trigger] problems[i]).0
            && report.problems@[i].message@ == problems[i].1) {
        assert(known =~= problems);
    }
}

/// An email has one line for each problem, with the level in front of the message, in order.
pub proof fn law_email_has_a_line_for_each_problem(
    level: Level,
    message: Seq<char>,
    first: Seq<ProblemParts>,
    second: Seq<ProblemParts>,
)
    ensures
        body(seq![(Level::Warn, message)]) == "WARN"@ + ": "@ + message,
        body(seq![(Level::Error, message)]) == "ERROR"@ + ": "@ + message,
        first.len() > 0 && second.len() > 0 ==> body(first + second) == body(first) + "\n"@ + body(
            second,
        ),
{
    let warning = "WARN"@ + ": "@ + message;
    let error = "ERROR"@ + ": "@ + message;
    assert(body_lines(seq![(Level::Warn, message)]) =~= seq![warning]);
    assert(body_lines(seq![(Level::Error, message)]) =~= seq![error]);
    if first.len() > 0 && second.len() > 0 {
        assert(body_lines(first + second) =~= body_lines(first) + body_lines(second));
        law_texts_are_joined(body_lines(first), message, body_lines(second), "\n"@);
    }
}

/// The lines of two texts with a line break between them are the lines of both. A text without line
/// breaks is one line, without whitespace around it, or none if it is blank.
pub proof fn law_lines_are_between_line_breaks(line: Seq<char>, rest: Seq<char>)
    requires
        lacks(line, '\n'),
    ensures
        trimmed(line).len() > 0 ==> filled_lines(line) == seq![trimmed(line)],
        trimmed(line).len() == 0 ==> filled_lines(line) == Seq::<Seq<char>>::empty(),
        filled_lines(line + seq!['\n'] + rest) == filled_lines(line) + filled_lines(rest),
{
    let cut = |l: Seq<char>| trimmed(l);
    let filled = |l: Seq<char>| l.len() > 0;
    law_text_is_split_at_separators(line, '\n', rest);
    let one = seq![trimmed(line)];
    let behind = pieces(rest, '\n').map_values(cut);
    assert(seq![line].map_values(cut) =~= one);
    assert((seq![line] + pieces(rest, '\n')).map_values(cut) =~= one + behind);
    lemma_filter_lines(one, behind);
    reveal(Seq::filter);
    assert(one.drop_last() =~= Seq::<Seq<char>>::empty());
    assert(Seq::<Seq<char>>::empty().filter(filled) =~= Seq::empty());
    if trimmed(line).len() > 0 {
        assert(one.filter(filled) =~= one);
    } else {
        assert(one.filter(filled) =~= Seq::empty());
    }
}

proof fn lemma_filter_lines(first: Seq<Seq<char>>, second: Seq<Seq<char>>)
    ensures
        (first + second).filter(|l: Seq<char>| l.len() > 0) == first.filter(
            |l: Seq<char>| l.len() > 0,
        ) + second.filter(|l: Seq<char>| l.len() > 0),
    decreases second.len(),
{
    reveal(Seq::filter);
    let filled = |l: Seq<char>| l.len() > 0;
    let all = first + second;
    if second.len() == 0 {
        assert(all =~= first);
        assert(first.filter(filled) + second.filter(filled) =~= first.filter(filled));
    } else {
        assert(all.drop_last() =~= first + second.drop_last());
        assert(all.last() == second.last());
        lemma_filter_lines(first, second.drop_last());
        assert(all.filter(filled) =~= first.filter(filled) + second.filter(filled));
    }
}

/// The last lines of a text are its last lines: whatever stands in front of them is left out, and
/// they stand below each other.
pub proof fn law_last_lines_are_the_last(
    text: Seq<char>,
    front: Seq<Seq<char>>,
    last: Seq<Seq<char>>,
    more: nat,
)
    requires
        filled_lines(text) == front + last,
    ensures
        tail(text, last.len()) == joined(last, "\n"@),
        tail(text, front.len() + last.len() + more) == joined(front + last, "\n"@),
        last_of(front + last, last.len()) == last,
{
    assert(last_of(front + last, last.len()) =~= last);
    assert(last_of(front + last, front.len() + last.len() + more) =~= front + last);
}

/// The message on a program that failed holds its name, its status and the last ten lines of what
/// it wrote.
pub proof fn law_failure_shows_ten_lines(
    executable: Seq<char>,
    status: Seq<char>,
    output: Seq<char>,
    front: Seq<Seq<char>>,
    last: Seq<Seq<char>>,
)
    requires
        filled_lines(output) == front + last,
        last.len() <= 10,
        front.len() > 0 ==> last.len() == 10,
    ensures
        failure_text(executable, status, output) == executable + " exited with "@ + status + ": "@
            + joined(last, "\n"@),
{
    law_last_lines_are_the_last(output, front, last, 0);
    if front.len() == 0 {
        assert(front + last =~= last);
        law_last_lines_are_the_last(output, front, last, (10 - last.len()) as nat);
    }
}

/// An attempt is followed by another one if and only if it failed and additional attempts are left.
pub proof fn law_attempts_are_repeated_while_they_fail(attempt: int, retries: int)
    ensures
        !is_retried(attempt, retries, true),
        is_retried(attempt, retries, false) <==> attempt < retries + 1,
{
}

/// Nothing is removed from a base address and a path but one slash between them, and one slash
/// stands there.
pub proof fn law_only_one_slash_is_removed(base: Seq<char>, path: Seq<char>)
    ensures
        address(base + seq!['/'], seq!['/'] + path) == base + seq!['/'] + path,
        path.len() == 0 || path[0] != '/' ==> address(base + seq!['/'], path) == base + seq!['/']
            + path,
        base.len() == 0 || base.last() != '/' ==> address(base, seq!['/'] + path) == base + seq![
            '/',
        ] + path,
        (path.len() == 0 || path[0] != '/') && (base.len() == 0 || base.last() != '/') ==> address(
            base,
            path,
        ) == base + seq!['/'] + path,
{
    reveal_strlit("/");
    assert("/"@ =~= seq!['/']);
    assert((base + seq!['/']).drop_last() =~= base);
    assert((base + seq!['/']).last() == '/');
    assert((seq!['/'] + path).skip(1) =~= path);
    assert((seq!['/'] + path)[0] == '/');
}

/// The first cookie with a name is the one in front of which there is none with that name.
pub proof fn law_first_cookie_counts(
    front: Seq<(String, String)>,
    cookie: (String, String),
    behind: Seq<(String, String)>,
    i: int,
)
    requires
        forall|k: int| 0 <= k < front.len() ==> (#[trigger] front[k]).0@ != cookie.0@,
    ensures
        is_first_named(front + seq![cookie] + behind, cookie.0@, i) <==> i == front.len(),
        !is_first_named(front, cookie.0@, i),
{
    let all = front + seq![cookie] + behind;
    assert(all[front.len() as int] == cookie);
    assert forall|k: int| 0 <= k < front.len() implies (#[trigger] all[k]).0@ != cookie.0@ by {
        assert(all[k] == front[k]);
    }
    if is_first_named(all, cookie.0@, i) && i > front.len() {
        assert(all[front.len() as int].0@ != cookie.0@);
    }
}

/// The sender is the configured one, or else the username. Only port 587 begins unencrypted.
pub proof fn law_sender_and_encryption(config: EmailConfiguration, port: u16)
    ensures
        config.from is Some ==> config.sender() == config.from->0@,
        config.from is None ==> config.sender() == config.username@,
        encryption_of(port) == Encryption::StartTls <==> port == 587,
        encryption_of(port) == Encryption::Tls <==> port != 587,
{
}

/// What is wrong with a mailbox names the mailbox.
pub proof fn law_email_errors_name_the_mailbox(text: String, reason: String)
    ensures
        (EmailError::InvalidSender { text, reason }).words() == "invalid email sender '"@ + text@
            + "'"@,
        (EmailError::InvalidRecipient { text, reason }).words() == "invalid email recipient '"@
            + text@ + "'"@,
{
}

/// What is known of a mailbox is how it is written, its name and its address.
pub proof fn law_mailbox_is_known(mailbox: Mailbox, reason: String)
    ensures
        mailbox.parts().0 == mailbox.text@,
        mailbox.parts().1 == optional_text(mailbox.name),
        mailbox.parts().2 == mailbox.address@,
        mailbox_parts(Ok(mailbox)) == Ok::<MailboxParts, Seq<char>>(mailbox.parts()),
        mailbox_parts(Err(reason)) == Err::<MailboxParts, Seq<char>>(reason@),
{
}

/// With two mailboxes there is a notifier with everything that is configured, from the sender to
/// the recipient.
pub proof fn law_notifier_has_what_is_configured(
    config: EmailConfiguration,
    from: MailboxParts,
    to: MailboxParts,
    notifier: Result<EmailNotifier, EmailError>,
)
    requires
        is_notifier_given(config, Ok(from), Ok(to), notifier),
    ensures
        notifier is Ok,
        notifier->Ok_0.host@ == config.host@,
        notifier->Ok_0.port == config.port,
        notifier->Ok_0.encryption == Encryption::StartTls <==> config.port == 587,
        notifier->Ok_0.username@ == config.username@,
        notifier->Ok_0.password@ == config.password@,
        notifier->Ok_0.from.parts() == from,
        notifier->Ok_0.to.parts() == to,
{
}

/// Without a sender the sender is refused, whatever the recipient is; with a sender and without a
/// recipient the recipient is refused.
pub proof fn law_wrong_mailboxes_are_refused(
    config: EmailConfiguration,
    from: MailboxParts,
    to: Result<MailboxParts, Seq<char>>,
    why: Seq<char>,
    notifier: Result<EmailNotifier, EmailError>,
)
    ensures
        is_notifier_given(config, Err(why), to, notifier) ==> {
            &&& notifier is Err
            &&& notifier->Err_0 is InvalidSender
            &&& notifier->Err_0->InvalidSender_text@ == config.sender()
            &&& notifier->Err_0->InvalidSender_reason@ == why
        },
        is_notifier_given(config, Ok(from), Err(why), notifier) ==> {
            &&& notifier is Err
            &&& notifier->Err_0 is InvalidRecipient
            &&& notifier->Err_0->InvalidRecipient_text@ == config.to@
            &&& notifier->Err_0->InvalidRecipient_reason@ == why
        },
{
}

/// The time since the last update is what has passed since then, and none where the clock has gone
/// back. Without an interval no update is due, without an earlier update one is due, and otherwise
/// one is due when at least the interval has passed.
pub proof fn law_time_since_the_last_update(
    interval: Duration,
    last: Duration,
    now: Duration,
    since_last: Option<Duration>,
)
    ensures
        since(None, now) is None,
        since(Some(last), now) is Some,
        last.nanos <= now.nanos ==> last.nanos + since(Some(last), now)->0.nanos == now.nanos,
        last.nanos > now.nanos ==> since(Some(last), now)->0.nanos == 0,
        !is_update_due(None, since_last),
        is_update_due(Some(interval), None),
        is_update_due(Some(interval), Some(last)) <==> interval.nanos <= last.nanos,
{
}

} // verus!
