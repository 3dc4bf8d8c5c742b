//! The output of the programs that are run.
use vstd::prelude::*;
use vstd::string::StringExecFns;
use vstd::utf8::{encode_utf8, encode_utf8_decode_utf8, encode_utf8_valid_utf8};

use crate::text::{join, joined, pieces, split, texts, trim, trimmed};
use crate::unicode::{decode_lossy, utf8_lossy};

verus! {

/// The lines of a text without the whitespace around them, without those that are then empty.
pub open spec fn filled_lines(text: Seq<char>) -> Seq<Seq<char>> {
    pieces(text, '\n').map_values(|line: Seq<char>| trimmed(line)).filter(
        |line: Seq<char>| line.len() > 0,
    )
}

/// The last `count` items of a list, or the whole list where it is not longer.
pub open spec fn last_of(items: Seq<Seq<char>>, count: nat) -> Seq<Seq<char>> {
    if items.len() <= count {
        items
    } else {
        items.skip(items.len() - count)
    }
}

/// The last `count` filled lines of a text.
pub open spec fn tail(text: Seq<char>, count: nat) -> Seq<char> {
    joined(last_of(filled_lines(text), count), "\n"@)
}

/// The last `count` lines of the text that are not blank.
pub fn last_lines_of(text: &str, count: usize) -> (lines: String)
    ensures
        lines@ == tail(text@, count as nat),
{
    let parts = split(text, '\n');
    let ghost cut = |line: Seq<char>| trimmed(line);
    let ghost filled = |line: Seq<char>| line.len() > 0;
    let ghost all = pieces(text@, '\n').map_values(cut);
    let mut kept: Vec<String> = Vec::new();
    let mut i: usize = 0;
    assert(all.take(0).filter(filled) =~= Seq::empty()) by {
        reveal(Seq::filter);
    }
    assert(texts(kept@) =~= Seq::empty());
    while i < parts.len()
        invariant
            i <= parts@.len(),
            cut == (|line: Seq<char>| trimmed(line)),
            filled == (|line: Seq<char>| line.len() > 0),
            texts(parts@) == pieces(text@, '\n'),
            all == pieces(text@, '\n').map_values(cut),
            texts(kept@) == all.take(i as int).filter(filled),
        decreases parts@.len() - i,
    {
        let line = trim(parts[i].as_str());
        proof {
            assert(texts(parts@)[i as int] == parts@[i as int]@);
            assert(all[i as int] == line@);
            reveal(Seq::filter);
            assert(all.take(i + 1).drop_last() =~= all.take(i as int));
        }
        if !line.as_str().is_empty() {
            let ghost before = kept@;
            kept.push(line);
            assert(texts(kept@) =~= texts(before).push(line@));
        }
        i += 1;
    }
    assert(all.take(i as int) =~= all);
    assert(texts(kept@) == filled_lines(text@));
    if kept.len() <= count {
        return join(&kept, "\n");
    }
    let ghost lines = texts(kept@);
    let first = kept.len() - count;
    let last = kept.split_off(first);
    assert(texts(last@) =~= lines.skip(first as int));
    join(&last, "\n")
}

/// The last `count` lines of the output that are not blank.
pub fn last_lines(output: &[u8], count: usize) -> (lines: String)
    ensures
        lines@ == tail(utf8_lossy(output@), count as nat),
        forall|text: Seq<char>|
            output@ == #[trigger] encode_utf8(text) ==> lines@ == tail(text, count as nat),
{
    let text = decode_lossy(output);
    proof {
        assert forall|other: Seq<char>| output@ == #[trigger] encode_utf8(other) implies text@
            == other by {
            encode_utf8_valid_utf8(other);
            encode_utf8_decode_utf8(other);
            encode_utf8_decode_utf8(text@);
        }
    }
    last_lines_of(text.as_str(), count)
}

/// What is said of a program that failed: its status, and the end of what it wrote.
pub open spec fn failure_text(executable: Seq<char>, status: Seq<char>, output: Seq<char>) -> Seq<
    char,
> {
    executable + " exited with "@ + status + ": "@ + tail(output, 10)
}

/// What is said of a program that failed with the given status and wrote the given text.
pub fn failure_of(executable: &str, status: &str, output: &str) -> (message: String)
    ensures
        message@ == failure_text(executable@, status@, output@),
{
    executable.to_string().concat(" exited with ").concat(status).concat(": ").concat(
        last_lines_of(output, 10).as_str(),
    )
}

/// The two byte strings, one after the other.
fn concat_bytes(first: &[u8], second: &[u8]) -> (all: Vec<u8>)
    ensures
        all@ == first@ + second@,
{
    let mut all: Vec<u8> = Vec::new();
    let mut i: usize = 0;
    while i < first.len()
        invariant
            i <= first@.len(),
            all@ == first@.take(i as int),
        decreases first@.len() - i,
    {
        all.push(first[i]);
        assert(first@.take(i + 1) =~= first@.take(i as int).push(first@[i as int]));
        i += 1;
    }
    assert(first@.take(i as int) =~= first@);
    let mut k: usize = 0;
    assert(first@ + second@.take(0) =~= first@);
    while k < second.len()
        invariant
            k <= second@.len(),
            all@ == first@ + second@.take(k as int),
        decreases second@.len() - k,
    {
        all.push(second[k]);
        assert(first@ + second@.take(k + 1) =~= (first@ + second@.take(k as int)).push(
            second@[k as int],
        ));
        k += 1;
    }
    assert(second@.take(k as int) =~= second@);
    all
}

/// The result of a program: its standard output if it succeeded, else the status and the last
/// lines of what it wrote.
pub fn command_result(
    executable: &str,
    success: bool,
    status: &str,
    stdout: &[u8],
    stderr: &[u8],
) -> (result: Result<String, String>)
    ensures
        match result {
            Ok(output) => success && output@ == utf8_lossy(stdout@),
            Err(message) => !success && message@ == failure_text(
                executable@,
                status@,
                utf8_lossy(stdout@ + stderr@),
            ),
        },
{
    if success {
        Ok(decode_lossy(stdout))
    } else {
        let written = concat_bytes(stdout, stderr);
        let text = decode_lossy(written.as_slice());
        Err(failure_of(executable, status, text.as_str()))
    }
}

/// What is done after an attempt.
#[derive(Debug, Clone, Copy, PartialEq, Eq, Structural)]
pub enum AttemptAction {
    /// The outcome of the attempt is the result.
    Finish,
    /// After a delay another attempt is made.
    Retry,
}

/// A download that is repeated while it fails, up to a number of additional attempts.
#[derive(Debug)]
pub struct DownloadRun {
    /// The number of the current attempt, the first one being 1.
    pub attempt: u64,
    /// How many additional attempts are allowed.
    pub retries: u32,
}

/// Another attempt follows the given one.
pub open spec fn is_retried(attempt: int, retries: int, succeeded: bool) -> bool {
    !succeeded && attempt <= retries
}

impl DownloadRun {
    /// The current attempt is one of those that are allowed.
    pub open spec fn wf(self) -> bool {
        1 <= self.attempt <= self.retries + 1
    }

    /// A download before its first attempt.
    pub fn new(retries: u32) -> (run: DownloadRun)
        ensures
            run.wf(),
            run.attempt == 1,
            run.retries == retries,
    {
        DownloadRun { attempt: 1, retries }
    }

    /// What is done after the current attempt.
    pub fn finish_attempt(&mut self, succeeded: bool) -> (action: AttemptAction)
        ensures
            old(self).wf() ==> final(self).wf(),
            final(self).retries == old(self).retries,
            action == AttemptAction::Retry <==> is_retried(
                old(self).attempt as int,
                old(self).retries as int,
                succeeded,
            ),
            final(self).attempt == old(self).attempt + if action == AttemptAction::Retry {
                1int
            } else {
                0
            },
    {
        if !succeeded && self.attempt <= self.retries as u64 {
            self.attempt += 1;
            AttemptAction::Retry
        } else {
            AttemptAction::Finish
        }
    }
}

/// How many attempts are made in all, from the given attempt on, where `outcomes` says of each
/// attempt whether it succeeds.
pub open spec fn attempts_made(attempt: int, retries: int, outcomes: spec_fn(int) -> bool) -> int
    decreases retries + 1 - attempt,
{
    if is_retried(attempt, retries, outcomes(attempt)) {
        attempts_made(attempt + 1, retries, outcomes)
    } else {
        attempt
    }
}

/// A download that keeps failing is repeated as often as is configured. No attempt follows one
/// that succeeds, and each attempt before the last one failed.
pub proof fn law_failed_download_is_repeated(
    attempt: int,
    retries: int,
    outcomes: spec_fn(int) -> bool,
)
    requires
        1 <= attempt <= retries + 1,
    ensures
        ({
            let made = attempts_made(attempt, retries, outcomes);
            &&& attempt <= made <= retries + 1
            &&& forall|k: int| attempt <= k < made ==> !#[trigger] outcomes(k)
            &&& outcomes(made) || made == retries + 1
        }),
    decreases retries + 1 - attempt,
{
    if is_retried(attempt, retries, outcomes(attempt)) {
        law_failed_download_is_repeated(attempt + 1, retries, outcomes);
    }
}

} // verus!
