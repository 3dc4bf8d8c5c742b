//! The steps for a notification file, and the files of a directory.
use vstd::prelude::*;
use vstd::string::StringExecFns;

use crate::config::VideoConfiguration;
use crate::filter::{any_accepts, any_matches, Filter};
use crate::page::{extract_magnet_links, fits, magnets_of, selected_inside};
use crate::report::{error_parts, problem_parts, warning_parts, Problem, ProblemParts, Report};
use crate::text::{join, joined, optional_text, texts};
use crate::videos::{page_tasks, plan_videos, task_parts, TaskParts, VideoTask};

verus! {

/// What came of reading a file.
#[derive(Debug)]
pub enum ReadOutcome {
    /// The text of the file.
    Text(String),
    /// The file holds no text; the error that says so.
    NotText(String),
    /// The file could not be read; the error that says so.
    Failed(String),
}

/// One step in dealing with a file.
#[derive(Debug)]
pub enum FileStep {
    /// Problems are reported.
    Report(Report),
    /// Magnet links, one on each line, are added to qBittorrent.
    AddMagnets(String),
    /// The tasks are done, and their problems are reported under the subject.
    Videos { subject: String, tasks: Vec<VideoTask> },
    /// The file is moved to the archive.
    Archive,
}

/// What is known of a step.
pub ghost enum StepParts {
    Report { subject: Seq<char>, problems: Seq<ProblemParts> },
    AddMagnets(Seq<char>),
    Videos { subject: Seq<char>, tasks: Seq<TaskParts> },
    Archive,
}

impl FileStep {
    /// The texts of the step.
    pub open spec fn parts(self) -> StepParts {
        match self {
            FileStep::Report(report) => StepParts::Report {
                subject: report.subject@,
                problems: problem_parts(report.problems@),
            },
            FileStep::AddMagnets(urls) => StepParts::AddMagnets(urls@),
            FileStep::Videos { subject, tasks } => StepParts::Videos {
                subject: subject@,
                tasks: task_parts(tasks@),
            },
            FileStep::Archive => StepParts::Archive,
        }
    }

    /// The file is given up for this run if the step fails.
    pub open spec fn is_vital(self) -> bool {
        self is AddMagnets || self is Archive
    }

    /// Whether the file is given up for this run if the step fails.
    pub fn vital(&self) -> (yes: bool)
        ensures
            yes == self.is_vital(),
    {
        match self {
            FileStep::AddMagnets(_) | FileStep::Archive => true,
            FileStep::Report(_) | FileStep::Videos { .. } => false,
        }
    }
}

/// The parts of the steps.
pub open spec fn step_parts(steps: Seq<FileStep>) -> Seq<StepParts> {
    steps.map_values(|step: FileStep| step.parts())
}

/// The step that reports a file without text.
pub open spec fn unreadable_step(path: Seq<char>, name: Seq<char>, error: Seq<char>) -> StepParts {
    StepParts::Report {
        subject: "Could not read "@ + name,
        problems: seq![warning_parts("could not read "@ + path + " as text: "@ + error)],
    }
}

/// The steps for a file: the report that it holds no text (`unreadable` is the error), the magnet
/// links in it if there are any, the tasks for its videos if it is a file with videos, and the
/// move to the archive.
pub open spec fn steps_given(
    path: Seq<char>,
    name: Seq<char>,
    unreadable: Option<Seq<char>>,
    links: Seq<Seq<char>>,
    tasks: Option<Seq<TaskParts>>,
) -> Seq<StepParts> {
    let reports = match unreadable {
        Some(error) => seq![unreadable_step(path, name, error)],
        None => Seq::empty(),
    };
    let magnets = if links.len() > 0 {
        seq![StepParts::AddMagnets(joined(links, "\r\n"@))]
    } else {
        Seq::empty()
    };
    let videos = match tasks {
        Some(tasks) => seq![
            StepParts::Videos { subject: "Video problems in "@ + name, tasks },
        ],
        None => Seq::empty(),
    };
    (reports + magnets + videos).push(StepParts::Archive)
}

/// The parts of the tasks, where there are any.
pub open spec fn optional_tasks(tasks: Option<Vec<VideoTask>>) -> Option<Seq<TaskParts>> {
    match tasks {
        Some(tasks) => Some(task_parts(tasks@)),
        None => None,
    }
}

/// Adds a step.
fn add_step(steps: &mut Vec<FileStep>, step: FileStep)
    ensures
        step_parts(final(steps)@) == step_parts(old(steps)@).push(step.parts()),
{
    let ghost before = steps@;
    steps.push(step);
    assert(step_parts(steps@) =~= step_parts(before).push(step.parts()));
}

/// The steps for a file with the given magnet links and tasks.
pub fn plan_steps(
    path: &str,
    name: &str,
    unreadable: Option<String>,
    links: &Vec<String>,
    tasks: Option<Vec<VideoTask>>,
) -> (steps: Vec<FileStep>)
    ensures
        step_parts(steps@) == steps_given(
            path@,
            name@,
            optional_text(unreadable),
            texts(links@),
            optional_tasks(tasks),
        ),
{
    let mut steps: Vec<FileStep> = Vec::new();
    assert(step_parts(steps@) =~= Seq::empty());
    if let Some(error) = &unreadable {
        let problem = Problem::warning(
            "could not read ".to_string().concat(path).concat(" as text: ").concat(error.as_str()),
        );
        let report = Report::single("Could not read ".to_string().concat(name), problem);
        add_step(&mut steps, FileStep::Report(report));
    }
    if links.len() > 0 {
        add_step(&mut steps, FileStep::AddMagnets(join(links, "\r\n")));
    }
    if let Some(tasks) = tasks {
        let subject = "Video problems in ".to_string().concat(name);
        add_step(&mut steps, FileStep::Videos { subject, tasks });
    }
    add_step(&mut steps, FileStep::Archive);
    assert(step_parts(steps@) =~= steps_given(
        path@,
        name@,
        optional_text(unreadable),
        texts(links@),
        optional_tasks(tasks),
    ));
    steps
}

/// The tasks for the videos of a file: none unless its name is accepted.
pub open spec fn file_tasks(
    content: Seq<char>,
    name: Seq<char>,
    videos: Option<VideoConfiguration>,
) -> Option<Seq<TaskParts>> {
    match videos {
        Some(videos) => if any_accepts(videos.files@, name) {
            Some(page_tasks(content, videos))
        } else {
            None
        },
        None => None,
    }
}

/// The steps for a file with the given content.
pub open spec fn file_steps(
    path: Seq<char>,
    name: Seq<char>,
    unreadable: Option<Seq<char>>,
    content: Seq<char>,
    filters: Seq<Filter>,
    videos: Option<VideoConfiguration>,
) -> Seq<StepParts> {
    steps_given(
        path,
        name,
        unreadable,
        magnets_of(selected_inside(content, "li"@, "a"@), filters),
        file_tasks(content, name, videos),
    )
}

/// The way of a file from its first step to the archive.
#[derive(Debug)]
pub struct FileRun {
    pub steps: Vec<FileStep>,
    /// How many steps are done.
    pub done: usize,
    /// Why the file was given up, if it was.
    pub failure: Option<String>,
}

impl FileRun {
    /// A file that was given up has steps that are not done, or none at all.
    pub open spec fn wf(self) -> bool {
        &&& self.done <= self.steps@.len()
        &&& self.failure is Some ==> self.done < self.steps@.len() || self.steps@.len() == 0
    }

    /// There is a next step.
    pub open spec fn goes_on(self) -> bool {
        self.failure is None && self.done < self.steps@.len()
    }

    /// A step with this error loses the file.
    pub open spec fn loses(self, i: int, error: Option<Seq<char>>) -> bool {
        error is Some && self.steps@[i].is_vital()
    }

    /// The file has come as far as the outcomes of its steps let it: `errors` says of each step so
    /// far how it failed, if it failed.
    pub open spec fn follows(self, errors: Seq<Option<Seq<char>>>) -> bool {
        &&& errors.len() <= self.steps@.len()
        &&& match self.failure {
            None => {
                &&& self.done == errors.len()
                &&& forall|i: int| 0 <= i < errors.len() ==> !self.loses(i, #[trigger] errors[i])
            },
            Some(failure) => {
                &&& self.done == errors.len() - 1
                &&& errors.last() == Some(failure@)
                &&& self.loses(self.done as int, errors.last())
                &&& forall|i: int| 0 <= i < self.done ==> !self.loses(i, #[trigger] errors[i])
            },
        }
    }

    /// The steps for a file with the given content.
    fn plan(
        path: &str,
        name: &str,
        unreadable: Option<String>,
        content: &str,
        filters: &[Filter],
        videos: &Option<VideoConfiguration>,
    ) -> (run: FileRun)
        requires
            fits(content@),
        ensures
            run.wf(),
            run.follows(Seq::empty()),
            run.done == 0,
            run.failure is None,
            step_parts(run.steps@) == file_steps(
                path@,
                name@,
                optional_text(unreadable),
                content@,
                filters@,
                *videos,
            ),
    {
        let links = extract_magnet_links(content, filters);
        let tasks = match videos {
            Some(videos) => if any_matches(videos.files.as_slice(), name) {
                Some(plan_videos(content, videos))
            } else {
                None
            },
            None => None,
        };
        let steps = plan_steps(path, name, unreadable, &links, tasks);
        FileRun { steps, done: 0, failure: None }
    }

    /// The way of a file that was read with the given outcome. A file without text is dealt with
    /// like an empty one; a file that could not be read is given up.
    pub fn start(
        path: &str,
        name: &str,
        outcome: ReadOutcome,
        filters: &[Filter],
        videos: &Option<VideoConfiguration>,
    ) -> (run: FileRun)
        requires
            outcome matches ReadOutcome::Text(content) ==> fits(content@),
        ensures
            run.wf(),
            run.failure is None ==> run.follows(Seq::empty()),
            run.done == 0,
            match outcome {
                ReadOutcome::Text(content) => run.failure is None && step_parts(run.steps@)
                    == file_steps(path@, name@, None, content@, filters@, *videos),
                ReadOutcome::NotText(error) => run.failure is None && step_parts(run.steps@)
                    == file_steps(
                    path@,
                    name@,
                    Some(error@),
                    Seq::empty(),
                    filters@,
                    *videos,
                ),
                ReadOutcome::Failed(error) => run.steps@.len() == 0 && optional_text(run.failure)
                    == Some(error@),
            },
    {
        match outcome {
            ReadOutcome::Text(content) => FileRun::plan(
                path,
                name,
                None,
                content.as_str(),
                filters,
                videos,
            ),
            ReadOutcome::NotText(error) => {
                let empty = String::new();
                assert(empty@ =~= Seq::<char>::empty());
                FileRun::plan(path, name, Some(error), empty.as_str(), filters, videos)
            },
            ReadOutcome::Failed(error) => FileRun {
                steps: Vec::new(),
                done: 0,
                failure: Some(error),
            },
        }
    }

    /// The next step, if there is one.
    pub fn next(&self) -> (step: Option<&FileStep>)
        ensures
            match step {
                Some(step) => self.goes_on() && *step == self.steps@[self.done as int],
                None => !self.goes_on(),
            },
    {
        if self.failure.is_none() && self.done < self.steps.len() {
            Some(&self.steps[self.done])
        } else {
            None
        }
    }

    /// Goes on after the next step, where `error` says how it failed, if it failed. The file is
    /// given up if a vital step failed.
    pub fn complete(&mut self, error: Option<String>)
        ensures
            old(self).wf() ==> final(self).wf(),
            final(self).steps == old(self).steps,
            !old(self).goes_on() ==> *final(self) == *old(self),
            forall|errors: Seq<Option<Seq<char>>>| #[trigger]
                old(self).follows(errors) && old(self).goes_on() ==> final(self).follows(
                    errors.push(optional_text(error)),
                ),
            old(self).goes_on() ==> {
                let lost = error is Some && old(self).steps@[old(self).done as int].is_vital();
                &&& final(self).failure == (if lost {
                    error
                } else {
                    None
                })
                &&& final(self).done == old(self).done + (if lost {
                    0int
                } else {
                    1int
                })
            },
    {
        if self.failure.is_some() || self.done >= self.steps.len() {
            return;
        }
        let ghost before = *self;
        let ghost outcome = optional_text(error);
        if error.is_some() && self.steps[self.done].vital() {
            self.failure = error;
        } else {
            self.done += 1;
        }
        proof {
            assert forall|errors: Seq<Option<Seq<char>>>| #[trigger]
                before.follows(errors) implies self.follows(errors.push(outcome)) by {
                let longer = errors.push(outcome);
                assert forall|i: int| 0 <= i < errors.len() implies !self.loses(
                    i,
                    #[trigger] longer[i],
                ) by {
                    assert(longer[i] == errors[i]);
                }
            }
        }
    }
}

/// The last step for a file, and only the last one, is the move to the archive.
pub proof fn law_archive_is_the_last_step(
    path: Seq<char>,
    name: Seq<char>,
    unreadable: Option<Seq<char>>,
    links: Seq<Seq<char>>,
    tasks: Option<Seq<TaskParts>>,
    i: int,
)
    requires
        0 <= i < steps_given(path, name, unreadable, links, tasks).len(),
    ensures
        steps_given(path, name, unreadable, links, tasks)[i] is Archive <==> i == steps_given(
            path,
            name,
            unreadable,
            links,
            tasks,
        ).len() - 1,
{
}

/// Magnet links are added before the file is archived, in one step, and only if there are any.
pub proof fn law_magnets_are_one_step(
    path: Seq<char>,
    name: Seq<char>,
    unreadable: Option<Seq<char>>,
    links: Seq<Seq<char>>,
    tasks: Option<Seq<TaskParts>>,
)
    ensures
        ({
            let steps = steps_given(path, name, unreadable, links, tasks);
            let at: int = if unreadable is Some {
                1
            } else {
                0
            };
            &&& links.len() > 0 ==> steps[at] == StepParts::AddMagnets(joined(links, "\r\n"@))
            &&& forall|i: int|
                0 <= i < steps.len() && (#[trigger] steps[i]) is AddMagnets ==> i == at
                    && links.len() > 0
        }),
{
}

/// A file is archived if and only if its magnet links were added and the move succeeded, whatever
/// became of its videos: a file that is given up stays where it is, its last step not being done.
pub proof fn law_file_is_archived_unless_lost(run: FileRun, errors: Seq<Option<Seq<char>>>)
    requires
        run.follows(errors),
        !run.goes_on(),
        run.steps@.len() > 0,
    ensures
        run.failure is None <==> run.done == run.steps@.len(),
        run.failure is None <==> errors.len() == run.steps@.len() && forall|i: int|
            0 <= i < errors.len() && run.steps@[i].is_vital() ==> (#[trigger] errors[i]) is None,
{
    if run.failure is None {
        assert forall|i: int| 0 <= i < errors.len() && run.steps@[i].is_vital() implies (
        #[trigger] errors[i]) is None by {
            assert(!run.loses(i, errors[i]));
        }
    } else {
        assert(errors[run.done as int] is Some);
    }
}

/// What the entries of a directory hold next.
#[derive(Debug)]
pub enum DirectoryEvent {
    /// An entry, which is a file or not.
    Entry { is_file: bool },
    /// There are no more entries.
    End,
    /// The entries cannot be read any further; the error that says so.
    Unreadable(String),
}

/// What is done next with a directory.
#[derive(Debug, Clone, Copy, PartialEq, Eq, Structural)]
pub enum DirectoryAction {
    /// The entry is a file, and is dealt with.
    Process,
    /// The entry is passed over.
    Skip,
    /// The run is over, and its problems are reported.
    Finish,
}

/// One run over the files of a directory.
#[derive(Debug)]
pub struct DirectoryRun {
    pub directory: String,
    pub problems: Vec<Problem>,
}

/// The problem of a file that could not be dealt with.
pub open spec fn file_problem(path: Seq<char>, error: Seq<char>) -> ProblemParts {
    error_parts("could not process "@ + path + ": "@ + error)
}

/// The problem of a directory whose entries cannot be read.
pub open spec fn entries_problem(directory: Seq<char>, error: Seq<char>) -> ProblemParts {
    error_parts("could not read the entries of "@ + directory + ": "@ + error)
}

/// The problems of the files that could not be dealt with, in order, where `files` holds each file
/// with the error, if there was one.
pub open spec fn file_problems(files: Seq<(Seq<char>, Option<Seq<char>>)>) -> Seq<ProblemParts>
    decreases files.len(),
{
    if files.len() == 0 {
        Seq::empty()
    } else {
        match files.last().1 {
            Some(error) => file_problems(files.drop_last()).push(
                file_problem(files.last().0, error),
            ),
            None => file_problems(files.drop_last()),
        }
    }
}

impl DirectoryRun {
    /// A run before its first file.
    pub fn new(directory: String) -> (run: DirectoryRun)
        ensures
            run.directory == directory,
            run.problems@.len() == 0,
            problem_parts(run.problems@) == file_problems(Seq::empty()),
    {
        let run = DirectoryRun { directory, problems: Vec::new() };
        assert(problem_parts(run.problems@) =~= Seq::empty());
        run
    }

    /// Adds a problem.
    fn add(&mut self, problem: Problem)
        ensures
            final(self).directory == old(self).directory,
            problem_parts(final(self).problems@) == problem_parts(old(self).problems@).push(
                problem.parts(),
            ),
    {
        let ghost before = self.problems@;
        self.problems.push(problem);
        assert(problem_parts(self.problems@) =~= problem_parts(before).push(problem.parts()));
    }

    /// What is done next. What became of earlier files does not matter.
    pub fn receive(&mut self, event: DirectoryEvent) -> (action: DirectoryAction)
        ensures
            final(self).directory == old(self).directory,
            match event {
                DirectoryEvent::Entry { is_file } => {
                    &&& action == if is_file {
                        DirectoryAction::Process
                    } else {
                        DirectoryAction::Skip
                    }
                    &&& final(self).problems == old(self).problems
                },
                DirectoryEvent::End => action == DirectoryAction::Finish && final(self).problems
                    == old(self).problems,
                DirectoryEvent::Unreadable(error) => action == DirectoryAction::Finish
                    && problem_parts(final(self).problems@) == problem_parts(
                    old(self).problems@,
                ).push(entries_problem(old(self).directory@, error@)),
            },
    {
        match event {
            DirectoryEvent::Entry { is_file } => if is_file {
                DirectoryAction::Process
            } else {
                DirectoryAction::Skip
            },
            DirectoryEvent::End => DirectoryAction::Finish,
            DirectoryEvent::Unreadable(error) => {
                let message = "could not read the entries of ".to_string().concat(
                    self.directory.as_str(),
                ).concat(": ").concat(error.as_str());
                self.add(Problem::error(message));
                DirectoryAction::Finish
            },
        }
    }

    /// Takes note of what became of a file. A file that could not be dealt with does not stop the
    /// run.
    pub fn file_done(&mut self, path: &str, error: Option<String>)
        ensures
            final(self).directory == old(self).directory,
            problem_parts(final(self).problems@) == match error {
                Some(error) => problem_parts(old(self).problems@).push(
                    file_problem(path@, error@),
                ),
                None => problem_parts(old(self).problems@),
            },
            forall|files: Seq<(Seq<char>, Option<Seq<char>>)>|
                problem_parts(old(self).problems@) == #[trigger] file_problems(files)
                    ==> problem_parts(final(self).problems@) == file_problems(
                    files.push((path@, optional_text(error))),
                ),
    {
        let ghost before = problem_parts(self.problems@);
        if let Some(error) = &error {
            let message = "could not process ".to_string().concat(path).concat(": ").concat(
                error.as_str(),
            );
            self.add(Problem::error(message));
        }
        proof {
            assert forall|files: Seq<(Seq<char>, Option<Seq<char>>)>|
                before == #[trigger] file_problems(files) implies problem_parts(self.problems@)
                == file_problems(files.push((path@, optional_text(error)))) by {
                let longer = files.push((path@, optional_text(error)));
                assert(longer.drop_last() =~= files);
                assert(longer.last() == (path@, optional_text(error)));
            }
        }
    }

    /// The report on the problems of the run.
    pub fn report(self) -> (report: Report)
        ensures
            report.says("Problems in "@ + self.directory@, problem_parts(self.problems@)),
    {
        Report {
            subject: "Problems in ".to_string().concat(self.directory.as_str()),
            problems: self.problems,
        }
    }
}

} // verus!
