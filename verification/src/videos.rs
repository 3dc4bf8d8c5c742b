//! The downloads for the video entries of a page.
use vstd::prelude::*;
use vstd::string::StringExecFns;

use crate::config::VideoConfiguration;
use crate::names::{file_name_from_title, name_of};
use crate::page::{
    entries_of, entry_parts, extract_videos, fits, selected_beside, EntryParts, UrlParts,
    VideoEntry,
};
use crate::report::{error_parts, problem_parts, warning_parts, Problem, ProblemParts};
use crate::text::{optional_text, texts};
use crate::url::Url;

verus! {

/// One thing to do for a video entry.
#[derive(Debug)]
pub enum VideoTask {
    /// The entry has a problem, and nothing is downloaded for it.
    Report(Problem),
    /// The thumbnail is downloaded under the name.
    Thumbnail { title: String, url: Url, name: String },
    /// The video is downloaded under the name with a program.
    Video {
        title: String,
        url: Url,
        name: String,
        executable: String,
        arguments: Vec<String>,
    },
}

/// What is known of a task.
pub ghost enum TaskParts {
    Report(ProblemParts),
    Thumbnail { title: Seq<char>, url: UrlParts, name: Seq<char> },
    Video {
        title: Seq<char>,
        url: UrlParts,
        name: Seq<char>,
        executable: Seq<char>,
        arguments: Seq<Seq<char>>,
    },
}

impl VideoTask {
    /// The texts of the task.
    pub open spec fn parts(self) -> TaskParts {
        match self {
            VideoTask::Report(problem) => TaskParts::Report(problem.parts()),
            VideoTask::Thumbnail { title, url, name } => TaskParts::Thumbnail {
                title: title@,
                url: url.parts(),
                name: name@,
            },
            VideoTask::Video { title, url, name, executable, arguments } => TaskParts::Video {
                title: title@,
                url: url.parts(),
                name: name@,
                executable: executable@,
                arguments: texts(arguments@),
            },
        }
    }
}

/// The parts of the tasks.
pub open spec fn task_parts(tasks: Seq<VideoTask>) -> Seq<TaskParts> {
    tasks.map_values(|task: VideoTask| task.parts())
}

/// The tasks for an entry: a warning if it has no name, no video link or no program for the link;
/// else the thumbnail, if there is one, and then the video.
pub open spec fn tasks_of(entry: EntryParts, config: VideoConfiguration) -> Seq<TaskParts> {
    let (title, thumbnail, video) = entry;
    let name = name_of(title, config.names);
    if name.len() == 0 {
        seq![TaskParts::Report(warning_parts("no usable file name for '"@ + title + "'"@))]
    } else {
        match video {
            None => seq![
                TaskParts::Report(warning_parts("no video link found for '"@ + title + "'"@)),
            ],
            Some(url) => match config.downloaders.call(url, config.path@, name) {
                None => seq![
                    TaskParts::Report(
                        warning_parts(
                            "no downloader for video "@ + url.0 + " of '"@ + title + "'"@,
                        ),
                    ),
                ],
                Some((executable, arguments)) => {
                    let download = TaskParts::Video { title, url, name, executable, arguments };
                    match thumbnail {
                        Some(image) => seq![
                            TaskParts::Thumbnail { title, url: image, name },
                            download,
                        ],
                        None => seq![download],
                    }
                },
            },
        }
    }
}

/// The tasks for all entries, in order.
pub open spec fn all_tasks(entries: Seq<EntryParts>, config: VideoConfiguration) -> Seq<TaskParts>
    decreases entries.len(),
{
    if entries.len() == 0 {
        Seq::empty()
    } else {
        all_tasks(entries.drop_last(), config) + tasks_of(entries.last(), config)
    }
}

/// Adds a task.
fn add_task(tasks: &mut Vec<VideoTask>, task: VideoTask)
    ensures
        task_parts(final(tasks)@) == task_parts(old(tasks)@).push(task.parts()),
{
    let ghost before = tasks@;
    tasks.push(task);
    assert(task_parts(tasks@) =~= task_parts(before).push(task.parts()));
}

/// Adds the tasks for an entry.
fn add_tasks(tasks: &mut Vec<VideoTask>, entry: &VideoEntry, config: &VideoConfiguration)
    ensures
        task_parts(final(tasks)@) == task_parts(old(tasks)@) + tasks_of(entry.parts(), *config),
{
    let ghost before = task_parts(tasks@);
    let title = entry.title.as_str();
    let name = file_name_from_title(title, &config.names);
    if name.as_str().is_empty() {
        let message = "no usable file name for '".to_string().concat(title).concat("'");
        add_task(tasks, VideoTask::Report(Problem::warning(message)));
        assert(task_parts(tasks@) =~= before + tasks_of(entry.parts(), *config));
        return;
    }
    let url = match &entry.video_url {
        Some(url) => url,
        None => {
            let message = "no video link found for '".to_string().concat(title).concat("'");
            add_task(tasks, VideoTask::Report(Problem::warning(message)));
            assert(task_parts(tasks@) =~= before + tasks_of(entry.parts(), *config));
            return;
        },
    };
    match config.downloaders.command(url, config.path.as_str(), name.as_str()) {
        None => {
            let message = "no downloader for video ".to_string().concat(url.text.as_str()).concat(
                " of '",
            ).concat(title).concat("'");
            add_task(tasks, VideoTask::Report(Problem::warning(message)));
        },
        Some((executable, arguments)) => {
            if let Some(image) = &entry.thumbnail_url {
                add_task(
                    tasks,
                    VideoTask::Thumbnail {
                        title: entry.title.clone(),
                        url: image.clone(),
                        name: name.clone(),
                    },
                );
            }
            add_task(
                tasks,
                VideoTask::Video {
                    title: entry.title.clone(),
                    url: url.clone(),
                    name,
                    executable: executable.to_string(),
                    arguments,
                },
            );
        },
    }
    assert(task_parts(tasks@) =~= before + tasks_of(entry.parts(), *config));
}

/// The tasks for the given entries.
pub fn plan_entries(entries: &Vec<VideoEntry>, config: &VideoConfiguration) -> (tasks: Vec<
    VideoTask,
>)
    ensures
        task_parts(tasks@) == all_tasks(entry_parts(entries@), *config),
{
    let mut tasks: Vec<VideoTask> = Vec::new();
    let ghost all = entry_parts(entries@);
    let mut i: usize = 0;
    assert(task_parts(tasks@) =~= Seq::empty());
    while i < entries.len()
        invariant
            i <= entries@.len(),
            all == entry_parts(entries@),
            task_parts(tasks@) == all_tasks(all.take(i as int), *config),
        decreases entries@.len() - i,
    {
        add_tasks(&mut tasks, &entries[i], config);
        assert(all.take(i + 1).drop_last() =~= all.take(i as int));
        assert(all.take(i + 1).last() == entries@[i as int].parts());
        i += 1;
    }
    assert(all.take(i as int) =~= all);
    tasks
}

/// The tasks for the video entries of a page.
pub open spec fn page_tasks(content: Seq<char>, config: VideoConfiguration) -> Seq<TaskParts> {
    all_tasks(
        entries_of(selected_beside(content, "h4"@, "a[href]"@, "href"@), config.links),
        config,
    )
}

/// The tasks for the video entries of the page.
pub fn plan_videos(content: &str, config: &VideoConfiguration) -> (tasks: Vec<VideoTask>)
    requires
        fits(content@),
    ensures
        task_parts(tasks@) == page_tasks(content@, *config),
{
    let entries = extract_videos(content, &config.links);
    plan_entries(&entries, config)
}

/// The problem that a task leaves behind, where `error` says how it failed, if it failed.
pub open spec fn problem_of(task: TaskParts, error: Option<Seq<char>>) -> Option<ProblemParts> {
    match (task, error) {
        (TaskParts::Report(problem), _) => Some(problem),
        (_, None) => None,
        (TaskParts::Thumbnail { title, url, name }, Some(error)) => Some(
            error_parts(
                "could not download thumbnail "@ + url.0 + " for '"@ + title + "': "@ + error,
            ),
        ),
        (TaskParts::Video { title, url, name, executable, arguments }, Some(error)) => Some(
            error_parts("could not download video "@ + url.0 + " for '"@ + title + "': "@ + error),
        ),
    }
}

/// The part of a problem that may be missing.
pub open spec fn optional_problem(problem: Option<Problem>) -> Option<ProblemParts> {
    match problem {
        Some(problem) => Some(problem.parts()),
        None => None,
    }
}

impl VideoTask {
    /// The problem that the task leaves behind, where `error` says how it failed, if it failed.
    pub fn problem(&self, error: Option<String>) -> (problem: Option<Problem>)
        ensures
            optional_problem(problem) == problem_of(self.parts(), optional_text(error)),
    {
        match (self, error) {
            (VideoTask::Report(problem), _) => Some(problem.clone()),
            (_, None) => None,
            (VideoTask::Thumbnail { title, url, name }, Some(error)) => Some(
                Problem::error(
                    "could not download thumbnail ".to_string().concat(url.text.as_str()).concat(
                        " for '",
                    ).concat(title.as_str()).concat("': ").concat(error.as_str()),
                ),
            ),
            (VideoTask::Video { title, url, name, executable, arguments }, Some(error)) => Some(
                Problem::error(
                    "could not download video ".to_string().concat(url.text.as_str()).concat(
                        " for '",
                    ).concat(title.as_str()).concat("': ").concat(error.as_str()),
                ),
            ),
        }
    }
}

/// The problems that the tasks leave behind, in order, where `errors` says of each task how it
/// failed, if it failed.
pub open spec fn problems_of(tasks: Seq<TaskParts>, errors: Seq<Option<Seq<char>>>) -> Seq<
    ProblemParts,
>
    decreases tasks.len(),
{
    if tasks.len() == 0 {
        Seq::empty()
    } else {
        let n = tasks.len() - 1;
        let rest = problems_of(tasks.drop_last(), errors);
        match problem_of(tasks[n], errors[n]) {
            Some(problem) => rest.push(problem),
            None => rest,
        }
    }
}

/// The tasks of a page, done one after the other.
#[derive(Debug)]
pub struct VideoRun<'a> {
    pub tasks: &'a Vec<VideoTask>,
    /// How many tasks are done.
    pub done: usize,
    /// The problems that they left behind.
    pub problems: Vec<Problem>,
}

impl<'a> VideoRun<'a> {
    /// The run stands behind as many tasks as there are `errors`, and has the problems that these
    /// tasks left behind.
    pub open spec fn follows(self, errors: Seq<Option<Seq<char>>>) -> bool {
        &&& self.done == errors.len()
        &&& self.done <= self.tasks@.len()
        &&& problem_parts(self.problems@) == problems_of(
            task_parts(self.tasks@).take(self.done as int),
            errors,
        )
    }

    /// A run before its first task.
    pub fn new(tasks: &'a Vec<VideoTask>) -> (run: VideoRun<'a>)
        ensures
            run.tasks == tasks,
            run.done == 0,
            run.problems@.len() == 0,
            run.follows(Seq::empty()),
    {
        let run = VideoRun { tasks, done: 0, problems: Vec::new() };
        assert(problem_parts(run.problems@) =~= Seq::empty());
        run
    }

    /// The next task, if there is one.
    pub fn next(&self) -> (task: Option<&'a VideoTask>)
        ensures
            match task {
                Some(task) => self.done < self.tasks@.len() && *task
                    == self.tasks@[self.done as int],
                None => self.done >= self.tasks@.len(),
            },
    {
        if self.done < self.tasks.len() {
            Some(&self.tasks[self.done])
        } else {
            None
        }
    }

    /// Goes on after the next task, where `error` says how it failed, if it failed. A failed task
    /// does not keep the others from being done.
    pub fn complete(&mut self, error: Option<String>)
        ensures
            final(self).tasks == old(self).tasks,
            old(self).done >= old(self).tasks@.len() ==> *final(self) == *old(self),
            old(self).done < old(self).tasks@.len() ==> {
                &&& final(self).done == old(self).done + 1
                &&& problem_parts(final(self).problems@) == match problem_of(
                    old(self).tasks@[old(self).done as int].parts(),
                    optional_text(error),
                ) {
                    Some(problem) => problem_parts(old(self).problems@).push(problem),
                    None => problem_parts(old(self).problems@),
                }
            },
            forall|errors: Seq<Option<Seq<char>>>| #[trigger]
                old(self).follows(errors) && old(self).done < old(self).tasks@.len()
                    ==> final(self).follows(errors.push(optional_text(error))),
    {
        if self.done >= self.tasks.len() {
            return;
        }
        let ghost before = *self;
        let problem = self.tasks[self.done].problem(error);
        if let Some(problem) = problem {
            self.problems.push(problem);
            assert(problem_parts(self.problems@) =~= problem_parts(before.problems@).push(
                problem.parts(),
            ));
        }
        self.done += 1;
        proof {
            assert forall|errors: Seq<Option<Seq<char>>>| #[trigger]
                before.follows(errors) implies self.follows(
                errors.push(optional_text(error)),
            ) by {
                let all = task_parts(self.tasks@);
                let n = before.done as int;
                let longer = errors.push(optional_text(error));
                assert(all.take(n + 1).drop_last() =~= all.take(n));
                lemma_problems_of_earlier(all.take(n), errors, optional_text(error));
                assert(longer[n] == optional_text(error));
            }
        }
    }
}

/// What happens to later tasks does not show in the problems of earlier ones.
proof fn lemma_problems_of_earlier(
    tasks: Seq<TaskParts>,
    errors: Seq<Option<Seq<char>>>,
    later: Option<Seq<char>>,
)
    requires
        tasks.len() <= errors.len(),
    ensures
        problems_of(tasks, errors.push(later)) == problems_of(tasks, errors),
    decreases tasks.len(),
{
    if tasks.len() > 0 {
        lemma_problems_of_earlier(tasks.drop_last(), errors, later);
    }
}

/// A thumbnail is downloaded only if the video can be downloaded: the video of the same entry,
/// under the same name, is the next task.
pub proof fn law_thumbnail_needs_a_video(entry: EntryParts, config: VideoConfiguration, i: int)
    requires
        0 <= i < tasks_of(entry, config).len(),
        tasks_of(entry, config)[i] is Thumbnail,
    ensures
        i + 1 == tasks_of(entry, config).len() - 1,
        tasks_of(entry, config)[i + 1] is Video,
        tasks_of(entry, config)[i + 1]->Video_title == tasks_of(entry, config)[i]->Thumbnail_title,
        tasks_of(entry, config)[i + 1]->Video_name == tasks_of(entry, config)[i]->Thumbnail_name,
{
}

/// No entry is passed over in silence: its last task is a report or the download of the video,
/// and the video is downloaded if and only if the entry has a name and a link that a program
/// downloads.
pub proof fn law_every_entry_is_dealt_with(entry: EntryParts, config: VideoConfiguration)
    ensures
        tasks_of(entry, config).len() > 0,
        tasks_of(entry, config).last() is Report || tasks_of(entry, config).last() is Video,
        tasks_of(entry, config).last() is Video <==> name_of(entry.0, config.names).len() > 0
            && entry.2 is Some && config.downloaders.call(
            entry.2->0,
            config.path@,
            name_of(entry.0, config.names),
        ) is Some,
{
}

} // verus!
