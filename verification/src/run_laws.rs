//! What is done for all entries, pages, files and directories.
use vstd::prelude::*;

use crate::config::VideoConfiguration;
use crate::files::{
    entries_problem, file_problem, file_problems, file_steps, file_tasks, optional_tasks,
    step_parts, steps_given, unreadable_step, FileRun, FileStep, StepParts,
};
use crate::filter::{any_accepts, Filter};
use crate::names::name_of;
use crate::page::{
    entries_of, magnets_of, selected_beside, selected_inside, EntryParts, UrlParts,
};
use crate::report::{problem_parts, Level, Problem, ProblemParts, Report};
use crate::text::{joined, texts};
use crate::url::Url;
use crate::videos::{
    all_tasks, optional_problem, page_tasks, problem_of, problems_of, task_parts, tasks_of,
    TaskParts, VideoRun, VideoTask,
};

verus! {

/// An entry without a usable name gives a warning, and so does one without a video link, and one
/// with a link that no program downloads. Nothing is downloaded for it, not even its thumbnail.
pub proof fn law_entry_without_a_download_gives_a_warning(
    title: Seq<char>,
    thumbnail: Option<UrlParts>,
    video: Option<UrlParts>,
    url: UrlParts,
    config: VideoConfiguration,
)
    ensures
        name_of(title, config.names).len() == 0 ==> tasks_of((title, thumbnail, video), config)
            == seq![
            TaskParts::Report((Level::Warn, "no usable file name for '"@ + title + "'"@)),
        ],
        name_of(title, config.names).len() > 0 ==> tasks_of((title, thumbnail, None), config)
            == seq![
            TaskParts::Report((Level::Warn, "no video link found for '"@ + title + "'"@)),
        ],
        name_of(title, config.names).len() > 0 && config.downloaders.call(
            url,
            config.path@,
            name_of(title, config.names),
        ) is None ==> tasks_of((title, thumbnail, Some(url)), config) == seq![
            TaskParts::Report(
                (Level::Warn, "no downloader for video "@ + url.0 + " of '"@ + title + "'"@),
            ),
        ],
{
}

/// An entry with a name and a link that a program downloads gives the download of the video, with
/// that program, and in front of it that of the thumbnail, under the same name, whenever there is a
/// thumbnail and whichever program it is.
pub proof fn law_video_is_downloaded_with_its_thumbnail(
    title: Seq<char>,
    image: UrlParts,
    url: UrlParts,
    config: VideoConfiguration,
)
    requires
        name_of(title, config.names).len() > 0,
        config.downloaders.call(url, config.path@, name_of(title, config.names)) is Some,
    ensures
        ({
            let name = name_of(title, config.names);
            let (executable, arguments) = config.downloaders.call(url, config.path@, name)->0;
            let video = TaskParts::Video { title, url, name, executable, arguments };
            &&& tasks_of((title, None, Some(url)), config) == seq![video]
            &&& tasks_of((title, Some(image), Some(url)), config) == seq![
                TaskParts::Thumbnail { title, url: image, name },
                video,
            ]
        }),
{
}

/// If the video of an entry is downloaded, the tasks of the entry are the thumbnail, where there is
/// one, and the video, and nothing else.
pub proof fn law_thumbnail_is_downloaded_with_the_video(
    entry: EntryParts,
    config: VideoConfiguration,
)
    requires
        tasks_of(entry, config).last() is Video,
    ensures
        entry.1 is None ==> tasks_of(entry, config).len() == 1,
        entry.1 is Some ==> {
            &&& tasks_of(entry, config).len() == 2
            &&& tasks_of(entry, config)[0] == TaskParts::Thumbnail {
                title: entry.0,
                url: entry.1->0,
                name: name_of(entry.0, config.names),
            }
        },
        tasks_of(entry, config).last()->Video_title == entry.0,
        entry.2 == Some(tasks_of(entry, config).last()->Video_url),
        tasks_of(entry, config).last()->Video_name == name_of(entry.0, config.names),
{
}

/// The entries are dealt with one by one, in order, and none is left out.
pub proof fn law_entries_are_dealt_with_in_order(
    entry: EntryParts,
    first: Seq<EntryParts>,
    second: Seq<EntryParts>,
    config: VideoConfiguration,
)
    ensures
        all_tasks(Seq::empty(), config) == Seq::<TaskParts>::empty(),
        all_tasks(seq![entry], config) == tasks_of(entry, config),
        all_tasks(first + second, config) == all_tasks(first, config) + all_tasks(second, config),
    decreases second.len(),
{
    let none = Seq::<EntryParts>::empty();
    let nothing = Seq::<TaskParts>::empty();
    assert(all_tasks(none, config) == nothing);
    assert(seq![entry].drop_last() =~= none);
    assert(nothing + tasks_of(entry, config) =~= tasks_of(entry, config));
    let all = first + second;
    if second.len() == 0 {
        assert(all =~= first);
        assert(all_tasks(first, config) + nothing =~= all_tasks(first, config));
    } else {
        assert(all.drop_last() =~= first + second.drop_last());
        assert(all.last() == second.last());
        law_entries_are_dealt_with_in_order(entry, first, second.drop_last(), config);
        assert(all_tasks(all, config) =~= all_tasks(first, config) + all_tasks(second, config));
    }
}

/// The tasks for a page are those for the entries of its level four headings, with the links beside
/// them that have a target.
pub proof fn law_page_tasks_are_those_of_its_entries(
    content: Seq<char>,
    entries: Seq<EntryParts>,
    config: VideoConfiguration,
)
    requires
        entries == entries_of(
            selected_beside(content, "h4"@, "a[href]"@, "href"@),
            config.links,
        ),
    ensures
        page_tasks(content, config) == all_tasks(entries, config),
{
}

/// What is known of a task is all that it holds.
pub proof fn law_tasks_are_known(
    problem: Problem,
    title: String,
    url: Url,
    name: String,
    executable: String,
    arguments: Vec<String>,
    tasks: Seq<VideoTask>,
)
    ensures
        VideoTask::Report(problem).parts() == TaskParts::Report((problem.level, problem.message@)),
        (VideoTask::Thumbnail { title, url, name }).parts() == (TaskParts::Thumbnail {
            title: title@,
            url: url.parts(),
            name: name@,
        }),
        (VideoTask::Video { title, url, name, executable, arguments }).parts() == (
        TaskParts::Video {
            title: title@,
            url: url.parts(),
            name: name@,
            executable: executable@,
            arguments: texts(arguments@),
        }),
        task_parts(tasks).len() == tasks.len(),
        forall|i: int|
            0 <= i < tasks.len() ==> (#[trigger] task_parts(tasks)[i]) == tasks[i].parts(),
        optional_problem(None) is None,
        optional_problem(Some(problem)) == Some((problem.level, problem.message@)),
        optional_tasks(None) is None,
        forall|vec: Vec<VideoTask>| #[trigger]
            optional_tasks(Some(vec)) == Some(task_parts(vec@)),
{
}

/// A reported problem stays a problem; a download that succeeds leaves none; and one that fails
/// leaves an error that names the link, the title and the reason.
pub proof fn law_failed_downloads_are_problems(
    problem: ProblemParts,
    title: Seq<char>,
    url: UrlParts,
    name: Seq<char>,
    executable: Seq<char>,
    arguments: Seq<Seq<char>>,
    error: Seq<char>,
    outcome: Option<Seq<char>>,
)
    ensures
        problem_of(TaskParts::Report(problem), outcome) == Some(problem),
        problem_of(TaskParts::Thumbnail { title, url, name }, None) is None,
        problem_of(TaskParts::Video { title, url, name, executable, arguments }, None) is None,
        problem_of(TaskParts::Thumbnail { title, url, name }, Some(error)) == Some(
            (
                Level::Error,
                "could not download thumbnail "@ + url.0 + " for '"@ + title + "': "@ + error,
            ),
        ),
        problem_of(TaskParts::Video { title, url, name, executable, arguments }, Some(error))
            == Some(
            (
                Level::Error,
                "could not download video "@ + url.0 + " for '"@ + title + "': "@ + error,
            ),
        ),
{
}

/// The problems of tasks are those of each of them, in order.
pub proof fn law_problems_are_those_of_each_task(
    task: TaskParts,
    error: Option<Seq<char>>,
    first: Seq<TaskParts>,
    second: Seq<TaskParts>,
    first_errors: Seq<Option<Seq<char>>>,
    second_errors: Seq<Option<Seq<char>>>,
)
    requires
        first.len() == first_errors.len(),
        second.len() == second_errors.len(),
    ensures
        problems_of(Seq::empty(), Seq::empty()) == Seq::<ProblemParts>::empty(),
        problem_of(task, error) is None ==> problems_of(seq![task], seq![error]) == Seq::<
            ProblemParts,
        >::empty(),
        problem_of(task, error) is Some ==> problems_of(seq![task], seq![error]) == seq![
            problem_of(task, error)->0,
        ],
        problems_of(first + second, first_errors + second_errors) == problems_of(
            first,
            first_errors,
        ) + problems_of(second, second_errors),
    decreases second.len(),
{
    let none = Seq::<TaskParts>::empty();
    let nothing = Seq::<ProblemParts>::empty();
    assert(problems_of(none, seq![error]) == nothing);
    assert(seq![task].drop_last() =~= none);
    if problem_of(task, error) is Some {
        assert(problems_of(seq![task], seq![error]) =~= seq![problem_of(task, error)->0]);
    }
    let all = first + second;
    let errors = first_errors + second_errors;
    if second.len() == 0 {
        assert(all =~= first);
        assert(errors =~= first_errors);
        assert(problems_of(second, second_errors) == nothing);
        assert(problems_of(first, first_errors) + nothing =~= problems_of(first, first_errors));
    } else {
        let front = second.drop_last();
        let front_errors = second_errors.drop_last();
        assert(all.drop_last() =~= first + front);
        law_problems_are_those_of_each_task(task, error, first, front, first_errors, front_errors);
        lemma_later_errors_do_not_count(first + front, first_errors + front_errors, errors);
        lemma_later_errors_do_not_count(front, front_errors, second_errors);
        assert(all[all.len() - 1] == second[second.len() - 1]);
        assert(errors[all.len() - 1] == second_errors[second.len() - 1]);
        assert(problems_of(all, errors) =~= problems_of(first, first_errors) + problems_of(
            second,
            second_errors,
        ));
    }
}

proof fn lemma_later_errors_do_not_count(
    tasks: Seq<TaskParts>,
    errors: Seq<Option<Seq<char>>>,
    longer: Seq<Option<Seq<char>>>,
)
    requires
        tasks.len() <= errors.len() <= longer.len(),
        forall|i: int| 0 <= i < tasks.len() ==> errors[i] == longer[i],
    ensures
        problems_of(tasks, errors) == problems_of(tasks, longer),
    decreases tasks.len(),
{
    if tasks.len() > 0 {
        lemma_later_errors_do_not_count(tasks.drop_last(), errors, longer);
        assert(errors[tasks.len() - 1] == longer[tasks.len() - 1]);
    }
}

/// A run over the tasks of a page that has come to its end has done each task, and has the problems
/// of all of them.
pub proof fn law_finished_run_has_all_problems(run: VideoRun, errors: Seq<Option<Seq<char>>>)
    requires
        run.follows(errors),
        run.done >= run.tasks@.len(),
    ensures
        errors.len() == run.tasks@.len(),
        problem_parts(run.problems@) == problems_of(task_parts(run.tasks@), errors),
{
    assert(task_parts(run.tasks@).take(run.done as int) =~= task_parts(run.tasks@));
}

/// What is known of a step is all that it holds. Adding magnet links and archiving lose the file if
/// they fail; reports and videos do not.
pub proof fn law_steps_are_known(
    report: Report,
    urls: String,
    subject: String,
    tasks: Vec<VideoTask>,
    steps: Seq<FileStep>,
)
    ensures
        FileStep::Report(report).parts() == (StepParts::Report {
            subject: report.subject@,
            problems: problem_parts(report.problems@),
        }),
        FileStep::AddMagnets(urls).parts() == StepParts::AddMagnets(urls@),
        (FileStep::Videos { subject, tasks }).parts() == (StepParts::Videos {
            subject: subject@,
            tasks: task_parts(tasks@),
        }),
        FileStep::Archive.parts() == StepParts::Archive,
        FileStep::AddMagnets(urls).is_vital(),
        FileStep::Archive.is_vital(),
        !FileStep::Report(report).is_vital(),
        !(FileStep::Videos { subject, tasks }).is_vital(),
        step_parts(steps).len() == steps.len(),
        forall|i: int|
            0 <= i < steps.len() ==> (#[trigger] step_parts(steps)[i]) == steps[i].parts(),
{
}

/// The steps for a file are the warning that it holds no text, where it holds none; its magnet
/// links, each on its line, where there are any; its videos, where they are looked for; and the
/// archive. Each of the first three is left out without changing the others.
pub proof fn law_steps_come_in_order(
    path: Seq<char>,
    name: Seq<char>,
    error: Seq<char>,
    unreadable: Option<Seq<char>>,
    links: Seq<Seq<char>>,
    tasks: Seq<TaskParts>,
    optional: Option<Seq<TaskParts>>,
)
    ensures
        steps_given(path, name, None, Seq::empty(), None) == seq![StepParts::Archive],
        steps_given(path, name, None, Seq::empty(), Some(tasks)) == seq![
            StepParts::Videos { subject: "Video problems in "@ + name, tasks },
            StepParts::Archive,
        ],
        links.len() > 0 ==> steps_given(path, name, None, links, optional) == seq![
            StepParts::AddMagnets(joined(links, "\r\n"@)),
        ] + steps_given(path, name, None, Seq::empty(), optional),
        steps_given(path, name, Some(error), links, optional) == seq![
            StepParts::Report {
                subject: "Could not read "@ + name,
                problems: seq![
                    (Level::Warn, "could not read "@ + path + " as text: "@ + error),
                ],
            },
        ] + steps_given(path, name, None, links, optional),
        unreadable_step(path, name, error) == (StepParts::Report {
            subject: "Could not read "@ + name,
            problems: seq![(Level::Warn, "could not read "@ + path + " as text: "@ + error)],
        }),
{
    let none = Seq::<Seq<char>>::empty();
    assert(steps_given(path, name, None, none, None) =~= seq![StepParts::Archive]);
    assert(steps_given(path, name, None, none, Some(tasks)) =~= seq![
        StepParts::Videos { subject: "Video problems in "@ + name, tasks },
        StepParts::Archive,
    ]);
    if links.len() > 0 {
        assert(steps_given(path, name, None, links, optional) =~= seq![
            StepParts::AddMagnets(joined(links, "\r\n"@)),
        ] + steps_given(path, name, None, none, optional));
    }
    let report = StepParts::Report {
        subject: "Could not read "@ + name,
        problems: seq![(Level::Warn, "could not read "@ + path + " as text: "@ + error)],
    };
    assert(steps_given(path, name, Some(error), links, optional) =~= seq![report] + steps_given(
        path,
        name,
        None,
        links,
        optional,
    ));
}

/// The videos of a file are looked for if and only if videos are configured and some filter accepts
/// the name of the file. Its magnet links are those of its list items.
pub proof fn law_steps_of_a_file(
    path: Seq<char>,
    name: Seq<char>,
    unreadable: Option<Seq<char>>,
    content: Seq<char>,
    filters: Seq<Filter>,
    videos: VideoConfiguration,
)
    ensures
        file_tasks(content, name, None) is None,
        any_accepts(videos.files@, name) ==> file_tasks(content, name, Some(videos)) == Some(
            page_tasks(content, videos),
        ),
        !any_accepts(videos.files@, name) ==> file_tasks(content, name, Some(videos)) is None,
        file_steps(path, name, unreadable, content, filters, None) == steps_given(
            path,
            name,
            unreadable,
            magnets_of(selected_inside(content, "li"@, "a"@), filters),
            None,
        ),
        file_steps(path, name, unreadable, content, filters, Some(videos)) == steps_given(
            path,
            name,
            unreadable,
            magnets_of(selected_inside(content, "li"@, "a"@), filters),
            if any_accepts(videos.files@, name) {
                Some(page_tasks(content, videos))
            } else {
                None
            },
        ),
{
}

/// A file has a next step as long as it was not given up and has steps that are not done. A step
/// loses it if the step fails and is vital.
pub proof fn law_file_goes_on_until_it_is_lost(run: FileRun, i: int, error: Seq<char>)
    ensures
        run.goes_on() <==> run.failure is None && run.done < run.steps@.len(),
        !run.loses(i, None),
        run.loses(i, Some(error)) <==> run.steps@[i] is AddMagnets || run.steps@[i] is Archive,
        run.failure is Some ==> !run.goes_on(),
{
}

/// A file that has come through the outcomes of its steps has done each step before the first vital
/// one that failed, and was given up there, with its error; or has done as many steps as there are
/// outcomes.
pub proof fn law_file_follows_its_outcomes(run: FileRun, errors: Seq<Option<Seq<char>>>)
    requires
        run.follows(errors),
    ensures
        run.failure is None ==> run.done == errors.len() && forall|i: int|
            0 <= i < errors.len() && (#[trigger] errors[i]) is Some ==> !(
            run.steps@[i] is AddMagnets) && !(run.steps@[i] is Archive),
        run.failure is Some ==> {
            &&& errors.len() == run.done + 1
            &&& errors[run.done as int] == Some(run.failure->0@)
            &&& run.steps@[run.done as int] is AddMagnets || run.steps@[run.done as int] is Archive
            &&& forall|i: int|
                0 <= i < run.done && (#[trigger] errors[i]) is Some ==> !(
                run.steps@[i] is AddMagnets) && !(run.steps@[i] is Archive)
        },
{
    if run.failure is None {
        assert forall|i: int| 0 <= i < errors.len() && (#[trigger] errors[i]) is Some implies !(
        run.steps@[i] is AddMagnets) && !(run.steps@[i] is Archive) by {
            assert(!run.loses(i, errors[i]));
        }
    } else {
        assert(errors.last() == errors[errors.len() - 1]);
        assert forall|i: int| 0 <= i < run.done && (#[trigger] errors[i]) is Some implies !(
        run.steps@[i] is AddMagnets) && !(run.steps@[i] is Archive) by {
            assert(!run.loses(i, errors[i]));
        }
    }
}

/// A run over a directory has one error for each file that could not be dealt with, in order, which
/// names the file and the reason, and none for the others.
pub proof fn law_failed_files_are_problems(
    path: Seq<char>,
    error: Seq<char>,
    first: Seq<(Seq<char>, Option<Seq<char>>)>,
    second: Seq<(Seq<char>, Option<Seq<char>>)>,
)
    ensures
        file_problems(Seq::empty()) == Seq::<ProblemParts>::empty(),
        file_problems(seq![(path, None)]) == Seq::<ProblemParts>::empty(),
        file_problems(seq![(path, Some(error))]) == seq![
            (Level::Error, "could not process "@ + path + ": "@ + error),
        ],
        file_problems(first + second) == file_problems(first) + file_problems(second),
        file_problem(path, error) == (Level::Error, "could not process "@ + path + ": "@ + error),
        entries_problem(path, error) == (
            Level::Error,
            "could not read the entries of "@ + path + ": "@ + error,
        ),
    decreases second.len(),
{
    let none = Seq::<(Seq<char>, Option<Seq<char>>)>::empty();
    let nothing = Seq::<ProblemParts>::empty();
    assert(file_problems(none) == nothing);
    let fine: (Seq<char>, Option<Seq<char>>) = (path, None);
    let failed: (Seq<char>, Option<Seq<char>>) = (path, Some(error));
    assert(seq![fine].drop_last() =~= none);
    assert(seq![failed].drop_last() =~= none);
    assert(file_problems(seq![failed]) =~= seq![
        (Level::Error, "could not process "@ + path + ": "@ + error),
    ]);
    let all = first + second;
    if second.len() == 0 {
        assert(all =~= first);
        assert(file_problems(first) + nothing =~= file_problems(first));
    } else {
        assert(all.drop_last() =~= first + second.drop_last());
        assert(all.last() == second.last());
        law_failed_files_are_problems(path, error, first, second.drop_last());
        assert(file_problems(all) =~= file_problems(first) + file_problems(second));
    }
}

} // verus!
