//! From input lines to output rows: which URLs a run looks at, which rows it
//! reuses, which URLs it fetches, and what it writes in the end.
use vstd::prelude::*;
use vstd::string::*;
use crate::listing::{same_text, strictly_sorted};
use crate::location::url_parsed;
use crate::page::{article_title, article_title_of, page_title, page_title_of};
use crate::permalink::{
    compose_end_url,
    composed,
    is_permalink_page,
    on_permalink_host,
    surviving_links,
    survivors,
};
use crate::record::{views, Cache, RecordView, UrlRecord};
use crate::shape::{find_url, first_url};

verus! {

/// What a run does with one candidate URL.
#[derive(Debug, PartialEq, Eq)]
pub enum Task {
    /// Write this row of the earlier output again.
    Reuse(UrlRecord),
    /// Fetch this URL.
    Fetch(String),
}

/// The mathematical value of a `Task`.
pub enum TaskView {
    Reuse(RecordView),
    Fetch(Seq<char>),
}

impl View for Task {
    type V = TaskView;

    open spec fn view(&self) -> TaskView {
        match self {
            Task::Reuse(row) => TaskView::Reuse(row@),
            Task::Fetch(url) => TaskView::Fetch(url@),
        }
    }
}

/// The views of a list of tasks.
pub open spec fn task_views(tasks: Seq<Task>) -> Seq<TaskView> {
    Seq::new(tasks.len(), |i: int| tasks[i]@)
}

/// The views of a list of results: `None` stands for a fetch that gave no row.
pub open spec fn result_views(results: Seq<Option<UrlRecord>>) -> Seq<Option<RecordView>> {
    Seq::new(
        results.len(),
        |i: int|
            match results[i] {
                Some(row) => Some(row@),
                None => None,
            },
    )
}

/// The candidates of the first `n` lines, in order: of each line its first
/// URL-shaped substring, and nothing of a line without one.
pub open spec fn candidates_of(lines: Seq<Seq<char>>, n: nat) -> Seq<Seq<char>>
    decreases n,
{
    if n == 0 {
        Seq::empty()
    } else {
        let prev = candidates_of(lines, (n - 1) as nat);
        match first_url(lines[n - 1]) {
            Some(url) => prev.push(url),
            None => prev,
        }
    }
}

/// The task for a URL: reuse where the cache holds a row for it, else fetch.
pub open spec fn task_for(cache: Cache, url: Seq<char>) -> TaskView {
    match cache.lookup(url) {
        Some(row) => TaskView::Reuse(row),
        None => TaskView::Fetch(url),
    }
}

/// The tasks for the first `n` candidates, in order. A URL gets one task, at
/// its first occurrence; later occurrences add nothing.
pub open spec fn planned(candidates: Seq<Seq<char>>, cache: Cache, n: nat) -> Seq<TaskView>
    decreases n,
{
    if n == 0 {
        Seq::empty()
    } else {
        let prev = planned(candidates, cache, (n - 1) as nat);
        if candidates.take(n - 1).contains(candidates[n - 1]) {
            prev
        } else {
            prev.push(task_for(cache, candidates[n - 1]))
        }
    }
}

/// The rows that the first `n` tasks reuse, in order.
pub open spec fn reused(tasks: Seq<TaskView>, n: nat) -> Seq<RecordView>
    decreases n,
{
    if n == 0 {
        Seq::empty()
    } else {
        let prev = reused(tasks, (n - 1) as nat);
        match tasks[n - 1] {
            TaskView::Reuse(row) => prev.push(row),
            TaskView::Fetch(_) => prev,
        }
    }
}

/// The URLs that the first `n` tasks fetch, in order.
pub open spec fn pending(tasks: Seq<TaskView>, n: nat) -> Seq<Seq<char>>
    decreases n,
{
    if n == 0 {
        Seq::empty()
    } else {
        let prev = pending(tasks, (n - 1) as nat);
        match tasks[n - 1] {
            TaskView::Reuse(_) => prev,
            TaskView::Fetch(url) => prev.push(url),
        }
    }
}

/// The rows among the first `n` results, in order: a fetch that gave no row
/// is counted as a result and adds nothing.
pub open spec fn delivered(results: Seq<Option<RecordView>>, n: nat) -> Seq<RecordView>
    decreases n,
{
    if n == 0 {
        Seq::empty()
    } else {
        let prev = delivered(results, (n - 1) as nat);
        match results[n - 1] {
            Some(row) => prev.push(row),
            None => prev,
        }
    }
}

/// The `end_url` of a fetched page: for a page on the permalink host what
/// the surviving links compose, for any other page its own location.
pub open spec fn is_end_url(
    end_url: Seq<char>,
    page_url: Seq<char>,
    candidates: Seq<Seq<char>>,
    fetched: Seq<Option<Seq<char>>>,
) -> bool {
    if url_parsed(page_url) is Some && on_permalink_host(url_parsed(page_url).unwrap()) {
        exists|links: Seq<Seq<char>>|
            #![trigger strictly_sorted(links)]
            strictly_sorted(links) && (forall|s: Seq<char>|
                links.contains(s) <==> survivors(candidates, fetched, candidates.len()).contains(s))
                && end_url == composed(links, page_url)
    } else {
        end_url == page_url
    }
}

/// Scans the input lines for candidates: at most one per line, the first
/// URL-shaped substring of it.
pub fn scan_lines(lines: &Vec<String>) -> (r: Vec<String>)
    ensures
        r.deep_view() == candidates_of(lines.deep_view(), lines.len() as nat),
{
    let mut out: Vec<String> = Vec::new();
    let mut i: usize = 0;
    while i < lines.len()
        invariant
            i <= lines.len(),
            out.deep_view() == candidates_of(lines.deep_view(), i as nat),
        decreases lines.len() - i,
    {
        let ghost before = out.deep_view();
        assert(lines.deep_view()[i as int] == lines@[i as int]@);
        match find_url(lines[i].as_str()) {
            Some(url) => {
                out.push(url);
                assert(out.deep_view() =~= before.push(url@));
            },
            None => {},
        }
        i += 1;
    }
    out
}

/// Plans a run: one task for each candidate URL, at its first occurrence.
/// A URL for which the cache holds a row is served from it; any other is to
/// be fetched.
pub fn plan(candidates: &Vec<String>, cache: &Cache) -> (r: Vec<Task>)
    ensures
        task_views(r@) == planned(candidates.deep_view(), *cache, candidates.len() as nat),
{
    let mut out: Vec<Task> = Vec::new();
    let mut i: usize = 0;
    while i < candidates.len()
        invariant
            i <= candidates.len(),
            task_views(out@) == planned(candidates.deep_view(), *cache, i as nat),
        decreases candidates.len() - i,
    {
        let ghost before = task_views(out@);
        let ghost cs = candidates.deep_view();
        assert(cs[i as int] == candidates@[i as int]@);
        let mut seen: bool = false;
        let mut j: usize = 0;
        while j < i && !seen
            invariant
                j <= i < candidates.len(),
                cs == candidates.deep_view(),
                forall|k: int| 0 <= k < j && !seen ==> cs[k] != cs[i as int],
                seen ==> cs.take(i as int).contains(cs[i as int]),
            decreases i - j + (if seen { 0int } else { 1int }),
        {
            if same_text(candidates[j].as_str(), candidates[i].as_str()) {
                seen = true;
                assert(cs.take(i as int)[j as int] == cs[i as int]);
            } else {
                j += 1;
            }
        }
        if !seen {
            assert(!cs.take(i as int).contains(cs[i as int]));
            let task = match cache.get(candidates[i].as_str()) {
                Some(row) => Task::Reuse(row),
                None => Task::Fetch(candidates[i].clone()),
            };
            assert(task@ == task_for(*cache, cs[i as int]));
            out.push(task);
            assert(task_views(out@) =~= before.push(task@));
        }
        i += 1;
    }
    out
}

/// The rows that a plan reuses, in the order of the scan.
pub fn reused_rows(tasks: &Vec<Task>) -> (r: Vec<UrlRecord>)
    ensures
        views(r@) == reused(task_views(tasks@), tasks.len() as nat),
{
    let mut out: Vec<UrlRecord> = Vec::new();
    let mut i: usize = 0;
    while i < tasks.len()
        invariant
            i <= tasks.len(),
            views(out@) == reused(task_views(tasks@), i as nat),
        decreases tasks.len() - i,
    {
        let ghost before = views(out@);
        match &tasks[i] {
            Task::Reuse(row) => {
                out.push(row.copy());
                assert(views(out@) =~= before.push(row@));
            },
            Task::Fetch(_) => {},
        }
        i += 1;
    }
    out
}

/// The URLs that a plan hands to the workers, in the order of the scan. Its
/// length is the number of results that the run has to wait for.
pub fn pending_urls(tasks: &Vec<Task>) -> (r: Vec<String>)
    ensures
        r.deep_view() == pending(task_views(tasks@), tasks.len() as nat),
{
    let mut out: Vec<String> = Vec::new();
    let mut i: usize = 0;
    while i < tasks.len()
        invariant
            i <= tasks.len(),
            out.deep_view() == pending(task_views(tasks@), i as nat),
        decreases tasks.len() - i,
    {
        let ghost before = out.deep_view();
        match &tasks[i] {
            Task::Reuse(_) => {},
            Task::Fetch(url) => {
                out.push(url.clone());
                assert(out.deep_view() =~= before.push(url@));
            },
        }
        i += 1;
    }
    out
}

/// The rows that the workers delivered, in the order of their results. A
/// fetch that failed is a result without a row.
pub fn delivered_rows(results: &Vec<Option<UrlRecord>>) -> (r: Vec<UrlRecord>)
    ensures
        views(r@) == delivered(result_views(results@), results.len() as nat),
{
    let mut out: Vec<UrlRecord> = Vec::new();
    let mut i: usize = 0;
    while i < results.len()
        invariant
            i <= results.len(),
            views(out@) == delivered(result_views(results@), i as nat),
        decreases results.len() - i,
    {
        let ghost before = views(out@);
        match &results[i] {
            Some(row) => {
                out.push(row.copy());
                assert(views(out@) =~= before.push(row@));
            },
            None => {},
        }
        i += 1;
    }
    out
}

/// Builds the row of a fetched page. `page_url` is the location that the
/// fetch ended at and `html` the body it gave; `candidates` are the link
/// candidates of the page and `fetched` the outcomes of their secondary fetches.
pub fn build_record(
    url: String,
    page_url: &str,
    html: &str,
    candidates: &Vec<String>,
    fetched: &Vec<Option<String>>,
) -> (r: UrlRecord)
    ensures
        r@.url == url@,
        is_end_url(r@.end_url, page_url@, candidates.deep_view(), fetched.deep_view()),
        r@.page_title == page_title_of(html@),
        r@.article_title == article_title_of(html@),
{
    let end_url = if is_permalink_page(page_url) {
        let links = surviving_links(candidates, fetched);
        assert(strictly_sorted(links.deep_view()));
        compose_end_url(&links, page_url)
    } else {
        String::from_str(page_url)
    };
    UrlRecord { url, end_url, page_title: page_title(html), article_title: article_title(html) }
}

/// The URL that a task is about.
pub open spec fn task_url(task: TaskView) -> Seq<char> {
    match task {
        TaskView::Reuse(row) => row.url,
        TaskView::Fetch(url) => url,
    }
}

proof fn lemma_candidates_ignore_later_lines(lines: Seq<Seq<char>>, more: Seq<Seq<char>>, n: nat)
    requires
        n <= lines.len(),
    ensures
        candidates_of(lines + more, n) == candidates_of(lines, n),
    decreases n,
{
    if n > 0 {
        lemma_candidates_ignore_later_lines(lines, more, (n - 1) as nat);
        assert((lines + more)[n - 1] == lines[n - 1]);
    }
}

/// A line without a URL-shaped substring adds no candidate.
pub proof fn line_without_url_adds_nothing(lines: Seq<Seq<char>>, line: Seq<char>)
    requires
        first_url(line) is None,
    ensures
        candidates_of(lines.push(line), lines.len() + 1) == candidates_of(lines, lines.len()),
{
    assert(lines.push(line) =~= lines + seq![line]);
    lemma_candidates_ignore_later_lines(lines, seq![line], lines.len());
}

/// Every planned task is the task for one of the candidates.
pub proof fn planned_tasks_come_from_candidates(
    candidates: Seq<Seq<char>>,
    cache: Cache,
    n: nat,
    i: int,
)
    requires
        n <= candidates.len(),
        0 <= i < planned(candidates, cache, n).len(),
    ensures
        exists|k: int|
            0 <= k < n && planned(candidates, cache, n)[i] == task_for(
                cache,
                #[trigger] candidates[k],
            ),
    decreases n,
{
    if n > 0 {
        let prev = planned(candidates, cache, (n - 1) as nat);
        if i < prev.len() {
            planned_tasks_come_from_candidates(candidates, cache, (n - 1) as nat, i);
            let k = choose|k: int|
                0 <= k < n - 1 && prev[i] == task_for(cache, #[trigger] candidates[k]);
            assert(planned(candidates, cache, n)[i] == task_for(cache, candidates[k]));
        } else {
            assert(planned(candidates, cache, n)[i] == task_for(cache, candidates[n - 1]));
        }
    }
}

/// Every candidate has its task in the plan.
pub proof fn candidates_have_their_task(candidates: Seq<Seq<char>>, cache: Cache, n: nat, k: int)
    requires
        n <= candidates.len(),
        0 <= k < n,
    ensures
        planned(candidates, cache, n).contains(task_for(cache, candidates[k])),
    decreases n,
{
    let prev = planned(candidates, cache, (n - 1) as nat);
    let cur = planned(candidates, cache, n);
    let c = candidates[n - 1];
    if k < n - 1 {
        candidates_have_their_task(candidates, cache, (n - 1) as nat, k);
        let j = choose|j: int| 0 <= j < prev.len() && prev[j] == task_for(cache, candidates[k]);
        assert(cur[j] == prev[j]);
    } else if candidates.take(n - 1).contains(c) {
        let head = candidates.take(n - 1);
        let k2 = choose|k2: int| 0 <= k2 < head.len() && head[k2] == c;
        assert(candidates[k2] == c);
        candidates_have_their_task(candidates, cache, (n - 1) as nat, k2);
    } else {
        assert(cur[cur.len() - 1] == task_for(cache, c));
    }
}

/// A URL for which the cache holds a row is served from the cache, with the
/// very row that the cache holds, and is not fetched.
pub proof fn cached_url_is_reused_not_fetched(
    candidates: Seq<Seq<char>>,
    cache: Cache,
    url: Seq<char>,
)
    requires
        candidates.contains(url),
        cache.lookup(url) is Some,
    ensures
        planned(candidates, cache, candidates.len()).contains(
            TaskView::Reuse(cache.lookup(url).unwrap()),
        ),
        !planned(candidates, cache, candidates.len()).contains(TaskView::Fetch(url)),
{
    let n = candidates.len();
    let tasks = planned(candidates, cache, n);
    let k = choose|k: int| 0 <= k < n && candidates[k] == url;
    candidates_have_their_task(candidates, cache, n, k);
    if tasks.contains(TaskView::Fetch(url)) {
        let i = choose|i: int| 0 <= i < tasks.len() && tasks[i] == TaskView::Fetch(url);
        planned_tasks_come_from_candidates(candidates, cache, n, i);
    }
}

/// No two tasks of a plan are about the same URL.
pub proof fn planned_urls_are_distinct(candidates: Seq<Seq<char>>, cache: Cache, n: nat)
    requires
        n <= candidates.len(),
    ensures
        forall|i: int, j: int|
            0 <= i < j < planned(candidates, cache, n).len() ==> task_url(
                planned(candidates, cache, n)[i],
            ) != task_url(planned(candidates, cache, n)[j]),
    decreases n,
{
    if n > 0 {
        planned_urls_are_distinct(candidates, cache, (n - 1) as nat);
        let prev = planned(candidates, cache, (n - 1) as nat);
        let cur = planned(candidates, cache, n);
        let c = candidates[n - 1];
        if !candidates.take(n - 1).contains(c) {
            cache.lookup_is_titled_row_of_url(c);
            assert(task_url(task_for(cache, c)) == c);
            assert forall|i: int, j: int| 0 <= i < j < cur.len() implies task_url(cur[i])
                != task_url(cur[j]) by {
                if j < prev.len() {
                    assert(cur[i] == prev[i] && cur[j] == prev[j]);
                } else {
                    planned_tasks_come_from_candidates(candidates, cache, (n - 1) as nat, i);
                    let k = choose|k: int|
                        0 <= k < n - 1 && prev[i] == task_for(cache, #[trigger] candidates[k]);
                    cache.lookup_is_titled_row_of_url(candidates[k]);
                    assert(task_url(prev[i]) == candidates[k]);
                    assert(candidates.take(n - 1)[k] == candidates[k]);
                }
            }
        }
    }
}

/// The URLs handed to the workers are those of the fetch tasks.
pub proof fn pending_are_the_fetch_tasks(tasks: Seq<TaskView>, n: nat, url: Seq<char>)
    requires
        n <= tasks.len(),
    ensures
        pending(tasks, n).contains(url) <==> exists|i: int|
            0 <= i < n && #[trigger] tasks[i] == TaskView::Fetch(url),
    decreases n,
{
    if n > 0 {
        let prev = pending(tasks, (n - 1) as nat);
        let cur = pending(tasks, n);
        pending_are_the_fetch_tasks(tasks, (n - 1) as nat, url);
        if cur.contains(url) {
            let j = choose|j: int| 0 <= j < cur.len() && cur[j] == url;
            if j < prev.len() {
                assert(prev[j] == url);
                let i = choose|i: int| 0 <= i < n - 1 && #[trigger] tasks[i] == TaskView::Fetch(url);
                assert(tasks[i] == TaskView::Fetch(url));
            } else {
                assert(tasks[n - 1] == TaskView::Fetch(url));
            }
        }
        if exists|i: int| 0 <= i < n && #[trigger] tasks[i] == TaskView::Fetch(url) {
            let i = choose|i: int| 0 <= i < n && #[trigger] tasks[i] == TaskView::Fetch(url);
            if i < n - 1 {
                let j = choose|j: int| 0 <= j < prev.len() && prev[j] == url;
                assert(cur[j] == url);
            } else {
                assert(cur[cur.len() - 1] == url);
            }
        }
    }
}

/// The rows written again are those of the reuse tasks.
pub proof fn reused_are_the_reuse_tasks(tasks: Seq<TaskView>, n: nat, row: RecordView)
    requires
        n <= tasks.len(),
    ensures
        reused(tasks, n).contains(row) <==> exists|i: int|
            0 <= i < n && #[trigger] tasks[i] == TaskView::Reuse(row),
    decreases n,
{
    if n > 0 {
        let prev = reused(tasks, (n - 1) as nat);
        let cur = reused(tasks, n);
        reused_are_the_reuse_tasks(tasks, (n - 1) as nat, row);
        if cur.contains(row) {
            let j = choose|j: int| 0 <= j < cur.len() && cur[j] == row;
            if j < prev.len() {
                assert(prev[j] == row);
                let i = choose|i: int| 0 <= i < n - 1 && #[trigger] tasks[i] == TaskView::Reuse(row);
                assert(tasks[i] == TaskView::Reuse(row));
            } else {
                assert(tasks[n - 1] == TaskView::Reuse(row));
            }
        }
        if exists|i: int| 0 <= i < n && #[trigger] tasks[i] == TaskView::Reuse(row) {
            let i = choose|i: int| 0 <= i < n && #[trigger] tasks[i] == TaskView::Reuse(row);
            if i < n - 1 {
                let j = choose|j: int| 0 <= j < prev.len() && prev[j] == row;
                assert(cur[j] == row);
            } else {
                assert(cur[cur.len() - 1] == row);
            }
        }
    }
}

/// A run over input that holds a URL for which the cache has a row writes
/// that very row again, and hands the URL to no worker.
pub proof fn cached_url_is_served_without_fetch(
    candidates: Seq<Seq<char>>,
    cache: Cache,
    url: Seq<char>,
)
    requires
        candidates.contains(url),
        cache.lookup(url) is Some,
    ensures
        ({
            let tasks = planned(candidates, cache, candidates.len());
            &&& reused(tasks, tasks.len()).contains(cache.lookup(url).unwrap())
            &&& !pending(tasks, tasks.len()).contains(url)
        }),
{
    let tasks = planned(candidates, cache, candidates.len());
    let row = cache.lookup(url).unwrap();
    cached_url_is_reused_not_fetched(candidates, cache, url);
    reused_are_the_reuse_tasks(tasks, tasks.len(), row);
    pending_are_the_fetch_tasks(tasks, tasks.len(), url);
    let i = choose|i: int| 0 <= i < tasks.len() && tasks[i] == TaskView::Reuse(row);
    assert(tasks[i] == TaskView::Reuse(row));
    if pending(tasks, tasks.len()).contains(url) {
        let k = choose|k: int| 0 <= k < tasks.len() && #[trigger] tasks[k] == TaskView::Fetch(url);
        assert(tasks.contains(TaskView::Fetch(url)));
    }
}

} // verus!
