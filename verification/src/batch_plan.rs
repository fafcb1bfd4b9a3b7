//! Planning a whole batch against a listing that grows by each reserved
//! path, and what holds of the tasks that come out.

use crate::allocator::{
    allocated_index, base_identifier, entry_name, identifiers, index_name, is_next_index,
    lemma_index_name_has_no_dot, lemma_index_name_injective, lemma_next_index_exists,
    lemma_next_index_is,
};
use crate::extension::{extension_of, lemma_extension_starts_with_dot};
use crate::planner::{
    planned_path, planned_task, DownloadTask, PlanEvent, PlanStep, PlanStepView, Planner, TaskView,
};
use vstd::prelude::*;

verus! {

/// The listing that the planner of a batch sees before it plans the URL at
/// position `done`: the first listing, `entries`, and behind it the paths
/// reserved for the URLs before that position, in order.
pub open spec fn listing_after(
    dir: Seq<char>,
    entries: Seq<Seq<char>>,
    urls: Seq<Seq<char>>,
    done: nat,
) -> Seq<Seq<char>>
    decreases done,
{
    if done == 0 {
        entries
    } else {
        let before = listing_after(dir, entries, urls, (done - 1) as nat);
        before.push(planned_path(dir, before, urls[done - 1]))
    }
}

/// The index allocated to the URL at `position` of a batch.
pub open spec fn batch_index(
    dir: Seq<char>,
    entries: Seq<Seq<char>>,
    urls: Seq<Seq<char>>,
    position: nat,
) -> nat {
    allocated_index(dir, listing_after(dir, entries, urls, position))
}

/// The task planned for the URL at `position` of a batch.
pub open spec fn batch_task(
    dir: Seq<char>,
    entries: Seq<Seq<char>>,
    urls: Seq<Seq<char>>,
    position: nat,
) -> TaskView {
    planned_task(dir, listing_after(dir, entries, urls, position), urls[position as int])
}

/// The tasks of a whole batch: one for each URL, in order, each planned
/// against the listing that holds the placeholders of the tasks before it.
pub open spec fn planned_batch(dir: Seq<char>, entries: Seq<Seq<char>>, urls: Seq<Seq<char>>) -> Seq<
    TaskView,
> {
    Seq::new(urls.len(), |position: int| batch_task(dir, entries, urls, position as nat))
}

/// A name made of a base name and an extension has the base name as its base
/// identifier.
pub proof fn lemma_base_of_allocated_name(index: nat, extension: Seq<char>)
    requires
        extension.len() >= 1,
        extension[0] == '.',
    ensures
        base_identifier(index_name(index) + extension) == index_name(index),
{
    let stem = index_name(index);
    let name = stem + extension;
    lemma_index_name_has_no_dot(index);
    name.index_of_first_ensures('.');
    assert(name[stem.len() as int] == '.');
    assert(name.contains('.'));
    let dot = name.index_of_first('.').unwrap();
    if dot < stem.len() {
        assert(stem[dot] == '.');
        assert(stem.contains('.'));
    }
    assert(name.take(dot) =~= stem);
}

/// A reserved path, listed under its directory, has the allocated base name
/// as its base identifier.
pub proof fn lemma_identifier_of_planned_path(
    dir: Seq<char>,
    entries: Seq<Seq<char>>,
    url: Seq<char>,
)
    ensures
        base_identifier(entry_name(dir, planned_path(dir, entries, url))) == index_name(
            allocated_index(dir, entries),
        ),
{
    let index = allocated_index(dir, entries);
    let path = planned_path(dir, entries, url);
    lemma_extension_starts_with_dot(url);
    assert(entry_name(dir, path) =~= index_name(index) + extension_of(url));
    lemma_base_of_allocated_name(index, extension_of(url));
}

/// Reserving the planned path adds exactly the allocated base name to the
/// identifiers in use.
pub proof fn lemma_identifiers_after_reservation(
    dir: Seq<char>,
    entries: Seq<Seq<char>>,
    url: Seq<char>,
)
    ensures
        identifiers(dir, entries.push(planned_path(dir, entries, url))).to_set() == identifiers(
            dir,
            entries,
        ).to_set().insert(index_name(allocated_index(dir, entries))),
{
    let path = planned_path(dir, entries, url);
    let before = identifiers(dir, entries);
    let after = identifiers(dir, entries.push(path));
    let name = index_name(allocated_index(dir, entries));
    lemma_identifier_of_planned_path(dir, entries, url);
    assert(after =~= before.push(name));
    assert forall|s: Seq<char>| after.to_set().contains(s) <==> before.to_set().insert(
        name,
    ).contains(s) by {
        if after.contains(s) {
            let i = choose|i: int| 0 <= i < after.len() && after[i] == s;
            if i < before.len() {
                assert(before[i] == s);
            }
        }
        if before.contains(s) {
            let i = choose|i: int| 0 <= i < before.len() && before[i] == s;
            assert(after[i] == s);
        }
        if s == name {
            assert(after[before.len() as int] == s);
        }
    }
    assert(after.to_set() =~= before.to_set().insert(name));
}

/// The allocator hands out the next free index of any listing.
pub proof fn lemma_allocated_index_is_next(dir: Seq<char>, entries: Seq<Seq<char>>)
    ensures
        is_next_index(identifiers(dir, entries).to_set(), allocated_index(dir, entries)),
{
    vstd::seq_lib::seq_to_set_is_finite(identifiers(dir, entries));
    lemma_next_index_exists(identifiers(dir, entries).to_set());
}

/// After a reservation the allocator hands out a larger index than before.
pub proof fn lemma_index_grows(dir: Seq<char>, entries: Seq<Seq<char>>, url: Seq<char>)
    ensures
        allocated_index(dir, entries) < allocated_index(
            dir,
            entries.push(planned_path(dir, entries, url)),
        ),
{
    let index = allocated_index(dir, entries);
    let after = entries.push(planned_path(dir, entries, url));
    let later = allocated_index(dir, after);
    lemma_allocated_index_is_next(dir, entries);
    lemma_allocated_index_is_next(dir, after);
    lemma_identifiers_after_reservation(dir, entries, url);
    let used = identifiers(dir, entries).to_set();
    let used_after = identifiers(dir, after).to_set();
    if later <= index {
        if later < index {
            assert(used.contains(index_name(later)));
            assert(used_after.contains(index_name(later)));
        } else {
            assert(used_after.contains(index_name(index)));
        }
    }
}

/// The base names of the indices 1 up to `count`.
pub open spec fn names_up_to(count: nat) -> Set<Seq<char>> {
    Set::new(|name: Seq<char>| exists|j: nat| 1 <= j <= count && name == index_name(j))
}

/// A batch has one task for each URL, in the order of the URLs.
pub proof fn lemma_batch_follows_urls(dir: Seq<char>, entries: Seq<Seq<char>>, urls: Seq<Seq<char>>)
    ensures
        planned_batch(dir, entries, urls).len() == urls.len(),
        forall|i: int|
            0 <= i < urls.len() ==> (#[trigger] planned_batch(dir, entries, urls)[i]).source_url
                == urls[i],
{
}

/// Within a batch the allocated indices grow strictly from each URL to every
/// later one, whatever the directory held at the start.
pub proof fn lemma_batch_indices_increase(
    dir: Seq<char>,
    entries: Seq<Seq<char>>,
    urls: Seq<Seq<char>>,
    earlier: nat,
    later: nat,
)
    requires
        earlier < later < urls.len(),
    ensures
        batch_index(dir, entries, urls, earlier) < batch_index(dir, entries, urls, later),
    decreases later,
{
    let before = (later - 1) as nat;
    lemma_index_grows(dir, listing_after(dir, entries, urls, before), urls[before as int]);
    if earlier < before {
        lemma_batch_indices_increase(dir, entries, urls, earlier, before);
    }
}

/// In a directory that was empty at the start, the identifiers in use before
/// the URL at `position` is planned are the base names of 1 up to `position`,
/// and the URL gets the index `position + 1`: the batch is numbered 1, 2, 3,
/// ... in the order of its URLs.
pub proof fn lemma_batch_indices_from_empty(dir: Seq<char>, urls: Seq<Seq<char>>, position: nat)
    requires
        position < urls.len(),
    ensures
        identifiers(dir, listing_after(dir, Seq::empty(), urls, position)).to_set() == names_up_to(
            position,
        ),
        batch_index(dir, Seq::empty(), urls, position) == position + 1,
    decreases position,
{
    let listing = listing_after(dir, Seq::empty(), urls, position);
    let used = identifiers(dir, listing).to_set();
    if position == 0 {
        assert(identifiers(dir, listing) =~= Seq::<Seq<char>>::empty());
        assert(used =~= names_up_to(0));
    } else {
        let before = (position - 1) as nat;
        let earlier = listing_after(dir, Seq::empty(), urls, before);
        lemma_batch_indices_from_empty(dir, urls, before);
        lemma_identifiers_after_reservation(dir, earlier, urls[before as int]);
        assert(used == names_up_to(before).insert(index_name(position)));
        assert forall|name: Seq<char>| used.contains(name) <==> names_up_to(position).contains(
            name,
        ) by {
            if names_up_to(position).contains(name) {
                let j = choose|j: nat| 1 <= j <= position && name == index_name(j);
                if j < position {
                    assert(names_up_to(before).contains(name));
                }
            }
        }
        assert(used =~= names_up_to(position));
    }
    assert(is_next_index(used, position + 1)) by {
        let free = index_name(position + 1);
        if used.contains(free) {
            let j = choose|j: nat| 1 <= j <= position && free == index_name(j);
            lemma_index_name_injective(position + 1, j);
        }
        assert forall|j: nat| 1 <= j < position + 1 implies used.contains(
            #[trigger] index_name(j),
        ) by {
            assert(names_up_to(position).contains(index_name(j)));
        }
    }
    lemma_next_index_is(used, position + 1);
}

/// No two tasks of a batch share a destination path, whatever the directory
/// held at the start.
pub proof fn lemma_batch_paths_distinct(
    dir: Seq<char>,
    entries: Seq<Seq<char>>,
    urls: Seq<Seq<char>>,
    first: nat,
    second: nat,
)
    requires
        first < urls.len(),
        second < urls.len(),
        first != second,
    ensures
        planned_batch(dir, entries, urls)[first as int].destination_path != planned_batch(
            dir,
            entries,
            urls,
        )[second as int].destination_path,
{
    let one = listing_after(dir, entries, urls, first);
    let other = listing_after(dir, entries, urls, second);
    lemma_identifier_of_planned_path(dir, one, urls[first as int]);
    lemma_identifier_of_planned_path(dir, other, urls[second as int]);
    if first < second {
        lemma_batch_indices_increase(dir, entries, urls, first, second);
    } else {
        lemma_batch_indices_increase(dir, entries, urls, second, first);
    }
    if planned_path(dir, one, urls[first as int]) == planned_path(dir, other, urls[second as int]) {
        lemma_index_name_injective(
            batch_index(dir, entries, urls, first),
            batch_index(dir, entries, urls, second),
        );
    }
}

/// How many steps a planner that every request is granted still has to take.
spec fn steps_left(step: PlanStepView) -> int {
    match step {
        PlanStepView::ListDirectory { planner } => 2 * (planner.urls.len() - planner.planned.len()),
        PlanStepView::Reserve { planner, path } => 2 * (planner.urls.len() - planner.planned.len())
            - 1,
        _ => 0,
    }
}

/// Whether `step` and `listing` are what planning the batch against a
/// listing that grows by each reserved path has reached.
spec fn on_course(
    step: PlanStepView,
    listing: Seq<Seq<char>>,
    dir: Seq<char>,
    entries: Seq<Seq<char>>,
    urls: Seq<Seq<char>>,
) -> bool {
    match step {
        PlanStepView::ListDirectory { planner } => {
            &&& planner.directory == dir
            &&& planner.urls == urls
            &&& planner.pending is None
            &&& planner.planned == planned_batch(dir, entries, urls).take(planner.planned.len() as int)
            &&& listing == listing_after(dir, entries, urls, planner.planned.len())
        },
        PlanStepView::Reserve { planner, path } => {
            &&& planner.directory == dir
            &&& planner.urls == urls
            &&& planner.pending == Some(batch_task(dir, entries, urls, planner.planned.len()))
            &&& planner.planned == planned_batch(dir, entries, urls).take(planner.planned.len() as int)
            &&& listing == listing_after(dir, entries, urls, planner.planned.len())
        },
        PlanStepView::Finished { tasks } => tasks == planned_batch(dir, entries, urls),
        PlanStepView::Failed { error } => false,
    }
}

/// A copy of `texts`.
fn copy_texts(texts: &Vec<String>) -> (copy: Vec<String>)
    ensures
        copy.deep_view() == texts.deep_view(),
{
    let mut copy: Vec<String> = Vec::new();
    let mut i: usize = 0;
    while i < texts.len()
        invariant
            i <= texts.len(),
            copy.len() == i,
            forall|j: int| 0 <= j < i ==> copy.deep_view()[j] == texts.deep_view()[j],
        decreases texts.len() - i,
    {
        copy.push(texts[i].clone());
        i += 1;
    }
    assert(copy.deep_view() =~= texts.deep_view());
    copy
}

/// Plans the whole batch `urls` for `download_dir` against a listing kept in
/// memory: it starts as `entries` and grows by each path as it is reserved,
/// as the directory does when every placeholder is created. The planner is
/// run step by step, with every request granted.
pub fn plan_batch(download_dir: String, entries: Vec<String>, urls: Vec<String>) -> (tasks: Vec<
    DownloadTask,
>)
    ensures
        tasks.deep_view() == planned_batch(download_dir@, entries.deep_view(), urls.deep_view()),
{
    let ghost dir = download_dir@;
    let ghost first = entries.deep_view();
    let ghost batch = urls.deep_view();
    let mut listing = entries;
    let mut step = Planner::begin(download_dir, urls);
    proof {
        if batch.len() == 0 {
            assert(planned_batch(dir, first, batch) =~= Seq::<TaskView>::empty());
        } else {
            assert(planned_batch(dir, first, batch).take(0) =~= Seq::<TaskView>::empty());
        }
    }
    loop
        invariant
            dir == download_dir@,
            first == entries.deep_view(),
            batch == urls.deep_view(),
            step@.well_formed(),
            on_course(step@, listing.deep_view(), dir, first, batch),
        decreases steps_left(step@),
    {
        match step {
            PlanStep::Finished { tasks } => {
                return tasks;
            },
            PlanStep::Failed { error } => {
                return vstd::pervasive::unreached();
            },
            PlanStep::ListDirectory { planner } => {
                let seen = copy_texts(&listing);
                step = planner.advance(PlanEvent::Listed { entries: seen });
            },
            PlanStep::Reserve { planner, path } => {
                let ghost done = planner@.planned.len();
                let ghost before = listing.deep_view();
                listing.push(path);
                proof {
                    assert(listing.deep_view() =~= before.push(path@));
                    assert(listing.deep_view() == listing_after(dir, first, batch, (done + 1) as nat));
                    let all = planned_batch(dir, first, batch);
                    assert(all.take(done as int).push(all[done as int]) =~= all.take((done + 1) as int));
                    if done + 1 == batch.len() {
                        assert(all.take((done + 1) as int) =~= all);
                    }
                }
                step = planner.advance(PlanEvent::Reserved);
            },
        }
    }
}

} // verus!
