//! The queue of downloads: its items, what becomes of them, and the events
//! that tell of their progress.
//!
//! No two items of a queue have the same identifier. The items stand in the
//! order in which their identifiers first came into the queue, and an item
//! is found by its identifier.

use vstd::prelude::*;

verus! {

/// Where an item of the queue stands.
#[derive(Clone, Copy, Debug, PartialEq, Eq, Structural)]
pub enum QueueStatus {
    /// Put into the queue; nothing done yet.
    Pending,
    /// Its metadata is being fetched.
    Fetching,
    /// Its metadata is there.
    Ready,
    /// It is being downloaded.
    Downloading,
    /// It was downloaded.
    Complete,
    /// It failed.
    Failed,
}

/// One download in the queue.
#[derive(Debug)]
pub struct QueueItem {
    /// The identifier of the item.
    pub id: String,
    /// The address to download.
    pub url: String,
    /// The title, once it is known.
    pub title: Option<String>,
    /// The artist, once known.
    pub artist: Option<String>,
    /// The address of a cover image, where there is one.
    pub thumbnail: Option<String>,
    /// The length in seconds, where it is known.
    pub duration: Option<u64>,
    /// Where the item stands.
    pub status: QueueStatus,
    /// How far the item has come, in percent.
    pub progress: u8,
    /// Why the item failed.
    pub error: Option<String>,
    /// Where the file was written.
    pub output_path: Option<String>,
}

/// What a listener is told of the progress of one item.
#[derive(Debug)]
pub struct QueueProgress {
    /// The identifier of the item.
    pub id: String,
    /// Where the item stands.
    pub status: QueueStatus,
    /// How far the item has come, in percent.
    pub progress: u8,
    /// What is being done.
    pub message: String,
}

/// What a listener is told of the progress of a single download.
#[derive(Debug)]
pub struct DownloadProgress {
    /// The stage of the download.
    pub stage: String,
    /// How far the download has come, in percent.
    pub percent: u8,
    /// What is being done.
    pub message: String,
}

/// Whether an item with this status is over: downloaded or failed.
pub open spec fn is_over(status: QueueStatus) -> bool {
    status == QueueStatus::Complete || status == QueueStatus::Failed
}

/// A copy of a text that may be missing.
pub fn copy_text(text: &Option<String>) -> (copy: Option<String>)
    ensures
        copy == *text,
{
    match text {
        Some(held) => Some(held.clone()),
        None => None,
    }
}

impl QueueItem {
    /// The item that a new address makes: pending, with nothing known.
    pub open spec fn fresh(id: String, url: String) -> QueueItem {
        QueueItem {
            id,
            url,
            title: None,
            artist: None,
            thumbnail: None,
            duration: None,
            status: QueueStatus::Pending,
            progress: 0,
            error: None,
            output_path: None,
        }
    }

    /// The item with its metadata filled in, and ready.
    pub open spec fn with_metadata(
        self,
        title: String,
        artist: String,
        thumbnail: Option<String>,
        duration: Option<u64>,
    ) -> QueueItem {
        QueueItem {
            title: Some(title),
            artist: Some(artist),
            thumbnail,
            duration,
            status: QueueStatus::Ready,
            ..self
        }
    }

    /// The item with a new status, progress and error. The output path is
    /// replaced only by one that is there.
    pub open spec fn with_status(
        self,
        status: QueueStatus,
        progress: u8,
        error: Option<String>,
        output_path: Option<String>,
    ) -> QueueItem {
        QueueItem {
            status,
            progress,
            error,
            output_path: if output_path is Some {
                output_path
            } else {
                self.output_path
            },
            ..self
        }
    }

    /// Makes the item of a new address.
    pub fn new(id: String, url: String) -> (item: QueueItem)
        ensures
            item == QueueItem::fresh(id, url),
    {
        QueueItem {
            id,
            url,
            title: None,
            artist: None,
            thumbnail: None,
            duration: None,
            status: QueueStatus::Pending,
            progress: 0,
            error: None,
            output_path: None,
        }
    }

    /// A copy of the item.
    pub fn copy(&self) -> (item: QueueItem)
        ensures
            item == *self,
    {
        QueueItem {
            id: self.id.clone(),
            url: self.url.clone(),
            title: copy_text(&self.title),
            artist: copy_text(&self.artist),
            thumbnail: copy_text(&self.thumbnail),
            duration: self.duration,
            status: self.status,
            progress: self.progress,
            error: copy_text(&self.error),
            output_path: copy_text(&self.output_path),
        }
    }

    /// Whether the item is over: downloaded or failed.
    pub fn over(&self) -> (over: bool)
        ensures
            over == is_over(self.status),
    {
        self.status == QueueStatus::Complete || self.status == QueueStatus::Failed
    }
}

/// Whether no two of `items` have the same identifier.
pub open spec fn distinct_ids(items: Seq<QueueItem>) -> bool {
    forall|i: int, j: int|
        0 <= i < j < items.len() ==> (#[trigger] items[i]).id@ != (#[trigger] items[j]).id@
}

/// Whether one of `items` has the identifier `id`.
pub open spec fn has_id(items: Seq<QueueItem>, id: Seq<char>) -> bool {
    exists|i: int| 0 <= i < items.len() && (#[trigger] items[i]).id@ == id
}

/// Where the item with the identifier `id` stands among `items`.
pub open spec fn place_of(items: Seq<QueueItem>, id: Seq<char>) -> int {
    choose|i: int| 0 <= i < items.len() && (#[trigger] items[i]).id@ == id
}

/// The items that are not over, in their order.
pub open spec fn still_open(items: Seq<QueueItem>) -> Seq<QueueItem> {
    items.filter(|item: QueueItem| !is_over(item.status))
}

proof fn lemma_place(items: Seq<QueueItem>, id: Seq<char>, at: int)
    requires
        distinct_ids(items),
        0 <= at < items.len(),
        items[at].id@ == id,
    ensures
        has_id(items, id),
        place_of(items, id) == at,
{
    let chosen = place_of(items, id);
    assert(0 <= chosen < items.len() && items[chosen].id@ == id);
    if chosen < at {
        assert(items[chosen].id@ != items[at].id@);
    }
    if at < chosen {
        assert(items[at].id@ != items[chosen].id@);
    }
}

/// The queue of downloads.
pub struct DownloadQueue {
    items: Vec<QueueItem>,
}

impl DownloadQueue {
    /// The items of the queue, in their order.
    pub closed spec fn view(&self) -> Seq<QueueItem> {
        self.items@
    }

    /// No two items have the same identifier.
    pub open spec fn wf(&self) -> bool {
        distinct_ids(self@)
    }

    /// A queue without items.
    pub fn new() -> (queue: DownloadQueue)
        ensures
            queue@ == Seq::<QueueItem>::empty(),
            queue.wf(),
    {
        DownloadQueue { items: Vec::new() }
    }

    /// The number of items.
    pub fn len(&self) -> (count: usize)
        ensures
            count == self@.len(),
    {
        self.items.len()
    }

    /// Finds the item with the identifier `id`.
    pub fn find(&self, id: &str) -> (place: Option<usize>)
        requires
            self.wf(),
        ensures
            match place {
                Some(at) => has_id(self@, id@) && at == place_of(self@, id@) && at < self@.len(),
                None => !has_id(self@, id@),
            },
    {
        let mut index: usize = 0;
        while index < self.items.len()
            invariant
                self.wf(),
                index <= self.items@.len(),
                forall|i: int| 0 <= i < index ==> (#[trigger] self.items@[i]).id@ != id@,
            decreases self.items.len() - index,
        {
            if crate::text::text_equal(self.items[index].id.as_str(), id) {
                proof {
                    lemma_place(self.items@, id@, index as int);
                }
                return Some(index);
            }
            index += 1;
        }
        None
    }

    /// A copy of the item with the identifier `id`.
    pub fn get(&self, id: &str) -> (item: Option<QueueItem>)
        requires
            self.wf(),
        ensures
            match item {
                Some(found) => has_id(self@, id@) && found == self@[place_of(self@, id@)],
                None => !has_id(self@, id@),
            },
    {
        match self.find(id) {
            Some(at) => Some(self.items[at].copy()),
            None => None,
        }
    }

    /// Copies of all items, in their order.
    pub fn items(&self) -> (items: Vec<QueueItem>)
        ensures
            items@ == self@,
    {
        let mut items: Vec<QueueItem> = Vec::new();
        let mut index: usize = 0;
        while index < self.items.len()
            invariant
                index <= self.items@.len(),
                items@ == self.items@.subrange(0, index as int),
            decreases self.items.len() - index,
        {
            items.push(self.items[index].copy());
            index += 1;
            assert(items@ =~= self.items@.subrange(0, index as int));
        }
        assert(items@ =~= self.items@);
        items
    }

    /// Puts an item into the queue. An item with the same identifier gives
    /// way to it.
    pub fn insert(&mut self, item: QueueItem)
        requires
            old(self).wf(),
        ensures
            final(self).wf(),
            has_id(old(self)@, item.id@) ==> final(self)@ == old(self)@.update(
                place_of(old(self)@, item.id@),
                item,
            ),
            !has_id(old(self)@, item.id@) ==> final(self)@ == old(self)@.push(item),
    {
        match self.find(item.id.as_str()) {
            Some(at) => {
                self.items.set(at, item);
            },
            None => {
                self.items.push(item);
            },
        }
    }

    /// Takes the item with the identifier `id` out of the queue.
    pub fn remove(&mut self, id: &str)
        requires
            old(self).wf(),
        ensures
            final(self).wf(),
            has_id(old(self)@, id@) ==> final(self)@ == old(self)@.remove(
                place_of(old(self)@, id@),
            ),
            !has_id(old(self)@, id@) ==> final(self)@ == old(self)@,
    {
        match self.find(id) {
            Some(at) => {
                let _ = self.items.remove(at);
            },
            None => {},
        }
    }

    /// Takes out of the queue every item that is over.
    pub fn clear_completed(&mut self)
        requires
            old(self).wf(),
        ensures
            final(self).wf(),
            final(self)@ == still_open(old(self)@),
    {
        let mut kept: Vec<QueueItem> = Vec::new();
        let mut index: usize = 0;
        let ghost all = self.items@;
        proof {
            reveal(Seq::filter);
            assert(all.subrange(0, 0) =~= Seq::<QueueItem>::empty());
        }
        while index < self.items.len()
            invariant
                all == self.items@,
                distinct_ids(all),
                index <= all.len(),
                kept@ == still_open(all.subrange(0, index as int)),
            decreases self.items.len() - index,
        {
            if !self.items[index].over() {
                kept.push(self.items[index].copy());
            }
            proof {
                reveal(Seq::filter);
                let seen = all.subrange(0, index + 1);
                assert(seen.drop_last() =~= all.subrange(0, index as int));
                assert(seen.last() == all[index as int]);
            }
            index += 1;
        }
        proof {
            assert(all.subrange(0, index as int) =~= all);
            lemma_open_items_distinct(all);
        }
        self.items = kept;
    }

    /// Fills in the metadata of the item with the identifier `id` and makes
    /// it ready. Without such an item nothing changes.
    pub fn update_metadata(
        &mut self,
        id: &str,
        title: String,
        artist: String,
        thumbnail: Option<String>,
        duration: Option<u64>,
    )
        requires
            old(self).wf(),
        ensures
            final(self).wf(),
            has_id(old(self)@, id@) ==> final(self)@ == old(self)@.update(
                place_of(old(self)@, id@),
                old(self)@[place_of(old(self)@, id@)].with_metadata(
                    title,
                    artist,
                    thumbnail,
                    duration,
                ),
            ),
            !has_id(old(self)@, id@) ==> final(self)@ == old(self)@,
    {
        match self.find(id) {
            Some(at) => {
                let held = self.items[at].copy();
                let changed = QueueItem {
                    title: Some(title),
                    artist: Some(artist),
                    thumbnail,
                    duration,
                    status: QueueStatus::Ready,
                    ..held
                };
                self.items.set(at, changed);
            },
            None => {},
        }
    }

    /// Sets the status, the progress and the error of the item with the
    /// identifier `id`, and its output path where one is given. Without such
    /// an item nothing changes.
    pub fn update_status(
        &mut self,
        id: &str,
        status: QueueStatus,
        progress: u8,
        error: Option<String>,
        output_path: Option<String>,
    )
        requires
            old(self).wf(),
        ensures
            final(self).wf(),
            has_id(old(self)@, id@) ==> final(self)@ == old(self)@.update(
                place_of(old(self)@, id@),
                old(self)@[place_of(old(self)@, id@)].with_status(
                    status,
                    progress,
                    error,
                    output_path,
                ),
            ),
            !has_id(old(self)@, id@) ==> final(self)@ == old(self)@,
    {
        match self.find(id) {
            Some(at) => {
                let held = self.items[at].copy();
                let path = if output_path.is_some() {
                    output_path
                } else {
                    copy_text(&held.output_path)
                };
                let changed = QueueItem { status, progress, error, output_path: path, ..held };
                self.items.set(at, changed);
            },
            None => {},
        }
    }
}

proof fn lemma_open_items_distinct(items: Seq<QueueItem>)
    requires
        distinct_ids(items),
    ensures
        distinct_ids(still_open(items)),
    decreases items.len(),
{
    reveal(Seq::filter);
    if items.len() > 0 {
        let rest = items.drop_last();
        assert(distinct_ids(rest)) by {
            assert forall|i: int, j: int| 0 <= i < j < rest.len() implies (#[trigger] rest[i]).id@
                != (#[trigger] rest[j]).id@ by {
                assert(rest[i] == items[i]);
                assert(rest[j] == items[j]);
            }
        }
        lemma_open_items_distinct(rest);
        let open = still_open(rest);
        if !is_over(items.last().status) {
            assert forall|i: int, j: int| 0 <= i < j < still_open(items).len() implies (
            #[trigger] still_open(items)[i]).id@ != (#[trigger] still_open(items)[j]).id@ by {
                if j == open.len() {
                    items.drop_last().lemma_filter_contains_rev(
                        |item: QueueItem| !is_over(item.status),
                        open[i],
                    );
                    let from = choose|k: int| 0 <= k < rest.len() && rest[k] == open[i];
                    assert(items[from] == rest[from]);
                    assert(items[from].id@ != items[items.len() - 1].id@);
                }
            }
        }
    }
}

} // verus!
