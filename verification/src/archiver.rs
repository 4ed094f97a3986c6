//! The archiving pipeline: what is reported, how the posts are fetched in
//! chunks and put together again, how a post is finished, how the batch is
//! masked and how it is cut into pages.

use vstd::prelude::*;
use vstd::string::*;
use crate::archiver::anonymous::{
    spec_anonymize_error, spec_mask_username_in_cooked,
    anonymize_post, collect_anonymous_names, NameMap, spec_anonymized, spec_collected_names,
};
use crate::archiver::fetchers::{
    AssetRequest, fetch_assets_of_content, fetch_avatar, fetch_emoji_from_retort, reify_vote, site,
    spec_absolute_url, spec_avatar_filename, spec_avatar_url, spec_emoji_request,
    spec_extract_asset_url, spec_reify_vote, spec_url_to_filename,
};
use crate::archiver::utils::{ceil_div, spec_ceil_div};
use crate::client::{MAX_CONN, MAX_THROTTLE_WEIGHT, RequestBuilderWrapped};
use crate::error::Error;
use crate::models::{
    Actions, Category, copy_categories, copy_strings, Post, RespPost, Topic, TopicMeta,
};
use crate::preloaded_store::PreloadedStore;
use crate::pattern::{captures, regex_captures, regex_replace_each, replace_each};
use crate::text::{concat, concat3, decimal, decimal_string, push_string};

pub mod anonymous;
pub mod download_manager;
pub mod fetchers;
pub mod utils;

verus! {

/// How many posts are asked for at once.
pub const FETCH_PAGE_SIZE: usize = 400;

/// How many posts a page of the archive shows.
pub const EXPORT_PAGE_SIZE: usize = 20;

/// What a run reports while it goes on.
#[derive(Debug, Copy, Clone, PartialEq, Eq, Structural)]
pub enum DownloadEvent {
    /// The number of chunks of posts, known once the topic's header is.
    PostChunksTotal(u32),
    /// One more chunk of posts is there.
    PostChunksDownloadedInc,
    /// One more resource was discovered; how many there will be is not
    /// known before the end.
    ResourceTotalInc,
    /// One more resource is finished.
    ResourceDownloadedInc,
}

/// The counters that the events of a run add up to.
#[derive(Debug, Copy, Clone, PartialEq, Eq, Structural)]
pub struct Progress {
    pub chunks_total: u32,
    pub chunks_downloaded: u64,
    pub resources_total: u64,
    pub resources_downloaded: u64,
}

/// `n + 1`, as far as 64 bits hold it.
pub open spec fn spec_bump(n: u64) -> u64 {
    if n < u64::MAX {
        (n + 1) as u64
    } else {
        n
    }
}

impl Progress {
    /// The counters after `event`.
    pub open spec fn spec_apply(self, event: DownloadEvent) -> Progress {
        match event {
            DownloadEvent::PostChunksTotal(n) => Progress { chunks_total: n, ..self },
            DownloadEvent::PostChunksDownloadedInc => Progress {
                chunks_downloaded: spec_bump(self.chunks_downloaded),
                ..self
            },
            DownloadEvent::ResourceTotalInc => Progress {
                resources_total: spec_bump(self.resources_total),
                ..self
            },
            DownloadEvent::ResourceDownloadedInc => Progress {
                resources_downloaded: spec_bump(self.resources_downloaded),
                ..self
            },
        }
    }

    /// Counters at the start of a run.
    pub fn new() -> (p: Progress)
        ensures
            p == (Progress {
                chunks_total: 0,
                chunks_downloaded: 0,
                resources_total: 0,
                resources_downloaded: 0,
            }),
    {
        Progress { chunks_total: 0, chunks_downloaded: 0, resources_total: 0, resources_downloaded: 0 }
    }

    /// Takes an event into the counters. No counter of things done or
    /// discovered ever goes down.
    pub fn apply(&mut self, event: DownloadEvent)
        ensures
            *final(self) == old(self).spec_apply(event),
            final(self).chunks_downloaded >= old(self).chunks_downloaded,
            final(self).resources_total >= old(self).resources_total,
            final(self).resources_downloaded >= old(self).resources_downloaded,
    {
        match event {
            DownloadEvent::PostChunksTotal(n) => {
                self.chunks_total = n;
            },
            DownloadEvent::PostChunksDownloadedInc => {
                if self.chunks_downloaded < u64::MAX {
                    self.chunks_downloaded = self.chunks_downloaded + 1;
                }
            },
            DownloadEvent::ResourceTotalInc => {
                if self.resources_total < u64::MAX {
                    self.resources_total = self.resources_total + 1;
                }
            },
            DownloadEvent::ResourceDownloadedInc => {
                if self.resources_downloaded < u64::MAX {
                    self.resources_downloaded = self.resources_downloaded + 1;
                }
            },
        }
    }
}

/// A list cut into chunks of `size`, the last one shorter where the list
/// does not divide.
pub open spec fn spec_chunks<T>(items: Seq<T>, size: nat) -> Seq<Seq<T>>
    decreases items.len(),
{
    if size == 0 || items.len() == 0 {
        Seq::empty()
    } else if items.len() <= size {
        seq![items]
    } else {
        seq![items.take(size as int)] + spec_chunks(items.skip(size as int), size)
    }
}

/// The chunks of a list, put one behind the other, are the list.
pub proof fn lemma_chunks_flatten<T>(items: Seq<T>, size: nat)
    requires
        size > 0,
    ensures
        spec_chunks(items, size).flatten() == items,
    decreases items.len(),
{
    if items.len() == 0 {
        assert(items =~= Seq::<T>::empty());
    } else if items.len() <= size {
        seq![items].lemma_flatten_one_element();
    } else {
        let head = seq![items.take(size as int)];
        let tail = spec_chunks(items.skip(size as int), size);
        lemma_chunks_flatten(items.skip(size as int), size);
        head.lemma_flatten_one_element();
        vstd::seq_lib::lemma_flatten_concat(head, tail);
        assert(items.take(size as int) + items.skip(size as int) =~= items);
    }
}

/// There are as many chunks as the length divided by the size, rounded up,
/// and none is empty or longer than the size.
pub proof fn lemma_chunks_count<T>(items: Seq<T>, size: nat)
    requires
        size > 0,
    ensures
        spec_chunks(items, size).len() == spec_ceil_div(items.len() as int, size as int),
        forall|k: int|
            0 <= k < spec_chunks(items, size).len() ==> 0 < (#[trigger] spec_chunks(
                items,
                size,
            )[k]).len() <= size,
    decreases items.len(),
{
    let n = items.len() as int;
    let d = size as int;
    if n == 0 {
        vstd::arithmetic::div_mod::lemma_small_mod(0, size);
        vstd::arithmetic::div_mod::lemma_div_basics(d);
    } else if n <= d {
        if n == d {
            vstd::arithmetic::div_mod::lemma_mod_self_0(d);
            vstd::arithmetic::div_mod::lemma_div_by_self(d);
        } else {
            vstd::arithmetic::div_mod::lemma_small_mod(n as nat, size);
            vstd::arithmetic::div_mod::lemma_basic_div(n, d);
        }
    } else {
        let rest = items.skip(d);
        lemma_chunks_count(rest, size);
        vstd::arithmetic::div_mod::lemma_div_minus_one(n, d);
        vstd::arithmetic::div_mod::lemma_mod_sub_multiples_vanish(n, d);
        let tail = spec_chunks(rest, size);
        let all = spec_chunks(items, size);
        assert forall|k: int| 0 <= k < all.len() implies 0 < (#[trigger] all[k]).len() <= size by {
            if k > 0 {
                assert(all[k] == tail[k - 1]);
            }
        }
    }
}

/// A list of ids is its own deep view.
pub proof fn lemma_ids_deep_view(v: Vec<u32>)
    ensures
        v.deep_view() == v@,
{
    assert(v.deep_view() =~= v@);
}

/// Cuts a list of post ids into chunks of `size`.
pub fn chunk_post_ids(post_ids: &Vec<u32>, size: usize) -> (chunks: Vec<Vec<u32>>)
    requires
        size > 0,
    ensures
        chunks.deep_view() == spec_chunks(post_ids@, size as nat),
{
    let mut chunks: Vec<Vec<u32>> = Vec::new();
    let mut start: usize = 0;
    assert(chunks.deep_view() =~= Seq::<Seq<u32>>::empty());
    assert(post_ids@.skip(0) == post_ids@);
    while start < post_ids.len()
        invariant
            start <= post_ids.len(),
            size > 0,
            spec_chunks(post_ids@, size as nat) == chunks.deep_view() + spec_chunks(
                post_ids@.skip(start as int),
                size as nat,
            ),
        decreases post_ids.len() - start,
    {
        let ghost rest = post_ids@.skip(start as int);
        let ghost before = chunks.deep_view();
        let end: usize = if post_ids.len() - start <= size {
            post_ids.len()
        } else {
            start + size
        };
        let mut chunk: Vec<u32> = Vec::new();
        let mut i: usize = start;
        while i < end
            invariant
                start <= i <= end <= post_ids.len(),
                chunk@ == post_ids@.subrange(start as int, i as int),
            decreases end - i,
        {
            chunk.push(post_ids[i]);
            i += 1;
            assert(post_ids@.subrange(start as int, i as int) == post_ids@.subrange(
                start as int,
                i - 1,
            ).push(post_ids@[i - 1]));
        }
        let ghost piece = chunk@;
        proof {
            lemma_ids_deep_view(chunk);
        }
        chunks.push(chunk);
        proof {
            assert(chunks.deep_view() =~= before.push(piece));
            assert(piece =~= rest.take(end - start));
            assert(post_ids@.skip(end as int) =~= rest.skip(end - start));
            if end == post_ids.len() {
                assert(rest.take(rest.len() as int) =~= rest);
                assert(spec_chunks(rest, size as nat) =~= seq![rest]);
                assert(spec_chunks(post_ids@.skip(end as int), size as nat) =~= Seq::<
                    Seq<u32>,
                >::empty());
            }
            assert(before + spec_chunks(rest, size as nat) =~= before.push(piece) + spec_chunks(
                post_ids@.skip(end as int),
                size as nat,
            ));
        }
        start = end;
    }
    assert(spec_chunks(post_ids@.skip(start as int), size as nat) =~= Seq::<Seq<u32>>::empty());
    assert(chunks.deep_view() + Seq::<Seq<u32>>::empty() =~= chunks.deep_view());
    chunks
}

/// Where the posts of topic `id` are fetched.
pub open spec fn spec_posts_url(id: nat) -> Seq<char> {
    site() + "/t/"@ + decimal(id) + "/posts.json"@
}

/// The request for one chunk of posts.
pub struct ChunkRequest {
    /// The address, without the query.
    pub url: String,
    /// The ids to ask for, each as a value of the key `post_ids[]`.
    pub post_ids: Vec<u32>,
    /// What the request asks of the gateway.
    pub request: RequestBuilderWrapped,
}

/// What fetching the posts of a topic starts with.
pub struct ChunkPlan {
    /// The event that reports the number of chunks.
    pub total: DownloadEvent,
    /// One request for each chunk, in the order of the posts.
    pub requests: Vec<ChunkRequest>,
}

/// The number of chunks as it is reported: itself, or the largest number
/// that the event holds.
pub open spec fn spec_reported_total(chunks: nat) -> u32 {
    if chunks > u32::MAX {
        u32::MAX
    } else {
        chunks as u32
    }
}

/// Plans the fetch of a topic's posts: the ids are cut into chunks of
/// `FETCH_PAGE_SIZE`, each chunk becomes one request that takes all
/// connections and the whole throttle, and the number of chunks is reported
/// before any of them is sent.
pub fn archive_resp_posts(topic_meta: &TopicMeta) -> (plan: ChunkPlan)
    ensures
        plan.total == DownloadEvent::PostChunksTotal(
            spec_reported_total(
                spec_ceil_div(topic_meta.post_ids.len() as int, FETCH_PAGE_SIZE as int) as nat,
            ),
        ),
        plan.requests.len() == spec_chunks(topic_meta.post_ids@, FETCH_PAGE_SIZE as nat).len(),
        forall|k: int|
            0 <= k < plan.requests.len() ==> {
                &&& (#[trigger] plan.requests[k]).url@ == spec_posts_url(topic_meta.id as nat)
                &&& plan.requests[k].post_ids@ == spec_chunks(
                    topic_meta.post_ids@,
                    FETCH_PAGE_SIZE as nat,
                )[k]
                &&& plan.requests[k].request == (RequestBuilderWrapped {
                    sem_weight: MAX_CONN as u32,
                    throttle_weight: MAX_THROTTLE_WEIGHT,
                    bypass_max_conn: false,
                    bypass_throttle: false,
                })
            },
{
    let chunks_total: usize = ceil_div(topic_meta.post_ids.len(), FETCH_PAGE_SIZE);
    let reported: u32 = if chunks_total > u32::MAX as usize {
        u32::MAX
    } else {
        chunks_total as u32
    };
    let mut chunks = chunk_post_ids(&topic_meta.post_ids, FETCH_PAGE_SIZE);
    let ghost all = chunks.deep_view();
    let head = concat("https://shuiyuan.sjtu.edu.cn", "/t/");
    let url = concat3(head.as_str(), decimal_string(topic_meta.id as u64).as_str(), "/posts.json");
    let request = RequestBuilderWrapped::into_request_builder_wrapped().with_conn_weight(
        MAX_CONN as u32,
    ).with_throttle_weight(MAX_THROTTLE_WEIGHT);
    let mut reversed: Vec<ChunkRequest> = Vec::new();
    while chunks.len() > 0
        invariant
            chunks.len() + reversed.len() == all.len(),
            forall|k: int| 0 <= k < chunks.len() ==> (#[trigger] chunks.deep_view()[k]) == all[k],
            url@ == spec_posts_url(topic_meta.id as nat),
            forall|k: int|
                0 <= k < reversed.len() ==> {
                    &&& (#[trigger] reversed[k]).url@ == url@
                    &&& reversed[k].post_ids@ == all[all.len() - 1 - k]
                    &&& reversed[k].request == request
                },
        decreases chunks.len(),
    {
        let ghost before = chunks.deep_view();
        proof {
            lemma_ids_deep_view(chunks@[chunks.len() - 1]);
            assert(before[chunks.len() - 1] == chunks@[chunks.len() - 1].deep_view());
        }
        let post_ids = chunks.pop().unwrap();
        assert forall|k: int| 0 <= k < chunks.len() implies (#[trigger] chunks.deep_view()[k])
            == all[k] by {
            assert(chunks.deep_view()[k] == chunks@[k].deep_view());
            assert(before[k] == chunks@[k].deep_view());
        }
        reversed.push(ChunkRequest { url: url.clone(), post_ids, request });
    }
    let mut requests: Vec<ChunkRequest> = Vec::new();
    while reversed.len() > 0
        invariant
            requests.len() + reversed.len() == all.len(),
            forall|k: int|
                0 <= k < reversed.len() ==> {
                    &&& (#[trigger] reversed[k]).url@ == url@
                    &&& reversed[k].post_ids@ == all[all.len() - 1 - k]
                    &&& reversed[k].request == request
                },
            forall|k: int|
                0 <= k < requests.len() ==> {
                    &&& (#[trigger] requests[k]).url@ == url@
                    &&& requests[k].post_ids@ == all[k]
                    &&& requests[k].request == request
                },
        decreases reversed.len(),
    {
        let next = reversed.pop().unwrap();
        requests.push(next);
    }
    proof {
        lemma_chunks_count(topic_meta.post_ids@, FETCH_PAGE_SIZE as nat);
    }
    ChunkPlan { total: DownloadEvent::PostChunksTotal(reported), requests }
}

/// The results of the chunks of a run, each in the place of its chunk,
/// whichever is there first.
pub struct ChunkBoard<T> {
    slots: Vec<Option<Vec<T>>>,
}

impl<T> ChunkBoard<T> {
    /// What each chunk has brought so far.
    pub closed spec fn view(&self) -> Seq<Option<Seq<T>>> {
        Seq::new(
            self.slots.len() as nat,
            |k: int|
                match self.slots[k] {
                    Some(items) => Some(items@),
                    None => None,
                },
        )
    }

    /// Tells whether every chunk is there.
    pub open spec fn spec_is_complete(&self) -> bool {
        forall|k: int| 0 <= k < self@.len() ==> (#[trigger] self@[k]) is Some
    }

    /// What the chunks have brought, in the order of the chunks.
    pub open spec fn spec_results(&self) -> Seq<Seq<T>> {
        Seq::new(self@.len(), |k: int| self@[k]->0)
    }

    /// A board for `total` chunks, none of them there.
    pub fn new(total: usize) -> (board: ChunkBoard<T>)
        ensures
            board@.len() == total,
            forall|k: int| 0 <= k < total ==> (#[trigger] board@[k]) is None,
    {
        let mut slots: Vec<Option<Vec<T>>> = Vec::new();
        let mut k: usize = 0;
        while k < total
            invariant
                k <= total,
                slots.len() == k,
                forall|i: int| 0 <= i < k ==> (#[trigger] slots[i]) is None,
            decreases total - k,
        {
            slots.push(None);
            k += 1;
        }
        ChunkBoard { slots }
    }

    /// Puts the result of chunk `k` in its place. A result for a chunk that
    /// the board does not have, or that is there already, is refused and
    /// changes nothing.
    pub fn record(&mut self, k: usize, items: Vec<T>) -> (accepted: bool)
        ensures
            accepted == (k < old(self)@.len() && old(self)@[k as int] is None),
            final(self)@ == if accepted {
                old(self)@.update(k as int, Some(items@))
            } else {
                old(self)@
            },
    {
        if k >= self.slots.len() {
            return false;
        }
        if self.slots[k].is_some() {
            return false;
        }
        self.slots.set(k, Some(items));
        assert(self@ =~= old(self)@.update(k as int, Some(items@)));
        true
    }

    /// Tells whether every chunk is there: only then may the work on the
    /// posts begin.
    pub fn is_complete(&self) -> (complete: bool)
        ensures
            complete == self.spec_is_complete(),
    {
        let mut k: usize = 0;
        while k < self.slots.len()
            invariant
                k <= self.slots.len(),
                forall|i: int| 0 <= i < k ==> (#[trigger] self@[i]) is Some,
            decreases self.slots.len() - k,
        {
            if self.slots[k].is_none() {
                assert(self@[k as int] is None);
                return false;
            }
            k += 1;
        }
        true
    }

    /// Puts the results together in the order of the chunks, whatever the
    /// order in which they came. `None` while a chunk is missing.
    pub fn assemble(self) -> (all: Option<Vec<T>>)
        ensures
            match all {
                Some(items) => self.spec_is_complete() && items@ == self.spec_results().flatten(),
                None => !self.spec_is_complete(),
            },
    {
        if !self.is_complete() {
            return None;
        }
        let ghost results = self.spec_results();
        assert forall|k: int| 0 <= k < self.slots.len() implies (#[trigger] self.slots[k]) is Some
            && self.slots[k]->0@ == results[k] by {
            assert(self@[k] is Some);
        }
        let mut slots = self.slots;
        let mut out: Vec<T> = Vec::new();
        assert(results.skip(results.len() as int) =~= Seq::<Seq<T>>::empty());
        while slots.len() > 0
            invariant
                slots.len() <= results.len(),
                forall|k: int|
                    0 <= k < slots.len() ==> (#[trigger] slots[k]) is Some && slots[k]->0@
                        == results[k],
                out@ == results.skip(slots.len() as int).flatten(),
            decreases slots.len(),
        {
            let ghost n = slots.len() as int;
            let slot = slots.pop().unwrap();
            match slot {
                Some(mut items) => {
                    proof {
                        let rest = results.skip(n - 1);
                        assert(rest.first() == results[n - 1]);
                        assert(rest.drop_first() =~= results.skip(n));
                    }
                    items.append(&mut out);
                    out = items;
                },
                None => {},
            }
        }
        assert(results.skip(0) =~= results);
        Some(out)
    }
}

/// Whichever of two chunks is there first, the board ends up the same.
pub proof fn lemma_record_order<T>(
    board: Seq<Option<Seq<T>>>,
    j: int,
    first: Seq<T>,
    k: int,
    second: Seq<T>,
)
    requires
        0 <= j < board.len(),
        0 <= k < board.len(),
        j != k,
    ensures
        board.update(j, Some(first)).update(k, Some(second)) == board.update(k, Some(second)).update(
            j,
            Some(first),
        ),
{
    assert(board.update(j, Some(first)).update(k, Some(second)) =~= board.update(
        k,
        Some(second),
    ).update(j, Some(first)));
}

/// The chunks of `items`, each item replaced by what `f` makes of it.
pub open spec fn spec_chunk_results<T, U>(items: Seq<T>, size: nat, f: spec_fn(T) -> U) -> Seq<
    Seq<U>,
> {
    Seq::new(
        spec_chunks(items, size).len(),
        |k: int| spec_chunks(items, size)[k].map_values(f),
    )
}

/// Where every chunk brings its items in their order, the results put
/// together are in the order of the whole list.
pub proof fn lemma_assembled_in_order<T, U>(items: Seq<T>, size: nat, f: spec_fn(T) -> U)
    requires
        size > 0,
    ensures
        spec_chunk_results(items, size, f).flatten() == items.map_values(f),
    decreases items.len(),
{
    let results = spec_chunk_results(items, size, f);
    if items.len() == 0 {
        assert(results =~= Seq::<Seq<U>>::empty());
        assert(items.map_values(f) =~= Seq::<U>::empty());
    } else if items.len() <= size {
        assert(results =~= seq![items.map_values(f)]);
        results.lemma_flatten_one_element();
    } else {
        let rest = items.skip(size as int);
        lemma_assembled_in_order(rest, size, f);
        let head = seq![items.take(size as int).map_values(f)];
        let tail = spec_chunk_results(rest, size, f);
        assert(results =~= head + tail) by {
            assert forall|k: int| 0 <= k < results.len() implies results[k] == (head + tail)[k] by {
                if k > 0 {
                    assert(spec_chunks(items, size)[k] == spec_chunks(rest, size)[k - 1]);
                }
            }
        }
        head.lemma_flatten_one_element();
        vstd::seq_lib::lemma_flatten_concat(head, tail);
        assert(items.take(size as int).map_values(f) + rest.map_values(f) =~= items.map_values(f));
    }
}

/// What has to be fetched for a post, and the post with its body rewritten
/// to refer to the local files.
pub struct PostPlan {
    /// The post, its polls reified and its assets localized.
    pub post: RespPost,
    /// One download for each asset of the body, in document order.
    pub assets: Vec<AssetRequest>,
    /// The avatar to fetch; none when names are masked.
    pub avatar: Option<AssetRequest>,
    /// For each reaction, the image to download and the number of users.
    pub emojis: Vec<(AssetRequest, usize)>,
}

/// The body of a post after its polls are reified and its assets localized,
/// and the addresses of its assets. `None` where the body cannot be
/// rewritten.
pub open spec fn spec_localized(post: RespPost, anonymous: bool, windows: bool) -> Option<
    (Seq<Seq<char>>, Seq<char>),
> {
    match spec_reify_vote(post.cooked@, post.polls@) {
        None => None,
        Some(reified) => spec_extract_asset_url(reified, anonymous, windows),
    }
}

/// Tells whether `plan` is what `post` asks for.
pub open spec fn spec_post_plan(
    post: RespPost,
    store: PreloadedStore,
    anonymous: bool,
    windows: bool,
    plan: PostPlan,
) -> bool {
    let localized = spec_localized(post, anonymous, windows);
    &&& localized is Some
    &&& plan.post.cooked@ == (localized->0).1
    &&& plan.post == (RespPost { cooked: plan.post.cooked, ..post })
    &&& plan.assets.len() == (localized->0).0.len()
    &&& forall|k: int|
        0 <= k < plan.assets.len() ==> (#[trigger] plan.assets[k]).url@ == spec_absolute_url(
            (localized->0).0[k],
        ) && plan.assets[k].filename@ == spec_url_to_filename((localized->0).0[k], windows)
    &&& match plan.avatar {
        Some(avatar) => !anonymous && avatar.url@ == spec_avatar_url(post.avatar_template@)
            && avatar.filename@ == spec_avatar_filename(avatar.url@, windows),
        None => anonymous,
    }
    &&& plan.emojis.len() == post.retorts.len()
    &&& forall|k: int|
        0 <= k < plan.emojis.len() ==> spec_emoji_request(store, post.retorts[k].emoji@, windows)
            == Some(((#[trigger] plan.emojis[k]).0.url@, plan.emojis[k].0.filename@))
            && plan.emojis[k].1 == post.retorts[k].usernames.len()
}

/// Plans the work on a post whose special content is resolved: its polls
/// are reified, then its assets are localized and listed for download, its
/// avatar is named unless names are masked, and every reaction is resolved
/// to an image. Fails with `Error::Rewriting` where the body cannot be
/// rewritten, and with `Error::Pattern` where a reaction cannot be resolved.
pub fn plan_resp_post(post: RespPost, store: &PreloadedStore, anonymous: bool, windows: bool) -> (r:
    Result<PostPlan, Error>)
    ensures
        match r {
            Ok(plan) => spec_post_plan(post, *store, anonymous, windows, plan),
            Err(e) => if spec_localized(post, anonymous, windows) is None {
                e == Error::Rewriting
            } else {
                e == Error::Pattern && exists|k: int|
                    0 <= k < post.retorts.len() && (#[trigger] spec_emoji_request(
                        *store,
                        post.retorts[k].emoji@,
                        windows,
                    )) is None
            },
        },
{
    let reified = match reify_vote(post) {
        Ok(reified) => reified,
        Err(_) => {
            return Err(Error::Rewriting);
        },
    };
    let assets = match fetch_assets_of_content(reified.cooked.as_str(), anonymous, windows) {
        Ok(assets) => assets,
        Err(_) => {
            return Err(Error::Rewriting);
        },
    };
    let avatar = if anonymous {
        None
    } else {
        Some(fetch_avatar(&reified, windows))
    };
    let mut emojis: Vec<(AssetRequest, usize)> = Vec::new();
    let mut k: usize = 0;
    while k < reified.retorts.len()
        invariant
            k <= reified.retorts.len(),
            reified.retorts == post.retorts,
            spec_localized(post, anonymous, windows) is Some,
            emojis.len() == k,
            forall|i: int|
                0 <= i < k ==> spec_emoji_request(*store, post.retorts[i].emoji@, windows) == Some(
                    ((#[trigger] emojis[i]).0.url@, emojis[i].0.filename@),
                ) && emojis[i].1 == post.retorts[i].usernames.len(),
        decreases reified.retorts.len() - k,
    {
        match fetch_emoji_from_retort(store, &reified.retorts[k], windows) {
            Ok(resolved) => {
                emojis.push(resolved);
            },
            Err(_) => {
                assert(spec_emoji_request(*store, post.retorts[k as int].emoji@, windows) is None);
                return Err(Error::Pattern);
            },
        }
        k += 1;
    }
    Ok(
        PostPlan {
            post: RespPost { cooked: assets.rewritten_content, ..reified },
            assets: assets.requests,
            avatar,
            emojis,
        },
    )
}

/// The count of the first action with id 2, a like, that has a count; 0
/// where there is none.
pub open spec fn spec_likes(actions: Seq<Actions>, from: int) -> usize
    decreases actions.len() - from,
{
    if from < 0 || from >= actions.len() {
        0
    } else if actions[from].id == 2 && actions[from].count is Some {
        actions[from].count->0
    } else {
        spec_likes(actions, from + 1)
    }
}

/// How often a post was liked.
pub fn likes_of_resp_post(resp_post: &RespPost) -> (likes: usize)
    ensures
        likes == spec_likes(resp_post.actions_summary@, 0),
{
    let mut i: usize = 0;
    while i < resp_post.actions_summary.len()
        invariant
            i <= resp_post.actions_summary.len(),
            spec_likes(resp_post.actions_summary@, 0) == spec_likes(
                resp_post.actions_summary@,
                i as int,
            ),
        decreases resp_post.actions_summary.len() - i,
    {
        if resp_post.actions_summary[i].id == 2 {
            match resp_post.actions_summary[i].count {
                Some(count) => {
                    return count;
                },
                None => {},
            }
        }
        i += 1;
    }
    0
}

/// The pattern that finds the avatars inside a body.
pub open spec fn avatar_pattern() -> Seq<char> {
    "<img .* class=\"avatar\">"@
}

/// A body without the avatars that it shows. `None` where the pattern
/// cannot be used.
pub open spec fn spec_strip_avatars(cooked: Seq<char>) -> Option<Seq<char>> {
    match regex_captures(avatar_pattern(), cooked) {
        None => None,
        Some(found) => regex_replace_each(
            avatar_pattern(),
            cooked,
            Seq::new(found.len(), |k: int| Seq::<char>::empty()),
        ),
    }
}

/// As many empty replacements as there are matches.
pub fn blank_replacements(found: &Vec<Vec<Option<String>>>) -> (with: Vec<String>)
    ensures
        with.deep_view() == Seq::new(found.deep_view().len(), |k: int| Seq::<char>::empty()),
{
    let mut with: Vec<String> = Vec::new();
    let mut k: usize = 0;
    assert(with.deep_view() =~= Seq::new(0, |k: int| Seq::<char>::empty()));
    while k < found.len()
        invariant
            k <= found.len(),
            with.deep_view() == Seq::new(k as nat, |k: int| Seq::<char>::empty()),
        decreases found.len() - k,
    {
        push_string(&mut with, String::new());
        k += 1;
        assert(with.deep_view() =~= Seq::new(k as nat, |k: int| Seq::<char>::empty()));
    }
    assert(found.deep_view().len() == found.len());
    with
}

/// Takes the avatars out of a body. Fails with `Error::Pattern` where the
/// pattern cannot be used.
pub fn strip_avatars(cooked: &str) -> (r: Result<String, Error>)
    ensures
        match r {
            Ok(stripped) => spec_strip_avatars(cooked@) == Some(stripped@),
            Err(e) => e == Error::Pattern && spec_strip_avatars(cooked@) is None,
        },
{
    let found = match captures("<img .* class=\"avatar\">", cooked) {
        Some(found) => found,
        None => {
            return Err(Error::Pattern);
        },
    };
    let with = blank_replacements(&found);
    match replace_each("<img .* class=\"avatar\">", cooked, &with) {
        Some(stripped) => Ok(stripped),
        None => Err(Error::Pattern),
    }
}

/// Index of the first entry at or after `from` that is about `filename`;
/// the number of entries where there is none.
pub open spec fn spec_emoji_index(
    counts: Seq<(Seq<char>, usize)>,
    filename: Seq<char>,
    from: int,
) -> int
    decreases counts.len() - from,
{
    if from < 0 || from >= counts.len() {
        counts.len() as int
    } else if counts[from].0 == filename {
        from
    } else {
        spec_emoji_index(counts, filename, from + 1)
    }
}

/// The reactions so far with one more: the count of a file that is there
/// already is replaced, a new file goes to the end.
pub open spec fn spec_with_emoji(
    counts: Seq<(Seq<char>, usize)>,
    filename: Seq<char>,
    count: usize,
) -> Seq<(Seq<char>, usize)> {
    let at = spec_emoji_index(counts, filename, 0);
    if at < counts.len() {
        counts.update(at, (filename, count))
    } else {
        counts.push((filename, count))
    }
}

/// The reactions of the first `n` entries: one entry per file, with the
/// count of the last reaction that uses it.
pub open spec fn spec_emoji_counts(emojis: Seq<(Seq<char>, usize)>, n: int) -> Seq<
    (Seq<char>, usize),
>
    decreases n,
{
    if n <= 0 {
        Seq::empty()
    } else {
        spec_with_emoji(spec_emoji_counts(emojis, n - 1), emojis[n - 1].0, emojis[n - 1].1)
    }
}

/// Gathers the reactions of a post: one entry per file, with the count of
/// the last reaction that uses it, in the order in which the files first
/// appear.
pub fn emoji_counts(emojis: Vec<(String, usize)>) -> (counts: Vec<(String, usize)>)
    ensures
        counts.deep_view() == spec_emoji_counts(emojis.deep_view(), emojis.len() as int),
{
    let ghost all = emojis.deep_view();
    let mut reversed: Vec<(String, usize)> = Vec::new();
    let mut emojis = emojis;
    while emojis.len() > 0
        invariant
            emojis.len() + reversed.len() == all.len(),
            forall|k: int| 0 <= k < emojis.len() ==> (#[trigger] emojis.deep_view()[k]) == all[k],
            forall|k: int|
                0 <= k < reversed.len() ==> (#[trigger] reversed.deep_view()[k]) == all[all.len()
                    - 1 - k],
        decreases emojis.len(),
    {
        let ghost before = emojis.deep_view();
        let ghost done = reversed.deep_view();
        let ghost done_vec = reversed@;
        let ghost n = emojis.len() as int;
        assert(before[n - 1] == emojis@[n - 1].deep_view());
        let entry = emojis.pop().unwrap();
        assert forall|k: int| 0 <= k < emojis.len() implies (#[trigger] emojis.deep_view()[k])
            == all[k] by {
            assert(emojis.deep_view()[k] == emojis@[k].deep_view());
            assert(before[k] == emojis@[k].deep_view());
        }
        reversed.push(entry);
        assert forall|k: int| 0 <= k < reversed.len() implies (#[trigger] reversed.deep_view()[k])
            == all[all.len() - 1 - k] by {
            assert(reversed.deep_view()[k] == reversed@[k].deep_view());
            if k < done_vec.len() {
                assert(done[k] == done_vec[k].deep_view());
            }
        }
    }
    let mut counts: Vec<(String, usize)> = Vec::new();
    let mut n: usize = 0;
    assert(counts.deep_view() =~= spec_emoji_counts(all, 0));
    while reversed.len() > 0
        invariant
            n + reversed.len() == all.len(),
            all.len() <= usize::MAX,
            forall|k: int|
                0 <= k < reversed.len() ==> (#[trigger] reversed.deep_view()[k]) == all[all.len()
                    - 1 - k],
            counts.deep_view() == spec_emoji_counts(all, n as int),
        decreases reversed.len(),
    {
        let ghost before = reversed.deep_view();
        let ghost m = reversed.len() as int;
        assert(before[m - 1] == reversed@[m - 1].deep_view());
        let entry = reversed.pop().unwrap();
        assert forall|k: int| 0 <= k < reversed.len() implies (#[trigger] reversed.deep_view()[k])
            == all[all.len() - 1 - k] by {
            assert(reversed.deep_view()[k] == reversed@[k].deep_view());
            assert(before[k] == reversed@[k].deep_view());
        }
        assert(entry.deep_view() == all[n as int]);
        put_emoji(&mut counts, entry.0, entry.1);
        n += 1;
    }
    counts
}

fn put_emoji(counts: &mut Vec<(String, usize)>, filename: String, count: usize)
    ensures
        final(counts).deep_view() == spec_with_emoji(old(counts).deep_view(), filename@, count),
{
    let ghost view = counts.deep_view();
    let mut i: usize = 0;
    while i < counts.len()
        invariant
            i <= counts.len(),
            counts.deep_view() == view,
            *counts == *old(counts),
            spec_emoji_index(view, filename@, 0) == spec_emoji_index(view, filename@, i as int),
        decreases counts.len() - i,
    {
        assert(view[i as int] == counts@[i as int].deep_view());
        if counts[i].0 == filename {
            counts.set(i, (filename, count));
            assert(counts.deep_view() =~= view.update(i as int, (filename@, count)));
            return ;
        }
        i += 1;
    }
    counts.push((filename, count));
    assert(counts.deep_view() =~= view.push((filename@, count)));
}

/// A post as the archive shows it, from what the forum sent, with its body
/// localized, and from what was fetched for it. With `anonymous`, the
/// avatars inside the body go and the post has no avatar of its own.
pub open spec fn spec_processed(
    resp_post: RespPost,
    anonymous: bool,
    avatar: Option<String>,
    emojis: Seq<(Seq<char>, usize)>,
    created_at_display: String,
    post: Post,
) -> bool {
    &&& post.name == resp_post.name
    &&& post.number == resp_post.post_number
    &&& post.username == resp_post.username
    &&& post.created_at == resp_post.created_at
    &&& post.created_at_display == created_at_display
    &&& if anonymous {
        spec_strip_avatars(resp_post.cooked@) == Some(post.content@)
    } else {
        post.content == resp_post.cooked
    }
    &&& post.likes == spec_likes(resp_post.actions_summary@, 0)
    &&& post.reply_to == resp_post.reply_to_post_number
    &&& post.emojis.deep_view() == spec_emoji_counts(emojis, emojis.len() as int)
    &&& post.avatar == if anonymous {
        None
    } else {
        avatar
    }
}

/// Finishes a post: `resp_post` is the post with its body localized,
/// `avatar` the path of its avatar where one was fetched, `emojis` its
/// reactions as local file and number of users, `created_at_display` its
/// time as the archive shows it. Fails with `Error::Pattern` where
/// `anonymous` is set and the avatars cannot be taken out of the body.
pub fn process_resp_post(
    resp_post: RespPost,
    anonymous: bool,
    avatar: Option<String>,
    emojis: Vec<(String, usize)>,
    created_at_display: String,
) -> (r: Result<Post, Error>)
    ensures
        match r {
            Ok(post) => spec_processed(
                resp_post,
                anonymous,
                avatar,
                emojis.deep_view(),
                created_at_display,
                post,
            ),
            Err(e) => e == Error::Pattern && anonymous && spec_strip_avatars(resp_post.cooked@)
                is None,
        },
{
    let likes = likes_of_resp_post(&resp_post);
    let content = if anonymous {
        match strip_avatars(resp_post.cooked.as_str()) {
            Ok(stripped) => stripped,
            Err(_) => {
                return Err(Error::Pattern);
            },
        }
    } else {
        resp_post.cooked
    };
    Ok(
        Post {
            name: resp_post.name,
            number: resp_post.post_number,
            username: resp_post.username,
            created_at: resp_post.created_at,
            created_at_display,
            content,
            likes,
            reply_to: resp_post.reply_to_post_number,
            emojis: emoji_counts(emojis),
            avatar: if anonymous {
                None
            } else {
                avatar
            },
        },
    )
}

/// The link from page `page` to the page before: the word `index` on the
/// first page and to the first page, the number of any other.
pub open spec fn spec_prev_page(page: nat) -> Option<Seq<char>> {
    if page <= 2 {
        Some("index"@)
    } else {
        Some(decimal((page - 1) as nat))
    }
}

/// The link from page `page` to the page after: none on the last page.
pub open spec fn spec_next_page(page: nat, total_pages: nat) -> Option<nat> {
    if page == total_pages {
        None
    } else {
        Some(page + 1)
    }
}

/// The file of page `page`: `index.html` for the first, its number else.
pub open spec fn spec_page_filename(page: nat) -> Seq<char> {
    if page == 1 {
        "index.html"@
    } else {
        decimal(page) + ".html"@
    }
}

/// How many pages a topic of `post_count` posts has.
pub open spec fn spec_total_pages(post_count: nat) -> nat {
    spec_ceil_div(post_count as int, EXPORT_PAGE_SIZE as int) as nat
}

/// One page of the archive: the file it is written to and what the template
/// is given.
pub struct Page {
    pub filename: String,
    pub topic: Topic,
}

/// Tells whether `p` is page `page` of the topic `meta` with the posts
/// `posts`.
pub open spec fn spec_page(meta: TopicMeta, page: nat, posts: Seq<Post>, p: Page) -> bool {
    &&& p.filename@ == spec_page_filename(page)
    &&& p.topic.id == meta.id
    &&& p.topic.title == meta.title
    &&& p.topic.description == meta.description
    &&& p.topic.categories@ == meta.categories@
    &&& p.topic.tags@ == meta.tags@
    &&& p.topic.posts@ == posts
    &&& p.topic.page == page
    &&& p.topic.total_pages == spec_total_pages(meta.post_ids.len() as nat)
    &&& match p.topic.prev_page {
        Some(link) => spec_prev_page(page) == Some(link@),
        None => spec_prev_page(page) is None,
    }
    &&& match p.topic.next_page {
        Some(next) => spec_next_page(page, p.topic.total_pages as nat) == Some(next as nat),
        None => spec_next_page(page, p.topic.total_pages as nat) is None,
    }
}

/// Makes page `page` of a topic, with the posts that it shows. Pages are
/// numbered from 1.
pub fn write_page(meta: &TopicMeta, page: usize, posts: Vec<Post>) -> (p: Page)
    requires
        1 <= page < usize::MAX,
    ensures
        spec_page(*meta, page as nat, posts@, p),
{
    let total_pages: usize = ceil_div(meta.post_ids.len(), EXPORT_PAGE_SIZE);
    let prev_page: Option<String> = if page <= 2 {
        Some("index".to_string())
    } else {
        Some(decimal_string((page - 1) as u64))
    };
    let next_page: Option<usize> = if page == total_pages {
        None
    } else {
        Some(page + 1)
    };
    let filename = if page == 1 {
        "index.html".to_string()
    } else {
        concat(decimal_string(page as u64).as_str(), ".html")
    };
    Page {
        filename,
        topic: Topic {
            id: meta.id,
            title: meta.title.clone(),
            description: meta.description.clone(),
            categories: copy_categories(&meta.categories),
            tags: copy_strings(&meta.tags),
            posts,
            page,
            total_pages,
            prev_page,
            next_page,
        },
    }
}

/// Tells whether `pages` are the pages of the posts `posts`: one page for
/// each chunk of `EXPORT_PAGE_SIZE` posts, in their order, page `k + 1` for
/// chunk `k`.
pub open spec fn spec_pages(meta: TopicMeta, posts: Seq<Post>, pages: Seq<Page>) -> bool {
    &&& pages.len() == spec_chunks(posts, EXPORT_PAGE_SIZE as nat).len()
    &&& forall|k: int|
        0 <= k < pages.len() ==> spec_page(
            meta,
            (k + 1) as nat,
            spec_chunks(posts, EXPORT_PAGE_SIZE as nat)[k],
            #[trigger] pages[k],
        )
}

/// Cuts the posts of a topic into pages of `EXPORT_PAGE_SIZE`, in their
/// order: page `k + 1` shows chunk `k`.
pub fn paginate(topic_meta: &TopicMeta, posts: Vec<Post>) -> (pages: Vec<Page>)
    ensures
        spec_pages(*topic_meta, posts@, pages@),
{
    let ghost all = spec_chunks(posts@, EXPORT_PAGE_SIZE as nat);
    let count: usize = posts.len();
    proof {
        lemma_chunks_count(posts@, EXPORT_PAGE_SIZE as nat);
        assert(usize::MAX >= 0xffff_ffff);
        assert(spec_ceil_div(count as int, 20) <= count / 20 + 1);
        assert(all.len() < usize::MAX);
    }
    let mut rest = posts;
    let mut pages: Vec<Page> = Vec::new();
    while rest.len() > 0
        invariant
            pages.len() + spec_chunks(rest@, EXPORT_PAGE_SIZE as nat).len() == all.len(),
            all.len() < usize::MAX,
            forall|k: int|
                0 <= k < pages.len() ==> spec_page(*topic_meta, (k + 1) as nat, all[k], #[trigger] pages[k]),
            forall|k: int|
                0 <= k < spec_chunks(rest@, EXPORT_PAGE_SIZE as nat).len() ==> (#[trigger] spec_chunks(
                    rest@,
                    EXPORT_PAGE_SIZE as nat,
                )[k]) == all[pages.len() + k],
        decreases rest.len(),
    {
        let ghost before = rest@;
        let ghost chunks = spec_chunks(before, EXPORT_PAGE_SIZE as nat);
        let tail = if rest.len() > EXPORT_PAGE_SIZE {
            rest.split_off(EXPORT_PAGE_SIZE)
        } else {
            Vec::new()
        };
        proof {
            if before.len() > EXPORT_PAGE_SIZE {
                assert(rest@ =~= before.take(EXPORT_PAGE_SIZE as int));
                assert(tail@ =~= before.skip(EXPORT_PAGE_SIZE as int));
                assert(chunks =~= seq![rest@] + spec_chunks(tail@, EXPORT_PAGE_SIZE as nat));
            } else {
                assert(chunks =~= seq![rest@]);
                assert(spec_chunks(tail@, EXPORT_PAGE_SIZE as nat) =~= Seq::<Seq<Post>>::empty());
            }
            assert(chunks[0] == rest@);
            assert forall|k: int|
                0 <= k < spec_chunks(tail@, EXPORT_PAGE_SIZE as nat).len() implies (#[trigger] spec_chunks(
                tail@,
                EXPORT_PAGE_SIZE as nat,
            )[k]) == all[pages.len() + 1 + k] by {
                assert(spec_chunks(tail@, EXPORT_PAGE_SIZE as nat)[k] == chunks[k + 1]);
            }
        }
        let page = write_page(topic_meta, pages.len() + 1, rest);
        pages.push(page);
        rest = tail;
    }
    pages
}

/// The link back on the first page is the word `index`, which is also
/// the link back to the first page; every later page links back by number;
/// the last page has no link forward; and a topic has as many pages as its
/// posts divided by the page size, rounded up.
pub proof fn lemma_page_links(post_count: nat, page: nat)
    requires
        1 <= page <= spec_total_pages(post_count),
    ensures
        spec_total_pages(post_count) * 20 >= post_count,
        (spec_total_pages(post_count) - 1) * 20 < post_count,
        spec_prev_page(1) == Some("index"@),
        spec_prev_page(2) == Some("index"@),
        page > 2 ==> spec_prev_page(page) == Some(decimal((page - 1) as nat)),
        spec_next_page(spec_total_pages(post_count), spec_total_pages(post_count)) is None,
        page < spec_total_pages(post_count) ==> spec_next_page(page, spec_total_pages(post_count))
            == Some(page + 1),
{
    crate::archiver::utils::lemma_ceil_div_is_least(post_count as int, 20);
}

/// A batch of posts with every name masked.
pub open spec fn spec_anonymized_batch(map: NameMap, posts: Seq<Post>, masked: Seq<Post>) -> bool {
    &&& masked.len() == posts.len()
    &&& forall|i: int| 0 <= i < posts.len() ==> spec_anonymized(map, posts[i], #[trigger] masked[i])
}

/// The error of the first of the first `n` posts that cannot be masked;
/// none where all of them can.
pub open spec fn spec_first_error(map: NameMap, posts: Seq<Post>, n: int) -> Option<Error>
    decreases n,
{
    if n <= 0 {
        None
    } else if spec_first_error(map, posts, n - 1) is Some {
        spec_first_error(map, posts, n - 1)
    } else {
        spec_anonymize_error(map, posts[n - 1])
    }
}

/// Once a post has failed, the first error stays what it is.
pub proof fn lemma_first_error_stays(map: NameMap, posts: Seq<Post>, n: int, m: int)
    requires
        0 <= n <= m,
        spec_first_error(map, posts, n) is Some,
    ensures
        spec_first_error(map, posts, m) == spec_first_error(map, posts, n),
    decreases m - n,
{
    if n < m {
        lemma_first_error_stays(map, posts, n, m - 1);
    }
}

/// The first error is that of the first post that cannot be masked: every
/// post before it can.
pub proof fn lemma_first_error_post(map: NameMap, posts: Seq<Post>, n: int) -> (i: int)
    requires
        spec_first_error(map, posts, n) is Some,
    ensures
        0 <= i < n,
        spec_anonymize_error(map, posts[i]) == spec_first_error(map, posts, n),
        forall|j: int| 0 <= j < i ==> spec_anonymize_error(map, #[trigger] posts[j]) is None,
    decreases n,
{
    if spec_first_error(map, posts, n - 1) is Some {
        lemma_first_error_post(map, posts, n - 1)
    } else {
        lemma_no_error_before(map, posts, n - 1);
        n - 1
    }
}

/// Where the first `n` posts give no error, none of them does.
pub proof fn lemma_no_error_before(map: NameMap, posts: Seq<Post>, n: int)
    requires
        spec_first_error(map, posts, n) is None,
    ensures
        forall|j: int| 0 <= j < n ==> spec_anonymize_error(map, #[trigger] posts[j]) is None,
    decreases n,
{
    if n > 0 {
        lemma_no_error_before(map, posts, n - 1);
    }
}

/// Masks every post of a batch with the aliases of `map`, in order: each
/// post loses its display name and its avatar, gets its author's alias as
/// username, and has its body masked. Succeeds where every post can be
/// masked; else fails with the error of the first post that cannot.
pub fn mask_posts(map: &NameMap, posts: Vec<Post>) -> (r: Result<Vec<Post>, Error>)
    requires
        map.wf(),
    ensures
        match r {
            Ok(masked) => spec_first_error(*map, posts@, posts.len() as int) is None
                && spec_anonymized_batch(*map, posts@, masked@),
            Err(e) => spec_first_error(*map, posts@, posts.len() as int) == Some(e),
        },
{
    let ghost all = posts@;
    let mut rest = posts;
    let mut reversed: Vec<Post> = Vec::new();
    while rest.len() > 0
        invariant
            rest.len() + reversed.len() == all.len(),
            forall|k: int| 0 <= k < rest.len() ==> (#[trigger] rest[k]) == all[k],
            forall|k: int|
                0 <= k < reversed.len() ==> (#[trigger] reversed[k]) == all[all.len() - 1 - k],
        decreases rest.len(),
    {
        let post = rest.pop().unwrap();
        reversed.push(post);
    }
    let mut masked: Vec<Post> = Vec::new();
    while reversed.len() > 0
        invariant
            map.wf(),
            all == posts@,
            masked.len() + reversed.len() == all.len(),
            forall|k: int|
                0 <= k < reversed.len() ==> (#[trigger] reversed[k]) == all[all.len() - 1 - k],
            forall|k: int|
                0 <= k < masked.len() ==> spec_anonymized(*map, all[k], #[trigger] masked[k]),
            spec_first_error(*map, all, masked.len() as int) is None,
        decreases reversed.len(),
    {
        let ghost done = masked.len() as int;
        let post = reversed.pop().unwrap();
        assert(post == all[done]);
        match anonymize_post(map, post) {
            Ok(anonymous) => {
                masked.push(anonymous);
            },
            Err(e) => {
                proof {
                    assert(spec_first_error(*map, all, done + 1) == Some(e));
                    lemma_first_error_stays(*map, all, done + 1, all.len() as int);
                }
                return Err(e);
            },
        }
    }
    Ok(masked)
}

/// Tells whether masking the batch `posts` with `map` fails at post `i`
/// with `e`: `map` holds the names of the batch, every post before `i` can
/// be masked, and the body of post `i` cannot.
pub open spec fn spec_fails_at(map: NameMap, posts: Seq<Post>, i: int, e: Error) -> bool {
    &&& map.wf()
    &&& spec_collected_names(posts) == Some(map.names())
    &&& 0 <= i < posts.len()
    &&& forall|j: int| 0 <= j < i ==> spec_anonymize_error(map, #[trigger] posts[j]) is None
    &&& spec_mask_username_in_cooked(map, posts[i].content@) == Err::<Seq<char>, Error>(e)
}

/// Tells whether `e` is an error that masking the batch `posts` can end
/// with: `Error::Pattern` where its names cannot be collected; else the
/// error of the first body that cannot be masked with the aliases drawn.
pub open spec fn spec_batch_fails(posts: Seq<Post>, e: Error) -> bool {
    (spec_collected_names(posts) is None && e == Error::Pattern) || exists|
        map: NameMap,
        i: int,
    | #[trigger]
        spec_fails_at(map, posts, i, e)
}

/// Masks the names of a whole batch: the names are collected from all
/// posts first, then every post loses its display name and its avatar,
/// gets its author's alias as username, and has its body masked. Fails
/// with `Error::Pattern` where the names cannot be collected, and else
/// with the error of the first body that cannot be masked with the aliases
/// that were drawn; a batch without posts never fails.
pub fn anonymize_posts(posts: Vec<Post>) -> (r: Result<(Vec<Post>, NameMap), Error>)
    ensures
        match r {
            Ok((masked, map)) => map.wf() && spec_collected_names(posts@) == Some(map.names())
                && map.spec_aliases_filled() && spec_anonymized_batch(map, posts@, masked@),
            Err(e) => spec_batch_fails(posts@, e),
        },
{
    let map = match collect_anonymous_names(&posts) {
        Ok(map) => map,
        Err(_) => {
            return Err(Error::Pattern);
        },
    };
    let ghost all = posts@;
    match mask_posts(&map, posts) {
        Ok(masked) => Ok((masked, map)),
        Err(e) => {
            proof {
                let i = lemma_first_error_post(map, all, all.len() as int);
                assert(map.contains((all[i]).username@));
                assert(spec_fails_at(map, all, i, e));
            }
            Err(e)
        },
    }
}

/// A batch without posts is masked without fail.
pub proof fn lemma_empty_batch_never_fails(e: Error)
    ensures
        !spec_batch_fails(Seq::<Post>::empty(), e),
{
    let posts = Seq::<Post>::empty();
    assert(spec_collected_names(posts) is Some);
    assert forall|map: NameMap, i: int| !spec_fails_at(map, posts, i, e) by {}
}

/// Posts of one author get one alias.
pub proof fn lemma_same_author_same_alias(map: NameMap, a: Post, b: Post, x: Post, y: Post)
    requires
        spec_anonymized(map, a, x),
        spec_anonymized(map, b, y),
        a.username@ == b.username@,
    ensures
        x.username@ == y.username@,
{
}

/// Tells whether `pages` are the pages of the batch `posts` with its names
/// masked by `map`.
pub open spec fn spec_masked_pages(
    meta: TopicMeta,
    posts: Seq<Post>,
    map: NameMap,
    masked: Seq<Post>,
    pages: Seq<Page>,
) -> bool {
    spec_anonymized_batch(map, posts, masked) && spec_pages(meta, masked, pages)
}

/// Tells whether `pages`, with the aliases `names`, are the archive of the
/// posts `posts`: without aliases the pages show the posts; with aliases
/// they show the posts with their names masked by them.
pub open spec fn spec_archived(
    meta: TopicMeta,
    posts: Seq<Post>,
    anonymous: bool,
    pages: Seq<Page>,
    names: Option<NameMap>,
) -> bool {
    match names {
        Some(map) => anonymous && map.wf() && spec_collected_names(posts) == Some(map.names())
            && exists|masked: Seq<Post>| spec_masked_pages(meta, posts, map, masked, pages),
        None => !anonymous && spec_pages(meta, posts, pages),
    }
}

/// Turns the processed posts of a topic into the pages of its archive.
/// With `anonymous`, the names of the whole batch are masked first, and the
/// aliases are returned with the pages; the pages then show the masked
/// posts. Without `anonymous` it never fails; with it, it fails as
/// `anonymize_posts` does.
pub fn archive(topic_meta: &TopicMeta, posts: Vec<Post>, anonymous: bool) -> (r: Result<
    (Vec<Page>, Option<NameMap>),
    Error,
>)
    ensures
        match r {
            Ok((pages, names)) => spec_archived(*topic_meta, posts@, anonymous, pages@, names),
            Err(e) => anonymous && spec_batch_fails(posts@, e),
        },
{
    if !anonymous {
        let pages = paginate(topic_meta, posts);
        assert(spec_archived(*topic_meta, posts@, anonymous, pages@, None));
        return Ok((pages, None));
    }
    match anonymize_posts(posts) {
        Ok((masked, map)) => {
            let ghost witness = masked@;
            let pages = paginate(topic_meta, masked);
            assert(spec_masked_pages(*topic_meta, posts@, map, witness, pages@));
            assert(spec_archived(*topic_meta, posts@, anonymous, pages@, Some(map)));
            Ok((pages, Some(map)))
        },
        Err(e) => Err(e),
    }
}

} // verus!
