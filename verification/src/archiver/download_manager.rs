//! Bookkeeping of downloads: every asset is scheduled once, every avatar is
//! fetched once and its path shared, and the counters follow.

use vstd::prelude::*;
use vstd::string::*;
use crate::archiver::fetchers::{absolute_url, resource_path, spec_absolute_url, spec_resource_path};
use crate::text::{
    contains_chars, contains_seq, find_last, index_of_string, last_index_of, lemma_push_fresh,
    push_string, slice_chars, string_of, to_chars,
};

verus! {

/// How many files may be open for writing at once.
pub const OPEN_FILES_LIMIT: usize = 128;

/// What is known of an avatar that was asked for.
#[derive(Debug, Clone)]
pub enum AvatarCell {
    /// The first caller is fetching it.
    InFlight,
    /// It is stored at this path, relative to the archive.
    Resolved(String),
    /// The fetch failed.
    Failed,
}

/// What is known of an avatar, as plain values.
pub enum AvatarView {
    InFlight,
    Resolved(Seq<char>),
    Failed,
}

impl AvatarCell {
    /// The cell as plain values.
    pub open spec fn view(&self) -> AvatarView {
        match self {
            AvatarCell::InFlight => AvatarView::InFlight,
            AvatarCell::Resolved(path) => AvatarView::Resolved(path@),
            AvatarCell::Failed => AvatarView::Failed,
        }
    }
}

/// A fetch that the caller has to perform.
#[derive(Debug, Clone)]
pub struct Fetch {
    /// The address to request.
    pub url: String,
    /// Where the file goes, relative to the archive. An avatar goes where
    /// `avatar_stored_at` says once its content type is known.
    pub relative_path: String,
    /// Whether the request leaves the small pool of connections for the
    /// large one.
    pub bypass_max_conn: bool,
    /// Whether the request leaves the throttle aside.
    pub bypass_throttle: bool,
}

/// What a caller who asks for an avatar has to do.
#[derive(Debug, Clone)]
pub enum AvatarTicket {
    /// Nobody asked before: fetch it, store it where `avatar_stored_at`
    /// says, then report that path with `avatar_finished`.
    Fetch(Fetch),
    /// Somebody is fetching it: wait, then ask again.
    Wait,
    /// It is there, at this path.
    Ready(String),
    /// Its fetch failed: the run fails, or the post goes without avatar.
    Failed,
}

/// The downloads of one run.
pub struct DownloadManager {
    downloaded_assets: Vec<String>,
    avatar_urls: Vec<String>,
    avatar_cells: Vec<AvatarCell>,
    completed: usize,
    open_files: usize,
}

/// Scheduling `url` on top of `seen`: the addresses seen afterwards, and
/// whether `url` is new and has to be fetched.
pub open spec fn spec_schedule(seen: Seq<Seq<char>>, url: Seq<char>) -> (Seq<Seq<char>>, bool) {
    if seen.contains(url) {
        (seen, false)
    } else {
        (seen.push(url), true)
    }
}

/// How many fetches of `url` the calls of `calls` cause, one after the
/// other, on top of `seen`.
pub open spec fn spec_fetch_count(seen: Seq<Seq<char>>, calls: Seq<Seq<char>>, url: Seq<char>) -> nat
    decreases calls.len(),
{
    if calls.len() == 0 {
        0
    } else {
        let step = spec_schedule(seen, calls[0]);
        let here: nat = if step.1 && calls[0] == url {
            1
        } else {
            0
        };
        here + spec_fetch_count(step.0, calls.drop_first(), url)
    }
}

/// However often and in whatever order addresses are asked for, each is
/// fetched once: an address that was seen before is never fetched, and one
/// that was not is fetched exactly once if it is asked for at all.
pub proof fn lemma_one_fetch_per_url(seen: Seq<Seq<char>>, calls: Seq<Seq<char>>, url: Seq<char>)
    ensures
        spec_fetch_count(seen, calls, url) == if !seen.contains(url) && calls.contains(url) {
            1nat
        } else {
            0nat
        },
    decreases calls.len(),
{
    if calls.len() > 0 {
        let step = spec_schedule(seen, calls[0]);
        let rest = calls.drop_first();
        lemma_one_fetch_per_url(step.0, rest, url);
        assert(calls.contains(url) <==> (calls[0] == url || rest.contains(url))) by {
            if rest.contains(url) {
                let i = choose|i: int| 0 <= i < rest.len() && rest[i] == url;
                assert(calls[i + 1] == url);
            }
            if calls.contains(url) && calls[0] != url {
                let i = choose|i: int| 0 <= i < calls.len() && calls[i] == url;
                assert(rest[i - 1] == url);
            }
        }
        if seen.contains(url) {
            assert(step.0.contains(url)) by {
                let i = choose|i: int| 0 <= i < seen.len() && seen[i] == url;
                assert(step.0[i] == url);
            }
        } else if calls[0] == url {
            assert(step.0[seen.len() as int] == url);
        } else {
            if step.0.contains(url) {
                let i = choose|i: int| 0 <= i < step.0.len() && step.0[i] == url;
                assert(seen[i] == url);
            }
        }
    }
}

/// The file name with its extension replaced by `svg`: what follows the
/// last `.` goes, unless that `.` starts the name; a name without
/// extension gets one; an empty name stays empty.
pub open spec fn spec_svg_name(name: Seq<char>) -> Seq<char> {
    if name.len() == 0 {
        name
    } else if last_index_of(name, '.') > 0 {
        name.take(last_index_of(name, '.')) + ".svg"@
    } else {
        name + ".svg"@
    }
}

/// The file name under which an avatar is stored, given the content type
/// that came with it: an SVG image gets the extension `svg`.
pub open spec fn spec_avatar_target(filename: Seq<char>, content_type: Seq<char>) -> Seq<char> {
    if contains_seq(content_type, "svg"@) {
        spec_svg_name(filename)
    } else {
        filename
    }
}

/// The file name under which an avatar is stored, given the content type
/// that came with it.
pub fn avatar_target(filename: &str, content_type: &str) -> (r: String)
    ensures
        r@ == spec_avatar_target(filename@, content_type@),
{
    let kind = to_chars(content_type);
    let svg = to_chars("svg");
    if !contains_chars(&kind, &svg) {
        return String::from_str(filename);
    }
    let name = to_chars(filename);
    if name.len() == 0 {
        return String::from_str(filename);
    }
    let stem: usize = match find_last(&name, '.') {
        Some(i) => if i > 0 {
            i
        } else {
            name.len()
        },
        None => name.len(),
    };
    let mut r = string_of(&slice_chars(&name, 0, stem));
    r.append(".svg");
    assert(name@.subrange(0, stem as int) == name@.take(stem as int));
    assert(name@.take(name.len() as int) == name@);
    r
}

/// Where an avatar is stored, relative to the archive, given the file name
/// that it was asked for under and the content type that came with it: the
/// file name that `avatar_target` gives, below `resources/`. This is the
/// path that `avatar_finished` is told.
pub fn avatar_stored_at(filename: &str, content_type: &str) -> (r: String)
    ensures
        r@ == spec_resource_path(spec_avatar_target(filename@, content_type@)),
{
    resource_path(avatar_target(filename, content_type).as_str())
}

impl DownloadManager {
    /// The addresses of the assets that were scheduled, in order.
    pub closed spec fn assets(&self) -> Seq<Seq<char>> {
        self.downloaded_assets.deep_view()
    }

    /// The addresses of the avatars that were asked for, in order.
    pub closed spec fn avatars(&self) -> Seq<Seq<char>> {
        self.avatar_urls.deep_view()
    }

    /// What is known of the avatar at `url`; meaningful where it was asked
    /// for.
    pub closed spec fn avatar(&self, url: Seq<char>) -> AvatarView {
        self.avatar_cells@[self.avatar_urls.deep_view().index_of(url)]@
    }

    /// How many resources were discovered: every asset and every avatar
    /// counts once.
    pub closed spec fn discovered(&self) -> nat {
        self.downloaded_assets.len() as nat + self.avatar_urls.len() as nat
    }

    /// How many resources were finished.
    pub closed spec fn completed(&self) -> nat {
        self.completed as nat
    }

    /// How many files are open for writing.
    pub closed spec fn open_files(&self) -> nat {
        self.open_files as nat
    }

    /// No address is held twice, every avatar has its cell, no resource is
    /// finished before it is discovered, and no more files are open than the
    /// limit allows.
    pub closed spec fn wf(&self) -> bool {
        &&& self.downloaded_assets.deep_view().no_duplicates()
        &&& self.avatar_urls.deep_view().no_duplicates()
        &&& self.avatar_urls.len() == self.avatar_cells.len()
        &&& self.completed <= self.downloaded_assets.len() + self.avatar_urls.len()
        &&& self.open_files <= OPEN_FILES_LIMIT
    }

    /// A manager that has seen nothing yet.
    pub fn new() -> (m: DownloadManager)
        ensures
            m.wf(),
            m.assets() == Seq::<Seq<char>>::empty(),
            m.avatars() == Seq::<Seq<char>>::empty(),
            m.discovered() == 0,
            m.completed() == 0,
            m.open_files() == 0,
    {
        let m = DownloadManager {
            downloaded_assets: Vec::new(),
            avatar_urls: Vec::new(),
            avatar_cells: Vec::new(),
            completed: 0,
            open_files: 0,
        };
        assert(m.downloaded_assets.deep_view() =~= Seq::<Seq<char>>::empty());
        assert(m.avatar_urls.deep_view() =~= Seq::<Seq<char>>::empty());
        m
    }

    /// Schedules the asset at `from`, to be stored as `filename` below
    /// `resources/`. The first call for an address returns the fetch to
    /// perform and counts one more resource; every later call for it
    /// returns `None` and changes nothing.
    pub fn download_asset(&mut self, from: String, filename: &str, bypass_limit: bool) -> (r: Option<
        Fetch,
    >)
        requires
            old(self).wf(),
        ensures
            final(self).wf(),
            (final(self).assets(), r is Some) == spec_schedule(old(self).assets(), from@),
            final(self).assets().contains(from@),
            forall|url: Seq<char>|
                old(self).assets().contains(url) ==> final(self).assets().contains(url),
            final(self).discovered() == old(self).discovered() + if r is Some {
                1nat
            } else {
                0nat
            },
            final(self).avatars() == old(self).avatars(),
            forall|url: Seq<char>| final(self).avatar(url) == old(self).avatar(url),
            final(self).completed() == old(self).completed(),
            final(self).open_files() == old(self).open_files(),
            r matches Some(fetch) ==> {
                &&& fetch.url@ == spec_absolute_url(from@)
                &&& fetch.relative_path@ == spec_resource_path(filename@)
                &&& fetch.bypass_max_conn == bypass_limit
                &&& fetch.bypass_throttle == bypass_limit
            },
    {
        let ghost seen = self.downloaded_assets.deep_view();
        if index_of_string(&self.downloaded_assets, from.as_str()).is_some() {
            return None;
        }
        let fetch = Fetch {
            url: absolute_url(from.as_str()),
            relative_path: resource_path(filename),
            bypass_max_conn: bypass_limit,
            bypass_throttle: bypass_limit,
        };
        proof {
            lemma_push_fresh(self.downloaded_assets.deep_view(), from@);
        }
        push_string(&mut self.downloaded_assets, from);
        proof {
            let after = self.downloaded_assets.deep_view();
            assert(after[seen.len() as int] == from@);
            assert forall|url: Seq<char>| seen.contains(url) implies after.contains(url) by {
                assert(after[seen.index_of(url)] == url);
            }
        }
        Some(fetch)
    }

    /// Records that a resource is finished, whether its fetch succeeded or
    /// not, and tells whether the file that it was written to has to be
    /// removed: that is so after a failure. No more resources are counted
    /// than were discovered, or than the counter holds.
    pub fn resource_finished(&mut self, succeeded: bool) -> (remove_file: bool)
        requires
            old(self).wf(),
        ensures
            final(self).wf(),
            remove_file == !succeeded,
            final(self).completed() == if old(self).completed() < old(self).discovered()
                && old(self).completed() < usize::MAX {
                old(self).completed() + 1
            } else {
                old(self).completed()
            },
            final(self).discovered() == old(self).discovered(),
            final(self).assets() == old(self).assets(),
            final(self).avatars() == old(self).avatars(),
            forall|url: Seq<char>| final(self).avatar(url) == old(self).avatar(url),
            final(self).open_files() == old(self).open_files(),
    {
        let assets: usize = self.downloaded_assets.len();
        if self.completed < usize::MAX && (self.completed < assets || self.completed - assets
            < self.avatar_urls.len()) {
            self.completed = self.completed + 1;
        }
        !succeeded
    }

    /// Takes one of the slots for open files, if one is free.
    pub fn open_file(&mut self) -> (opened: bool)
        requires
            old(self).wf(),
        ensures
            final(self).wf(),
            opened == (old(self).open_files() < OPEN_FILES_LIMIT),
            final(self).open_files() == old(self).open_files() + if opened {
                1nat
            } else {
                0nat
            },
            final(self).assets() == old(self).assets(),
            final(self).avatars() == old(self).avatars(),
            forall|url: Seq<char>| final(self).avatar(url) == old(self).avatar(url),
            final(self).discovered() == old(self).discovered(),
            final(self).completed() == old(self).completed(),
    {
        if self.open_files < OPEN_FILES_LIMIT {
            self.open_files = self.open_files + 1;
            true
        } else {
            false
        }
    }

    /// Gives a slot for open files back, if one is taken.
    pub fn close_file(&mut self)
        requires
            old(self).wf(),
        ensures
            final(self).wf(),
            final(self).open_files() == if old(self).open_files() > 0 {
                old(self).open_files() - 1
            } else {
                0
            },
            final(self).assets() == old(self).assets(),
            final(self).avatars() == old(self).avatars(),
            forall|url: Seq<char>| final(self).avatar(url) == old(self).avatar(url),
            final(self).discovered() == old(self).discovered(),
            final(self).completed() == old(self).completed(),
    {
        if self.open_files > 0 {
            self.open_files = self.open_files - 1;
        }
    }

    /// Asks for the avatar at `from`, to be stored as `filename` below
    /// `resources/`. The first caller for an address is told to fetch it,
    /// and one more resource is counted; every later caller is told what is
    /// known of that one fetch: to wait for it, its path, or its failure.
    pub fn download_avatar(&mut self, from: String, filename: &str) -> (r: AvatarTicket)
        requires
            old(self).wf(),
        ensures
            final(self).wf(),
            (final(self).avatars(), r is Fetch) == spec_schedule(old(self).avatars(), from@),
            final(self).avatars().contains(from@),
            forall|url: Seq<char>|
                old(self).avatars().contains(url) ==> final(self).avatars().contains(url),
            final(self).discovered() == old(self).discovered() + if r is Fetch {
                1nat
            } else {
                0nat
            },
            forall|url: Seq<char>|
                old(self).avatars().contains(url) ==> final(self).avatar(url) == old(self).avatar(
                    url,
                ),
            r is Fetch ==> final(self).avatar(from@) == AvatarView::InFlight,
            match r {
                AvatarTicket::Fetch(fetch) => {
                    &&& fetch.url@ == spec_absolute_url(from@)
                    &&& fetch.relative_path@ == spec_resource_path(filename@)
                    &&& !fetch.bypass_max_conn
                    &&& !fetch.bypass_throttle
                },
                AvatarTicket::Wait => old(self).avatar(from@) == AvatarView::InFlight,
                AvatarTicket::Ready(path) => old(self).avatar(from@) == AvatarView::Resolved(path@),
                AvatarTicket::Failed => old(self).avatar(from@) == AvatarView::Failed,
            },
            final(self).assets() == old(self).assets(),
            final(self).completed() == old(self).completed(),
            final(self).open_files() == old(self).open_files(),
    {
        let ghost keys = self.avatar_urls.deep_view();
        match index_of_string(&self.avatar_urls, from.as_str()) {
            Some(i) => {
                proof {
                    keys.index_of_first_ensures(from@);
                    assert(keys.index_of(from@) == i) by {
                        assert(keys[keys.index_of(from@)] == from@);
                    }
                }
                match &self.avatar_cells[i] {
                    AvatarCell::InFlight => AvatarTicket::Wait,
                    AvatarCell::Resolved(path) => AvatarTicket::Ready(path.clone()),
                    AvatarCell::Failed => AvatarTicket::Failed,
                }
            },
            None => {
                let fetch = Fetch {
                    url: absolute_url(from.as_str()),
                    relative_path: resource_path(filename),
                    bypass_max_conn: false,
                    bypass_throttle: false,
                };
                proof {
                    lemma_push_fresh(keys, from@);
                }
                push_string(&mut self.avatar_urls, from);
                self.avatar_cells.push(AvatarCell::InFlight);
                proof {
                    let after = self.avatar_urls.deep_view();
                    assert(after[keys.len() as int] == from@);
                    assert(after.index_of(from@) == keys.len()) by {
                        assert(after[after.index_of(from@)] == from@);
                    }
                    assert forall|url: Seq<char>| keys.contains(url) implies self.avatar(url)
                        == old(self).avatar(url) && after.contains(url) by {
                        let i = keys.index_of(url);
                        assert(keys[i] == url);
                        assert(after[i] == url);
                        assert(after.index_of(url) == i) by {
                            assert(after[after.index_of(url)] == url);
                        }
                    }
                }
                AvatarTicket::Fetch(fetch)
            },
        }
    }

    /// Records how the fetch of the avatar at `from` ended: with the path
    /// where it is stored, or with a failure. Every caller who asks for that
    /// avatar from now on is told so. Nothing changes where the avatar was
    /// never asked for.
    pub fn avatar_finished(&mut self, from: &str, stored_at: Option<String>)
        requires
            old(self).wf(),
        ensures
            final(self).wf(),
            old(self).avatars().contains(from@) ==> final(self).avatar(from@) == match stored_at {
                Some(path) => AvatarView::Resolved(path@),
                None => AvatarView::Failed,
            },
            forall|url: Seq<char>|
                url != from@ && old(self).avatars().contains(url) ==> final(self).avatar(url)
                    == old(self).avatar(url),
            final(self).avatars() == old(self).avatars(),
            final(self).assets() == old(self).assets(),
            final(self).discovered() == old(self).discovered(),
            final(self).completed() == old(self).completed(),
            final(self).open_files() == old(self).open_files(),
    {
        let ghost keys = self.avatar_urls.deep_view();
        match index_of_string(&self.avatar_urls, from) {
            Some(i) => {
                proof {
                    assert(keys.index_of(from@) == i) by {
                        assert(keys[keys.index_of(from@)] == from@);
                    }
                }
                let cell = match stored_at {
                    Some(path) => AvatarCell::Resolved(path),
                    None => AvatarCell::Failed,
                };
                self.avatar_cells.set(i, cell);
                proof {
                    assert forall|url: Seq<char>| url != from@ && keys.contains(url) implies self.avatar(
                        url,
                    ) == old(self).avatar(url) by {
                        assert(keys[keys.index_of(url)] == url);
                    }
                }
            },
            None => {},
        }
    }
}

} // verus!
