//! The data that travels through the pipeline: what the forum answers, what
//! a processed post holds, and what one rendered page is given.

use vstd::prelude::*;

verus! {

/// A topic as the forum describes it.
#[derive(Debug, Clone)]
pub struct RespTopic {
    pub title: String,
    pub category_id: usize,
    pub tags: Vec<String>,
    pub post_stream: PostStream,
    pub posts_count: usize,
}

/// The posts that came with an answer, and the ids of all posts of the topic
/// where the answer lists them.
#[derive(Debug, Clone)]
pub struct PostStream {
    pub posts: Vec<RespPost>,
    pub stream: Option<Vec<u32>>,
}

/// The answer to a request for a batch of posts.
#[derive(Debug, Clone)]
pub struct RespPosts {
    pub post_stream: PostStream,
}

/// The answer to a request for one category.
#[derive(Debug, Clone)]
pub struct RespCategory {
    pub category: RespCategoryInner,
}

/// A category with the link to its parent.
#[derive(Debug, Clone)]
pub struct RespCategoryInner {
    pub inner: Category,
    pub parent_category_id: Option<usize>,
}

/// A category: its name and display colour.
#[derive(Debug, Clone)]
pub struct Category {
    pub name: String,
    pub color: String,
}

/// A processed post, ready for rendering.
#[derive(Debug, Clone)]
pub struct Post {
    pub name: String,
    pub number: usize,
    pub username: String,
    pub created_at: String,
    pub created_at_display: String,
    pub content: String,
    pub likes: usize,
    pub reply_to: Option<usize>,
    /// Local emoji file and number of reactors, one entry per file.
    pub emojis: Vec<(String, usize)>,
    /// Path of the localized avatar, relative to the archive.
    pub avatar: Option<String>,
}

/// A post as the forum sends it.
#[derive(Debug, Clone)]
pub struct RespPost {
    pub id: usize,
    pub post_number: usize,
    pub name: String,
    pub username: String,
    /// Creation time, as received.
    pub created_at: String,
    pub cooked: String,
    pub cooked_hidden: bool,
    pub actions_summary: Vec<Actions>,
    pub reply_to_post_number: Option<usize>,
    pub retorts: Vec<RespRetort>,
    pub avatar_template: String,
    pub action_code: Option<String>,
    pub polls: Vec<RespPoll>,
}

/// A poll attached to a post.
#[derive(Debug, Clone)]
pub struct RespPoll {
    pub name: String,
    pub options: Vec<RespPollOption>,
    pub voters: usize,
}

/// One option of a poll; `votes` is absent while results are protected.
#[derive(Debug, Clone)]
pub struct RespPollOption {
    pub id: String,
    pub html: String,
    pub votes: Option<usize>,
}

/// An emoji reaction and the users who gave it.
#[derive(Debug, Clone)]
pub struct RespRetort {
    pub usernames: Vec<String>,
    pub emoji: String,
}

/// The revealed body of a hidden post.
#[derive(Debug, Clone)]
pub struct RespCooked {
    pub cooked: String,
}

/// One kind of action on a post and how often it was taken.
#[derive(Debug, Clone)]
pub struct Actions {
    pub id: usize,
    pub count: Option<usize>,
}

/// What one page of the archive shows.
#[derive(Debug, Clone)]
pub struct Topic {
    pub id: u32,
    pub title: String,
    pub description: String,
    pub categories: Vec<Category>,
    pub tags: Vec<String>,
    pub posts: Vec<Post>,
    pub page: usize,
    pub total_pages: usize,
    /// Link to the page before: `index` on the first page and to the first
    /// page, a number else.
    pub prev_page: Option<String>,
    pub next_page: Option<usize>,
}

/// A page together with what the template shows on every page.
#[derive(Debug, Clone)]
pub struct Params {
    pub topic: Topic,
    pub app_version: String,
    pub year: i32,
}

impl Params {
    /// Joins a page with the version and year that the footer shows.
    pub fn new(topic: Topic, app_version: String, year: i32) -> (p: Params)
        ensures
            p.topic == topic,
            p.app_version == app_version,
            p.year == year,
    {
        Params { topic, app_version, year }
    }
}

/// A topic's header: fetched once, read-only afterwards. The order of
/// `post_ids` is the order of the archive.
#[derive(Debug, Clone)]
pub struct TopicMeta {
    pub id: u32,
    pub title: String,
    pub description: String,
    /// From the root category to the leaf.
    pub categories: Vec<Category>,
    pub tags: Vec<String>,
    pub post_ids: Vec<u32>,
}

/// A copy of a list of strings.
pub fn copy_strings(v: &Vec<String>) -> (r: Vec<String>)
    ensures
        r@ == v@,
{
    let mut r: Vec<String> = Vec::new();
    let mut i: usize = 0;
    while i < v.len()
        invariant
            i <= v.len(),
            r@ == v@.take(i as int),
        decreases v.len() - i,
    {
        r.push(v[i].clone());
        i += 1;
        assert(v@.take(i as int) == v@.take(i - 1).push(v@[i - 1]));
    }
    assert(v@.take(v.len() as int) == v@);
    r
}

/// A copy of a chain of categories.
pub fn copy_categories(v: &Vec<Category>) -> (r: Vec<Category>)
    ensures
        r@ == v@,
{
    let mut r: Vec<Category> = Vec::new();
    let mut i: usize = 0;
    while i < v.len()
        invariant
            i <= v.len(),
            r@ == v@.take(i as int),
        decreases v.len() - i,
    {
        r.push(Category { name: v[i].name.clone(), color: v[i].color.clone() });
        i += 1;
        assert(v@.take(i as int) == v@.take(i - 1).push(v@[i - 1]));
    }
    assert(v@.take(v.len() as int) == v@);
    r
}

} // verus!
