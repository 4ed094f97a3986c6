use sa_core::archiver::fetchers::{
    absolute_url, categories_from_id, category_url, element_plan, extract_asset_url,
    fetch_assets_of_content, localize_elements, voters_edits, votes_edits,
    fetch_avatar, fetch_emoji_from_retort, fetch_special_post, fetch_topic_meta, filter_media,
    first_post_body, raw_filename, reify_vote, reveal_special_post, rewrite_srcset,
    topic_id_of_matches, topic_id_of_url, topic_url, url_to_filename, SpecialPost,
};
use sa_core::archiver::utils::calculate_hash;
use sa_core::error::Error;
use sa_core::models::{
    Category, PostStream, RespCategory, RespCategoryInner, RespCooked, RespPoll, RespPollOption,
    RespPost, RespRetort, RespTopic,
};
use sa_core::preloaded_store::{Emoji, PreloadedStore};

fn resp_post(id: usize, cooked: &str) -> RespPost {
    RespPost {
        id,
        post_number: id,
        name: String::from("Alice"),
        username: String::from("alice"),
        created_at: String::from("2023-01-02T03:04:05Z"),
        cooked: String::from(cooked),
        cooked_hidden: false,
        actions_summary: vec![],
        reply_to_post_number: None,
        retorts: vec![],
        avatar_template: String::from("/user_avatar/shuiyuan.sjtu.edu.cn/alice/{size}/1_2.png"),
        action_code: None,
        polls: vec![],
    }
}

#[test]
fn absolute_url_resolves_against_the_forum() {
    assert_eq!(absolute_url("//cdn.example.com/a.png"), "https://cdn.example.com/a.png");
    assert_eq!(absolute_url("/uploads/a.png"), "https://shuiyuan.sjtu.edu.cn/uploads/a.png");
    assert_eq!(absolute_url("https://example.com/a.png"), "https://example.com/a.png");
    assert_eq!(absolute_url(""), "");
    assert_eq!(absolute_url("/"), "https://shuiyuan.sjtu.edu.cn/");
}

#[test]
fn filter_media_goes_by_the_suffix() {
    assert!(filter_media("/uploads/a.png"));
    assert!(filter_media("/uploads/a.PNG"));
    assert!(filter_media("/uploads/a.JpEg"));
    assert!(filter_media("/uploads/a.mp4?x=1"));
    assert!(filter_media("/uploads/a.mov#t=3"));
    assert!(filter_media("https://example.com/v/a.avi?x=1#frag"));
    assert!(filter_media("gif"));
    assert!(!filter_media("/uploads/a.pdf"));
    assert!(!filter_media("/uploads/a.png/"));
    assert!(!filter_media("/uploads/apng"));
    assert!(!filter_media(""));
}

#[test]
fn raw_filename_joins_stem_query_fragment_and_suffix() {
    assert_eq!(raw_filename("/uploads/a.png"), "a.png");
    assert_eq!(raw_filename("/uploads/a.png?v=2"), "a_v=2.png");
    assert_eq!(raw_filename("/uploads/a.png#top"), "a_top.png");
    assert_eq!(raw_filename("/uploads/a.b.png?v=2"), "a.b_v=2.png");
    assert_eq!(raw_filename("/uploads/noext"), "noext");
    assert_eq!(raw_filename(""), "");
}

#[test]
fn url_to_filename_takes_reserved_characters_out() {
    assert_eq!(url_to_filename("/uploads/a.png", false), "a.png");
    assert_eq!(url_to_filename("/uploads/a.png?v=2&w=3", false), "a_v=2&w=3.png");
    assert_eq!(url_to_filename("/uploads/a.png?p=x/y:z", false), "a_p=xyz.png");
    assert_eq!(url_to_filename("/uploads/a<b>c|d.png", false), "abcd.png");
    assert_eq!(url_to_filename("/uploads/con.png", true), "");
    assert_eq!(url_to_filename("/uploads/con.png", false), "con.png");
    assert_eq!(url_to_filename("/uploads/...", false), "");
}

#[test]
fn rewrite_srcset_keeps_commas_descriptors_and_white_space() {
    let (value, urls) = rewrite_srcset("/uploads/a.png 1x, /uploads/b.png 2x", false).unwrap();
    assert_eq!(value, "resources/a.png 1x, resources/b.png 2x");
    assert_eq!(urls, vec![String::from("/uploads/a.png"), String::from("/uploads/b.png")]);

    let (value, urls) = rewrite_srcset("  /uploads/a.png  ", false).unwrap();
    assert_eq!(value, "  resources/a.png  ");
    assert_eq!(urls, vec![String::from("/uploads/a.png")]);

    assert!(rewrite_srcset("/uploads/a.png 1x, /uploads/b.pdf 2x", false).is_none());
    assert!(rewrite_srcset("", false).is_none());
    assert!(rewrite_srcset("/uploads/a.png 1x, ", false).is_none());
}

#[test]
fn extract_asset_url_localizes_sources() {
    let content = "<p><img src=\"/uploads/x/abc.png\" srcset=\"/uploads/a.png 1x, /uploads/b.png 2x\"><a href=\"/t/1\">t</a><img src=\"/u/doc.pdf\"></p>";
    let found = extract_asset_url(content, false, false).unwrap();
    assert_eq!(
        found.urls,
        vec![
            String::from("/uploads/x/abc.png"),
            String::from("/uploads/a.png"),
            String::from("/uploads/b.png"),
        ]
    );
    assert_eq!(
        found.rewritten_content,
        "<p><img src=\"resources/abc.png\" srcset=\"resources/a.png 1x, resources/b.png 2x\"><a href=\"/t/1\">t</a><img src=\"/u/doc.pdf\"></p>"
    );
}

#[test]
fn extract_asset_url_leaves_avatars_alone_when_anonymous() {
    let content = "<img class=\"avatar\" src=\"/user_avatar/a.png\"><img src=\"/uploads/b.png\">";
    let masked = extract_asset_url(content, true, false).unwrap();
    assert_eq!(masked.urls, vec![String::from("/uploads/b.png")]);
    assert_eq!(
        masked.rewritten_content,
        "<img class=\"avatar\" src=\"/user_avatar/a.png\"><img src=\"resources/b.png\">"
    );
    let open = extract_asset_url(content, false, false).unwrap();
    assert_eq!(
        open.urls,
        vec![String::from("/user_avatar/a.png"), String::from("/uploads/b.png")]
    );
}

#[test]
fn extract_asset_url_leaves_a_body_without_assets_unchanged() {
    let content = "<p>hello <b>world</b></p>";
    let found = extract_asset_url(content, false, false).unwrap();
    assert!(found.urls.is_empty());
    assert_eq!(found.rewritten_content, content);
}

#[test]
fn fetch_assets_of_content_lists_one_download_per_address() {
    let content = "<img src=\"/uploads/a.png?v=1\"><source src=\"//cdn.example.com/b.mp4\">";
    let plan = fetch_assets_of_content(content, false, false).unwrap();
    assert_eq!(plan.requests.len(), 2);
    assert_eq!(plan.requests[0].url, "https://shuiyuan.sjtu.edu.cn/uploads/a.png?v=1");
    assert_eq!(plan.requests[0].filename, "a_v=1.png");
    assert_eq!(plan.requests[1].url, "https://cdn.example.com/b.mp4");
    assert_eq!(plan.requests[1].filename, "b.mp4");
    assert_eq!(
        plan.rewritten_content,
        "<img src=\"resources/a_v=1.png\"><source src=\"resources/b.mp4\">"
    );
}

#[test]
fn reify_vote_writes_results_into_the_poll() {
    let mut post = resp_post(
        1,
        "<div class=\"poll\" data-poll-name=\"poll\"><ul><li data-poll-option-id=\"a1\">Yes</li><li data-poll-option-id=\"b2\">No</li></ul><span class=\"info-number\">0</span></div>",
    );
    post.polls = vec![RespPoll {
        name: String::from("poll"),
        options: vec![
            RespPollOption { id: String::from("a1"), html: String::from("Yes"), votes: Some(7) },
            RespPollOption { id: String::from("b2"), html: String::from("No"), votes: None },
        ],
        voters: 12,
    }];
    let reified = reify_vote(post).unwrap();
    assert_eq!(
        reified.cooked,
        "<div class=\"poll\" data-poll-name=\"poll\"><ul><li data-poll-option-id=\"a1\">Yes - 7 票</li><li data-poll-option-id=\"b2\">No</li></ul><span class=\"info-number\">12</span></div>"
    );
    assert_eq!(reified.id, 1);
    assert_eq!(reified.polls.len(), 1);
}

#[test]
fn reify_vote_leaves_a_post_without_polls_untouched() {
    let post = resp_post(1, "<p>no poll <span class=\"info-number\">3</span></p>");
    let reified = reify_vote(post).unwrap();
    assert_eq!(reified.cooked, "<p>no poll <span class=\"info-number\">3</span></p>");
}

#[test]
fn reify_vote_fails_on_a_name_that_breaks_the_selector() {
    let mut post = resp_post(1, "<div class=\"poll\"></div>");
    post.polls = vec![RespPoll { name: String::from("a\"]b["), options: vec![], voters: 1 }];
    assert_eq!(reify_vote(post).err(), Some(Error::Rewriting));
}

#[test]
fn fetch_special_post_replaces_system_notices() {
    let codes = vec![
        (String::from("closed.enabled"), String::from("话题已关闭")),
        (String::from("pinned.enabled"), String::from("话题已置顶")),
    ];
    let mut post = resp_post(5, "<p>old</p>");
    post.action_code = Some(String::from("pinned.enabled"));
    post.cooked_hidden = true;
    match fetch_special_post(post, &codes) {
        SpecialPost::Ready(ready) => {
            assert_eq!(ready.cooked, "<p>系统消息：话题已置顶</p>");
            assert_eq!(ready.id, 5);
        }
        SpecialPost::Hidden { .. } => panic!("a system notice is not fetched"),
    }
}

#[test]
fn fetch_special_post_asks_for_folded_bodies() {
    let codes = vec![(String::from("closed.enabled"), String::from("话题已关闭"))];
    let mut post = resp_post(77, "");
    post.cooked_hidden = true;
    post.action_code = Some(String::from("unknown.code"));
    match fetch_special_post(post, &codes) {
        SpecialPost::Hidden { post, url } => {
            assert_eq!(url, "https://shuiyuan.sjtu.edu.cn/posts/77/cooked.json");
            let revealed =
                reveal_special_post(post, RespCooked { cooked: String::from("<p>secret</p>") });
            assert_eq!(
                revealed.cooked,
                "<p style=\"color: gray\">被折叠的内容</p><p>secret</p>"
            );
        }
        SpecialPost::Ready(_) => panic!("a folded body has to be fetched"),
    }
}

#[test]
fn fetch_special_post_passes_ordinary_posts() {
    let post = resp_post(3, "<p>plain</p>");
    match fetch_special_post(post, &vec![]) {
        SpecialPost::Ready(ready) => assert_eq!(ready.cooked, "<p>plain</p>"),
        SpecialPost::Hidden { .. } => panic!("nothing to fetch"),
    }
}

#[test]
fn fetch_avatar_names_the_file_by_hash_and_last_segment() {
    let post = resp_post(1, "");
    let request = fetch_avatar(&post, false);
    assert_eq!(request.url, "/user_avatar/shuiyuan.sjtu.edu.cn/alice/40/1_2.png");
    assert_eq!(request.filename, format!("{}_1_2.png", calculate_hash(&request.url)));
}

#[test]
fn fetch_emoji_from_retort_prefers_custom_emoji() {
    let store = PreloadedStore::from_emojis(vec![Emoji {
        name: String::from("doge"),
        url: String::from("/uploads/emoji/doge.png?v=12"),
    }]);
    let custom = RespRetort {
        usernames: vec![String::from("a"), String::from("b")],
        emoji: String::from("doge"),
    };
    let (request, count) = fetch_emoji_from_retort(&store, &custom, false).unwrap();
    assert_eq!(request.url, "https://shuiyuan.sjtu.edu.cn/uploads/emoji/doge.png?v=12");
    assert_eq!(request.filename, "doge.pngv=12");
    assert_eq!(count, 2);

    let standard = RespRetort { usernames: vec![String::from("a")], emoji: String::from("+1:t3") };
    let (request, count) = fetch_emoji_from_retort(&store, &standard, false).unwrap();
    assert_eq!(request.url, "https://shuiyuan.sjtu.edu.cn/images/emoji/google/+1/3.png");
    assert_eq!(request.filename, "+1t3.png");
    assert_eq!(count, 1);
}

#[test]
fn fetch_topic_meta_needs_posts_and_ids() {
    let resp = RespTopic {
        title: String::from("Title"),
        category_id: 9,
        tags: vec![String::from("t1")],
        post_stream: PostStream { posts: vec![resp_post(1, "<p>first</p>")], stream: Some(vec![1, 2, 3]) },
        posts_count: 3,
    };
    assert_eq!(first_post_body(&resp), Some("<p>first</p>"));
    let categories = vec![Category { name: String::from("root"), color: String::from("fff") }];
    let meta = fetch_topic_meta(42, resp, String::from("first"), categories).unwrap();
    assert_eq!(meta.id, 42);
    assert_eq!(meta.title, "Title");
    assert_eq!(meta.description, "first");
    assert_eq!(meta.post_ids, vec![1, 2, 3]);
    assert_eq!(meta.tags, vec![String::from("t1")]);
    assert_eq!(meta.categories.len(), 1);

    let no_ids = RespTopic {
        title: String::new(),
        category_id: 9,
        tags: vec![],
        post_stream: PostStream { posts: vec![resp_post(1, "")], stream: None },
        posts_count: 0,
    };
    assert_eq!(fetch_topic_meta(42, no_ids, String::new(), vec![]).err(), Some(Error::Json));
    let no_posts = RespTopic {
        title: String::new(),
        category_id: 9,
        tags: vec![],
        post_stream: PostStream { posts: vec![], stream: Some(vec![]) },
        posts_count: 0,
    };
    assert_eq!(first_post_body(&no_posts), None);
    assert_eq!(fetch_topic_meta(42, no_posts, String::new(), vec![]).err(), Some(Error::Json));
}

#[test]
fn categories_are_walked_from_leaf_to_root() {
    assert_eq!(topic_url(42), "https://shuiyuan.sjtu.edu.cn/t/42.json");
    assert_eq!(category_url(7), "https://shuiyuan.sjtu.edu.cn/c/7/show.json");
    let mut chain = Vec::new();
    let leaf = RespCategory {
        category: RespCategoryInner {
            inner: Category { name: String::from("leaf"), color: String::from("111") },
            parent_category_id: Some(3),
        },
    };
    let next = categories_from_id(&mut chain, leaf);
    assert_eq!(next, Some(String::from("https://shuiyuan.sjtu.edu.cn/c/3/show.json")));
    let root = RespCategory {
        category: RespCategoryInner {
            inner: Category { name: String::from("root"), color: String::from("222") },
            parent_category_id: None,
        },
    };
    assert_eq!(categories_from_id(&mut chain, root), None);
    let names: Vec<&str> = chain.iter().map(|c| c.name.as_str()).collect();
    assert_eq!(names, vec!["root", "leaf"]);
}

#[test]
fn local_file_names_never_leave_the_resources_directory() {
    for url in [
        "/uploads/../../etc/passwd.png",
        "/uploads/a.png?x=../../b",
        "/uploads/a.png#../c",
        "https://example.com/x/..%2f..%2fa.gif?q=/etc/passwd",
        "/uploads/a\\b.png",
    ] {
        let name = url_to_filename(url, false);
        assert!(!name.contains('/'));
        assert!(!name.contains('\\'));
        assert!(!name.contains(':'));
    }
    assert_eq!(url_to_filename("/uploads/../../etc/passwd.png", false), "passwd.png");
    assert_eq!(url_to_filename("/uploads/a.png?x=../../b", false), "a_x=....b.png");
}

#[test]
fn topic_id_of_url_reads_the_number() {
    assert_eq!(topic_id_of_url("https://shuiyuan.sjtu.edu.cn/t/topic/42"), Some(42));
    assert_eq!(topic_id_of_url("https://shuiyuan.sjtu.edu.cn/t/topic/42/7?u=x"), Some(42));
    assert_eq!(topic_id_of_url("see https://shuiyuan.sjtu.edu.cn/t/topic/0012."), Some(12));
    assert_eq!(topic_id_of_url("https://shuiyuan.sjtu.edu.cn/t/topic/4294967295"), Some(u32::MAX));
    assert_eq!(topic_id_of_url("https://shuiyuan.sjtu.edu.cn/t/topic/4294967296"), None);
    assert_eq!(topic_id_of_url("https://shuiyuan.sjtu.edu.cn/t/topic/"), None);
    assert_eq!(topic_id_of_url("https://shuiyuan.sjtu.edu.cn/t/42"), None);
    assert_eq!(topic_id_of_url("https://shuiyuan.sjtu.edu.cn/t/topic/٤٢"), None);
    assert_eq!(topic_id_of_url(""), None);
}

#[test]
fn anchors_to_media_are_localized() {
    let found = extract_asset_url("<a href=\"/uploads/a/pic.png\">x</a>", false, false).unwrap();
    assert_eq!(found.urls, vec![String::from("/uploads/a/pic.png")]);
    assert_eq!(found.rewritten_content, "<a href=\"resources/pic.png\">x</a>");

    let content = "<a class=\"lightbox\" href=\"/uploads/big.JPG\"><img src=\"/uploads/small.jpg\"></a><a href=\"/t/topic/1\">t</a><a href=\"/uploads/clip.mp4?dl=1\">v</a>";
    let found = extract_asset_url(content, true, false).unwrap();
    assert_eq!(
        found.urls,
        vec![
            String::from("/uploads/big.JPG"),
            String::from("/uploads/clip.mp4?dl=1"),
            String::from("/uploads/small.jpg"),
        ]
    );
    assert_eq!(
        found.rewritten_content,
        "<a class=\"lightbox\" href=\"resources/big.JPG\"><img src=\"resources/small.jpg\"></a><a href=\"/t/topic/1\">t</a><a href=\"resources/clip_dl=1.mp4\">v</a>"
    );
}

#[test]
fn href_is_read_on_anchors_only() {
    let content = "<img href=\"/uploads/a.png\" src=\"/x.txt\"><source href=\"/uploads/b.png\">";
    let found = extract_asset_url(content, false, false).unwrap();
    assert!(found.urls.is_empty());
    assert_eq!(found.rewritten_content, content);
    let as_anchor = localize_elements(content, "img", true, false).unwrap();
    assert_eq!(as_anchor.urls, vec![String::from("/uploads/a.png")]);
}

#[test]
fn element_plan_goes_by_the_attributes_read() {
    let mut urls = vec![String::from("/first.png")];
    let edits = element_plan(
        &vec![
            Some(String::from("/uploads/a.png")),
            Some(String::from("/uploads/b.png 1x, /uploads/c.gif 2x")),
            Some(String::from("/uploads/d.mov")),
        ],
        false,
        &mut urls,
    );
    assert_eq!(
        edits,
        vec![
            (String::from("src"), String::from("resources/a.png")),
            (String::from("srcset"), String::from("resources/b.png 1x, resources/c.gif 2x")),
            (String::from("href"), String::from("resources/d.mov")),
        ]
    );
    assert_eq!(
        urls,
        vec!["/first.png", "/uploads/a.png", "/uploads/b.png", "/uploads/c.gif", "/uploads/d.mov"]
    );
    let mut none = Vec::new();
    let edits = element_plan(&vec![Some(String::from("/a.txt")), None], false, &mut none);
    assert!(edits.is_empty());
    assert!(none.is_empty());
    assert!(element_plan(&vec![], false, &mut none).is_empty());
}

#[test]
fn poll_edits_name_counters_and_options() {
    let polls = vec![RespPoll {
        name: String::from("p1"),
        options: vec![
            RespPollOption { id: String::from("a"), html: String::new(), votes: Some(3) },
            RespPollOption { id: String::from("b"), html: String::new(), votes: None },
            RespPollOption { id: String::from("c"), html: String::new(), votes: Some(0) },
        ],
        voters: 5,
    }];
    assert_eq!(
        voters_edits(&polls),
        vec![(
            String::from("div.poll[data-poll-name=\"p1\"] span.info-number"),
            String::from("5")
        )]
    );
    assert_eq!(
        votes_edits(&polls),
        vec![
            (
                String::from("div.poll[data-poll-name=\"p1\"] li[data-poll-option-id=\"a\"]"),
                String::from(" - 3 票")
            ),
            (
                String::from("div.poll[data-poll-name=\"p1\"] li[data-poll-option-id=\"c\"]"),
                String::from(" - 0 票")
            ),
        ]
    );
    assert!(voters_edits(&vec![]).is_empty());
}

#[test]
fn topic_id_of_matches_reads_group_one_of_the_first_match() {
    let group = |s: &str| vec![Some(String::from("whole")), Some(String::from(s))];
    assert_eq!(topic_id_of_matches(&vec![group("42"), group("7")]), Some(42));
    assert_eq!(topic_id_of_matches(&vec![group("4294967296")]), None);
    assert_eq!(topic_id_of_matches(&vec![group("")]), None);
    assert_eq!(topic_id_of_matches(&vec![group("+4")]), None);
    assert_eq!(topic_id_of_matches(&vec![vec![Some(String::from("whole"))]]), None);
    assert_eq!(topic_id_of_matches(&vec![]), None);
}
