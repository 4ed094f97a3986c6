use sa_core::archiver::{
    archive, archive_resp_posts, blank_replacements, chunk_post_ids, emoji_counts, likes_of_resp_post, paginate,
    plan_resp_post, process_resp_post, strip_avatars, write_page, ChunkBoard, DownloadEvent,
    Progress, EXPORT_PAGE_SIZE, FETCH_PAGE_SIZE,
};
use sa_core::error::Error;
use sa_core::models::RespRetort;
use sa_core::preloaded_store::{Emoji, PreloadedStore};
use sa_core::client::{MAX_CONN, MAX_THROTTLE_WEIGHT};
use sa_core::models::{Actions, Category, Params, Post, RespPost, TopicMeta};

fn post(number: usize) -> Post {
    Post {
        name: format!("Name {number}"),
        number,
        username: format!("user{number}"),
        created_at: String::from("2023-01-02T03:04:05Z"),
        created_at_display: String::from("2023年01月02日 11:04"),
        content: format!("<p>post {number}</p>"),
        likes: 0,
        reply_to: None,
        emojis: vec![],
        avatar: None,
    }
}

fn meta(id: u32, post_count: u32) -> TopicMeta {
    TopicMeta {
        id,
        title: String::from("A topic"),
        description: String::from("About it"),
        categories: vec![
            Category { name: String::from("root"), color: String::from("fff") },
            Category { name: String::from("leaf"), color: String::from("000") },
        ],
        tags: vec![String::from("tag")],
        post_ids: (1..=post_count).collect(),
    }
}

fn resp_post(id: usize) -> RespPost {
    RespPost {
        id,
        post_number: id,
        name: String::from("Alice"),
        username: String::from("alice"),
        created_at: String::from("2023-01-02T03:04:05Z"),
        cooked: String::from("<p><img alt=\"\" src=\"/a.png\" class=\"avatar\">hi</p>"),
        cooked_hidden: false,
        actions_summary: vec![],
        reply_to_post_number: Some(1),
        retorts: vec![],
        avatar_template: String::from("/a/{size}/b.png"),
        action_code: None,
        polls: vec![],
    }
}

#[test]
fn page_sizes() {
    assert_eq!(FETCH_PAGE_SIZE, 400);
    assert_eq!(EXPORT_PAGE_SIZE, 20);
}

#[test]
fn progress_adds_events_up() {
    let mut p = Progress::new();
    p.apply(DownloadEvent::PostChunksTotal(3));
    p.apply(DownloadEvent::PostChunksDownloadedInc);
    p.apply(DownloadEvent::ResourceTotalInc);
    p.apply(DownloadEvent::ResourceTotalInc);
    p.apply(DownloadEvent::ResourceDownloadedInc);
    assert_eq!(p.chunks_total, 3);
    assert_eq!(p.chunks_downloaded, 1);
    assert_eq!(p.resources_total, 2);
    assert_eq!(p.resources_downloaded, 1);
    p.resources_total = u64::MAX;
    p.apply(DownloadEvent::ResourceTotalInc);
    assert_eq!(p.resources_total, u64::MAX);
}

#[test]
fn thousand_ids_make_three_chunks_in_order() {
    let ids: Vec<u32> = (1..=1000).collect();
    let chunks = chunk_post_ids(&ids, 400);
    assert_eq!(chunks.len(), 3);
    assert_eq!(chunks[0], (1..=400).collect::<Vec<u32>>());
    assert_eq!(chunks[1], (401..=800).collect::<Vec<u32>>());
    assert_eq!(chunks[2], (801..=1000).collect::<Vec<u32>>());
    assert_eq!(chunks.concat(), ids);
    assert_eq!(chunk_post_ids(&vec![], 400).len(), 0);
    assert_eq!(chunk_post_ids(&(1..=400).collect(), 400).len(), 1);
    assert_eq!(chunk_post_ids(&(1..=401).collect(), 400).len(), 2);
}

#[test]
fn chunks_are_assembled_in_order_whatever_comes_first() {
    let ids: Vec<u32> = (1..=1000).collect();
    let chunks = chunk_post_ids(&ids, 400);
    for order in [[0, 1, 2], [2, 1, 0], [1, 2, 0], [2, 0, 1]] {
        let mut board: ChunkBoard<u32> = ChunkBoard::new(3);
        assert!(!board.is_complete());
        for k in order {
            assert!(board.record(k, chunks[k].clone()));
        }
        assert!(board.is_complete());
        let all = board.assemble().unwrap();
        assert_eq!(all, ids);
        assert!(all.windows(2).all(|w| w[0] < w[1]));
    }
}

#[test]
fn chunk_board_refuses_what_it_does_not_expect() {
    let mut board: ChunkBoard<u32> = ChunkBoard::new(2);
    assert!(!board.record(2, vec![1]));
    assert!(board.record(1, vec![3, 4]));
    assert!(!board.record(1, vec![5]));
    assert!(!board.is_complete());
    assert!(board.assemble().is_none());
    let empty: ChunkBoard<u32> = ChunkBoard::new(0);
    assert!(empty.is_complete());
    assert_eq!(empty.assemble(), Some(vec![]));
}

#[test]
fn archive_resp_posts_plans_one_request_per_chunk() {
    let plan = archive_resp_posts(&meta(42, 1000));
    assert_eq!(plan.total, DownloadEvent::PostChunksTotal(3));
    assert_eq!(plan.requests.len(), 3);
    for request in &plan.requests {
        assert_eq!(request.url, "https://shuiyuan.sjtu.edu.cn/t/42/posts.json");
        assert_eq!(request.request.sem_weight, MAX_CONN as u32);
        assert_eq!(request.request.throttle_weight, MAX_THROTTLE_WEIGHT);
        assert!(!request.request.bypass_max_conn);
        assert!(!request.request.bypass_throttle);
    }
    assert_eq!(plan.requests[0].post_ids.len(), 400);
    assert_eq!(plan.requests[2].post_ids, (801..=1000).collect::<Vec<u32>>());
    let none = archive_resp_posts(&meta(42, 0));
    assert_eq!(none.total, DownloadEvent::PostChunksTotal(0));
    assert!(none.requests.is_empty());
}

#[test]
fn likes_are_the_first_count_of_kind_two() {
    let mut p = resp_post(1);
    assert_eq!(likes_of_resp_post(&p), 0);
    p.actions_summary = vec![
        Actions { id: 1, count: Some(9) },
        Actions { id: 2, count: None },
        Actions { id: 2, count: Some(5) },
        Actions { id: 2, count: Some(6) },
    ];
    assert_eq!(likes_of_resp_post(&p), 5);
}

#[test]
fn strip_avatars_takes_avatar_images_out() {
    assert_eq!(
        strip_avatars("<p><img alt=\"\" src=\"/a.png\" class=\"avatar\">hi</p>").unwrap(),
        "<p>hi</p>"
    );
    assert_eq!(strip_avatars("<p>hi</p>").unwrap(), "<p>hi</p>");
}

#[test]
fn emoji_counts_keep_one_entry_per_file() {
    let counts = emoji_counts(vec![
        (String::from("a.png"), 1),
        (String::from("b.png"), 2),
        (String::from("a.png"), 3),
    ]);
    assert_eq!(counts, vec![(String::from("a.png"), 3), (String::from("b.png"), 2)]);
    assert_eq!(emoji_counts(vec![]), vec![]);
}

#[test]
fn process_resp_post_finishes_a_post() {
    let mut p = resp_post(4);
    p.actions_summary = vec![Actions { id: 2, count: Some(8) }];
    let done = process_resp_post(
        p,
        false,
        Some(String::from("resources/1_b.png")),
        vec![(String::from("smile.png"), 2)],
        String::from("2023年01月02日 11:04"),
    )
    .unwrap();
    assert_eq!(done.name, "Alice");
    assert_eq!(done.username, "alice");
    assert_eq!(done.number, 4);
    assert_eq!(done.created_at, "2023-01-02T03:04:05Z");
    assert_eq!(done.created_at_display, "2023年01月02日 11:04");
    assert_eq!(done.content, "<p><img alt=\"\" src=\"/a.png\" class=\"avatar\">hi</p>");
    assert_eq!(done.likes, 8);
    assert_eq!(done.reply_to, Some(1));
    assert_eq!(done.emojis, vec![(String::from("smile.png"), 2)]);
    assert_eq!(done.avatar, Some(String::from("resources/1_b.png")));

    let masked = process_resp_post(
        resp_post(4),
        true,
        Some(String::from("resources/1_b.png")),
        vec![],
        String::new(),
    )
    .unwrap();
    assert_eq!(masked.content, "<p>hi</p>");
    assert_eq!(masked.avatar, None);
}

#[test]
fn one_post_makes_only_the_index_page() {
    let (pages, names) = archive(&meta(42, 1), vec![post(1)], false).unwrap();
    assert!(names.is_none());
    assert_eq!(pages.len(), 1);
    assert_eq!(pages[0].filename, "index.html");
    assert_eq!(pages[0].topic.id, 42);
    assert_eq!(pages[0].topic.page, 1);
    assert_eq!(pages[0].topic.total_pages, 1);
    assert_eq!(pages[0].topic.prev_page, Some(String::from("index")));
    assert_eq!(pages[0].topic.next_page, None);
    assert_eq!(pages[0].topic.posts.len(), 1);
    assert_eq!(pages[0].topic.posts[0].content, "<p>post 1</p>");
    assert_eq!(pages[0].topic.title, "A topic");
    assert_eq!(pages[0].topic.description, "About it");
    assert_eq!(pages[0].topic.tags, vec![String::from("tag")]);
    assert_eq!(pages[0].topic.categories.len(), 2);
    assert_eq!(pages[0].topic.categories[0].name, "root");
}

#[test]
fn forty_five_posts_make_three_pages() {
    let posts: Vec<Post> = (1..=45).map(post).collect();
    let (pages, _) = archive(&meta(42, 45), posts, false).unwrap();
    let files: Vec<&str> = pages.iter().map(|p| p.filename.as_str()).collect();
    assert_eq!(files, vec!["index.html", "2.html", "3.html"]);
    assert_eq!(pages[0].topic.prev_page, Some(String::from("index")));
    assert_eq!(pages[0].topic.next_page, Some(2));
    assert_eq!(pages[1].topic.prev_page, Some(String::from("index")));
    assert_eq!(pages[1].topic.next_page, Some(3));
    assert_eq!(pages[2].topic.prev_page, Some(String::from("2")));
    assert_eq!(pages[2].topic.next_page, None);
    assert_eq!(pages[0].topic.posts.len(), 20);
    assert_eq!(pages[1].topic.posts.len(), 20);
    assert_eq!(pages[2].topic.posts.len(), 5);
    assert_eq!(pages[1].topic.posts[0].number, 21);
    assert_eq!(pages[2].topic.posts[4].number, 45);
    for p in &pages {
        assert_eq!(p.topic.total_pages, 3);
    }
}

#[test]
fn write_page_links_pages() {
    let m = meta(7, 100);
    let third = write_page(&m, 3, vec![post(41)]);
    assert_eq!(third.filename, "3.html");
    assert_eq!(third.topic.total_pages, 5);
    assert_eq!(third.topic.prev_page, Some(String::from("2")));
    assert_eq!(third.topic.next_page, Some(4));
    let last = write_page(&m, 5, vec![]);
    assert_eq!(last.topic.next_page, None);
    assert_eq!(last.topic.prev_page, Some(String::from("4")));
    let params = Params::new(last.topic, String::from("1.0.0"), 2023);
    assert_eq!(params.app_version, "1.0.0");
    assert_eq!(params.year, 2023);
    assert_eq!(params.topic.page, 5);
}

#[test]
fn paginate_cuts_posts_into_pages_of_twenty() {
    assert!(paginate(&meta(1, 0), vec![]).is_empty());
    let pages = paginate(&meta(1, 20), (1..=20).map(post).collect());
    assert_eq!(pages.len(), 1);
    assert_eq!(pages[0].topic.next_page, None);
    let pages = paginate(&meta(1, 21), (1..=21).map(post).collect());
    assert_eq!(pages.len(), 2);
    assert_eq!(pages[1].topic.posts.len(), 1);
    assert_eq!(pages[1].filename, "2.html");
}

#[test]
fn archive_masks_the_batch_before_it_is_cut() {
    let mut posts: Vec<Post> = (1..=25).map(post).collect();
    posts[24].content = String::from("<p>user1 was here</p>");
    posts[0].avatar = Some(String::from("resources/1_a.png"));
    let (pages, names) = archive(&meta(9, 25), posts, true).unwrap();
    let names = names.unwrap();
    assert_eq!(pages.len(), 2);
    let alias = names.get("user1").unwrap();
    assert_eq!(pages[0].topic.posts[0].username, alias);
    assert_eq!(pages[0].topic.posts[0].name, "");
    assert_eq!(pages[0].topic.posts[0].avatar, None);
    assert_eq!(pages[1].topic.posts[4].content, format!("<p>{alias} was here</p>"));
    assert_eq!(names.len(), 50);
}

#[test]
fn archive_fails_on_a_name_that_was_not_collected() {
    let mut posts: Vec<Post> = vec![post(1)];
    posts[0].content = String::from(
        "<div><img alt src=\"/a.png\" class=\"avatar\"> <a class=\"mention\" href=\"/u/bob\">@bob</a>:</div>",
    );
    assert_eq!(archive(&meta(9, 1), posts, true).err(), Some(Error::UnknownName));
}

#[test]
fn plan_resp_post_lists_what_to_fetch() {
    let store = PreloadedStore::from_emojis(vec![Emoji {
        name: String::from("doge"),
        url: String::from("/uploads/emoji/doge.png"),
    }]);
    let mut p = resp_post(4);
    p.cooked = String::from("<p><img src=\"/uploads/a.png\"><img src=\"/uploads/a.png\"></p>");
    p.retorts = vec![
        RespRetort { usernames: vec![String::from("a")], emoji: String::from("doge") },
        RespRetort {
            usernames: vec![String::from("a"), String::from("b")],
            emoji: String::from("smile"),
        },
    ];
    let plan = plan_resp_post(p, &store, false, false).unwrap();
    assert_eq!(
        plan.post.cooked,
        "<p><img src=\"resources/a.png\"><img src=\"resources/a.png\"></p>"
    );
    assert_eq!(plan.assets.len(), 2);
    assert_eq!(plan.assets[0].url, "https://shuiyuan.sjtu.edu.cn/uploads/a.png");
    assert_eq!(plan.assets[1].filename, "a.png");
    let avatar = plan.avatar.unwrap();
    assert_eq!(avatar.url, "/a/40/b.png");
    assert!(avatar.filename.ends_with("_b.png"));
    assert_eq!(plan.emojis.len(), 2);
    assert_eq!(plan.emojis[0].0.filename, "doge.png");
    assert_eq!(plan.emojis[0].1, 1);
    assert_eq!(plan.emojis[1].0.url, "https://shuiyuan.sjtu.edu.cn/images/emoji/google/smile.png");
    assert_eq!(plan.emojis[1].1, 2);

    let masked = plan_resp_post(resp_post(4), &store, true, false).unwrap();
    assert!(masked.avatar.is_none());
    assert!(masked.assets.is_empty());
}

#[test]
fn blank_replacements_are_one_per_match() {
    let found = vec![vec![Some(String::from("a"))], vec![], vec![None]];
    assert_eq!(blank_replacements(&found), vec!["", "", ""]);
    assert!(blank_replacements(&vec![]).is_empty());
}

#[test]
fn forty_five_masked_posts_make_three_pages() {
    let posts: Vec<Post> = (1..=45).map(post).collect();
    let (pages, names) = archive(&meta(42, 45), posts, true).unwrap();
    let names = names.unwrap();
    let files: Vec<&str> = pages.iter().map(|p| p.filename.as_str()).collect();
    assert_eq!(files, vec!["index.html", "2.html", "3.html"]);
    assert_eq!(pages[1].topic.prev_page, Some(String::from("index")));
    assert_eq!(pages[2].topic.next_page, None);
    assert_eq!(pages[0].topic.posts.len(), 20);
    assert_eq!(pages[2].topic.posts.len(), 5);
    assert_eq!(pages[2].topic.posts[4].number, 45);
    assert_eq!(Some(pages[2].topic.posts[4].username.as_str()), names.get("user45"));
    assert_eq!(names.get("user45"), names.get("Name 45"));
    let (none, empty) = archive(&meta(42, 0), vec![], true).unwrap();
    assert!(none.is_empty());
    assert_eq!(empty.unwrap().len(), 0);
}
