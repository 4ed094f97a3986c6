use sa_core::archiver::anonymous::{
    anonymize_post, collect_anonymous_names, collect_authors, collect_bodies, collect_matches,
    collect_pattern, mask_pattern,
    mask_replacements, mask_username_in_cooked, masked, masked_everywhere, pattern, NameMap,
    NamePattern,
};
use sa_core::archiver::{anonymize_posts, mask_posts};
use sa_core::error::Error;
use sa_core::models::Post;

fn post(username: &str, name: &str, content: &str) -> Post {
    Post {
        name: String::from(name),
        number: 1,
        username: String::from(username),
        created_at: String::from("2023-01-02T03:04:05Z"),
        created_at_display: String::from("2023年01月02日 11:04"),
        content: String::from(content),
        likes: 3,
        reply_to: Some(2),
        emojis: vec![(String::from("smile.png"), 2)],
        avatar: Some(String::from("resources/1_a.png")),
    }
}

fn map_of(entries: &[(&str, &str)]) -> NameMap {
    let mut map = NameMap::new();
    for (name, alias) in entries {
        map.add_name(String::from(*name), String::from(*alias));
    }
    map
}

#[test]
fn name_map_keeps_one_alias_per_name() {
    let mut map = NameMap::new();
    assert_eq!(map.len(), 0);
    assert_eq!(map.get("alice"), None);
    map.add_name(String::from("alice"), String::from("Ann One"));
    map.add_name(String::from("bob"), String::from("Ben Two"));
    assert_eq!(map.get("alice"), Some("Ann One"));
    assert_eq!(map.get("bob"), Some("Ben Two"));
    map.add_name(String::from("alice"), String::from("Amy Three"));
    assert_eq!(map.len(), 2);
    assert_eq!(map.get("alice"), Some("Ann One"));
    assert_eq!(map.entry(0), ("alice", "Ann One"));
    assert_eq!(map.entry(1), ("bob", "Ben Two"));
}

#[test]
fn collect_anonymous_names_covers_authors_and_bodies() {
    let posts = vec![
        post("alice", "Alice A", "<p>hi <a class=\"mention\" href=\"/u/carol\">@carol</a></p>"),
        post("bob", "Bob B", "<div><img alt=\"\" src=\"/a.png\" class=\"avatar\"> Dave D:</div>"),
        post("alice", "Alice Again", "<a href=\"/t/1\">来自 erin</a>"),
    ];
    let map = collect_anonymous_names(&posts).unwrap();
    assert_eq!(map.len(), 8);
    let names: Vec<&str> = (0..map.len()).map(|i| map.entry(i).0).collect();
    assert_eq!(
        names,
        vec!["alice", "Alice A", "bob", "Bob B", "Alice Again", "carol", "Dave D", "erin"]
    );
    assert_eq!(map.get("alice"), map.get("Alice A"));
    assert_eq!(map.get("bob"), map.get("Bob B"));
    assert_eq!(map.get("Alice Again"), map.get("alice"));
    assert!(!map.get("carol").unwrap().is_empty());
    assert!(map.get("carol") != Some("carol"));
}

#[test]
fn same_author_gets_the_same_alias() {
    let posts = vec![
        post("alice", "Alice A", "one"),
        post("bob", "Bob B", "two"),
        post("alice", "Alice A", "three"),
    ];
    let (masked, map) = anonymize_posts(posts).unwrap();
    assert_eq!(masked.len(), 3);
    assert_eq!(masked[0].username, masked[2].username);
    assert_eq!(Some(masked[0].username.as_str()), map.get("alice"));
    assert_eq!(Some(masked[1].username.as_str()), map.get("bob"));
    for p in &masked {
        assert_eq!(p.name, "");
        assert_eq!(p.avatar, None);
        assert_eq!(p.likes, 3);
        assert_eq!(p.reply_to, Some(2));
        assert_eq!(p.emojis, vec![(String::from("smile.png"), 2)]);
    }
    assert_eq!(masked[0].content, "one");
}

#[test]
fn patterns_and_their_masked_forms() {
    assert_eq!(pattern(NamePattern::Mention), "<a class=\"mention\" href=\"/u/.*\">@(.*)</a>");
    assert_eq!(pattern(NamePattern::Quote), "<img .* src=\".*\" class=\"avatar\"> (.*):</div>");
    assert_eq!(pattern(NamePattern::Forwarded), "来自 (.*)</a>");
    assert_eq!(masked(NamePattern::Mention, "Ann"), "<a class=\"mention\">@Ann</a>");
    assert_eq!(masked(NamePattern::Quote, "Ann"), " Ann:</div>");
    assert_eq!(masked(NamePattern::Forwarded, "Ann"), "来自 Ann</a>");
}

#[test]
fn mask_username_in_cooked_rewrites_the_three_patterns() {
    let map = map_of(&[("carol", "Cat One"), ("Dave D", "Dan Two"), ("erin", "Eve Three")]);
    let masked = mask_username_in_cooked(
        &map,
        String::from("<p><a class=\"mention\" href=\"/u/carol\">@carol</a></p>"),
    )
    .unwrap();
    assert_eq!(masked, "<p><a class=\"mention\">@Cat One</a></p>");
    let masked = mask_username_in_cooked(
        &map,
        String::from("<div><img alt=\"\" src=\"/a.png\" class=\"avatar\"> Dave D:</div>"),
    )
    .unwrap();
    assert_eq!(masked, "<div> Dan Two:</div>");
    let masked =
        mask_username_in_cooked(&map, String::from("<a href=\"/t/1\">来自 erin</a>")).unwrap();
    assert_eq!(masked, "<a href=\"/t/1\">来自 Eve Three</a>");
}

#[test]
fn mask_username_in_cooked_fails_on_a_name_without_alias() {
    let map = map_of(&[("carol", "Cat One")]);
    let r = mask_username_in_cooked(
        &map,
        String::from("<a class=\"mention\" href=\"/u/zed\">@zed</a>"),
    );
    assert_eq!(r.err(), Some(Error::UnknownName));
}

#[test]
fn short_ascii_names_are_not_replaced_everywhere() {
    let map = map_of(&[("bob", "Ben Two"), ("alice", "Ann One")]);
    let masked =
        mask_username_in_cooked(&map, String::from("<p>bob met alice, bobsled</p>")).unwrap();
    assert_eq!(masked, "<p>bob met Ann One, bobsled</p>");
}

#[test]
fn two_character_unicode_names_are_replaced_everywhere() {
    let map = map_of(&[("小明", "Ming One"), ("李", "Li Two")]);
    let masked = mask_username_in_cooked(&map, String::from("<p>小明和李都来了</p>")).unwrap();
    assert_eq!(masked, "<p>Ming One和李都来了</p>");
}

#[test]
fn thresholds_count_trimmed_characters() {
    assert!(!masked_everywhere(&"bob".chars().collect()));
    assert!(!masked_everywhere(&"abcd".chars().collect()));
    assert!(masked_everywhere(&"abcde".chars().collect()));
    assert!(!masked_everywhere(&"  abcd  ".chars().collect()));
    assert!(masked_everywhere(&"小明".chars().collect()));
    assert!(!masked_everywhere(&"明".chars().collect()));
    assert!(!masked_everywhere(&" 明 ".chars().collect()));
    assert!(!masked_everywhere(&"".chars().collect()));
}

#[test]
fn anonymize_post_masks_author_and_body() {
    let map = map_of(&[("alice", "Ann One"), ("Alice A", "Ann One")]);
    let masked = anonymize_post(&map, post("alice", "Alice A", "<p>Alice A wrote as alice</p>"))
        .unwrap();
    assert_eq!(masked.username, "Ann One");
    assert_eq!(masked.name, "");
    assert_eq!(masked.avatar, None);
    assert_eq!(masked.content, "<p>Ann One wrote as Ann One</p>");
    assert_eq!(masked.created_at_display, "2023年01月02日 11:04");

    let unknown = anonymize_post(&map, post("zed", "Zed", "x"));
    assert_eq!(unknown.err(), Some(Error::UnknownName));
}

#[test]
fn no_long_real_name_is_left_in_a_masked_batch() {
    let posts = vec![
        post("alice_w", "Alice Wonder", "<p>alice_w says hi to roberto and 小明</p>"),
        post("roberto", "小明", "<p>Alice Wonder replied</p>"),
    ];
    let (masked, _) = anonymize_posts(posts).unwrap();
    for p in &masked {
        assert!(!p.content.contains("alice_w"));
        assert!(!p.content.contains("Alice Wonder"));
        assert!(!p.content.contains("roberto"));
        assert!(!p.content.contains("小明"));
        assert!(p.username != "alice_w" && p.username != "roberto");
    }
}

#[test]
fn an_author_brings_one_alias_for_username_and_display_name() {
    let mut map = NameMap::new();
    map.add_author(String::from("alice"), String::from("Alice A"), String::from("Ann One"));
    assert_eq!(map.get("alice"), Some("Ann One"));
    assert_eq!(map.get("Alice A"), Some("Ann One"));
    map.add_author(String::from("same"), String::from("same"), String::from("Sam Six"));
    assert_eq!(map.len(), 3);
    assert_eq!(map.get("same"), Some("Sam Six"));
}

#[test]
fn a_known_username_passes_its_alias_on_to_a_new_display_name() {
    let mut map = NameMap::new();
    map.add_author(String::from("alice"), String::from("Alice A"), String::from("Ann One"));
    map.add_author(String::from("alice"), String::from("Other"), String::from("Zed Zero"));
    assert_eq!(map.len(), 3);
    assert_eq!(map.get("alice"), Some("Ann One"));
    assert_eq!(map.get("Other"), Some("Ann One"));
    assert_eq!(map.entry(2), ("Other", "Ann One"));
}

#[test]
fn a_known_display_name_passes_its_alias_on_to_a_new_username() {
    let mut map = NameMap::new();
    map.add_author(String::from("alice"), String::from("Alice A"), String::from("Ann One"));
    map.add_author(String::from("bob"), String::from("Alice A"), String::from("Ben Two"));
    assert_eq!(map.len(), 3);
    assert_eq!(map.get("bob"), Some("Ann One"));
    assert_eq!(map.get("Alice A"), Some("Ann One"));
    assert_eq!(map.get("alice"), Some("Ann One"));
}

#[test]
fn names_that_both_have_an_alias_keep_what_they_have() {
    let mut map = NameMap::new();
    map.add_author(String::from("x"), String::from("p"), String::from("One One"));
    map.add_author(String::from("q"), String::from("y"), String::from("Two Two"));
    map.add_author(String::from("p"), String::from("q"), String::from("Three Three"));
    assert_eq!(map.len(), 4);
    assert_eq!(map.get("p"), Some("One One"));
    assert_eq!(map.get("q"), Some("Two Two"));
    assert_eq!(map.get("x"), Some("One One"));
    assert_eq!(map.get("y"), Some("Two Two"));
}

#[test]
fn every_display_name_gets_an_alias() {
    let posts = vec![
        post("a", "b", "one"),
        post("b", "c", "two"),
        post("a", "d", "three"),
        post("e", "a", "four"),
    ];
    let map = collect_anonymous_names(&posts).unwrap();
    for p in &posts {
        assert!(map.get(&p.username).is_some());
        assert!(map.get(&p.name).is_some());
        assert_eq!(map.get(&p.username), map.get(&p.name));
    }
    assert_eq!(map.len(), 5);
    assert_eq!(map.get("e"), map.get("a"));
}

#[test]
fn a_name_in_a_body_keeps_the_alias_it_has() {
    let mut map = NameMap::new();
    map.add_name(String::from("carol"), String::from("Cat One"));
    map.add_name(String::from("carol"), String::from("Cat Two"));
    map.add_name(String::from("dave"), String::from("Dan Two"));
    assert_eq!(map.len(), 2);
    assert_eq!(map.get("carol"), Some("Cat One"));
    assert_eq!(map.get("dave"), Some("Dan Two"));
}

#[test]
fn username_and_display_name_share_one_alias_that_is_not_empty() {
    let posts = vec![
        post("alice", "Alice A", "<a class=\"mention\" href=\"/u/bob\">@bob</a>"),
        post("bob", "Bob B", "two"),
        post("alice", "Alice A", "<a href=\"/t/1\">来自 Alice A</a>"),
        post("carol", "carol", "three"),
    ];
    let map = collect_anonymous_names(&posts).unwrap();
    for p in &posts {
        let by_username = map.get(&p.username).unwrap();
        let by_name = map.get(&p.name).unwrap();
        assert_eq!(by_username, by_name);
    }
    for i in 0..map.len() {
        assert!(!map.entry(i).1.is_empty());
        assert!(map.entry(i).1.contains(' '));
    }
}

#[test]
fn collect_matches_takes_group_one_of_each_match() {
    let mut map = map_of(&[("carol", "Cat One")]);
    let found = vec![
        vec![Some(String::from("@carol")), Some(String::from("carol"))],
        vec![Some(String::from("@dave")), Some(String::from("dave"))],
        vec![Some(String::from("@x")), None],
        vec![Some(String::from("@dave")), Some(String::from("dave"))],
        vec![],
    ];
    collect_matches(&mut map, &found);
    assert_eq!(map.len(), 3);
    assert_eq!(map.entry(0), ("carol", "Cat One"));
    assert_eq!(map.entry(1).0, "dave");
    assert_eq!(map.entry(2).0, "");
    assert!(!map.entry(1).1.is_empty());
}

#[test]
fn collect_pattern_searches_one_pattern() {
    let mut map = NameMap::new();
    let body = "<a class=\"mention\" href=\"/u/bob\">@bob</a> <a href=\"/t/1\">来自 erin</a>";
    collect_pattern(&mut map, NamePattern::Forwarded, body).unwrap();
    assert_eq!(map.len(), 1);
    assert_eq!(map.entry(0).0, "erin");
    collect_pattern(&mut map, NamePattern::Quote, body).unwrap();
    assert_eq!(map.len(), 1);
}

#[test]
fn mask_replacements_need_an_alias_for_every_name() {
    let map = map_of(&[("carol", "Cat One"), ("dave", "Dan Two")]);
    let found = vec![
        vec![Some(String::from("whole")), Some(String::from("dave"))],
        vec![Some(String::from("whole")), Some(String::from("carol"))],
    ];
    assert_eq!(
        mask_replacements(&map, NamePattern::Mention, &found).unwrap(),
        vec!["<a class=\"mention\">@Dan Two</a>", "<a class=\"mention\">@Cat One</a>"]
    );
    assert_eq!(
        mask_replacements(&map, NamePattern::Quote, &found).unwrap(),
        vec![" Dan Two:</div>", " Cat One:</div>"]
    );
    assert_eq!(
        mask_replacements(&map, NamePattern::Forwarded, &vec![]).unwrap(),
        Vec::<String>::new()
    );
    let unknown = vec![vec![Some(String::from("whole")), Some(String::from("zed"))]];
    assert_eq!(
        mask_replacements(&map, NamePattern::Mention, &unknown).err(),
        Some(Error::UnknownName)
    );
    let no_group = vec![vec![Some(String::from("whole"))]];
    assert_eq!(
        mask_replacements(&map, NamePattern::Mention, &no_group).err(),
        Some(Error::UnknownName)
    );
}

#[test]
fn mask_pattern_masks_one_pattern_only() {
    let map = map_of(&[("bob", "Ben Two"), ("erin", "Eve Three")]);
    let body = "<a class=\"mention\" href=\"/u/bob\">@bob</a> <a href=\"/t/1\">来自 erin</a>";
    assert_eq!(
        mask_pattern(&map, NamePattern::Forwarded, body).unwrap(),
        "<a class=\"mention\" href=\"/u/bob\">@bob</a> <a href=\"/t/1\">来自 Eve Three</a>"
    );
}

#[test]
fn mask_posts_fails_with_the_error_of_the_first_post_that_cannot_be_masked() {
    let map = map_of(&[("alice", "Ann One"), ("bob", "Ben Two")]);
    let fine = vec![post("alice", "A", "hello bob"), post("bob", "B", "hello alice")];
    let masked = mask_posts(&map, fine).unwrap();
    assert_eq!(masked.len(), 2);
    assert_eq!(masked[0].username, "Ann One");
    assert_eq!(masked[0].content, "hello bob");
    assert_eq!(masked[1].username, "Ben Two");
    assert_eq!(masked[1].content, "hello Ann One");
    assert_eq!(mask_posts(&map, vec![]).unwrap().len(), 0);

    let stranger = vec![post("alice", "A", "x"), post("zed", "Z", "y")];
    assert_eq!(mask_posts(&map, stranger).err(), Some(Error::UnknownName));
    let mention = vec![
        post("alice", "A", "<a class=\"mention\" href=\"/u/zed\">@zed</a>"),
        post("bob", "B", "y"),
    ];
    assert_eq!(mask_posts(&map, mention).err(), Some(Error::UnknownName));
}

#[test]
fn an_empty_batch_is_masked_without_fail() {
    let (masked, map) = anonymize_posts(vec![]).unwrap();
    assert!(masked.is_empty());
    assert_eq!(map.len(), 0);
}

#[test]
fn authors_and_bodies_are_collected_one_after_the_other() {
    let posts = vec![
        post("alice", "Alice A", "<a class=\"mention\" href=\"/u/bob\">@bob</a>"),
        post("bob", "Bob B", "<a href=\"/t/1\">来自 erin</a>"),
    ];
    let mut map = collect_authors(&posts);
    assert_eq!(map.len(), 4);
    let bob = map.get("bob").unwrap().to_string();
    assert_eq!(map.get("Bob B"), Some(bob.as_str()));
    assert_eq!(map.get("erin"), None);
    collect_bodies(&mut map, &posts).unwrap();
    assert_eq!(map.len(), 5);
    assert_eq!(map.get("bob"), Some(bob.as_str()));
    assert_eq!(map.entry(4).0, "erin");
    assert!(!map.entry(4).1.is_empty());
    assert_eq!(collect_authors(&vec![]).len(), 0);
}
