use sa_core::archiver::download_manager::{
    avatar_stored_at, avatar_target, AvatarTicket, DownloadManager, OPEN_FILES_LIMIT,
};

#[test]
fn download_asset_schedules_an_address_once() {
    let mut m = DownloadManager::new();
    let first = m.download_asset(String::from("/uploads/a.png"), "a.png", false);
    let fetch = first.unwrap();
    assert_eq!(fetch.url, "https://shuiyuan.sjtu.edu.cn/uploads/a.png");
    assert_eq!(fetch.relative_path, "resources/a.png");
    assert!(!fetch.bypass_max_conn);
    assert!(!fetch.bypass_throttle);
    assert!(m.download_asset(String::from("/uploads/a.png"), "a.png", false).is_none());
    assert!(m.download_asset(String::from("/uploads/a.png"), "other.png", true).is_none());
    let second = m.download_asset(String::from("/uploads/b.png"), "b.png", true).unwrap();
    assert!(second.bypass_max_conn);
    assert!(second.bypass_throttle);
    assert!(m.download_asset(String::from("/uploads/a.png"), "a.png", false).is_none());
}

#[test]
fn download_asset_fetches_absolute_addresses_as_they_are() {
    let mut m = DownloadManager::new();
    let fetch = m
        .download_asset(String::from("https://cdn.example.com/a.png"), "a.png", false)
        .unwrap();
    assert_eq!(fetch.url, "https://cdn.example.com/a.png");
}

#[test]
fn download_avatar_is_fetched_once_and_shared() {
    let mut m = DownloadManager::new();
    let url = "/user_avatar/a/40/1.png";
    let mut fetches = 0;
    let mut waits = 0;
    for _ in 0..5 {
        match m.download_avatar(String::from(url), "9_1.png") {
            AvatarTicket::Fetch(fetch) => {
                fetches += 1;
                assert_eq!(fetch.url, "https://shuiyuan.sjtu.edu.cn/user_avatar/a/40/1.png");
                assert_eq!(fetch.relative_path, "resources/9_1.png");
            }
            AvatarTicket::Wait => waits += 1,
            _ => panic!("nothing is settled yet"),
        }
    }
    assert_eq!(fetches, 1);
    assert_eq!(waits, 4);
    m.avatar_finished(url, Some(String::from("resources/9_1.svg")));
    let mut paths = Vec::new();
    for _ in 0..5 {
        match m.download_avatar(String::from(url), "9_1.png") {
            AvatarTicket::Ready(path) => paths.push(path),
            _ => panic!("the avatar is there"),
        }
    }
    assert_eq!(paths, vec![String::from("resources/9_1.svg"); 5]);
}

#[test]
fn a_failed_avatar_is_reported_as_failed() {
    let mut m = DownloadManager::new();
    assert!(matches!(m.download_avatar(String::from("/a"), "a.png"), AvatarTicket::Fetch(_)));
    m.avatar_finished("/a", None);
    assert!(matches!(m.download_avatar(String::from("/a"), "a.png"), AvatarTicket::Failed));
    assert!(matches!(m.download_avatar(String::from("/b"), "b.png"), AvatarTicket::Fetch(_)));
    assert!(matches!(m.download_avatar(String::from("/b"), "b.png"), AvatarTicket::Wait));
}

#[test]
fn avatar_target_renames_svg_images() {
    assert_eq!(avatar_target("1_a.png", "image/png"), "1_a.png");
    assert_eq!(avatar_target("1_a.png", "image/svg+xml"), "1_a.svg");
    assert_eq!(avatar_target("1_a.png", "image/svg+xml; charset=utf-8"), "1_a.svg");
    assert_eq!(avatar_target("1_a", "image/svg+xml"), "1_a.svg");
    assert_eq!(avatar_target("1.a.b", "svg"), "1.a.svg");
    assert_eq!(avatar_target(".hidden", "svg"), ".hidden.svg");
    assert_eq!(avatar_target("", "svg"), "");
    assert_eq!(avatar_target("1_a.png", ""), "1_a.png");
}

#[test]
fn finished_resources_tell_whether_to_remove_the_file() {
    let mut m = DownloadManager::new();
    m.download_asset(String::from("/a.png"), "a.png", false).unwrap();
    m.download_asset(String::from("/b.png"), "b.png", false).unwrap();
    assert!(!m.resource_finished(true));
    assert!(m.resource_finished(false));
}

#[test]
fn open_files_are_bounded() {
    let mut m = DownloadManager::new();
    assert_eq!(OPEN_FILES_LIMIT, 128);
    for _ in 0..OPEN_FILES_LIMIT {
        assert!(m.open_file());
    }
    assert!(!m.open_file());
    m.close_file();
    assert!(m.open_file());
    assert!(!m.open_file());
}

#[test]
fn an_svg_avatar_is_stored_under_its_new_name() {
    assert_eq!(avatar_stored_at("9_1.png", "image/png"), "resources/9_1.png");
    assert_eq!(avatar_stored_at("9_1.png", "image/svg+xml"), "resources/9_1.svg");
    assert_eq!(avatar_stored_at("9_1", "image/svg+xml"), "resources/9_1.svg");
    let mut m = DownloadManager::new();
    let ticket = m.download_avatar(String::from("/a/40/1.png"), "9_1.png");
    assert!(matches!(ticket, AvatarTicket::Fetch(_)));
    m.avatar_finished("/a/40/1.png", Some(avatar_stored_at("9_1.png", "image/svg+xml")));
    match m.download_avatar(String::from("/a/40/1.png"), "9_1.png") {
        AvatarTicket::Ready(path) => assert_eq!(path, "resources/9_1.svg"),
        _ => panic!("the avatar is there"),
    }
}
