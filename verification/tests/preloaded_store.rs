use sa_core::error::Error;
use sa_core::preloaded_store::{preloaded_value, Emoji, PreloadedStore};

#[test]
fn custom_emoji_finds_the_last_entry_of_a_name() {
    let store = PreloadedStore::from_emojis(vec![
        Emoji { name: String::from("doge"), url: String::from("/e/doge1.png") },
        Emoji { name: String::from("cat"), url: String::from("/e/cat.png") },
        Emoji { name: String::from("doge"), url: String::from("/e/doge2.png") },
    ]);
    assert_eq!(store.custom_emoji("doge"), Some("/e/doge2.png"));
    assert_eq!(store.custom_emoji("cat"), Some("/e/cat.png"));
    assert_eq!(store.custom_emoji("dog"), None);
    assert_eq!(PreloadedStore::from_emojis(vec![]).custom_emoji("doge"), None);
}

#[test]
fn from_client_takes_the_preloaded_data_out_of_the_page() {
    let body = "<html><body><div id=\"data-preloaded\" data-preloaded=\"{&quot;customEmoji&quot;:&quot;[]&quot;}\"></div></body></html>";
    assert_eq!(PreloadedStore::from_client(body).unwrap(), "{\"customEmoji\":\"[]\"}");
    let entities = "<p id=\"data-preloaded\" data-preloaded=\"a &amp; b &#x4e2d;\"></p>";
    assert_eq!(PreloadedStore::from_client(entities).unwrap(), "a & b 中");
}

#[test]
fn from_client_fails_without_the_one_element() {
    assert_eq!(PreloadedStore::from_client("<html></html>").err(), Some(Error::Json));
    let twice = "<div id=\"data-preloaded\" data-preloaded=\"1\"></div><div id=\"data-preloaded\" data-preloaded=\"2\"></div>";
    assert_eq!(PreloadedStore::from_client(twice).err(), Some(Error::Json));
    let bare = "<div id=\"data-preloaded\"></div>";
    assert_eq!(PreloadedStore::from_client(bare).err(), Some(Error::Json));
    let broken = "<div id=\"data-preloaded\" data-preloaded=\"&nosuchentity;\"></div>";
    assert_eq!(PreloadedStore::from_client(broken).err(), Some(Error::Json));
}

#[test]
fn preloaded_value_wants_one_element_with_the_attribute() {
    assert_eq!(preloaded_value(&vec![vec![Some(String::from("{}"))]]), Some("{}"));
    assert_eq!(preloaded_value(&vec![vec![None]]), None);
    assert_eq!(preloaded_value(&vec![]), None);
    assert_eq!(preloaded_value(&vec![vec![]]), None);
    let one = vec![Some(String::from("a"))];
    assert_eq!(preloaded_value(&vec![one.clone(), one]), None);
    assert_eq!(
        preloaded_value(&vec![vec![Some(String::from("a")), Some(String::from("b"))]]),
        None
    );
}
