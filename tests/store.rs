use slacker_slayer::store::{
    config_message, get_bot_messages, get_config_code, Embed, Message, StoreError,
};

const BOT: u64 = 555;

fn embed(title: Option<&str>, description: Option<&str>) -> Embed {
    Embed { title: title.map(|t| t.to_string()), description: description.map(|d| d.to_string()) }
}

fn message(author_id: u64, embeds: Vec<Embed>) -> Message {
    Message { author_id, embeds }
}

#[test]
fn no_config_message_is_not_found() {
    let messages = vec![
        message(BOT, vec![embed(Some("Members"), Some("members"))]),
        message(7, vec![embed(Some("Config"), Some("ssc.daily.09"))]),
        message(BOT, vec![]),
    ];
    assert_eq!(get_config_code(&messages, BOT), Err(StoreError::ConfigNotFound));
    assert_eq!(get_config_code(&vec![], BOT), Err(StoreError::ConfigNotFound));
}

#[test]
fn single_config_message_gives_its_description() {
    let messages = vec![
        message(7, vec![embed(Some("Config"), Some("ssc.daily.01"))]),
        message(BOT, vec![embed(Some("Hello"), None), embed(Some("Config"), Some(" ssc.weekly.09.1 "))]),
        message(BOT, vec![embed(None, Some("x"))]),
    ];
    assert_eq!(get_config_code(&messages, BOT), Ok(" ssc.weekly.09.1 ".to_string()));
}

#[test]
fn config_embed_without_description_is_skipped() {
    let messages = vec![
        message(BOT, vec![embed(Some("Config"), None)]),
        message(BOT, vec![embed(Some("config"), Some("lower"))]),
        message(BOT, vec![embed(Some("Config"), Some("ssc.monthly.09..15"))]),
    ];
    assert_eq!(get_config_code(&messages, BOT), Ok("ssc.monthly.09..15".to_string()));
}

#[test]
fn first_config_message_wins() {
    let messages = vec![
        message(BOT, vec![embed(Some("Config"), Some("first"))]),
        message(BOT, vec![embed(Some("Config"), Some("second"))]),
    ];
    assert_eq!(get_config_code(&messages, BOT), Ok("first".to_string()));
}

#[test]
fn recorded_config_message_is_found() {
    let messages = vec![
        config_message(BOT, "ssc.daily.07".to_string()),
        message(BOT, vec![embed(Some("Config"), Some("older"))]),
    ];
    assert_eq!(get_config_code(&messages, BOT), Ok("ssc.daily.07".to_string()));
}

#[test]
fn bot_messages_are_kept_in_order() {
    let messages = vec![
        message(1, vec![embed(Some("a"), None)]),
        message(BOT, vec![embed(Some("b"), None)]),
        message(2, vec![]),
        message(BOT, vec![embed(Some("c"), None)]),
    ];
    let kept = get_bot_messages(messages, BOT);
    assert_eq!(kept.len(), 2);
    assert_eq!(kept[0].embeds[0].title.as_deref(), Some("b"));
    assert_eq!(kept[1].embeds[0].title.as_deref(), Some("c"));
    assert!(kept.iter().all(|m| m.author_id == BOT));
}
