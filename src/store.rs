//! The config store: a community's schedule lives in its own chat history, as
//! a message of the bot whose embed is titled `Config` and holds the code.

use vstd::prelude::*;

verus! {

/// A rich-content block of a message.
#[derive(Debug)]
pub struct Embed {
    pub title: Option<String>,
    pub description: Option<String>,
}

/// A message of a channel's history, as far as the store reads it.
#[derive(Debug)]
pub struct Message {
    pub author_id: u64,
    pub embeds: Vec<Embed>,
}

#[derive(Clone, Copy, Debug, PartialEq, Eq, Structural)]
pub enum StoreError {
    /// No message of the bot carries a config embed.
    ConfigNotFound,
}

/// The title that marks a config embed.
pub open spec fn config_title() -> Seq<char> {
    "Config"@
}

/// The code an embed carries: its description, where it is titled `Config`.
pub open spec fn embed_code(e: Embed) -> Option<Seq<char>> {
    match (e.title, e.description) {
        (Some(t), Some(d)) => if t@ == config_title() {
            Some(d@)
        } else {
            None
        },
        _ => None,
    }
}

/// The code of the first embed, in order, that carries one.
pub open spec fn first_embed_code(es: Seq<Embed>) -> Option<Seq<char>>
    decreases es.len(),
{
    if es.len() == 0 {
        None
    } else if embed_code(es[0]) is Some {
        embed_code(es[0])
    } else {
        first_embed_code(es.drop_first())
    }
}

/// The code a message carries, where the bot wrote it.
pub open spec fn message_code(m: Message, bot_id: u64) -> Option<Seq<char>> {
    if m.author_id == bot_id {
        first_embed_code(m.embeds@)
    } else {
        None
    }
}

/// The code of the first message, in order, that carries one.
pub open spec fn first_config_code(ms: Seq<Message>, bot_id: u64) -> Option<Seq<char>>
    decreases ms.len(),
{
    if ms.len() == 0 {
        None
    } else if message_code(ms[0], bot_id) is Some {
        message_code(ms[0], bot_id)
    } else {
        first_config_code(ms.drop_first(), bot_id)
    }
}

/// The messages that `author_id` wrote, in order.
pub open spec fn authored_by(ms: Seq<Message>, author_id: u64) -> Seq<Message>
    decreases ms.len(),
{
    if ms.len() == 0 {
        Seq::<Message>::empty()
    } else if ms.last().author_id == author_id {
        authored_by(ms.drop_last(), author_id).push(ms.last())
    } else {
        authored_by(ms.drop_last(), author_id)
    }
}

/// Keeps the messages that the bot wrote, in their order.
pub fn get_bot_messages(messages: Vec<Message>, bot_id: u64) -> (r: Vec<Message>)
    ensures
        r@ == authored_by(messages@, bot_id),
{
    let ghost all = messages@;
    let mut rest = messages;
    let mut kept: Vec<Message> = Vec::new();
    let ghost mut i: int = 0;
    assert(all.take(0) =~= Seq::<Message>::empty());
    assert(all.skip(0) =~= all);
    while rest.len() > 0
        invariant
            0 <= i <= all.len(),
            rest@ == all.skip(i),
            kept@ == authored_by(all.take(i), bot_id),
        decreases rest.len(),
    {
        let msg = rest.remove(0);
        assert(all.take(i + 1).drop_last() =~= all.take(i));
        assert(msg == all[i]);
        if msg.author_id == bot_id {
            kept.push(msg);
        }
        proof {
            i = i + 1;
            assert(rest@ =~= all.skip(i));
        }
    }
    assert(all.take(i) =~= all);
    kept
}

fn embed_config_code(e: &Embed) -> (r: Option<&String>)
    ensures
        match r {
            Some(d) => embed_code(*e) == Some(d@),
            None => embed_code(*e) is None,
        },
{
    let marker = String::from_str("Config");
    match (&e.title, &e.description) {
        (Some(t), Some(d)) => if *t == marker {
            Some(d)
        } else {
            None
        },
        _ => None,
    }
}

/// Finds the config code among the messages: the description of the first
/// embed titled `Config` in the first message of the bot that has one.
pub fn get_config_code(messages: &Vec<Message>, bot_id: u64) -> (r: Result<String, StoreError>)
    ensures
        match r {
            Ok(code) => first_config_code(messages@, bot_id) == Some(code@),
            Err(e) => e == StoreError::ConfigNotFound && first_config_code(messages@, bot_id)
                is None,
        },
{
    let mut i: usize = 0;
    assert(messages@.skip(0) =~= messages@);
    while i < messages.len()
        invariant
            i <= messages@.len(),
            first_config_code(messages@, bot_id) == first_config_code(
                messages@.skip(i as int),
                bot_id,
            ),
        decreases messages@.len() - i,
    {
        let msg = &messages[i];
        assert(messages@.skip(i as int)[0] == *msg);
        assert(messages@.skip(i as int).drop_first() =~= messages@.skip(i + 1));
        if msg.author_id == bot_id {
            let mut j: usize = 0;
            assert(msg.embeds@.skip(0) =~= msg.embeds@);
            while j < msg.embeds.len()
                invariant
                    j <= msg.embeds@.len(),
                    msg.author_id == bot_id,
                    i < messages@.len(),
                    messages@.skip(i as int)[0] == *msg,
                    first_config_code(messages@, bot_id) == first_config_code(
                        messages@.skip(i as int),
                        bot_id,
                    ),
                    first_embed_code(msg.embeds@) == first_embed_code(
                        msg.embeds@.skip(j as int),
                    ),
                decreases msg.embeds@.len() - j,
            {
                let e = &msg.embeds[j];
                assert(msg.embeds@.skip(j as int)[0] == *e);
                assert(msg.embeds@.skip(j as int).drop_first() =~= msg.embeds@.skip(j + 1));
                if let Some(d) = embed_config_code(e) {
                    assert(first_embed_code(msg.embeds@) == Some(d@));
                    assert(message_code(*msg, bot_id) == Some(d@));
                    assert(first_config_code(messages@.skip(i as int), bot_id) == Some(d@));
                    return Ok(d.clone());
                }
                j = j + 1;
            }
        }
        i = i + 1;
    }
    Err(StoreError::ConfigNotFound)
}

/// The embed that records `code` in the history.
pub fn config_embed(code: String) -> (e: Embed)
    ensures
        embed_code(e) == Some(code@),
{
    Embed { title: Some(String::from_str("Config")), description: Some(code) }
}

/// The message of the bot that records `code` in the history.
pub fn config_message(bot_id: u64, code: String) -> (m: Message)
    ensures
        m.author_id == bot_id,
        m.embeds@.len() == 1,
        message_code(m, bot_id) == Some(code@),
{
    let mut embeds: Vec<Embed> = Vec::new();
    embeds.push(config_embed(code));
    let m = Message { author_id: bot_id, embeds };
    assert(first_embed_code(m.embeds@) == embed_code(m.embeds@[0]));
    m
}

/// Where no message of the bot carries a config embed, there is no code.
pub proof fn lemma_no_config_message(ms: Seq<Message>, bot_id: u64)
    requires
        forall|j: int| 0 <= j < ms.len() ==> message_code(#[trigger] ms[j], bot_id) is None,
    ensures
        first_config_code(ms, bot_id) is None,
    decreases ms.len(),
{
    if ms.len() > 0 {
        assert(message_code(ms[0], bot_id) is None);
        let rest = ms.drop_first();
        assert forall|j: int| 0 <= j < rest.len() implies message_code(
            #[trigger] rest[j],
            bot_id,
        ) is None by {
            assert(rest[j] == ms[j + 1]);
        }
        lemma_no_config_message(rest, bot_id);
    }
}

/// Where exactly one message of the bot carries a config embed, its code is
/// the one found, unchanged.
pub proof fn lemma_single_config_message(ms: Seq<Message>, bot_id: u64, k: int)
    requires
        0 <= k < ms.len(),
        message_code(ms[k], bot_id) is Some,
        forall|j: int|
            0 <= j < ms.len() && j != k ==> message_code(#[trigger] ms[j], bot_id) is None,
    ensures
        first_config_code(ms, bot_id) == message_code(ms[k], bot_id),
    decreases k,
{
    if k > 0 {
        assert(message_code(ms[0], bot_id) is None);
        let rest = ms.drop_first();
        assert(rest[k - 1] == ms[k]);
        assert forall|j: int| 0 <= j < rest.len() && j != k - 1 implies message_code(
            #[trigger] rest[j],
            bot_id,
        ) is None by {
            assert(rest[j] == ms[j + 1]);
        }
        lemma_single_config_message(rest, bot_id, k - 1);
    }
}

/// A config message placed before the rest of the history is the one found.
pub proof fn lemma_newest_config_wins(m: Message, ms: Seq<Message>, bot_id: u64)
    requires
        message_code(m, bot_id) is Some,
    ensures
        first_config_code(seq![m] + ms, bot_id) == message_code(m, bot_id),
{
    assert((seq![m] + ms)[0] == m);
}

} // verus!
