use vstd::prelude::*;
use vstd::string::*;
use crate::json::{JsonValue, JsonTree, trees_of, lemma_entries_map_small};

verus! {

/// Why a notification could not be delivered.
pub enum NotificationError {
    DiscordFailed(String),
}

/// The Discord webhook body for a message: one embed with the title, the
/// body as its description, and the colour.
pub open spec fn embed_tree(title: Seq<char>, body: Seq<char>, color: u32) -> JsonTree {
    JsonTree::Object(
        map![
            "embeds"@ => JsonTree::Array(
                seq![
                    JsonTree::Object(
                        map![
                            "title"@ => JsonTree::Str(title),
                            "description"@ => JsonTree::Str(body),
                            "color"@ => JsonTree::UInt(color as u64),
                        ],
                    ),
                ],
            ),
        ],
    )
}

/// What sending a Discord message needs before the request goes out: the
/// configured webhook URL, which must be present and non-empty, and the
/// message body.
pub fn prepare_send(webhook_url: Option<&str>, title: &str, body: &str, color: u32) -> (r: Result<
    (String, JsonValue),
    NotificationError,
>)
    ensures
        match r {
            Ok((url, payload)) => webhook_url matches Some(u) && u@.len() > 0 && url@ == u@
                && payload.tree() == embed_tree(title@, body@, color),
            Err(NotificationError::DiscordFailed(msg)) => (webhook_url is None || webhook_url->0@.len()
                == 0) && msg@ == "webhook URL is not configured"@,
        },
{
    let url = match webhook_url {
        Some(u) => if u.unicode_len() > 0 {
            u.to_owned()
        } else {
            return Err(NotificationError::DiscordFailed(String::from_str("webhook URL is not configured")));
        },
        None => {
            return Err(NotificationError::DiscordFailed(String::from_str("webhook URL is not configured")));
        },
    };
    let mut fields: Vec<(String, JsonValue)> = Vec::new();
    fields.push((String::from_str("title"), JsonValue::Str(title.to_owned())));
    fields.push((String::from_str("description"), JsonValue::Str(body.to_owned())));
    fields.push((String::from_str("color"), JsonValue::UInt(color as u64)));
    proof {
        lemma_entries_map_small(fields@);
    }
    let embed = JsonValue::Object(fields);
    let mut embeds: Vec<JsonValue> = Vec::new();
    embeds.push(embed);
    proof {
        reveal_with_fuel(trees_of, 2);
        assert(embeds@.drop_last() =~= Seq::<JsonValue>::empty());
        assert(trees_of(embeds@) =~= seq![embeds@[0].tree()]);
    }
    let mut top: Vec<(String, JsonValue)> = Vec::new();
    top.push((String::from_str("embeds"), JsonValue::Array(embeds)));
    proof {
        lemma_entries_map_small(top@);
    }
    Ok((url, JsonValue::Object(top)))
}

/// The outcome of the webhook request from its HTTP status: success for a
/// 2xx status, otherwise an error naming the status as `status_text` shows it.
pub fn check_response(status: u16, status_text: &str) -> (r: Result<(), NotificationError>)
    ensures
        match r {
            Ok(()) => 200 <= status <= 299,
            Err(NotificationError::DiscordFailed(msg)) => !(200 <= status <= 299) && msg@
                == "server returned "@ + status_text@,
        },
{
    if 200 <= status && status <= 299 {
        Ok(())
    } else {
        let mut msg = String::from_str("server returned ");
        msg.append(status_text);
        Err(NotificationError::DiscordFailed(msg))
    }
}

} // verus!
