//! Push notifications, as the messages that are sent.

use vstd::prelude::*;
use crate::scrape::generic::{join_url, joined_url};
use crate::text::{trim, trimmed};

verus! {

/// One push message.
#[derive(Debug, PartialEq, Eq)]
pub struct Notification {
    pub title: String,
    pub message: String,
    /// Comma-separated.
    pub tags: String,
    pub priority: String,
}

/// What `Notification` holds.
#[verifier::ext_equal]
pub struct NotificationView {
    pub title: Seq<char>,
    pub message: Seq<char>,
    pub tags: Seq<char>,
    pub priority: Seq<char>,
}

impl DeepView for Notification {
    type V = NotificationView;

    open spec fn deep_view(&self) -> NotificationView {
        NotificationView {
            title: self.title@,
            message: self.message@,
            tags: self.tags@,
            priority: self.priority@,
        }
    }
}

/// Where notifications are posted, from the address of the server, where there is one,
/// and the topic; or what is wrong with them.
pub open spec fn topic_url(server: Option<Seq<char>>, topic: Seq<char>) -> Result<
    Option<Seq<char>>,
    Seq<char>,
> {
    match server {
        None => Ok(None),
        Some(base) => if trimmed(topic).len() == 0 {
            Err("notifications.ntfy_url is set but notifications.topic is empty"@)
        } else {
            match joined_url(base, trimmed(topic)) {
                Ok(url) => Ok(Some(url)),
                Err(e) => Err("joining ntfy topic onto "@ + base + ": "@ + e),
            }
        },
    }
}

/// What a resolved endpoint holds.
pub open spec fn endpoint_result(r: Result<Option<String>, String>) -> Result<
    Option<Seq<char>>,
    Seq<char>,
> {
    match r {
        Ok(url) => Ok(url.deep_view()),
        Err(e) => Err(e@),
    }
}

/// Where notifications are posted; nowhere without a server.
pub fn endpoint(server: Option<String>, topic: &str) -> (r: Result<Option<String>, String>)
    ensures
        endpoint_result(r) == topic_url(server.deep_view(), topic@),
{
    let base = match server {
        None => {
            return Ok(None);
        },
        Some(base) => base,
    };
    let topic = trim(topic);
    if topic.as_str().is_empty() {
        return Err("notifications.ntfy_url is set but notifications.topic is empty".to_owned());
    }
    match join_url(base.as_str(), topic.as_str()) {
        Ok(url) => Ok(Some(url)),
        Err(e) => {
            let mut m = "joining ntfy topic onto ".to_owned();
            m.append(base.as_str());
            m.append(": ");
            m.append(e.as_str());
            Err(m)
        },
    }
}

/// Notifications go to the topic of the server, where there is a server; a server without
/// a topic is a fault, and so is an address that cannot be made.
pub proof fn notifications_need_a_topic(server: Seq<char>, topic: Seq<char>)
    ensures
        topic_url(None, topic) == Ok::<Option<Seq<char>>, Seq<char>>(None),
        trimmed(topic).len() == 0 ==> topic_url(Some(server), topic) == Err::<
            Option<Seq<char>>,
            Seq<char>,
        >("notifications.ntfy_url is set but notifications.topic is empty"@),
        trimmed(topic).len() > 0 ==> match joined_url(server, trimmed(topic)) {
            Ok(url) => topic_url(Some(server), topic) == Ok::<Option<Seq<char>>, Seq<char>>(
                Some(url),
            ),
            Err(e) => topic_url(Some(server), topic) == Err::<Option<Seq<char>>, Seq<char>>(
                "joining ntfy topic onto "@ + server + ": "@ + e,
            ),
        },
{
}

} // verus!
