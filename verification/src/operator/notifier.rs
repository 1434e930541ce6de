//! Where notifications go: the configured channels and what is sent to each.
use vstd::prelude::*;
use crate::config::Config;

verus! {

/// The channels that notifications go to.
#[derive(Debug, PartialEq, Eq)]
pub struct Notifier {
    radio_name: String,
    slack_webhook: Option<String>,
    discord_webhook: Option<String>,
    telegram_token: Option<String>,
    telegram_chat_id: Option<i64>,
}

/// Mathematical value of a [`Notifier`].
pub struct NotifierView {
    pub radio_name: Seq<char>,
    pub slack_webhook: Option<Seq<char>>,
    pub discord_webhook: Option<Seq<char>>,
    pub telegram_token: Option<Seq<char>>,
    pub telegram_chat_id: Option<i64>,
}

/// The characters of an optional string.
pub open spec fn optional_text(text: Option<String>) -> Option<Seq<char>> {
    match text {
        Some(t) => Some(t@),
        None => None,
    }
}

impl View for Notifier {
    type V = NotifierView;

    closed spec fn view(&self) -> NotifierView {
        NotifierView {
            radio_name: self.radio_name@,
            slack_webhook: optional_text(self.slack_webhook),
            discord_webhook: optional_text(self.discord_webhook),
            telegram_token: optional_text(self.telegram_token),
            telegram_chat_id: self.telegram_chat_id,
        }
    }
}

/// One message to one channel.
#[derive(Debug, PartialEq, Eq)]
pub enum Delivery {
    Slack { webhook_url: String, radio_name: String, content: String },
    Discord { webhook_url: String, radio_name: String, content: String },
    Telegram { token: String, chat_id: i64, radio_name: String, content: String },
}

/// Mathematical value of a [`Delivery`].
pub enum DeliveryView {
    Slack { webhook_url: Seq<char>, radio_name: Seq<char>, content: Seq<char> },
    Discord { webhook_url: Seq<char>, radio_name: Seq<char>, content: Seq<char> },
    Telegram { token: Seq<char>, chat_id: i64, radio_name: Seq<char>, content: Seq<char> },
}

impl View for Delivery {
    type V = DeliveryView;

    open spec fn view(&self) -> DeliveryView {
        match self {
            Delivery::Slack { webhook_url, radio_name, content } => DeliveryView::Slack {
                webhook_url: webhook_url@,
                radio_name: radio_name@,
                content: content@,
            },
            Delivery::Discord { webhook_url, radio_name, content } => DeliveryView::Discord {
                webhook_url: webhook_url@,
                radio_name: radio_name@,
                content: content@,
            },
            Delivery::Telegram { token, chat_id, radio_name, content } => DeliveryView::Telegram {
                token: token@,
                chat_id: *chat_id,
                radio_name: radio_name@,
                content: content@,
            },
        }
    }
}

/// The views of a sequence of deliveries, in the same order.
pub open spec fn deliveries_view(deliveries: Seq<Delivery>) -> Seq<DeliveryView> {
    deliveries.map_values(|d: Delivery| d@)
}

impl NotifierView {
    /// The delivery to Slack, where a webhook is configured.
    pub open spec fn slack(self, content: Seq<char>) -> Seq<DeliveryView> {
        match self.slack_webhook {
            Some(url) => seq![
                DeliveryView::Slack { webhook_url: url, radio_name: self.radio_name, content },
            ],
            None => Seq::empty(),
        }
    }

    /// The delivery to Discord, where a webhook is configured.
    pub open spec fn discord(self, content: Seq<char>) -> Seq<DeliveryView> {
        match self.discord_webhook {
            Some(url) => seq![
                DeliveryView::Discord { webhook_url: url, radio_name: self.radio_name, content },
            ],
            None => Seq::empty(),
        }
    }

    /// The delivery to Telegram, where both a token and a chat are configured.
    pub open spec fn telegram(self, content: Seq<char>) -> Seq<DeliveryView> {
        match (self.telegram_token, self.telegram_chat_id) {
            (Some(token), Some(chat_id)) => seq![
                DeliveryView::Telegram { token, chat_id, radio_name: self.radio_name, content },
            ],
            _ => Seq::empty(),
        }
    }

    /// Every delivery of `content`: Slack, then Discord, then Telegram, each
    /// only where it is configured.
    pub open spec fn deliveries(self, content: Seq<char>) -> Seq<DeliveryView> {
        self.slack(content) + self.discord(content) + self.telegram(content)
    }
}

impl Notifier {
    pub fn new(
        radio_name: String,
        slack_webhook: Option<String>,
        discord_webhook: Option<String>,
        telegram_token: Option<String>,
        telegram_chat_id: Option<i64>,
    ) -> (r: Notifier)
        ensures
            r@ == (NotifierView {
                radio_name: radio_name@,
                slack_webhook: optional_text(slack_webhook),
                discord_webhook: optional_text(discord_webhook),
                telegram_token: optional_text(telegram_token),
                telegram_chat_id,
            }),
    {
        Notifier { radio_name, slack_webhook, discord_webhook, telegram_token, telegram_chat_id }
    }

    /// The notifier that `config` describes, under the radio's configured name.
    pub fn from_config(config: &Config) -> (r: Notifier)
        ensures
            r@ == (NotifierView {
                radio_name: config.radio_name@,
                slack_webhook: optional_text(config.slack_webhook),
                discord_webhook: optional_text(config.discord_webhook),
                telegram_token: optional_text(config.telegram_token),
                telegram_chat_id: config.telegram_chat_id,
            }),
    {
        let slack_webhook = match &config.slack_webhook {
            Some(t) => Some(t.clone()),
            None => None,
        };
        let discord_webhook = match &config.discord_webhook {
            Some(t) => Some(t.clone()),
            None => None,
        };
        let telegram_token = match &config.telegram_token {
            Some(t) => Some(t.clone()),
            None => None,
        };
        Notifier::new(
            config.radio_name.clone(),
            slack_webhook,
            discord_webhook,
            telegram_token,
            config.telegram_chat_id,
        )
    }

    pub fn radio_name(&self) -> (r: &String)
        ensures
            r@ == self@.radio_name,
    {
        &self.radio_name
    }

    pub fn slack_webhook(&self) -> (r: &Option<String>)
        ensures
            optional_text(*r) == self@.slack_webhook,
    {
        &self.slack_webhook
    }

    pub fn discord_webhook(&self) -> (r: &Option<String>)
        ensures
            optional_text(*r) == self@.discord_webhook,
    {
        &self.discord_webhook
    }

    pub fn telegram_token(&self) -> (r: &Option<String>)
        ensures
            optional_text(*r) == self@.telegram_token,
    {
        &self.telegram_token
    }

    pub fn telegram_chat_id(&self) -> (r: &Option<i64>)
        ensures
            *r == self@.telegram_chat_id,
    {
        &self.telegram_chat_id
    }

    /// What has to be sent to notify every configured channel of `content`:
    /// one delivery each to Slack and Discord where their webhook is set, and one
    /// to Telegram where both the token and the chat are set, in that order.
    /// Sending them, and what to do when a channel fails, is the caller's part.
    pub fn notify(&self, content: &String) -> (r: Vec<Delivery>)
        ensures
            deliveries_view(r@) == self@.deliveries(content@),
    {
        let mut out: Vec<Delivery> = Vec::new();
        proof {
            assert(deliveries_view(out@) =~= Seq::<DeliveryView>::empty());
        }
        if let Some(url) = &self.slack_webhook {
            let ghost before = deliveries_view(out@);
            let d = Delivery::Slack {
                webhook_url: url.clone(),
                radio_name: self.radio_name.clone(),
                content: content.clone(),
            };
            out.push(d);
            proof {
                assert(deliveries_view(out@) =~= before.push(d@));
            }
        }
        proof {
            assert(deliveries_view(out@) =~= self@.slack(content@));
        }
        if let Some(url) = &self.discord_webhook {
            let ghost before = deliveries_view(out@);
            let d = Delivery::Discord {
                webhook_url: url.clone(),
                radio_name: self.radio_name.clone(),
                content: content.clone(),
            };
            out.push(d);
            proof {
                assert(deliveries_view(out@) =~= before.push(d@));
            }
        }
        proof {
            assert(deliveries_view(out@) =~= self@.slack(content@) + self@.discord(content@));
        }
        if let (Some(token), Some(chat_id)) = (&self.telegram_token, self.telegram_chat_id) {
            let ghost before = deliveries_view(out@);
            let d = Delivery::Telegram {
                token: token.clone(),
                chat_id,
                radio_name: self.radio_name.clone(),
                content: content.clone(),
            };
            out.push(d);
            proof {
                assert(deliveries_view(out@) =~= before.push(d@));
            }
        }
        proof {
            assert(deliveries_view(out@) =~= self@.deliveries(content@));
        }
        out
    }
}

} // verus!
