//! Chat ingestion worker state: the long-poll cursor with its token-rotation
//! reset, the bounded operational log, message classification, and liveness
//! reporting. The network loop around it performs one poll per iteration and
//! hands every batch here; the cursor always moves to one past the greatest
//! update id seen, whatever each message's handler did.

use vstd::prelude::*;

use crate::operation::opt_string_view;
use crate::text::{
    contains_seq, contains_str, is_ascii_alnum, is_ascii_alnum_char, lower_seq, lower_string,
    starts_with_seq, starts_with_str, str_eq_str, trim_str, trimmed, upper_seq, upper_string,
};

verus! {

/// Capacity of the operational log ring.
pub const MAX_LOGS: usize = 200;

/// Relies on std::time::SystemTime: milliseconds since the Unix epoch, or
/// zero when the clock reads before it; clamped to the i64 range. Two calls
/// may differ arbitrarily.
#[verifier::external_body]
pub fn now_ms() -> (r: i64)
    ensures
        r >= 0,
{
    let ms = std::time::SystemTime::now()
        .duration_since(std::time::UNIX_EPOCH)
        .unwrap_or_default()
        .as_millis();
    i64::try_from(ms).unwrap_or(i64::MAX)
}

/// One update pulled from the chat channel.
pub struct TelegramUpdate {
    pub update_id: Option<i64>,
    pub message: Option<TelegramMessage>,
}

/// One chat message.
pub struct TelegramMessage {
    pub message_id: i64,
    pub chat: TelegramChat,
    pub text: Option<String>,
    pub from: Option<TelegramUser>,
    pub web_app_data: Option<WebAppData>,
}

pub struct TelegramChat {
    pub id: i64,
}

pub struct TelegramUser {
    pub id: i64,
    pub first_name: Option<String>,
    pub username: Option<String>,
}

pub ghost struct TelegramUserModel {
    pub id: int,
    pub first_name: Option<Seq<char>>,
    pub username: Option<Seq<char>>,
}

impl View for TelegramUser {
    type V = TelegramUserModel;

    open spec fn view(&self) -> TelegramUserModel {
        TelegramUserModel {
            id: self.id as int,
            first_name: opt_string_view(self.first_name),
            username: opt_string_view(self.username),
        }
    }
}

/// The payload a chat mini-app embedded in a message.
pub struct WebAppData {
    pub data: String,
}

/// One line of the operational log.
pub struct LogEntry {
    pub ts_ms: i64,
    pub level: String,
    pub message: String,
}

pub ghost struct LogEntryModel {
    pub ts_ms: int,
    pub level: Seq<char>,
    pub message: Seq<char>,
}

impl View for LogEntry {
    type V = LogEntryModel;

    open spec fn view(&self) -> LogEntryModel {
        LogEntryModel { ts_ms: self.ts_ms as int, level: self.level@, message: self.message@ }
    }
}

/// Operational visibility into the worker.
pub struct BotStatus {
    pub enabled: bool,
    pub webhook_enabled: bool,
    pub polling: bool,
    pub last_poll_ms: Option<i64>,
}

/// Whether a message asks for the privacy text: the trimmed, lower-cased
/// text is one of the privacy commands or mentions the policy by name.
pub open spec fn privacy_query(text: Seq<char>) -> bool {
    let t = lower_seq(trimmed(text));
    ||| t == "/privacy"@
    ||| t == "/policy"@
    ||| contains_seq(t, "\u{43f}\u{43e}\u{43b}\u{438}\u{442}\u{438}\u{43a}"@)
    ||| contains_seq(t, "privacy"@)
}

/// Recognises a privacy/help command.
pub fn is_privacy_query(text: &str) -> (r: bool)
    ensures
        r == privacy_query(text@),
{
    let lowered = lower_string(trim_str(text));
    let t = lowered.as_str();
    str_eq_str(t, "/privacy") || str_eq_str(t, "/policy") || contains_str(
        t,
        "\u{43f}\u{43e}\u{43b}\u{438}\u{442}\u{438}\u{43a}",
    ) || contains_str(t, "privacy")
}

/// The link code a message carries: the upper-cased remainder of a `/link`
/// command, or the whole trimmed text when it is exactly six alphanumeric
/// characters.
pub open spec fn link_code_of(text: Seq<char>) -> Option<Seq<char>> {
    let t = trimmed(text);
    if starts_with_seq(t, "/link "@) {
        Some(upper_seq(trimmed(t.skip(6))))
    } else if t.len() == 6 && (forall|i: int| 0 <= i < t.len() ==> is_ascii_alnum_char(
        #[trigger] t[i],
    )) {
        Some(upper_seq(t))
    } else {
        None
    }
}

/// Extracts the link code a message carries, if any.
pub fn parse_link_code(text: &str) -> (r: Option<String>)
    ensures
        opt_string_view(r) == link_code_of(text@),
{
    let t = trim_str(text);
    if starts_with_str(t, "/link ") {
        proof {
            reveal_strlit("/link ");
        }
        let rest = t.substring_char(6, t.unicode_len());
        proof {
            assert(rest@ =~= trimmed(text@).skip(6));
        }
        return Some(upper_string(trim_str(rest)));
    }
    let n = t.unicode_len();
    if n != 6 {
        return None;
    }
    proof {
        reveal_strlit("/link ");
    }
    let mut i: usize = 0;
    while i < n
        invariant
            0 <= i <= n,
            n == 6,
            n == t@.len(),
            t@ == trimmed(text@),
            !starts_with_seq(t@, "/link "@),
            forall|k: int| 0 <= k < i ==> is_ascii_alnum_char(#[trigger] t@[k]),
        decreases n - i,
    {
        if !is_ascii_alnum(t.get_char(i)) {
            assert(!is_ascii_alnum_char(trimmed(text@)[i as int]));
            return None;
        }
        i = i + 1;
    }
    assert(forall|k: int| 0 <= k < t@.len() ==> is_ascii_alnum_char(#[trigger] trimmed(text@)[k]));
    Some(upper_string(t))
}

/// What the worker does with one message, in dispatch order: an embedded
/// mini-app payload is submitted as a receipt; else a privacy command is
/// answered with the canned text; else a link code is consumed; else the
/// generic scan prompt is sent.
pub enum MessageAction {
    WebAppQr(String),
    Privacy,
    LinkCode(String),
    Prompt,
}

/// Classifies one message for dispatch.
pub fn classify_message(msg: &TelegramMessage) -> (r: MessageAction)
    ensures
        ({
            let textv = match msg.text {
                Some(t) => t@,
                None => Seq::<char>::empty(),
            };
            match msg.web_app_data {
                Some(w) => r matches MessageAction::WebAppQr(q) && q@ == w.data@,
                None => if privacy_query(textv) {
                    r == MessageAction::Privacy
                } else if link_code_of(textv) is Some {
                    r matches MessageAction::LinkCode(c) && Some(c@) == link_code_of(textv)
                } else {
                    r == MessageAction::Prompt
                },
            }
        }),
{
    if let Some(w) = &msg.web_app_data {
        return MessageAction::WebAppQr(w.data.clone());
    }
    let empty = String::new();
    let text = match &msg.text {
        Some(t) => t,
        None => &empty,
    };
    if is_privacy_query(text.as_str()) {
        return MessageAction::Privacy;
    }
    match parse_link_code(text.as_str()) {
        Some(code) => MessageAction::LinkCode(code),
        None => MessageAction::Prompt,
    }
}

/// The submitter label a mini-app submission is recorded under: the sender's
/// chat username, else their numeric chat id, else a fixed label.
pub open spec fn webapp_submitter(from: Option<TelegramUserModel>) -> Seq<char> {
    match from {
        Some(u) => match u.username {
            Some(un) => un,
            None => crate::text::dec_string(u.id),
        },
        None => "telegram"@,
    }
}

/// Submits a QR payload that arrived through the in-chat mini-app, recorded
/// under the sender's name and the chat-bot source label.
pub fn submit_webapp_qr(
    store: &mut crate::receipt::ReceiptStore,
    qr: &str,
    from: Option<&TelegramUser>,
    received_at: i64,
) -> (r: crate::receipt::SubmitStatus)
    requires
        old(store).wf(),
    ensures
        final(store).wf(),
        (final(store)@, r) == crate::receipt::spec_submit(
            old(store)@,
            qr@,
            webapp_submitter(match from {
                Some(u) => Some(u@),
                None => None,
            }),
            "telegram_bot"@,
            received_at as int,
        ),
{
    let user = match from {
        Some(u) => match &u.username {
            Some(un) => un.clone(),
            None => crate::text::i64_to_string(u.id),
        },
        None => String::from_str("telegram"),
    };
    store.submit(qr, user, String::from_str("telegram_bot"), received_at)
}

/// The update ids of a poll batch.
pub open spec fn batch_ids(updates: Seq<TelegramUpdate>) -> Seq<Option<int>> {
    updates.map_values(
        |u: TelegramUpdate|
            match u.update_id {
                Some(id) => Some(id as int),
                None => None,
            },
    )
}

/// The cursor after reading the first `n` ids of a batch from cursor `off`:
/// each id at or past the running cursor moves it to one past that id.
pub open spec fn batch_ceiling(off: int, ids: Seq<Option<int>>, n: int) -> int
    decreases n,
{
    if n <= 0 {
        off
    } else {
        let prev = batch_ceiling(off, ids, n - 1);
        match ids[n - 1] {
            Some(id) => if id >= prev {
                id + 1
            } else {
                prev
            },
            None => prev,
        }
    }
}

/// The worker's in-memory state: the poll cursor, the token it belongs to,
/// the liveness timestamp, and the bounded operational log. All of it is
/// process-local and resets on restart, cursor included.
pub struct WorkerState {
    pub offset: i64,
    pub last_token: Option<String>,
    pub last_poll_ms: i64,
    pub logs: Vec<LogEntry>,
}

impl WorkerState {
    /// The log never outgrows its ring capacity.
    pub open spec fn wf(&self) -> bool {
        self.logs@.len() <= MAX_LOGS
    }

    /// The log lines, oldest first.
    pub open spec fn logs_model(&self) -> Seq<LogEntryModel> {
        self.logs@.map_values(|e: LogEntry| e@)
    }

    pub fn new() -> (r: WorkerState)
        ensures
            r.offset == 0,
            r.last_token is None,
            r.last_poll_ms == 0,
            r.logs_model() == Seq::<LogEntryModel>::empty(),
            r.wf(),
    {
        let r = WorkerState { offset: 0, last_token: None, last_poll_ms: 0, logs: Vec::new() };
        proof {
            assert(r.logs_model() =~= Seq::<LogEntryModel>::empty());
        }
        r
    }

    /// Reads one settings snapshot: reports whether the worker should poll
    /// (enabled with a token), and resets the cursor when the token is not
    /// the one the cursor belongs to — a new bot identity starts its own
    /// update stream.
    pub fn note_settings(&mut self, enabled: bool, token: &Option<String>) -> (poll: bool)
        ensures
            poll == (enabled && token is Some),
            final(self).last_poll_ms == old(self).last_poll_ms,
            final(self).logs == old(self).logs,
            if poll {
                if opt_string_view(old(self).last_token) != opt_string_view(*token) {
                    final(self).offset == 0 && opt_string_view(final(self).last_token)
                        == opt_string_view(*token)
                } else {
                    final(self).offset == old(self).offset && final(self).last_token == old(
                        self,
                    ).last_token
                }
            } else {
                final(self).offset == old(self).offset && final(self).last_token == old(
                    self,
                ).last_token
            },
    {
        let tok = match token {
            Some(t) => t,
            None => {
                return false;
            },
        };
        if !enabled {
            return false;
        }
        let changed = match &self.last_token {
            Some(prev) => !str_eq_str(prev.as_str(), tok.as_str()),
            None => true,
        };
        if changed {
            self.offset = 0;
            self.last_token = Some(tok.clone());
        }
        true
    }

    /// Takes one successful poll batch: advances the cursor to one past the
    /// greatest update id seen and records the liveness timestamp. Message
    /// dispatch happens elsewhere and has no bearing on the cursor.
    pub fn observe_batch(&mut self, updates: &Vec<TelegramUpdate>, now: i64)
        requires
            forall|k: int|
                0 <= k < updates@.len() && (#[trigger] updates@[k].update_id) is Some
                    ==> updates@[k].update_id->Some_0 < i64::MAX,
        ensures
            final(self).offset as int == batch_ceiling(
                old(self).offset as int,
                batch_ids(updates@),
                updates@.len() as int,
            ),
            final(self).last_poll_ms == now,
            final(self).last_token == old(self).last_token,
            final(self).logs == old(self).logs,
    {
        let ghost ids = batch_ids(updates@);
        let n = updates.len();
        let mut off = self.offset;
        let mut i: usize = 0;
        while i < n
            invariant
                0 <= i <= n,
                n == updates@.len(),
                ids == batch_ids(updates@),
                forall|k: int|
                    0 <= k < updates@.len() && (#[trigger] updates@[k].update_id) is Some
                        ==> updates@[k].update_id->Some_0 < i64::MAX,
                off as int == batch_ceiling(self.offset as int, ids, i as int),
                *self == *old(self),
            decreases n - i,
        {
            if let Some(id) = updates[i].update_id {
                if id >= off {
                    off = id + 1;
                }
            }
            i = i + 1;
        }
        self.offset = off;
        self.last_poll_ms = now;
    }

    /// Appends one line to the operational log, dropping the oldest line
    /// once the ring is full.
    pub fn push_log(&mut self, level: &str, message: &str, now: i64)
        requires
            old(self).wf(),
        ensures
            final(self).wf(),
            final(self).logs_model() == old(self).logs_model().push(
                LogEntryModel { ts_ms: now as int, level: level@, message: message@ },
            ).skip(
                if old(self).logs_model().len() < MAX_LOGS {
                    0
                } else {
                    old(self).logs_model().len() + 1 - (MAX_LOGS as int)
                },
            ),
            final(self).offset == old(self).offset,
            final(self).last_token == old(self).last_token,
            final(self).last_poll_ms == old(self).last_poll_ms,
    {
        let ghost pre = self.logs_model();
        if self.logs.len() >= MAX_LOGS {
            self.logs.remove(0);
            proof {
                assert(self.logs_model() =~= pre.drop_first());
            }
        }
        let entry = LogEntry {
            ts_ms: now,
            level: String::from_str(level),
            message: String::from_str(message),
        };
        let ghost em = entry@;
        self.logs.push(entry);
        proof {
            let full = pre.push(em);
            if pre.len() < MAX_LOGS {
                assert(self.logs_model() =~= full.skip(0));
            } else {
                assert(self.logs_model() =~= full.skip(pre.len() + 1 - (MAX_LOGS as int)));
            }
        }
    }

    /// The status report: polling mirrors the enabled flag, and the liveness
    /// timestamp is reported only once a poll has happened.
    pub fn bot_status(&self, enabled: bool, webhook_enabled: bool) -> (r: BotStatus)
        ensures
            r.enabled == enabled,
            r.webhook_enabled == webhook_enabled,
            r.polling == enabled,
            r.last_poll_ms == if self.last_poll_ms > 0 {
                Some(self.last_poll_ms)
            } else {
                None::<i64>
            },
    {
        BotStatus {
            enabled,
            webhook_enabled,
            polling: enabled,
            last_poll_ms: if self.last_poll_ms > 0 {
                Some(self.last_poll_ms)
            } else {
                None
            },
        }
    }
}

/// The cursor never moves backwards, ends past every id the batch carried,
/// and lands either where it started or exactly one past an id it saw: after
/// a poll it stands one past the greatest id seen, whatever each message's
/// handler did with the message.
pub proof fn lemma_cursor_monotonic(off: int, ids: Seq<Option<int>>, n: int)
    requires
        0 <= n <= ids.len(),
    ensures
        batch_ceiling(off, ids, n) >= off,
        forall|k: int|
            0 <= k < n && (#[trigger] ids[k]) is Some ==> batch_ceiling(off, ids, n) > ids[k]->Some_0,
        batch_ceiling(off, ids, n) == off || exists|k: int|
            0 <= k < n && (#[trigger] ids[k]) == Some(batch_ceiling(off, ids, n) - 1),
    decreases n,
{
    if n > 0 {
        lemma_cursor_monotonic(off, ids, n - 1);
    }
}

} // verus!
