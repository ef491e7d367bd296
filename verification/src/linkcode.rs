//! Account linking: short-lived single-use codes that bind a chat identity
//! to an application account. A code is six upper-case alphanumeric
//! characters, expires fifteen minutes after it is issued, and is consumable
//! at most once and only before its expiry.

use vstd::prelude::*;

use rand::Rng;

use crate::text::str_eq_str;
use crate::users::{LinkStartResponse, UserDirectory};

verus! {

/// How long an issued code stays valid, in milliseconds.
pub const LINK_CODE_TTL_MS: i64 = 900000;

/// The code alphabet: upper-case ASCII letters and digits.
pub open spec fn is_upper_alnum_char(c: char) -> bool {
    ('A' as u32 <= c as u32 && c as u32 <= 'Z' as u32) || ('0' as u32 <= c as u32 && c as u32
        <= '9' as u32)
}

/// Relies on rand's thread_rng sampled through the Alphanumeric
/// distribution, which yields ASCII letters and digits only; the six
/// characters drawn are upper-cased. Two calls may differ.
#[verifier::external_body]
fn sample_code() -> (r: String)
    ensures
        r@.len() == 6,
        forall|i: int| 0 <= i < r@.len() ==> is_upper_alnum_char(#[trigger] r@[i]),
{
    let code: String = rand::thread_rng()
        .sample_iter(&rand::distributions::Alphanumeric)
        .take(6)
        .map(char::from)
        .collect();
    code.to_uppercase()
}

/// One issued link code.
pub struct LinkCode {
    pub code: String,
    pub username: String,
    pub exp_ms: i64,
    pub used: bool,
}

pub ghost struct LinkCodeModel {
    pub code: Seq<char>,
    pub username: Seq<char>,
    pub exp_ms: int,
    pub used: bool,
}

impl View for LinkCode {
    type V = LinkCodeModel;

    open spec fn view(&self) -> LinkCodeModel {
        LinkCodeModel {
            code: self.code@,
            username: self.username@,
            exp_ms: self.exp_ms as int,
            used: self.used,
        }
    }
}

/// A code record consumable at `now_ms`: it matches the text exactly, has
/// not been used, and has not expired.
pub open spec fn consumable(c: LinkCodeModel, code: Seq<char>, now_ms: int) -> bool {
    c.code == code && !c.used && c.exp_ms > now_ms
}

/// The first consumable record carrying `code`, if any.
pub open spec fn find_code(s: Seq<LinkCodeModel>, code: Seq<char>, now_ms: int) -> Option<int>
    decreases s.len(),
{
    if s.len() == 0 {
        None
    } else if consumable(s[0], code, now_ms) {
        Some(0)
    } else {
        match find_code(s.drop_first(), code, now_ms) {
            Some(i) => Some(i + 1),
            None => None,
        }
    }
}

proof fn lemma_find_code_props(s: Seq<LinkCodeModel>, code: Seq<char>, now_ms: int)
    ensures
        match find_code(s, code, now_ms) {
            Some(i) => 0 <= i < s.len() && consumable(s[i], code, now_ms) && forall|k: int|
                0 <= k < i ==> !consumable(#[trigger] s[k], code, now_ms),
            None => forall|k: int| 0 <= k < s.len() ==> !consumable(#[trigger] s[k], code, now_ms),
        },
    decreases s.len(),
{
    if s.len() > 0 && !consumable(s[0], code, now_ms) {
        lemma_find_code_props(s.drop_first(), code, now_ms);
        assert(forall|k: int| 1 <= k < s.len() ==> s.drop_first()[k - 1] == #[trigger] s[k]);
    }
}

/// The store of issued link codes.
pub struct LinkCodeStore {
    pub codes: Vec<LinkCode>,
}

impl View for LinkCodeStore {
    type V = Seq<LinkCodeModel>;

    open spec fn view(&self) -> Seq<LinkCodeModel> {
        self.codes@.map_values(|c: LinkCode| c@)
    }
}

impl LinkCodeStore {
    pub fn new() -> (r: LinkCodeStore)
        ensures
            r@ == Seq::<LinkCodeModel>::empty(),
    {
        let r = LinkCodeStore { codes: Vec::new() };
        proof {
            assert(r@ =~= Seq::<LinkCodeModel>::empty());
        }
        r
    }

    /// Issues a fresh code for `username`, expiring fifteen minutes from
    /// `now_ms`, and stores it unused.
    pub fn issue(&mut self, username: String, now_ms: i64) -> (r: LinkStartResponse)
        requires
            now_ms <= i64::MAX - LINK_CODE_TTL_MS,
        ensures
            r.exp_ms == now_ms + LINK_CODE_TTL_MS,
            r.code@.len() == 6,
            forall|i: int| 0 <= i < r.code@.len() ==> is_upper_alnum_char(#[trigger] r.code@[i]),
            final(self)@ == old(self)@.push(
                LinkCodeModel {
                    code: r.code@,
                    username: username@,
                    exp_ms: now_ms + LINK_CODE_TTL_MS,
                    used: false,
                },
            ),
    {
        let code = sample_code();
        let exp_ms = now_ms + LINK_CODE_TTL_MS;
        let ghost cm = code@;
        let entry = LinkCode { code: code.clone(), username, exp_ms, used: false };
        let ghost em = entry@;
        self.codes.push(entry);
        proof {
            assert(self@ =~= old(self)@.push(em));
        }
        LinkStartResponse { code, exp_ms }
    }

    /// Consumes the first unused, unexpired record matching `code` exactly:
    /// marks it used and returns its bound username. Returns None, changing
    /// nothing, when no such record exists.
    pub fn consume(&mut self, code: &str, now_ms: i64) -> (r: Option<String>)
        ensures
            match find_code(old(self)@, code@, now_ms as int) {
                Some(i) => {
                    &&& r is Some
                    &&& r->Some_0@ == old(self)@[i].username
                    &&& final(self)@ == old(self)@.update(
                        i,
                        LinkCodeModel { used: true, ..old(self)@[i] },
                    )
                },
                None => r is None && final(self)@ == old(self)@,
            },
    {
        proof {
            lemma_find_code_props(self@, code@, now_ms as int);
        }
        let n = self.codes.len();
        let mut i: usize = 0;
        while i < n
            invariant
                0 <= i <= n,
                n == self@.len(),
                *self == *old(self),
                forall|k: int| 0 <= k < i ==> !consumable(#[trigger] self@[k], code@, now_ms as int),
            decreases n - i,
        {
            let c = &self.codes[i];
            if !c.used && c.exp_ms > now_ms && str_eq_str(c.code.as_str(), code) {
                assert(consumable(self@[i as int], code@, now_ms as int));
                let ghost pre = self@;
                let username = self.codes[i].username.clone();
                self.codes[i].used = true;
                proof {
                    assert(self@ =~= pre.update(
                        i as int,
                        LinkCodeModel { used: true, ..pre[i as int] },
                    ));
                    lemma_find_code_first(pre, code@, now_ms as int, i as int);
                }
                return Some(username);
            }
            assert(!consumable(self@[i as int], code@, now_ms as int));
            i = i + 1;
        }
        None
    }
}

/// A position whose record is consumable, with none consumable before it, is
/// what `find_code` returns.
proof fn lemma_find_code_first(s: Seq<LinkCodeModel>, code: Seq<char>, now_ms: int, i: int)
    requires
        0 <= i < s.len(),
        consumable(s[i], code, now_ms),
        forall|k: int| 0 <= k < i ==> !consumable(#[trigger] s[k], code, now_ms),
    ensures
        find_code(s, code, now_ms) == Some(i),
    decreases s.len(),
{
    if i > 0 {
        let rest = s.drop_first();
        assert(forall|k: int| 0 <= k < i - 1 ==> rest[k] == #[trigger] s[k + 1]);
        assert(rest[i - 1] == s[i]);
        lemma_find_code_first(rest, code, now_ms, i - 1);
    }
}

/// Consumes a link code and, on success, binds the chat identity to the
/// code's account: the code is marked used and the bound account, where one
/// exists, gets the chat identity. Reports whether a code was consumed.
pub fn link_account(
    codes: &mut LinkCodeStore,
    users: &mut UserDirectory,
    code: &str,
    chat_id: i64,
    tg_username: Option<&String>,
    now_ms: i64,
) -> (r: bool)
    requires
        old(users).wf(),
    ensures
        final(users).wf(),
        match find_code(old(codes)@, code@, now_ms as int) {
            Some(i) => {
                &&& r
                &&& final(codes)@ == old(codes)@.update(
                    i,
                    LinkCodeModel { used: true, ..old(codes)@[i] },
                )
                &&& match crate::users::user_index(old(users)@, old(codes)@[i].username) {
                    Some(u) => final(users)@ == old(users)@.update(
                        u,
                        crate::users::UserRecordModel {
                            telegram_id: Some(chat_id as int),
                            telegram_username: match tg_username {
                                Some(t) => Some(t@),
                                None => old(users)@[u].telegram_username,
                            },
                            ..old(users)@[u]
                        },
                    ),
                    None => final(users)@ == old(users)@,
                }
            },
            None => !r && final(codes)@ == old(codes)@ && final(users)@ == old(users)@,
        },
{
    match codes.consume(code, now_ms) {
        Some(username) => {
            let _ = users.link_telegram(username.as_str(), chat_id, tg_username);
            true
        },
        None => false,
    }
}

/// A code is consumable exactly once: when no two stored records share a
/// text, a successful consumption leaves no consumable record with that
/// text, so a second attempt fails at any later time.
pub proof fn lemma_code_single_use(
    s: Seq<LinkCodeModel>,
    code: Seq<char>,
    now1: int,
    now2: int,
)
    requires
        forall|a: int, b: int| 0 <= a < b < s.len() ==> s[a].code != s[b].code,
        find_code(s, code, now1) is Some,
    ensures
        ({
            let i = find_code(s, code, now1)->Some_0;
            find_code(s.update(i, LinkCodeModel { used: true, ..s[i] }), code, now2) is None
        }),
{
    lemma_find_code_props(s, code, now1);
    let i = find_code(s, code, now1)->Some_0;
    let s2 = s.update(i, LinkCodeModel { used: true, ..s[i] });
    lemma_find_code_props(s2, code, now2);
    if find_code(s2, code, now2) is Some {
        let j = find_code(s2, code, now2)->Some_0;
        assert(consumable(s2[j], code, now2));
        assert(j != i);
        assert(s2[j] == s[j]);
        assert(s[j].code == code && s[i].code == code);
        if i < j {
            assert(s[i].code != s[j].code);
        } else {
            assert(s[j].code != s[i].code);
        }
    }
}

} // verus!
