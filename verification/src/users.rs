//! Application users, as the linking protocol and ratings see them: a
//! username bound to an optional chat identity, with reward points.

use vstd::prelude::*;

use crate::text::str_eq_str;

verus! {

broadcast use vstd::seq_lib::group_to_multiset_ensures;

/// One application user.
pub struct UserRecord {
    pub username: String,
    pub telegram_id: Option<i64>,
    pub telegram_username: Option<String>,
    pub points: i64,
}

pub ghost struct UserRecordModel {
    pub username: Seq<char>,
    pub telegram_id: Option<int>,
    pub telegram_username: Option<Seq<char>>,
    pub points: int,
}

impl View for UserRecord {
    type V = UserRecordModel;

    open spec fn view(&self) -> UserRecordModel {
        UserRecordModel {
            username: self.username@,
            telegram_id: match self.telegram_id {
                Some(id) => Some(id as int),
                None => None,
            },
            telegram_username: crate::operation::opt_string_view(self.telegram_username),
            points: self.points as int,
        }
    }
}

/// The response to starting a link: the code to send in chat and when it
/// expires.
pub struct LinkStartResponse {
    pub code: String,
    pub exp_ms: i64,
}

/// Whether (and to which chat identity) a user is linked.
pub struct LinkStatus {
    pub linked: bool,
    pub telegram_id: Option<i64>,
}

/// A request to grant rating points.
pub struct AwardPoints {
    pub username: String,
    pub delta: i64,
}

/// One row of the user rating: display name and points.
pub struct RatingUser {
    pub name: String,
    pub points: i64,
}

/// Default number of points granted for one verified receipt.
pub fn default_delta() -> (r: i64)
    ensures
        r == 1,
{
    1
}

/// The index of the user named `username`, if any.
pub open spec fn user_index(s: Seq<UserRecordModel>, username: Seq<char>) -> Option<int> {
    if exists|i: int| 0 <= i < s.len() && (#[trigger] s[i].username) == username {
        Some(choose|i: int| 0 <= i < s.len() && (#[trigger] s[i].username) == username)
    } else {
        None
    }
}

/// The user store.
pub struct UserDirectory {
    pub users: Vec<UserRecord>,
}

impl View for UserDirectory {
    type V = Seq<UserRecordModel>;

    open spec fn view(&self) -> Seq<UserRecordModel> {
        self.users@.map_values(|u: UserRecord| u@)
    }
}

impl UserDirectory {
    /// Usernames are unique.
    pub open spec fn wf(&self) -> bool {
        forall|i: int, j: int|
            0 <= i < j < self@.len() ==> self@[i].username != self@[j].username
    }

    pub fn new() -> (r: UserDirectory)
        ensures
            r@ == Seq::<UserRecordModel>::empty(),
            r.wf(),
    {
        let r = UserDirectory { users: Vec::new() };
        proof {
            assert(r@ =~= Seq::<UserRecordModel>::empty());
        }
        r
    }

    /// Adds a user, refusing a taken username.
    pub fn add_user(&mut self, user: UserRecord) -> (r: bool)
        requires
            old(self).wf(),
        ensures
            final(self).wf(),
            r == (user_index(old(self)@, user.username@) is None),
            r ==> final(self)@ == old(self)@.push(user@),
            !r ==> final(self)@ == old(self)@,
    {
        let ghost um = user@;
        if let Some(_) = self.find_user(user.username.as_str()) {
            return false;
        }
        self.users.push(user);
        proof {
            assert(self@ =~= old(self)@.push(um));
        }
        true
    }

    /// The position of the user named `username`.
    fn find_user(&self, username: &str) -> (r: Option<usize>)
        ensures
            match r {
                Some(i) => i < self@.len() && self@[i as int].username == username@
                    && user_index(self@, username@) is Some,
                None => user_index(self@, username@) is None,
            },
    {
        let n = self.users.len();
        let mut i: usize = 0;
        while i < n
            invariant
                0 <= i <= n,
                n == self@.len(),
                forall|k: int| 0 <= k < i ==> (#[trigger] self@[k].username) != username@,
            decreases n - i,
        {
            if str_eq_str(self.users[i].username.as_str(), username) {
                assert((self@[i as int].username) == username@);
                return Some(i);
            }
            i = i + 1;
        }
        None
    }

    /// Binds the named user to a chat identity, setting the chat username
    /// when one is given. Reports whether a user matched.
    pub fn link_telegram(
        &mut self,
        username: &str,
        chat_id: i64,
        tg_username: Option<&String>,
    ) -> (r: bool)
        requires
            old(self).wf(),
        ensures
            final(self).wf(),
            match user_index(old(self)@, username@) {
                Some(i) => r && final(self)@ == old(self)@.update(
                    i,
                    UserRecordModel {
                        telegram_id: Some(chat_id as int),
                        telegram_username: match tg_username {
                            Some(t) => Some(t@),
                            None => old(self)@[i].telegram_username,
                        },
                        ..old(self)@[i]
                    },
                ),
                None => !r && final(self)@ == old(self)@,
            },
    {
        let idx = match self.find_user(username) {
            Some(i) => i,
            None => {
                return false;
            },
        };
        proof {
            lemma_user_index_unique(self@, username@, idx as int);
        }
        let ghost pre = self@;
        self.users[idx].telegram_id = Some(chat_id);
        match tg_username {
            Some(t) => {
                self.users[idx].telegram_username = Some(t.clone());
            },
            None => {},
        }
        proof {
            assert(self@ =~= pre.update(
                idx as int,
                UserRecordModel {
                    telegram_id: Some(chat_id as int),
                    telegram_username: match tg_username {
                        Some(t) => Some(t@),
                        None => pre[idx as int].telegram_username,
                    },
                    ..pre[idx as int]
                },
            ));
        }
        true
    }

    /// Clears the named user's chat identity. Reports whether a user matched.
    pub fn unlink_telegram(&mut self, username: &str) -> (r: bool)
        requires
            old(self).wf(),
        ensures
            final(self).wf(),
            match user_index(old(self)@, username@) {
                Some(i) => r && final(self)@ == old(self)@.update(
                    i,
                    UserRecordModel { telegram_id: None, ..old(self)@[i] },
                ),
                None => !r && final(self)@ == old(self)@,
            },
    {
        let idx = match self.find_user(username) {
            Some(i) => i,
            None => {
                return false;
            },
        };
        proof {
            lemma_user_index_unique(self@, username@, idx as int);
        }
        let ghost pre = self@;
        self.users[idx].telegram_id = None;
        proof {
            assert(self@ =~= pre.update(
                idx as int,
                UserRecordModel { telegram_id: None, ..pre[idx as int] },
            ));
        }
        true
    }

    /// Whether the named user is linked, and to which chat identity.
    pub fn link_status(&self, username: &str) -> (r: Option<LinkStatus>)
        requires
            self.wf(),
        ensures
            match user_index(self@, username@) {
                Some(i) => match r {
                    Some(st) => st.linked == (self@[i].telegram_id is Some) && (match st.telegram_id {
                        Some(id) => Some(id as int),
                        None => None,
                    }) == self@[i].telegram_id,
                    None => false,
                },
                None => r is None,
            },
    {
        let idx = match self.find_user(username) {
            Some(i) => i,
            None => {
                return None;
            },
        };
        proof {
            lemma_user_index_unique(self@, username@, idx as int);
        }
        let u = &self.users[idx];
        Some(LinkStatus { linked: u.telegram_id.is_some(), telegram_id: u.telegram_id })
    }

    /// Grants `delta` points to the named user, clamping at the integer
    /// bounds. Reports whether a user matched.
    pub fn award_points(&mut self, username: &str, delta: i64) -> (r: bool)
        requires
            old(self).wf(),
        ensures
            final(self).wf(),
            match user_index(old(self)@, username@) {
                Some(i) => r && final(self)@ == old(self)@.update(
                    i,
                    UserRecordModel {
                        points: clamped_add(old(self)@[i].points, delta as int),
                        ..old(self)@[i]
                    },
                ),
                None => !r && final(self)@ == old(self)@,
            },
    {
        let idx = match self.find_user(username) {
            Some(i) => i,
            None => {
                return false;
            },
        };
        proof {
            lemma_user_index_unique(self@, username@, idx as int);
        }
        let ghost pre = self@;
        let p = self.users[idx].points;
        let total = if delta >= 0 {
            if p <= i64::MAX - delta {
                p + delta
            } else {
                i64::MAX
            }
        } else {
            if p >= i64::MIN - delta {
                p + delta
            } else {
                i64::MIN
            }
        };
        self.users[idx].points = total;
        proof {
            assert(self@ =~= pre.update(
                idx as int,
                UserRecordModel { points: clamped_add(pre[idx as int].points, delta as int), ..pre[idx as int] },
            ));
        }
        true
    }
}

pub ghost struct RatingUserModel {
    pub name: Seq<char>,
    pub points: int,
}

impl View for RatingUser {
    type V = RatingUserModel;

    open spec fn view(&self) -> RatingUserModel {
        RatingUserModel { name: self.name@, points: self.points as int }
    }
}

/// Rating rows in descending points order.
pub open spec fn sorted_desc(s: Seq<RatingUserModel>) -> bool {
    forall|i: int, j: int| 0 <= i <= j < s.len() ==> (#[trigger] s[i]).points >= (#[trigger] s[j]).points
}

/// The rating row of one user: the chat username where one is linked, else
/// the account name.
pub open spec fn rating_of(u: UserRecordModel) -> RatingUserModel {
    RatingUserModel {
        name: match u.telegram_username {
            Some(t) => t,
            None => u.username,
        },
        points: u.points,
    }
}

impl UserDirectory {
    /// The user rating: one row per user, ordered by points, highest first.
    pub fn rank_users(&self) -> (r: Vec<RatingUser>)
        ensures
            sorted_desc(r@.map_values(|x: RatingUser| x@)),
            r@.map_values(|x: RatingUser| x@).to_multiset() == self@.map_values(
                |u: UserRecordModel| rating_of(u),
            ).to_multiset(),
    {
        let ghost target = self@.map_values(|u: UserRecordModel| rating_of(u));
        let n = self.users.len();
        let mut out: Vec<RatingUser> = Vec::new();
        let mut i: usize = 0;
        while i < n
            invariant
                0 <= i <= n,
                n == self@.len(),
                target == self@.map_values(|u: UserRecordModel| rating_of(u)),
                sorted_desc(out@.map_values(|x: RatingUser| x@)),
                out@.map_values(|x: RatingUser| x@).to_multiset() == target.take(
                    i as int,
                ).to_multiset(),
            decreases n - i,
        {
            let u = &self.users[i];
            let row = RatingUser {
                name: match &u.telegram_username {
                    Some(t) => t.clone(),
                    None => u.username.clone(),
                },
                points: u.points,
            };
            proof {
                assert(row@ == rating_of(self@[i as int]));
                assert(target.take(i + 1).drop_last() =~= target.take(i as int));
                assert(target.take(i + 1).last() == target[i as int]);
            }
            let ghost pre = out@.map_values(|x: RatingUser| x@);
            let pos = insertion_point(&out, row.points);
            out.insert(pos, row);
            proof {
                let post = out@.map_values(|x: RatingUser| x@);
                assert(post =~= pre.insert(pos as int, rating_of(self@[i as int])));
                assert(pre.insert(pos as int, rating_of(self@[i as int])).to_multiset()
                    == pre.to_multiset().insert(rating_of(self@[i as int])));
                assert(target.take(i + 1) =~= target.take(i as int).push(target[i as int]));
                assert(target.take(i as int).push(target[i as int]).to_multiset()
                    == target.take(i as int).to_multiset().insert(target[i as int]));
            }
            i = i + 1;
        }
        proof {
            assert(target.take(n as int) =~= target);
        }
        out
    }
}

/// The first position whose row has strictly fewer points: inserting there
/// keeps the order and puts equals after those already placed.
fn insertion_point(out: &Vec<RatingUser>, points: i64) -> (r: usize)
    requires
        sorted_desc(out@.map_values(|x: RatingUser| x@)),
    ensures
        r <= out@.len(),
        forall|k: int| 0 <= k < r ==> (#[trigger] out@[k])@.points >= points as int,
        forall|k: int| r <= k < out@.len() ==> (#[trigger] out@[k])@.points < points as int,
{
    let n = out.len();
    let mut i: usize = 0;
    while i < n
        invariant
            0 <= i <= n,
            n == out@.len(),
            sorted_desc(out@.map_values(|x: RatingUser| x@)),
            forall|k: int| 0 <= k < i ==> (#[trigger] out@[k])@.points >= points as int,
        decreases n - i,
    {
        if out[i].points < points {
            assert forall|k: int| i <= k < out@.len() implies (#[trigger] out@[k])@.points
                < points as int by {
                let m = out@.map_values(|x: RatingUser| x@);
                assert(m[k] == out@[k]@);
                assert(m[i as int].points >= m[k].points);
            }
            return i;
        }
        i = i + 1;
    }
    n
}

/// Applies a grant request: a request whose username is blank (empty once
/// trimmed) is refused; otherwise the named user's points grow by the
/// request's delta, and whether a user matched is reported.
pub fn apply_award(dir: &mut UserDirectory, body: &AwardPoints) -> (r: Option<bool>)
    requires
        old(dir).wf(),
    ensures
        final(dir).wf(),
        crate::text::trimmed(body.username@).len() == 0 ==> r is None && final(dir)@ == old(dir)@,
        crate::text::trimmed(body.username@).len() > 0 ==> match user_index(
            old(dir)@,
            body.username@,
        ) {
            Some(i) => r == Some(true) && final(dir)@ == old(dir)@.update(
                i,
                UserRecordModel {
                    points: clamped_add(old(dir)@[i].points, body.delta as int),
                    ..old(dir)@[i]
                },
            ),
            None => r == Some(false) && final(dir)@ == old(dir)@,
        },
{
    let t = crate::text::trim_str(body.username.as_str());
    if t.unicode_len() == 0 {
        return None;
    }
    Some(dir.award_points(body.username.as_str(), body.delta))
}

/// Integer addition clamped to the i64 range.
pub open spec fn clamped_add(a: int, b: int) -> int {
    if a + b > i64::MAX as int {
        i64::MAX as int
    } else if a + b < i64::MIN as int {
        i64::MIN as int
    } else {
        a + b
    }
}

/// With unique usernames, a found position is the found user.
proof fn lemma_user_index_unique(s: Seq<UserRecordModel>, username: Seq<char>, i: int)
    requires
        forall|a: int, b: int| 0 <= a < b < s.len() ==> s[a].username != s[b].username,
        0 <= i < s.len(),
        s[i].username == username,
    ensures
        user_index(s, username) == Some(i),
{
    let j = choose|j: int| 0 <= j < s.len() && (#[trigger] s[j].username) == username;
    assert(s[i].username == username);
    if i < j {
        assert(s[i].username != s[j].username);
    } else if j < i {
        assert(s[j].username != s[i].username);
    }
}

} // verus!
