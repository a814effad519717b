use vstd::prelude::*;

use crate::domain::{SubscriberEmail, SubscriberName};

verus! {

/// Where a subscriber stands: pending until a confirmation link is visited,
/// then confirmed for good.
#[derive(Clone, Copy, Debug, PartialEq, Eq, Structural)]
pub enum SubscriptionStatus {
    PendingConfirmation,
    Confirmed,
}

pub open spec fn status_text(s: SubscriptionStatus) -> Seq<char> {
    match s {
        SubscriptionStatus::PendingConfirmation => "pending_confirmation"@,
        SubscriptionStatus::Confirmed => "confirmed"@,
    }
}

impl SubscriptionStatus {
    /// The name under which the status is stored.
    pub fn as_str(&self) -> (r: &'static str)
        ensures
            r@ == status_text(*self),
    {
        match self {
            SubscriptionStatus::PendingConfirmation => "pending_confirmation",
            SubscriptionStatus::Confirmed => "confirmed",
        }
    }
}

/// A failure of the store.
#[derive(Clone, Copy, Debug, PartialEq, Eq, Structural)]
pub enum StoreError {
    /// The operation names a subscriber id that the store never assigned.
    UnknownSubscriber,
    /// The token was already issued; a token names one subscriber only.
    DuplicateToken,
}

/// One subscriber row.
pub struct Subscriber {
    pub id: u64,
    pub email: String,
    pub name: String,
    pub status: SubscriptionStatus,
    pub subscribed_at: u64,
}

pub ghost struct SubscriberView {
    pub id: u64,
    pub email: Seq<char>,
    pub name: Seq<char>,
    pub status: SubscriptionStatus,
    pub subscribed_at: u64,
}

impl View for Subscriber {
    type V = SubscriberView;

    open spec fn view(&self) -> SubscriberView {
        SubscriberView {
            id: self.id,
            email: self.email@,
            name: self.name@,
            status: self.status,
            subscribed_at: self.subscribed_at,
        }
    }
}

/// One token row: the token and the subscriber it lets confirm.
pub struct TokenRecord {
    pub token: String,
    pub subscriber_id: u64,
}

impl View for TokenRecord {
    type V = (Seq<char>, u64);

    open spec fn view(&self) -> (Seq<char>, u64) {
        (self.token@, self.subscriber_id)
    }
}

/// The contents of a store: subscriber rows in order of creation, and token
/// rows in order of issue.
pub ghost struct StoreView {
    pub subscribers: Seq<SubscriberView>,
    pub tokens: Seq<(Seq<char>, u64)>,
}

/// The subscriber that the first row issued for `t` names, if any.
pub open spec fn first_owner(tokens: Seq<(Seq<char>, u64)>, t: Seq<char>) -> Option<u64>
    decreases tokens.len(),
{
    if tokens.len() == 0 {
        None
    } else if tokens[0].0 == t {
        Some(tokens[0].1)
    } else {
        first_owner(tokens.drop_first(), t)
    }
}

/// A subscriber that `first_owner` names comes from one of the rows.
pub proof fn lemma_first_owner_issued(tokens: Seq<(Seq<char>, u64)>, t: Seq<char>)
    ensures
        first_owner(tokens, t) matches Some(id) ==> exists|k: int|
            0 <= k < tokens.len() && #[trigger] tokens[k] == (t, id),
    decreases tokens.len(),
{
    if tokens.len() > 0 && tokens[0].0 != t {
        lemma_first_owner_issued(tokens.drop_first(), t);
        if let Some(id) = first_owner(tokens, t) {
            let k = choose|k: int| 0 <= k < tokens.drop_first().len() && #[trigger] tokens.drop_first()[k] == (t, id);
            assert(tokens[k + 1] == (t, id));
        }
    }
}

/// A token that `first_owner` does not find appears in no row.
pub proof fn lemma_first_owner_none(tokens: Seq<(Seq<char>, u64)>, t: Seq<char>)
    ensures
        first_owner(tokens, t) is None ==> forall|k: int| 0 <= k < tokens.len() ==> (#[trigger] tokens[k]).0 != t,
    decreases tokens.len(),
{
    if tokens.len() > 0 {
        lemma_first_owner_none(tokens.drop_first(), t);
        if first_owner(tokens, t) is None {
            assert forall|k: int| 0 <= k < tokens.len() implies (#[trigger] tokens[k]).0 != t by {
                if k > 0 {
                    assert(tokens[k] == tokens.drop_first()[k - 1]);
                }
            }
        }
    }
}

/// Issuing one more token leaves the owner of an issued token as it was, and
/// makes the new row's subscriber the owner of a token not issued before.
pub proof fn lemma_first_owner_push(tokens: Seq<(Seq<char>, u64)>, x: (Seq<char>, u64), t: Seq<char>)
    ensures
        first_owner(tokens.push(x), t) == (match first_owner(tokens, t) {
            Some(o) => Some(o),
            None => if x.0 == t {
                Some(x.1)
            } else {
                None
            },
        }),
    decreases tokens.len(),
{
    if tokens.len() > 0 {
        assert(tokens.push(x).drop_first() == tokens.drop_first().push(x));
        lemma_first_owner_push(tokens.drop_first(), x, t);
    } else {
        assert(tokens.push(x).drop_first() == tokens);
    }
}

impl StoreView {
    /// Each subscriber's id is its position, emails are unique, tokens are
    /// unique, and every token names an existing subscriber.
    pub open spec fn wf(self) -> bool {
        &&& forall|i: int| 0 <= i < self.subscribers.len() ==> #[trigger] self.subscribers[i].id == i
        &&& forall|i: int, j: int|
            0 <= i < self.subscribers.len() && 0 <= j < self.subscribers.len() && i != j
                ==> #[trigger] self.subscribers[i].email != #[trigger] self.subscribers[j].email
        &&& forall|k: int| 0 <= k < self.tokens.len() ==> #[trigger] self.tokens[k].1 < self.subscribers.len()
        &&& forall|k: int, l: int|
            0 <= k < self.tokens.len() && 0 <= l < self.tokens.len() && k != l
                ==> #[trigger] self.tokens[k].0 != #[trigger] self.tokens[l].0
    }

    pub open spec fn has_email(self, email: Seq<char>) -> bool {
        exists|i: int| 0 <= i < self.subscribers.len() && #[trigger] self.subscribers[i].email == email
    }

    /// The position of the subscriber with `email`, when there is one.
    pub open spec fn index_of_email(self, email: Seq<char>) -> int {
        choose|i: int| 0 <= i < self.subscribers.len() && #[trigger] self.subscribers[i].email == email
    }

    /// The store after a sign-up of `email`: unchanged when the email is
    /// known, else with a new pending subscriber at the end.
    pub open spec fn upserted(self, email: Seq<char>, name: Seq<char>, at: u64) -> StoreView {
        if self.has_email(email) {
            self
        } else {
            StoreView {
                subscribers: self.subscribers.push(
                    SubscriberView {
                        id: self.subscribers.len() as u64,
                        email,
                        name,
                        status: SubscriptionStatus::PendingConfirmation,
                        subscribed_at: at,
                    },
                ),
                tokens: self.tokens,
            }
        }
    }

    /// The id that a sign-up of `email` resolves to.
    pub open spec fn upserted_id(self, email: Seq<char>) -> u64 {
        if self.has_email(email) {
            self.index_of_email(email) as u64
        } else {
            self.subscribers.len() as u64
        }
    }

    pub open spec fn with_token(self, id: u64, token: Seq<char>) -> StoreView {
        StoreView { subscribers: self.subscribers, tokens: self.tokens.push((token, id)) }
    }

    pub open spec fn token_owner(self, token: Seq<char>) -> Option<u64> {
        first_owner(self.tokens, token)
    }

    pub proof fn lemma_owner_exists(self, token: Seq<char>)
        requires
            self.wf(),
        ensures
            self.token_owner(token) matches Some(id) ==> (id as int) < self.subscribers.len(),
    {
        lemma_first_owner_issued(self.tokens, token);
        if let Some(id) = self.token_owner(token) {
            let k = choose|k: int| 0 <= k < self.tokens.len() && #[trigger] self.tokens[k] == (token, id);
            assert(self.tokens[k].1 < self.subscribers.len());
        }
    }

    pub proof fn lemma_upserted(self, email: Seq<char>, name: Seq<char>, at: u64)
        requires
            self.wf(),
            self.subscribers.len() < u64::MAX,
        ensures
            ({
                let u = self.upserted(email, name, at);
                let id = self.upserted_id(email);
                &&& u.wf()
                &&& (id as int) < u.subscribers.len()
                &&& u.has_email(email)
                &&& u.index_of_email(email) == id
                &&& u.upserted_id(email) == id
                &&& u.tokens == self.tokens
                &&& self.has_email(email) ==> u == self
                &&& !self.has_email(email) ==> u.subscribers.len() == self.subscribers.len() + 1
                    && u.subscribers[id as int].status == SubscriptionStatus::PendingConfirmation
            }),
    {
        let u = self.upserted(email, name, at);
        let n = self.subscribers.len();
        if self.has_email(email) {
            let k = self.index_of_email(email);
            assert(self.subscribers[k].id == k);
        } else {
            assert(u.subscribers[n as int].email == email);
            assert(u.has_email(email));
            let k = u.index_of_email(email);
            if k < n {
                assert(self.subscribers[k].email == email);
            }
            assert forall|i: int| 0 <= i < u.subscribers.len() implies #[trigger] u.subscribers[i].id
                == i by {
                if i < n {
                    assert(u.subscribers[i] == self.subscribers[i]);
                }
            }
            assert forall|i: int, j: int|
                0 <= i < u.subscribers.len() && 0 <= j < u.subscribers.len() && i != j
                    implies #[trigger] u.subscribers[i].email != #[trigger] u.subscribers[j].email by {
                if i < n && j < n {
                    assert(u.subscribers[i] == self.subscribers[i]);
                    assert(u.subscribers[j] == self.subscribers[j]);
                } else if i < n {
                    assert(u.subscribers[i] == self.subscribers[i]);
                } else if j < n {
                    assert(u.subscribers[j] == self.subscribers[j]);
                }
            }
        }
    }

    /// The store after a sign-up of `email` that issued `token`.
    pub open spec fn subscribed(
        self,
        email: Seq<char>,
        name: Seq<char>,
        token: Seq<char>,
        at: u64,
    ) -> StoreView {
        self.upserted(email, name, at).with_token(self.upserted_id(email), token)
    }

    /// A sign-up with a token not issued before: the new token leads to the
    /// subscriber with that email, and every other token keeps its owner.
    pub proof fn lemma_subscribed(self, email: Seq<char>, name: Seq<char>, token: Seq<char>, at: u64)
        requires
            self.wf(),
            self.subscribers.len() < u64::MAX,
            self.token_owner(token) is None,
        ensures
            ({
                let s1 = self.subscribed(email, name, token, at);
                let id = self.upserted_id(email);
                &&& s1.wf()
                &&& (id as int) < s1.subscribers.len()
                &&& s1.has_email(email)
                &&& s1.index_of_email(email) == id
                &&& s1.upserted_id(email) == id
                &&& s1.subscribers[id as int].email == email
                &&& s1.subscribers == self.upserted(email, name, at).subscribers
                &&& s1.tokens.len() == self.tokens.len() + 1
                &&& s1.token_owner(token) == Some(id)
                &&& forall|t: Seq<char>| t != token ==> #[trigger] s1.token_owner(t) == self.token_owner(t)
                &&& self.has_email(email) ==> s1.subscribers == self.subscribers
                &&& !self.has_email(email) ==> s1.subscribers.len() == self.subscribers.len() + 1
                    && s1.subscribers[id as int].name == name
                    && s1.subscribers[id as int].status == SubscriptionStatus::PendingConfirmation
            }),
    {
        let id = self.upserted_id(email);
        self.lemma_upserted(email, name, at);
        let u = self.upserted(email, name, at);
        let s1 = self.subscribed(email, name, token, at);
        lemma_first_owner_none(self.tokens, token);
        lemma_first_owner_push(u.tokens, (token, id), token);
        assert forall|t: Seq<char>| t != token implies #[trigger] s1.token_owner(t) == self.token_owner(t) by {
            lemma_first_owner_push(u.tokens, (token, id), t);
        }
        assert forall|k: int, l: int|
            0 <= k < s1.tokens.len() && 0 <= l < s1.tokens.len() && k != l
                implies #[trigger] s1.tokens[k].0 != #[trigger] s1.tokens[l].0 by {
            if k < u.tokens.len() && l < u.tokens.len() {
                assert(s1.tokens[k] == u.tokens[k]);
                assert(s1.tokens[l] == u.tokens[l]);
            } else if k < u.tokens.len() {
                assert(s1.tokens[k] == u.tokens[k]);
            } else {
                assert(s1.tokens[l] == u.tokens[l]);
            }
        }
        assert forall|k: int| 0 <= k < s1.tokens.len() implies #[trigger] s1.tokens[k].1 < s1.subscribers.len() by {
            if k < u.tokens.len() {
                assert(s1.tokens[k] == u.tokens[k]);
            }
        }
    }

    /// What a read of the row with `email` shows as its status.
    pub open spec fn status_of(self, email: Seq<char>) -> Option<SubscriptionStatus> {
        if self.has_email(email) {
            Some(self.subscribers[self.index_of_email(email)].status)
        } else {
            None
        }
    }

    /// The store once the subscriber `id` is confirmed; an id that no
    /// subscriber has changes nothing.
    pub open spec fn confirmed(self, id: u64) -> StoreView {
        if (id as int) < self.subscribers.len() {
            StoreView {
                subscribers: self.subscribers.update(
                    id as int,
                    SubscriberView { status: SubscriptionStatus::Confirmed, ..self.subscribers[id as int] },
                ),
                tokens: self.tokens,
            }
        } else {
            self
        }
    }
}

/// Subscribers and the tokens issued to them.
pub struct SubscriberStore {
    subscribers: Vec<Subscriber>,
    tokens: Vec<TokenRecord>,
}

impl View for SubscriberStore {
    type V = StoreView;

    closed spec fn view(&self) -> StoreView {
        StoreView {
            subscribers: self.subscribers@.map_values(|s: Subscriber| s@),
            tokens: self.tokens@.map_values(|t: TokenRecord| t@),
        }
    }
}


impl SubscriberStore {
    pub fn new() -> (r: SubscriberStore)
        ensures
            r@.wf(),
            r@.subscribers.len() == 0,
            r@.tokens.len() == 0,
    {
        let r = SubscriberStore { subscribers: Vec::new(), tokens: Vec::new() };
        assert(r@.subscribers =~= Seq::<SubscriberView>::empty());
        r
    }

    /// Records a sign-up: a new subscriber, pending confirmation, when `email`
    /// is new; otherwise nothing changes and the existing subscriber's id is
    /// returned.
    pub fn upsert_pending(
        &mut self,
        email: &SubscriberEmail,
        name: &SubscriberName,
        subscribed_at: u64,
    ) -> (id: u64)
        requires
            old(self)@.wf(),
        ensures
            final(self)@.wf(),
            final(self)@ == old(self)@.upserted(email@, name@, subscribed_at),
            id == old(self)@.upserted_id(email@),
            (id as int) < final(self)@.subscribers.len(),
            final(self)@.subscribers[id as int].email == email@,
    {
        let e = email.as_str().to_owned();
        let ghost v = self@;
        let mut i: usize = 0;
        while i < self.subscribers.len()
            invariant
                self@ == v,
                v.wf(),
                e@ == email@,
                i <= self.subscribers.len(),
                forall|j: int| 0 <= j < i ==> #[trigger] v.subscribers[j].email != e@,
            decreases self.subscribers.len() - i,
        {
            assert(v.subscribers[i as int] == self.subscribers[i as int]@);
            if self.subscribers[i].email.eq(&e) {
                assert(v.subscribers[i as int].email == email@);
                assert(v.has_email(email@));
                let ghost k = v.index_of_email(email@);
                assert(k == i);
                assert(v.subscribers[i as int].id == i);
                return self.subscribers[i].id;
            }
            i = i + 1;
        }
        let id = self.subscribers.len() as u64;
        let row = Subscriber {
            id,
            email: e,
            name: name.as_str().to_owned(),
            status: SubscriptionStatus::PendingConfirmation,
            subscribed_at,
        };
        self.subscribers.push(row);
        assert(self@.subscribers =~= v.upserted(email@, name@, subscribed_at).subscribers);
        id
    }

    pub fn subscriber_count(&self) -> (r: usize)
        ensures
            r == self@.subscribers.len(),
    {
        self.subscribers.len()
    }

    pub fn token_count(&self) -> (r: usize)
        ensures
            r == self@.tokens.len(),
    {
        self.tokens.len()
    }

    /// The row of the subscriber with `email`, if there is one.
    pub fn find_by_email(&self, email: &str) -> (r: Option<&Subscriber>)
        requires
            self@.wf(),
        ensures
            r is Some <==> self@.has_email(email@),
            r matches Some(row) ==> row@ == self@.subscribers[self@.index_of_email(email@)],
    {
        let e = email.to_owned();
        let ghost v = self@;
        let mut i: usize = 0;
        while i < self.subscribers.len()
            invariant
                self@ == v,
                v.wf(),
                e@ == email@,
                i <= self.subscribers.len(),
                forall|j: int| 0 <= j < i ==> #[trigger] v.subscribers[j].email != e@,
            decreases self.subscribers.len() - i,
        {
            assert(v.subscribers[i as int] == self.subscribers[i as int]@);
            if self.subscribers[i].email.eq(&e) {
                assert(v.subscribers[i as int].email == email@);
                assert(v.has_email(email@));
                assert(v.index_of_email(email@) == i);
                return Some(&self.subscribers[i]);
            }
            i = i + 1;
        }
        None
    }

    /// Issues `token` to the subscriber `subscriber_id`. Fails, changing
    /// nothing, when the store has no such subscriber, or else when the token
    /// was already issued.
    pub fn store_token(&mut self, subscriber_id: u64, token: &str) -> (r: Result<(), StoreError>)
        requires
            old(self)@.wf(),
        ensures
            final(self)@.wf(),
            r is Ok <==> (subscriber_id as int) < old(self)@.subscribers.len()
                && old(self)@.token_owner(token@) is None,
            r is Ok ==> final(self)@ == old(self)@.with_token(subscriber_id, token@),
            r is Err ==> final(self)@ == old(self)@,
            r == Err::<(), StoreError>(StoreError::UnknownSubscriber) <==> (subscriber_id as int)
                >= old(self)@.subscribers.len(),
            r == Err::<(), StoreError>(StoreError::DuplicateToken) <==> (subscriber_id as int)
                < old(self)@.subscribers.len() && old(self)@.token_owner(token@) is Some,
    {
        if subscriber_id as usize >= self.subscribers.len() || subscriber_id >= usize::MAX as u64 {
            return Err(StoreError::UnknownSubscriber);
        }
        if self.lookup_subscriber_by_token(token).is_some() {
            return Err(StoreError::DuplicateToken);
        }
        let ghost v = self@;
        proof {
            lemma_first_owner_none(v.tokens, token@);
        }
        self.tokens.push(TokenRecord { token: token.to_owned(), subscriber_id });
        assert(self@.tokens =~= v.tokens.push((token@, subscriber_id)));
        assert forall|k: int, l: int|
            0 <= k < self@.tokens.len() && 0 <= l < self@.tokens.len() && k != l
                implies #[trigger] self@.tokens[k].0 != #[trigger] self@.tokens[l].0 by {
            if k < v.tokens.len() && l < v.tokens.len() {
                assert(self@.tokens[k] == v.tokens[k]);
                assert(self@.tokens[l] == v.tokens[l]);
            } else if k < v.tokens.len() {
                assert(self@.tokens[k] == v.tokens[k]);
            } else {
                assert(self@.tokens[l] == v.tokens[l]);
            }
        }
        Ok(())
    }

    /// The subscriber that `token` was first issued to, if it was issued.
    pub fn lookup_subscriber_by_token(&self, token: &str) -> (r: Option<u64>)
        requires
            self@.wf(),
        ensures
            r == self@.token_owner(token@),
            r matches Some(id) ==> (id as int) < self@.subscribers.len(),
    {
        let t = token.to_owned();
        let ghost v = self@;
        assert(v.tokens.skip(0) =~= v.tokens);
        let mut i: usize = 0;
        while i < self.tokens.len()
            invariant
                self@ == v,
                v.wf(),
                t@ == token@,
                i <= self.tokens.len(),
                first_owner(v.tokens, token@) == first_owner(v.tokens.skip(i as int), token@),
            decreases self.tokens.len() - i,
        {
            assert(v.tokens.skip(i as int)[0] == self.tokens[i as int]@);
            assert(v.tokens.skip(i as int).drop_first() == v.tokens.skip(i + 1));
            if self.tokens[i].token.eq(&t) {
                return Some(self.tokens[i].subscriber_id);
            }
            i = i + 1;
        }
        assert(v.tokens.skip(i as int).len() == 0);
        None
    }

    /// Marks the subscriber `subscriber_id` confirmed; confirming twice is
    /// harmless, and an id that no subscriber has changes nothing.
    pub fn confirm(&mut self, subscriber_id: u64) -> (r: Result<(), StoreError>)
        requires
            old(self)@.wf(),
        ensures
            final(self)@.wf(),
            r is Ok,
            final(self)@ == old(self)@.confirmed(subscriber_id),
    {
        if subscriber_id as usize >= self.subscribers.len() || subscriber_id >= usize::MAX as u64 {
            return Ok(());
        }
        let ghost v = self@;
        let i = subscriber_id as usize;
        self.subscribers[i].status = SubscriptionStatus::Confirmed;
        assert(self@.subscribers =~= v.confirmed(subscriber_id).subscribers);
        Ok(())
    }
}

} // verus!
