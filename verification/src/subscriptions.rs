//! Subscribing: form validation, the random confirmation token, and the
//! rows the subscribe transaction writes. Sending the confirmation email is
//! process-edge work; the link it carries is built here.

use vstd::prelude::*;
use vstd::string::StringExecFns;

use crate::domain::{email_valid, name_valid, SubscriberEmail, SubscriberName};
use crate::store::{store_wf, Store, StoreError, SubscriberModel};

verus! {

/// The subscribe form as the request hands it in.
pub struct FormData {
    pub name: String,
    pub email: String,
}

/// The mathematical image of the subscribe form.
pub struct FormDataModel {
    pub name: Seq<char>,
    pub email: Seq<char>,
}

impl View for FormData {
    type V = FormDataModel;

    open spec fn view(&self) -> FormDataModel {
        FormDataModel { name: self.name@, email: self.email@ }
    }
}

/// Why a subscribe request failed: the form was invalid, or a row it writes
/// already existed.
#[derive(Debug)]
pub enum SubscribeError {
    Validation(String),
    Unexpected(StoreError),
}

/// A validated subscriber-to-be.
pub struct NewSubscriber {
    pub email: SubscriberEmail,
    pub name: SubscriberName,
}

impl NewSubscriber {
    /// Validates the form: the name first, then the address; the first
    /// rejected field is handed back as the error.
    pub fn parse(form: FormData) -> (r: Result<NewSubscriber, String>)
        ensures
            name_valid(form@.name) && email_valid(form@.email) ==> (r matches Ok(ns) && ns.name@
                == form@.name && ns.email@ == form@.email),
            !name_valid(form@.name) ==> (r matches Err(m) && m@ == form@.name),
            name_valid(form@.name) && !email_valid(form@.email) ==> (r matches Err(m) && m@
                == form@.email),
    {
        let FormData { name, email } = form;
        let name = match SubscriberName::parse(name) {
            Ok(n) => n,
            Err(m) => {
                return Err(m);
            },
        };
        let email = match SubscriberEmail::parse(email) {
            Ok(e) => e,
            Err(m) => {
                return Err(m);
            },
        };
        Ok(NewSubscriber { email, name })
    }
}

/// An alphanumeric ASCII character: a-z, A-Z or 0-9.
pub open spec fn alphanumeric_char(c: char) -> bool {
    (97 <= c as u32 <= 122) || (65 <= c as u32 <= 90) || (48 <= c as u32 <= 57)
}

/// Relies on rand's `Alphanumeric` distribution sampled from `thread_rng`
/// (via `char::from` and `to_string`): one character drawn uniformly from
/// a-z, A-Z, 0-9.
#[verifier::external_body]
fn random_alphanumeric() -> (s: String)
    ensures
        s@.len() == 1,
        alphanumeric_char(s@[0]),
{
    char::from(rand::Rng::sample(&mut rand::thread_rng(), rand::distributions::Alphanumeric))
        .to_string()
}

/// Draws a 25-character alphanumeric confirmation token.
pub fn generate_subscription_token() -> (t: String)
    ensures
        t@.len() == 25,
        forall|i: int| 0 <= i < 25 ==> alphanumeric_char(t@[i]),
{
    let mut token = String::new();
    let mut i: usize = 0;
    while i < 25
        invariant
            i <= 25,
            token@.len() == i,
            forall|j: int| 0 <= j < i ==> alphanumeric_char(token@[j]),
        decreases 25 - i,
    {
        let c = random_alphanumeric();
        token.append(c.as_str());
        i = i + 1;
    }
    token
}

/// The address the application is reached under, handed in by the process.
pub struct ApplicationBaseUrl(pub String);

/// The confirmation link mailed to a new subscriber.
pub fn confirmation_link(base_url: &ApplicationBaseUrl, token: &str) -> (r: String)
    ensures
        r@ == base_url.0@ + "/subscriptions/confirm?subscription_token="@ + token@,
{
    let mut link = base_url.0.clone();
    link.append("/subscriptions/confirm?subscription_token=");
    link.append(token);
    link
}

/// One stored confirmation token, keyed by the token text.
pub struct SubscriptionToken {
    pub subscriber_id: u128,
    pub token: String,
}

/// The mathematical image of a stored token.
pub struct TokenModel {
    pub subscriber_id: u128,
    pub token: Seq<char>,
}

impl View for SubscriptionToken {
    type V = TokenModel;

    open spec fn view(&self) -> TokenModel {
        TokenModel { subscriber_id: self.subscriber_id, token: self.token@ }
    }
}

impl DeepView for SubscriptionToken {
    type V = TokenModel;

    open spec fn deep_view(&self) -> TokenModel {
        self.view()
    }
}

/// At most one row per token text.
pub open spec fn tokens_wf(rows: Seq<TokenModel>) -> bool {
    forall|i: int, j: int| 0 <= i < j < rows.len() ==> rows[i].token != rows[j].token
}

/// Whether some row carries `token`.
pub open spec fn has_token(rows: Seq<TokenModel>, token: Seq<char>) -> bool {
    exists|i: int| 0 <= i < rows.len() && rows[i].token == token
}

/// The index of the row carrying `token`; meaningful only when `has_token`
/// holds, and unique under `tokens_wf`.
pub open spec fn token_index(rows: Seq<TokenModel>, token: Seq<char>) -> int {
    choose|i: int| 0 <= i < rows.len() && rows[i].token == token
}

/// The row carrying `token`; meaningful only when `has_token` holds.
pub open spec fn token_at(rows: Seq<TokenModel>, token: Seq<char>) -> TokenModel {
    rows[token_index(rows, token)]
}

/// The subscription-token table.
pub struct TokenStore {
    rows: Vec<SubscriptionToken>,
}

impl View for TokenStore {
    type V = Seq<TokenModel>;

    closed spec fn view(&self) -> Seq<TokenModel> {
        self.rows.deep_view()
    }
}

impl TokenStore {
    pub fn new() -> (s: Self)
        ensures
            s@ == Seq::<TokenModel>::empty(),
            tokens_wf(s@),
    {
        let s = TokenStore { rows: Vec::new() };
        proof {
            assert(s.rows.deep_view() =~= Seq::<TokenModel>::empty());
        }
        s
    }

    /// Linear scan for the row carrying `token`.
    fn find_token(&self, token: &String) -> (r: Option<usize>)
        ensures
            match r {
                Some(i) => i < self@.len() && self@[i as int].token == token@,
                None => !has_token(self@, token@),
            },
    {
        let n = self.rows.len();
        let mut i: usize = 0;
        while i < n
            invariant
                i <= n,
                n == self.rows.len(),
                forall|j: int| 0 <= j < i ==> (#[trigger] self@[j]).token != token@,
            decreases n - i,
        {
            if self.rows[i].token == *token {
                return Some(i);
            }
            i = i + 1;
        }
        None
    }

    /// Stores the confirmation token of a new subscriber, refusing a
    /// duplicate token as the primary key would.
    pub fn store_token(&mut self, subscriber_id: u128, token: String) -> (r: Result<
        (),
        StoreError,
    >)
        requires
            tokens_wf(old(self)@),
        ensures
            tokens_wf(final(self)@),
            match r {
                Ok(()) => !has_token(old(self)@, token@) && final(self)@ == old(self)@.push(
                    TokenModel { subscriber_id, token: token@ },
                ),
                Err(e) => e == StoreError::DuplicateToken && has_token(old(self)@, token@)
                    && final(self)@ == old(self)@,
            },
    {
        match self.find_token(&token) {
            Some(i) => {
                proof {
                    assert(self@[i as int].token == token@);
                }
                Err(StoreError::DuplicateToken)
            },
            None => {
                let ghost prev = self@;
                self.rows.push(SubscriptionToken { subscriber_id, token });
                proof {
                    assert(self@ =~= prev.push(TokenModel { subscriber_id, token: token@ }));
                    assert forall|a: int, b: int| 0 <= a < b < self@.len() implies self@[a].token
                        != self@[b].token by {
                        if b == self@.len() - 1 {
                            assert(prev[a].token != token@);
                        }
                    }
                }
                Ok(())
            },
        }
    }

    /// Looks a token up, as confirming a subscription does.
    pub fn subscriber_id_of(&self, token: &String) -> (r: Option<u128>)
        requires
            tokens_wf(self@),
        ensures
            match r {
                Some(id) => has_token(self@, token@) && token_at(self@, token@).subscriber_id
                    == id,
                None => !has_token(self@, token@),
            },
    {
        match self.find_token(token) {
            None => None,
            Some(i) => {
                proof {
                    lemma_token_index_unique(self@, token@, i as int);
                }
                Some(self.rows[i].subscriber_id)
            },
        }
    }
}

/// Under `tokens_wf`, any index holding `token` is the `token_index`.
pub proof fn lemma_token_index_unique(rows: Seq<TokenModel>, token: Seq<char>, i: int)
    requires
        tokens_wf(rows),
        0 <= i < rows.len(),
        rows[i].token == token,
    ensures
        has_token(rows, token),
        token_index(rows, token) == i,
{
    assert(has_token(rows, token));
    let j = token_index(rows, token);
    assert(0 <= j < rows.len() && rows[j].token == token);
    if i < j {
        assert(rows[i].token != rows[j].token);
    } else if j < i {
        assert(rows[j].token != rows[i].token);
    }
}

/// The subscribe transaction: validate the form, insert the subscriber in
/// `pending_confirmation` status, and store the confirmation token — all or
/// nothing. The caller then mails the confirmation link.
pub fn subscribe(
    store: &mut Store,
    tokens: &mut TokenStore,
    form: FormData,
    now: i64,
    subscriber_id: u128,
    token: String,
) -> (r: Result<(), SubscribeError>)
    requires
        store_wf(old(store)@),
        tokens_wf(old(tokens)@),
    ensures
        store_wf(final(store)@),
        tokens_wf(final(tokens)@),
        final(store)@.idem == old(store)@.idem,
        final(store)@.issues == old(store)@.issues,
        final(store)@.queue == old(store)@.queue,
        match r {
            Ok(()) => name_valid(form@.name) && email_valid(form@.email)
                && final(store)@.subscribers == old(store)@.subscribers.push(
                SubscriberModel {
                    id: subscriber_id,
                    email: form@.email,
                    name: form@.name,
                    subscribed_at: now,
                    confirmed: false,
                },
            ) && final(tokens)@ == old(tokens)@.push(
                TokenModel { subscriber_id, token: token@ },
            ),
            Err(e) => final(store)@ == old(store)@ && final(tokens)@ == old(tokens)@ && (match e {
                SubscribeError::Validation(m) => (!name_valid(form@.name) && m@ == form@.name) || (
                name_valid(form@.name) && !email_valid(form@.email) && m@ == form@.email),
                SubscribeError::Unexpected(se) => name_valid(form@.name) && email_valid(
                    form@.email,
                ) && ((se == StoreError::DuplicateToken && has_token(old(tokens)@, token@)) || (se
                    == StoreError::DuplicateSubscriber && !has_token(old(tokens)@, token@))),
            }),
        },
{
    let new_subscriber = match NewSubscriber::parse(form) {
        Ok(ns) => ns,
        Err(m) => {
            return Err(SubscribeError::Validation(m));
        },
    };
    match tokens.find_token(&token) {
        Some(i) => {
            proof {
                assert(old(tokens)@[i as int].token == token@);
            }
            return Err(SubscribeError::Unexpected(StoreError::DuplicateToken));
        },
        None => (),
    }
    let NewSubscriber { email, name } = new_subscriber;
    let email_string = String::from_str(email.as_str());
    let name_string = String::from_str(name.as_str());
    match store.add_subscriber(subscriber_id, email_string, name_string, now) {
        Ok(()) => (),
        Err(_) => {
            return Err(SubscribeError::Unexpected(StoreError::DuplicateSubscriber));
        },
    }
    match tokens.store_token(subscriber_id, token) {
        Ok(()) => Ok(()),
        Err(_) => {
            proof {
                assert(false);
            }
            Err(SubscribeError::Unexpected(StoreError::DuplicateToken))
        },
    }
}

} // verus!
