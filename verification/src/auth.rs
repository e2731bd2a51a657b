//! Server-side credential hashing, bearer-token sessions, and the user
//! database with its dirty-persistence discipline.

use vstd::prelude::*;

verus! {

use vstd::seq_lib::*;

use crate::error::Error;
use crate::kv::{keys_unique, kv_map, kv_find, lemma_kv_entry, lemma_kv_update};
use crate::text::{bytes_eq, str_eq};

/// A registration or login request.
pub struct LoginRequest {
    pub user: String,
    pub password: String,
}

/// The bearer credential presented with each authenticated request.
#[derive(Debug)]
pub struct Authentication {
    pub user: String,
    pub token: String,
}

/// The mathematical value of an [`Authentication`].
pub struct AuthenticationV {
    pub user: Seq<char>,
    pub token: Seq<char>,
}

impl View for Authentication {
    type V = AuthenticationV;

    open spec fn view(&self) -> AuthenticationV {
        AuthenticationV { user: self.user@, token: self.token@ }
    }
}

impl Clone for Authentication {
    fn clone(&self) -> (r: Self)
        ensures
            r == *self,
    {
        Authentication { user: self.user.clone(), token: self.token.clone() }
    }
}

/// The parameters a credential was hashed with: an adaptive iteration
/// count and a random salt.
pub struct PasswordConfig {
    pub iterations: u32,
    pub salt: Vec<u8>,
}

/// The mathematical value of a [`PasswordConfig`].
pub struct PasswordConfigV {
    pub iterations: u32,
    pub salt: Seq<u8>,
}

impl View for PasswordConfig {
    type V = PasswordConfigV;

    open spec fn view(&self) -> PasswordConfigV {
        PasswordConfigV { iterations: self.iterations, salt: self.salt@ }
    }
}

/// A stored credential: the derived hash and the parameters that
/// produced it.
pub struct Password {
    pub value: Vec<u8>,
    pub config: PasswordConfig,
}

/// The mathematical value of a stored credential.
pub struct PasswordV {
    pub value: Seq<u8>,
    pub iterations: u32,
    pub salt: Seq<u8>,
}

impl View for Password {
    type V = PasswordV;

    open spec fn view(&self) -> PasswordV {
        PasswordV {
            value: self.value@,
            iterations: self.config.iterations,
            salt: self.config.salt@,
        }
    }
}

impl Clone for Password {
    fn clone(&self) -> (r: Self)
        ensures
            r@ == self@,
    {
        Password {
            value: clone_bytes(&self.value),
            config: PasswordConfig {
                iterations: self.config.iterations,
                salt: clone_bytes(&self.config.salt),
            },
        }
    }
}

/// A point in time, in seconds since the epoch.
#[derive(Clone, Copy, Debug, PartialEq, Eq, Structural)]
pub struct EpochSeconds(pub u64);

/// A bearer token: an opaque random value and its expiry.
#[derive(Debug)]
pub struct Token {
    pub value: String,
    pub expires: EpochSeconds,
}

/// The mathematical value of a [`Token`].
pub struct TokenV {
    pub value: Seq<char>,
    pub expires: u64,
}

impl View for Token {
    type V = TokenV;

    open spec fn view(&self) -> TokenV {
        TokenV { value: self.value@, expires: self.expires.0 }
    }
}

impl Clone for Token {
    fn clone(&self) -> (r: Self)
        ensures
            r == *self,
    {
        Token { value: self.value.clone(), expires: self.expires }
    }
}

/// How long a token stays valid after issuance: one week.
pub const EXPIRY_SECONDS: u64 = 60 * 60 * 24 * 7;


proof fn lemma_live_unfold(tokens: Seq<TokenV>, now: u64)
    requires
        tokens.len() > 0,
    ensures
        live_tokens(tokens, now) == (if tokens.last().expires > now {
            live_tokens(tokens.drop_last(), now).push(tokens.last())
        } else {
            live_tokens(tokens.drop_last(), now)
        }),
{
    reveal_with_fuel(Seq::filter, 2);
}

proof fn lemma_live_member(tokens: Seq<TokenV>, now: u64, i: int)
    requires
        0 <= i < live_tokens(tokens, now).len(),
    ensures
        live_tokens(tokens, now)[i].expires > now,
        exists|j: int| 0 <= j < tokens.len() && tokens[j] == live_tokens(tokens, now)[i],
    decreases tokens.len(),
{
    reveal_with_fuel(Seq::filter, 2);
    if tokens.len() == 0 {
    } else {
        lemma_live_unfold(tokens, now);
        let sub = live_tokens(tokens.drop_last(), now);
        let x = live_tokens(tokens, now)[i];
        if tokens.last().expires > now && i == sub.len() {
            assert(x == tokens.last());
            assert(tokens[tokens.len() - 1] == x);
        } else {
            lemma_live_member(tokens.drop_last(), now, i);
            let j = choose|j: int|
                0 <= j < tokens.drop_last().len() && tokens.drop_last()[j] == sub[i];
            assert(tokens[j] == x);
        }
    }
}

/// The token lifecycle: a token expiring after `now` is valid at `now`
/// the moment it is recorded, and once its expiry has passed, a sweep
/// removes it, so validation no longer finds its value (no other token
/// carrying the same value).
pub proof fn lemma_token_lifecycle(tokens: Seq<TokenV>, t: TokenV, now: u64, later: u64)
    requires
        t.expires > now,
        forall|i: int| 0 <= i < tokens.len() ==> tokens[i].value != t.value,
    ensures
        token_live(tokens.push(t), now, t.value),
        later >= t.expires ==> !token_live(tokens.push(t), later, t.value),
{
    let all = tokens.push(t);
    assert(all.drop_last() =~= tokens);
    assert(all.last() == t);
    lemma_live_unfold(all, now);
    let live_now = live_tokens(all, now);
    assert(live_now == live_tokens(tokens, now).push(t));
    assert(live_now[live_now.len() - 1].value == t.value);
    assert(token_live(all, now, t.value));
    if later >= t.expires && token_live(all, later, t.value) {
        let i = choose|i: int|
            0 <= i < live_tokens(all, later).len() && live_tokens(all, later)[i].value == t.value;
        lemma_live_member(all, later, i);
        let j = choose|j: int| 0 <= j < all.len() && all[j] == live_tokens(all, later)[i];
        if j < tokens.len() {
            assert(tokens[j].value != t.value);
        } else {
            assert(all[j] == t);
            assert(live_tokens(all, later)[i].expires > later);
        }
        assert(false);
    }
}

/// A registered user: one credential and the live tokens.
pub struct User {
    pub password: Password,
    pub tokens: Vec<Token>,
}

/// The mathematical value of a [`User`].
pub struct UserV {
    pub password: PasswordV,
    pub tokens: Seq<TokenV>,
}

/// The views of a token list.
pub open spec fn tokens_view(tokens: Seq<Token>) -> Seq<TokenV> {
    tokens.map_values(|t: Token| t@)
}

impl View for User {
    type V = UserV;

    open spec fn view(&self) -> UserV {
        UserV { password: self.password@, tokens: tokens_view(self.tokens@) }
    }
}

/// What `bcrypt_pbkdf::bcrypt_pbkdf` derives from a passphrase, salt and
/// round count; a function of these alone.
pub uninterp spec fn bcrypt_of(password: Seq<char>, salt: Seq<u8>, rounds: u32) -> Seq<u8>;

/// Relies on `bcrypt_pbkdf::bcrypt_pbkdf`: the 128-byte derived key is a
/// function of passphrase, salt and round count alone, and with a
/// 128-byte output buffer the call fails exactly when the passphrase or
/// the salt is empty or the round count is zero.
#[verifier::external_body]
fn bcrypt_hash(password: &str, salt: &Vec<u8>, rounds: u32) -> (r: Result<Vec<u8>, Error>)
    ensures
        r is Ok <==> (password@.len() > 0 && salt@.len() > 0 && rounds > 0),
        r is Ok ==> r->Ok_0@ == bcrypt_of(password@, salt@, rounds) && r->Ok_0@.len() == 128,
        r is Err ==> r->Err_0 == Error::HashFailure,
{
    let mut output = [0u8; 128];
    match bcrypt_pbkdf::bcrypt_pbkdf(password, salt.as_slice(), rounds, &mut output) {
        Ok(()) => Ok(output.to_vec()),
        Err(_) => Err(Error::HashFailure),
    }
}

/// Relies on `rand::rng` and `rand::Rng::fill_bytes`: `n` bytes from
/// the thread-local generator; nothing is promised of their values.
/// Should the operating system's entropy source fail, the generator
/// aborts the process rather than returning a typed failure.
#[verifier::external_body]
fn random_bytes(n: usize) -> (r: Vec<u8>)
    ensures
        r@.len() == n,
{
    let mut buf = vec![0u8; n];
    rand::Rng::fill_bytes(&mut rand::rng(), &mut buf);
    buf
}

/// What base64's `STANDARD` engine encodes the given bytes to; a
/// function of the input alone.
pub uninterp spec fn b64_std_of(bytes: Seq<u8>) -> Seq<char>;

/// Relies on base64's `STANDARD` engine: the encoding is determined by
/// the input alone and, with padding, holds `4 * ceil(n / 3)` characters.
#[verifier::external_body]
fn b64_std_encode(bytes: &Vec<u8>) -> (r: String)
    ensures
        r@ == b64_std_of(bytes@),
        r@.len() == 4 * ((bytes@.len() + 2) / 3),
{
    base64::Engine::encode(&base64::engine::general_purpose::STANDARD, bytes.as_slice())
}

/// A byte-for-byte copy.
fn clone_bytes(v: &Vec<u8>) -> (r: Vec<u8>)
    ensures
        r@ == v@,
{
    let mut out: Vec<u8> = Vec::new();
    let mut i: usize = 0;
    while i < v.len()
        invariant
            i <= v@.len(),
            out@.len() == i,
            forall|j: int| 0 <= j < i ==> out@[j] == v@[j],
        decreases v@.len() - i,
    {
        out.push(v[i]);
        i += 1;
    }
    proof {
        assert(out@ =~= v@);
    }
    out
}

/// A fresh credential matches the password it was created from.
pub open spec fn cred_of(password: Seq<char>, p: PasswordV) -> bool {
    &&& p.iterations == 10
    &&& p.salt.len() == 16
    &&& p.value == bcrypt_of(password, p.salt, 10)
    &&& p.value.len() == 128
}

impl PasswordConfig {
    /// A fresh configuration: the default round count and a random
    /// 16-byte salt.
    pub fn new() -> (r: PasswordConfig)
        ensures
            r@.iterations == 10,
            r@.salt.len() == 16,
    {
        PasswordConfig { iterations: 10, salt: random_bytes(16) }
    }
}

impl Password {
    /// What validation needs of a stored credential.
    pub open spec fn wf(&self) -> bool {
        self.config.salt@.len() > 0 && self.config.iterations > 0
    }

    /// Hash a password with a fresh random salt.
    ///
    /// Fails only when the hash cannot be computed, which with the fixed
    /// parameters happens exactly for an empty password.
    pub fn new(password: &str) -> (r: Result<Password, Error>)
        ensures
            r is Ok <==> password@.len() > 0,
            r is Ok ==> r->Ok_0.wf() && cred_of(password@, r->Ok_0@),
            r is Err ==> r->Err_0 == Error::HashFailure,
    {
        let config = PasswordConfig::new();
        match bcrypt_hash(password, &config.salt, config.iterations) {
            Ok(value) => Ok(Password { value, config }),
            Err(e) => Err(e),
        }
    }

    /// Re-derive with the stored parameters and compare byte for byte.
    ///
    /// A mismatch is an authentication failure, reported as `Ok(false)`;
    /// only a failed hash computation (an empty password) is an error.
    pub fn validate(&self, password: &str) -> (r: Result<bool, Error>)
        requires
            self.wf(),
        ensures
            r is Ok <==> password@.len() > 0,
            r is Ok ==> (r->Ok_0 <==> bcrypt_of(password@, self@.salt, self@.iterations)
                == self@.value),
            r is Err ==> r->Err_0 == Error::HashFailure,
    {
        match bcrypt_hash(password, &self.config.salt, self.config.iterations) {
            Ok(h) => Ok(bytes_eq(&h, &self.value)),
            Err(e) => Err(e),
        }
    }
}

impl Token {
    /// Issue a token: a random 64-byte value, encoded, expiring one week
    /// from `now`.
    pub fn new(now: EpochSeconds) -> (r: Token)
        requires
            now.0 + EXPIRY_SECONDS <= u64::MAX,
        ensures
            r@.expires == now.0 + EXPIRY_SECONDS,
            r@.value.len() == 88,
            exists|bs: Seq<u8>| bs.len() == 64 && r@.value == b64_std_of(bs),
    {
        let bytes = random_bytes(64);
        let value = b64_std_encode(&bytes);
        proof {
            assert(value@ == b64_std_of(bytes@));
        }
        Token { value, expires: EpochSeconds(now.0 + EXPIRY_SECONDS) }
    }
}

/// The tokens that survive a sweep at time `now`: exactly those not yet
/// expired.
pub open spec fn live_tokens(tokens: Seq<TokenV>, now: u64) -> Seq<TokenV> {
    tokens.filter(|t: TokenV| t.expires > now)
}

/// Whether a token value is among the live tokens.
pub open spec fn token_live(tokens: Seq<TokenV>, now: u64, value: Seq<char>) -> bool {
    exists|i: int|
        0 <= i < live_tokens(tokens, now).len() && live_tokens(tokens, now)[i].value == value
}

impl User {
    /// A user with no sessions yet.
    pub fn new(password: Password) -> (r: User)
        ensures
            r@.password == password@,
            r@.tokens == Seq::<TokenV>::empty(),
    {
        let r = User { password, tokens: Vec::new() };
        proof {
            assert(tokens_view(r.tokens@) =~= Seq::<TokenV>::empty());
        }
        r
    }

    /// Sweep the token collection in place, retaining only unexpired
    /// tokens, in order.
    pub fn expire_tokens(&mut self, now: EpochSeconds)
        ensures
            final(self).password == old(self).password,
            final(self)@.tokens == live_tokens(old(self)@.tokens, now.0),
    {
        let mut kept: Vec<Token> = Vec::new();
        let mut i: usize = 0;
        proof {
            assert(tokens_view(old(self).tokens@.take(0)) =~= Seq::<TokenV>::empty());
            reveal_with_fuel(Seq::filter, 2);
            assert(live_tokens(Seq::<TokenV>::empty(), now.0) =~= Seq::<TokenV>::empty());
        }
        while i < self.tokens.len()
            invariant
                self.tokens@ == old(self).tokens@,
                self.password == old(self).password,
                i <= self.tokens@.len(),
                tokens_view(kept@) == live_tokens(
                    tokens_view(self.tokens@.take(i as int)),
                    now.0,
                ),
            decreases self.tokens@.len() - i,
        {
            let ghost prefix = tokens_view(self.tokens@.take(i as int));
            let ghost next = tokens_view(self.tokens@.take(i as int + 1));
            proof {
                assert(self.tokens@.take(i as int + 1).drop_last() =~= self.tokens@.take(
                    i as int,
                ));
                assert(next.drop_last() =~= prefix);
                assert(next.len() > 0);
                assert(next.last() == self.tokens@[i as int]@);
            }
            if self.tokens[i].expires.0 > now.0 {
                let ghost before = tokens_view(kept@);
                kept.push(self.tokens[i].clone());
                proof {
                    reveal_with_fuel(Seq::filter, 2);
                    assert(next.last().expires > now.0);
                    assert(live_tokens(next, now.0) == live_tokens(prefix, now.0).push(
                        next.last(),
                    ));
                    assert(tokens_view(kept@) =~= before.push(next.last()));
                }
            } else {
                proof {
                    reveal_with_fuel(Seq::filter, 2);
                    assert(!(next.last().expires > now.0));
                    assert(live_tokens(next, now.0) == live_tokens(prefix, now.0));
                }
            }
            i += 1;
        }
        proof {
            assert(self.tokens@.take(self.tokens@.len() as int) =~= self.tokens@);
        }
        self.tokens = kept;
    }

    /// Validate a presented token value: sweep, then search for an exact
    /// match among the remaining tokens.
    pub fn validate_token(&mut self, token: &str, now: EpochSeconds) -> (r: Result<(), Error>)
        ensures
            final(self).password == old(self).password,
            final(self)@.tokens == live_tokens(old(self)@.tokens, now.0),
            r is Ok <==> token_live(old(self)@.tokens, now.0, token@),
            r is Err ==> r->Err_0 == Error::AuthFailure,
    {
        self.expire_tokens(now);
        let mut i: usize = 0;
        while i < self.tokens.len()
            invariant
                self.password == old(self).password,
                self@.tokens == live_tokens(old(self)@.tokens, now.0),
                i <= self.tokens@.len(),
                forall|j: int| 0 <= j < i ==> tokens_view(self.tokens@)[j].value != token@,
            decreases self.tokens@.len() - i,
        {
            if str_eq(self.tokens[i].value.as_str(), token) {
                proof {
                    assert(tokens_view(self.tokens@)[i as int].value == token@);
                }
                return Ok(());
            }
            i += 1;
        }
        Err(Error::AuthFailure)
    }

    /// Sweep, validate the password, and on success issue and record a
    /// fresh token.
    pub fn login(&mut self, password: &str, now: EpochSeconds) -> (r: Result<Token, Error>)
        requires
            old(self).password.wf(),
            now.0 + EXPIRY_SECONDS <= u64::MAX,
        ensures
            final(self).password == old(self).password,
            r is Ok <==> password@.len() > 0 && bcrypt_of(
                password@,
                old(self)@.password.salt,
                old(self)@.password.iterations,
            ) == old(self)@.password.value,
            r is Ok ==> {
                &&& r->Ok_0@.expires == now.0 + EXPIRY_SECONDS
                &&& final(self)@.tokens == live_tokens(old(self)@.tokens, now.0).push(r->Ok_0@)
            },
            r is Err ==> final(self)@.tokens == live_tokens(old(self)@.tokens, now.0),
            r is Err ==> (r->Err_0 == Error::AuthFailure || r->Err_0 == Error::HashFailure),
            r is Err && password@.len() > 0 ==> r->Err_0 == Error::AuthFailure,
            r is Err && password@.len() == 0 ==> r->Err_0 == Error::HashFailure,
    {
        self.expire_tokens(now);
        match self.password.validate(password) {
            Ok(true) => {
                let token = Token::new(now);
                let ghost before = tokens_view(self.tokens@);
                self.tokens.push(token.clone());
                proof {
                    assert(tokens_view(self.tokens@) =~= before.push(token@));
                }
                Ok(token)
            },
            Ok(false) => Err(Error::AuthFailure),
            Err(e) => Err(e),
        }
    }
}


/// Every stored credential in a user table is usable for validation.
pub open spec fn users_wf(s: Seq<(String, User)>) -> bool {
    forall|i: int| 0 <= i < s.len() ==> s[i].1.password.wf()
}

/// The views of a user table, in storage order; dirtiness is equality of
/// these.
pub open spec fn db_view(s: Seq<(String, User)>) -> Seq<(Seq<char>, UserV)> {
    s.map_values(|p: (String, User)| (p.0@, p.1@))
}

fn clone_tokens(v: &Vec<Token>) -> (r: Vec<Token>)
    ensures
        tokens_view(r@) == tokens_view(v@),
{
    let mut out: Vec<Token> = Vec::new();
    let mut i: usize = 0;
    while i < v.len()
        invariant
            i <= v@.len(),
            out@.len() == i,
            forall|j: int| 0 <= j < i ==> out@[j] == v@[j],
        decreases v@.len() - i,
    {
        out.push(v[i].clone());
        i += 1;
    }
    proof {
        assert(tokens_view(out@) =~= tokens_view(v@));
    }
    out
}

impl Clone for User {
    fn clone(&self) -> (r: Self)
        ensures
            r@ == self@,
    {
        User { password: self.password.clone(), tokens: clone_tokens(&self.tokens) }
    }
}

fn clone_users(s: &Vec<(String, User)>) -> (r: Vec<(String, User)>)
    ensures
        r@.len() == s@.len(),
        forall|i: int| 0 <= i < s@.len() ==> r@[i].0@ == s@[i].0@ && r@[i].1@ == s@[i].1@,
        db_view(r@) == db_view(s@),
{
    let mut out: Vec<(String, User)> = Vec::new();
    let mut i: usize = 0;
    while i < s.len()
        invariant
            i <= s@.len(),
            out@.len() == i,
            forall|j: int| 0 <= j < i ==> out@[j].0@ == s@[j].0@ && out@[j].1@ == s@[j].1@,
        decreases s@.len() - i,
    {
        out.push((s[i].0.clone(), s[i].1.clone()));
        i += 1;
    }
    proof {
        assert(db_view(out@) =~= db_view(s@));
    }
    out
}

fn token_eq(a: &Token, b: &Token) -> (r: bool)
    ensures
        r == (a@ == b@),
{
    str_eq(a.value.as_str(), b.value.as_str()) && a.expires.0 == b.expires.0
}

fn user_eq(a: &User, b: &User) -> (r: bool)
    ensures
        r == (a@ == b@),
{
    if !bytes_eq(&a.password.value, &b.password.value) {
        return false;
    }
    if a.password.config.iterations != b.password.config.iterations {
        return false;
    }
    if !bytes_eq(&a.password.config.salt, &b.password.config.salt) {
        return false;
    }
    if a.tokens.len() != b.tokens.len() {
        proof {
            assert(tokens_view(a.tokens@).len() == a.tokens@.len());
            assert(tokens_view(b.tokens@).len() == b.tokens@.len());
        }
        return false;
    }
    let mut i: usize = 0;
    while i < a.tokens.len()
        invariant
            a.tokens@.len() == b.tokens@.len(),
            i <= a.tokens@.len(),
            forall|j: int| 0 <= j < i ==> tokens_view(a.tokens@)[j] == tokens_view(b.tokens@)[j],
        decreases a.tokens@.len() - i,
    {
        if !token_eq(&a.tokens[i], &b.tokens[i]) {
            proof {
                assert(tokens_view(a.tokens@)[i as int] != tokens_view(b.tokens@)[i as int]);
            }
            return false;
        }
        i += 1;
    }
    proof {
        assert(tokens_view(a.tokens@) =~= tokens_view(b.tokens@));
    }
    true
}

fn users_eq(a: &Vec<(String, User)>, b: &Vec<(String, User)>) -> (r: bool)
    ensures
        r == (db_view(a@) == db_view(b@)),
{
    if a.len() != b.len() {
        proof {
            assert(db_view(a@).len() == a@.len());
            assert(db_view(b@).len() == b@.len());
        }
        return false;
    }
    let mut i: usize = 0;
    while i < a.len()
        invariant
            a@.len() == b@.len(),
            i <= a@.len(),
            forall|j: int| 0 <= j < i ==> db_view(a@)[j] == db_view(b@)[j],
        decreases a@.len() - i,
    {
        if !str_eq(a[i].0.as_str(), b[i].0.as_str()) {
            proof {
                assert(db_view(a@)[i as int] != db_view(b@)[i as int]);
            }
            return false;
        }
        if !user_eq(&a[i].1, &b[i].1) {
            proof {
                assert(db_view(a@)[i as int] != db_view(b@)[i as int]);
            }
            return false;
        }
        i += 1;
    }
    proof {
        assert(db_view(a@) =~= db_view(b@));
    }
    true
}

/// The process-wide user database: the live table, the last-persisted
/// snapshot, and the storage collaborator.
pub struct UserDB<P: crate::storage::Persistence> {
    pub users: Vec<(String, User)>,
    pub stored_users: Vec<(String, User)>,
    pub persistence: P,
}

impl<P: crate::storage::Persistence> UserDB<P> {
    /// Unique usernames, and every credential usable.
    pub open spec fn wf(&self) -> bool {
        keys_unique(self.users@) && users_wf(self.users@)
    }

    /// The in-memory table differs from the last-persisted snapshot.
    pub open spec fn dirty_spec(&self) -> bool {
        db_view(self.users@) != db_view(self.stored_users@)
    }

    /// The map the table denotes.
    pub open spec fn user_map(&self) -> Map<Seq<char>, UserV> {
        kv_map(self.users@)
    }

    /// Wrap an already-loaded user table: the database holds exactly
    /// that table, the snapshot equals it, and so the fresh database is
    /// clean.
    pub fn from_table(users: Vec<(String, User)>, persistence: P) -> (r: UserDB<P>)
        requires
            keys_unique(users@),
            users_wf(users@),
        ensures
            r.wf(),
            r.users == users,
            db_view(r.stored_users@) == db_view(r.users@),
            !r.dirty_spec(),
            r.persistence == persistence,
    {
        let stored_users = clone_users(&users);
        UserDB { users, stored_users, persistence }
    }

    /// Start from whatever the collaborator has stored, or empty; the
    /// loaded table becomes the database's state and its snapshot, so
    /// the fresh database is clean.
    pub fn new(persistence: P) -> (r: Result<UserDB<P>, Error>)
        ensures
            r is Ok ==> r->Ok_0.wf() && !r->Ok_0.dirty_spec(),
            r is Err ==> r->Err_0 == Error::PersistenceFailure,
    {
        let mut persistence = persistence;
        let users: Vec<(String, User)> = match persistence.load_users() {
            Ok(Some(u)) => u,
            Ok(None) => Vec::new(),
            Err(_) => {
                return Err(Error::PersistenceFailure);
            },
        };
        Ok(UserDB::from_table(users, persistence))
    }

    /// Whether a write is owed: the table is compared structurally with
    /// the snapshot.
    pub fn is_dirty(&self) -> (r: bool)
        ensures
            r == self.dirty_spec(),
    {
        !users_eq(&self.users, &self.stored_users)
    }

    /// Write through the collaborator exactly when dirty, then refresh
    /// the snapshot; reports whether a write happened. A clean database
    /// involves no outside call, so there the call always succeeds.
    pub fn autosave(&mut self) -> (r: Result<bool, Error>)
        ensures
            final(self).users == old(self).users,
            !old(self).dirty_spec() ==> r is Ok && r->Ok_0 == false,
            match r {
                Ok(wrote) => {
                    &&& wrote == old(self).dirty_spec()
                    &&& db_view(final(self).stored_users@) == db_view(final(self).users@)
                },
                Err(e) => {
                    &&& e == Error::PersistenceFailure
                    &&& final(self).stored_users == old(self).stored_users
                },
            },
    {
        if self.is_dirty() {
            match self.persistence.save_users(&self.users) {
                Ok(()) => {
                    self.stored_users = clone_users(&self.users);
                    Ok(true)
                },
                Err(_) => Err(Error::PersistenceFailure),
            }
        } else {
            Ok(false)
        }
    }

    /// Store a new user under a fresh username and autosave; an existing
    /// username is a conflict, reported distinctly.
    pub fn register(&mut self, request: &LoginRequest) -> (r: Result<(), Error>)
        requires
            old(self).wf(),
        ensures
            final(self).wf(),
            (r is Err && r->Err_0 == Error::ConflictFailure) <==> kv_map(
                old(self).users@,
            ).contains_key(request.user@),
            !kv_map(old(self).users@).contains_key(request.user@) ==> ((r is Err && r->Err_0
                == Error::HashFailure) <==> request.password@.len() == 0),
            r is Err && (r->Err_0 == Error::ConflictFailure || r->Err_0 == Error::HashFailure)
                ==> final(self).users == old(self).users
                && final(self).stored_users == old(self).stored_users,
            r is Ok || (r is Err && r->Err_0 == Error::PersistenceFailure) ==> exists|p: PasswordV|
                cred_of(request.password@, p) && kv_map(final(self).users@) == kv_map(
                    old(self).users@,
                ).insert(request.user@, UserV { password: p, tokens: Seq::empty() }),
            r is Ok ==> db_view(final(self).stored_users@) == db_view(final(self).users@),
            r is Err && r->Err_0 == Error::PersistenceFailure
                ==> final(self).stored_users == old(self).stored_users,
            r is Err ==> (r->Err_0 == Error::ConflictFailure || r->Err_0 == Error::HashFailure
                || r->Err_0 == Error::PersistenceFailure),
    {
        match kv_find(&self.users, request.user.as_str()) {
            Some(_) => Err(Error::ConflictFailure),
            None => {
                let password = match Password::new(request.password.as_str()) {
                    Ok(p) => p,
                    Err(e) => {
                        return Err(e);
                    },
                };
                let ghost cred = password@;
                let user = User::new(password);
                let name = request.user.clone();
                proof {
                    crate::kv::lemma_kv_push(self.users@, (name, user));
                }
                self.users.push((name, user));
                proof {
                    assert(kv_map(self.users@) == kv_map(old(self).users@).insert(
                        request.user@,
                        UserV { password: cred, tokens: Seq::<TokenV>::empty() },
                    ));
                }
                match self.autosave() {
                    Ok(_) => Ok(()),
                    Err(e) => Err(e),
                }
            },
        }
    }

    /// Find the position of a user's entry; absence is the uniform
    /// authentication failure. Mutation then goes through the position.
    pub fn get_mut(&mut self, username: &str) -> (r: Result<usize, Error>)
        requires
            old(self).wf(),
        ensures
            *final(self) == *old(self),
            match r {
                Ok(i) => i < old(self).users@.len() && old(self).users@[i as int].0@ == username@
                    && kv_map(old(self).users@).contains_key(username@),
                Err(e) => e == Error::AuthFailure && !kv_map(old(self).users@).contains_key(
                    username@,
                ),
            },
    {
        match kv_find(&self.users, username) {
            Some(i) => {
                proof {
                    lemma_kv_entry(self.users@, i as int);
                }
                Ok(i)
            },
            None => Err(Error::AuthFailure),
        }
    }

    /// Sweep the named user's tokens, validate the password, and on
    /// success record and return a fresh token, then autosave. An
    /// unknown user and a bad password fail uniformly.
    pub fn login(&mut self, request: &LoginRequest, now: EpochSeconds) -> (r: Result<Token, Error>)
        requires
            old(self).wf(),
            now.0 + EXPIRY_SECONDS <= u64::MAX,
        ensures
            final(self).wf(),
            !kv_map(old(self).users@).contains_key(request.user@) ==> r is Err && r->Err_0
                == Error::AuthFailure && final(self).users == old(self).users
                && final(self).stored_users == old(self).stored_users,
            kv_map(old(self).users@).contains_key(request.user@) ==> ({
                let u = kv_map(old(self).users@)[request.user@];
                let swept = live_tokens(u.tokens, now.0);
                let matched = request.password@.len() > 0 && bcrypt_of(
                    request.password@,
                    u.password.salt,
                    u.password.iterations,
                ) == u.password.value;
                &&& ((r is Ok || (r is Err && r->Err_0 == Error::PersistenceFailure)) <==> matched)
                &&& r is Ok ==> r->Ok_0@.expires == now.0 + EXPIRY_SECONDS && kv_map(
                    final(self).users@,
                ) == kv_map(old(self).users@).insert(
                    request.user@,
                    UserV { password: u.password, tokens: swept.push(r->Ok_0@) },
                ) && db_view(final(self).stored_users@) == db_view(final(self).users@)
                &&& r is Err ==> final(self).stored_users == old(self).stored_users
                &&& r is Err && r->Err_0 != Error::PersistenceFailure ==> kv_map(
                    final(self).users@,
                ) == kv_map(old(self).users@).insert(
                    request.user@,
                    UserV { password: u.password, tokens: swept },
                )
                &&& r is Err ==> (r->Err_0 == Error::AuthFailure <==> (request.password@.len() > 0
                    && !matched))
                &&& r is Err ==> (r->Err_0 == Error::HashFailure <==> request.password@.len() == 0)
            }),
    {
        let idx = match kv_find(&self.users, request.user.as_str()) {
            None => {
                return Err(Error::AuthFailure);
            },
            Some(i) => i,
        };
        proof {
            lemma_kv_entry(self.users@, idx as int);
            assert(self.users@[idx as int].1.password.wf());
        }
        let entry = self.users.remove(idx);
        let name = entry.0;
        let mut user = entry.1;
        let res = user.login(request.password.as_str(), now);
        self.users.insert(idx, (name, user));
        proof {
            let pair = self.users@[idx as int];
            assert(self.users@ =~= old(self).users@.update(idx as int, pair));
            lemma_kv_update(old(self).users@, idx as int, pair);
            assert forall|j: int| 0 <= j < self.users@.len() implies self.users@[j].1.password.wf()
            by {
                if j != idx as int {
                    assert(self.users@[j] == old(self).users@[j]);
                }
            }
        }
        match res {
            Ok(token) => {
                match self.autosave() {
                    Ok(_) => Ok(token),
                    Err(e) => Err(e),
                }
            },
            Err(e) => Err(e),
        }
    }

    /// Sweep the named user's tokens, then authenticate the presented
    /// bearer token by exact match; every failure is uniform.
    pub fn validate(&mut self, request: &Authentication, now: EpochSeconds) -> (r: Result<
        (),
        Error,
    >)
        requires
            old(self).wf(),
        ensures
            final(self).wf(),
            final(self).stored_users == old(self).stored_users,
            !kv_map(old(self).users@).contains_key(request.user@) ==> r is Err && final(self).users
                == old(self).users,
            kv_map(old(self).users@).contains_key(request.user@) ==> ({
                let u = kv_map(old(self).users@)[request.user@];
                &&& kv_map(final(self).users@) == kv_map(old(self).users@).insert(
                    request.user@,
                    UserV { password: u.password, tokens: live_tokens(u.tokens, now.0) },
                )
                &&& (r is Ok <==> token_live(u.tokens, now.0, request.token@))
            }),
            r is Err ==> r->Err_0 == Error::AuthFailure,
    {
        let idx = match kv_find(&self.users, request.user.as_str()) {
            None => {
                return Err(Error::AuthFailure);
            },
            Some(i) => i,
        };
        proof {
            lemma_kv_entry(self.users@, idx as int);
        }
        let entry = self.users.remove(idx);
        let name = entry.0;
        let mut user = entry.1;
        let res = user.validate_token(request.token.as_str(), now);
        self.users.insert(idx, (name, user));
        proof {
            let pair = self.users@[idx as int];
            assert(self.users@ =~= old(self).users@.update(idx as int, pair));
            lemma_kv_update(old(self).users@, idx as int, pair);
            assert forall|j: int| 0 <= j < self.users@.len() implies self.users@[j].1.password.wf()
            by {
                if j != idx as int {
                    assert(self.users@[j] == old(self).users@[j]);
                }
            }
        }
        res
    }
}

} // verus!
