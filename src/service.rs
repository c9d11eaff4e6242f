//! The three operations of the service: signup, login, and adding a link on
//! behalf of the holder of a bearer token.

use vstd::prelude::*;

use crate::clock::now_seconds;
use crate::clock::MAX_TIMESTAMP;
use crate::credentials::{argon2_verdict, hash_password, hashable, verify_password, HashedPassword};
use crate::domain::{password_acceptable, Account, Label, Name, Password, Username, URL};
use crate::ids::new_id;
use crate::session::{
    expiry_of, lemma_token_prefix, session_expiry, session_token, token_for, TOKEN_PREFIX,
};
use crate::store::{
    at_url, has_link_id, has_session_id, has_token, has_url, has_user_id, has_username, lemma_count_single, named, url_count, username_count, LabelRow, LinkRow,
    SessionRow, Store, StoreError, StoreModel, UserRow,
};

verus! {

/// How an operation can fail.
#[derive(PartialEq, Eq, Structural, Debug, Clone, Copy)]
pub enum ServiceError {
    /// Malformed or too weak input, found before any write.
    Validation,
    /// A username or URL that is already stored.
    Conflict,
    /// An unknown or expired token, or credentials that do not match.
    Unauthorized,
    /// A failure of the store, the clock or the hasher.
    Internal,
}

/// The HTTP status that reports an error.
pub open spec fn status_of(e: ServiceError) -> u16 {
    match e {
        ServiceError::Validation => 400,
        ServiceError::Conflict => 409,
        ServiceError::Unauthorized => 401,
        ServiceError::Internal => 500,
    }
}

/// The HTTP status that reports an error.
pub fn status_code(e: ServiceError) -> (r: u16)
    ensures
        r == status_of(e),
{
    match e {
        ServiceError::Validation => 400,
        ServiceError::Conflict => 409,
        ServiceError::Unauthorized => 401,
        ServiceError::Internal => 500,
    }
}

/// A signup request.
pub struct CreateAccount {
    pub username: String,
    pub password: String,
}

/// A login request.
pub struct Login {
    pub username: String,
    pub password: String,
}

/// A request to save a link, with an optional name and label.
pub struct NewLink {
    pub url: String,
    pub name: Option<String>,
    pub label: Option<String>,
}

/// The text of an optional string.
pub open spec fn opt_text(o: Option<String>) -> Option<Seq<char>> {
    match o {
        Some(s) => Some(s@),
        None => None,
    }
}

/// `after` is `before` with one account added at the end.
pub open spec fn added_user(
    before: StoreModel,
    after: StoreModel,
    id: u128,
    name: Seq<char>,
    hash: Seq<char>,
    salt: Seq<char>,
) -> bool {
    &&& after.users.len() == before.users.len() + 1
    &&& after.users.drop_last() == before.users
    &&& after.users.last().id == id
    &&& after.users.last().username@ == name
    &&& after.users.last().password_hash@ == hash
    &&& after.users.last().password_salt@ == salt
    &&& after.sessions == before.sessions
    &&& after.links == before.links
    &&& after.labels == before.labels
}

/// `after` is `before` with one session added at the end.
pub open spec fn added_session(
    before: StoreModel,
    after: StoreModel,
    id: u128,
    user_id: u128,
    token: Seq<char>,
    expires_at: int,
) -> bool {
    &&& after.sessions.len() == before.sessions.len() + 1
    &&& after.sessions.drop_last() == before.sessions
    &&& after.sessions.last().id == id
    &&& after.sessions.last().user_id == user_id
    &&& after.sessions.last().token@ == token
    &&& after.sessions.last().expires_at == expires_at
    &&& after.users == before.users
    &&& after.links == before.links
    &&& after.labels == before.labels
}

/// `after` is `before` with the link of `link` added under `link_id` for
/// `user_id`, and its label, if it has one.
pub open spec fn added_link(
    before: StoreModel,
    after: StoreModel,
    link_id: u128,
    user_id: u128,
    link: NewLink,
) -> bool {
    &&& after.links.len() == before.links.len() + 1
    &&& after.links.drop_last() == before.links
    &&& after.links.last().id == link_id
    &&& after.links.last().user_id == user_id
    &&& after.links.last().url@ == link.url@
    &&& opt_text(after.links.last().name) == opt_text(link.name)
    &&& match link.label {
        Some(l) => {
            &&& after.labels.len() == before.labels.len() + 1
            &&& after.labels.drop_last() == before.labels
            &&& after.labels.last().link_id == link_id
            &&& after.labels.last().label@ == l@
        },
        None => after.labels == before.labels,
    }
    &&& after.users == before.users
    &&& after.sessions == before.sessions
}

/// The position of the account with this username (meaningful when there is one).
pub open spec fn user_index(m: StoreModel, name: Seq<char>) -> int {
    choose|i: int| 0 <= i < m.users.len() && (#[trigger] m.users[i]).username@ == name
}

/// Why a login with these credentials is refused, if it is: an unknown
/// username and a wrong password alike are `Unauthorized`; a stored hash that
/// cannot be read is `Internal`.
pub open spec fn login_refusal(m: StoreModel, name: Seq<char>, password: Seq<char>) -> Option<
    ServiceError,
> {
    if !has_username(m.users, name) {
        Some(ServiceError::Unauthorized)
    } else {
        match argon2_verdict(password, m.users[user_index(m, name)].password_hash@) {
            Some(true) => None,
            Some(false) => Some(ServiceError::Unauthorized),
            None => Some(ServiceError::Internal),
        }
    }
}

/// Stores an account with an already hashed password under `id`: a taken
/// username is a conflict, a taken id an internal error.
pub fn register(store: &mut Store, id: u128, username: Username, hashed: HashedPassword) -> (r:
    Result<Account, ServiceError>)
    ensures
        (r matches Err(ServiceError::Conflict)) <==> has_username(old(store)@.users, username@),
        (r matches Err(ServiceError::Internal)) <==> !has_username(old(store)@.users, username@)
            && has_user_id(old(store)@.users, id),
        r matches Err(e) ==> e == ServiceError::Conflict || e == ServiceError::Internal,
        r is Err ==> final(store)@ == old(store)@,
        r matches Ok(a) ==> (a@ == username@ && added_user(
            old(store)@,
            final(store)@,
            id,
            username@,
            hashed.hash@,
            hashed.salt@,
        )),
{
    let row = UserRow {
        id,
        username: username.to_string(),
        password_hash: hashed.hash,
        password_salt: hashed.salt,
    };
    match store.insert_user(row) {
        Ok(()) => {
            assert(store@.users.drop_last() =~= old(store)@.users);
            Ok(Account::new(username))
        },
        Err(StoreError::UniqueViolation) => Err(ServiceError::Conflict),
        Err(_) => Err(ServiceError::Internal),
    }
}

/// The part of a signup that needs no store: validates the request and
/// hashes the password with a fresh salt. It is the slow part, and can run
/// apart from the code that handles requests.
pub fn prepare_signup(create_account: CreateAccount) -> (r: Result<
    (Username, HashedPassword),
    ServiceError,
>)
    ensures
        (r matches Err(ServiceError::Validation)) <==> !password_acceptable(
            create_account.password@,
        ),
        password_acceptable(create_account.password@) && hashable(create_account.password@)
            ==> r is Ok,
        r matches Err(e) ==> e == ServiceError::Validation || e == ServiceError::Internal,
        r matches Ok((u, h)) ==> (u@ == create_account.username@ && argon2_verdict(
            create_account.password@,
            h.hash@,
        ) == Some(true)),
{
    let username = match Username::try_from(create_account.username) {
        Ok(u) => u,
        Err(_) => return Err(ServiceError::Validation),
    };
    let password = match Password::try_from(create_account.password) {
        Ok(p) => p,
        Err(_) => return Err(ServiceError::Validation),
    };
    match hash_password(&password) {
        Some(h) => Ok((username, h)),
        None => Err(ServiceError::Internal),
    }
}

/// Stores a prepared signup under a fresh random id, unless the username is
/// taken. An internal error comes only from a random id that repeats one
/// already stored.
pub fn store_signup(store: &mut Store, username: Username, hashed: HashedPassword) -> (r: Result<
    Account,
    ServiceError,
>)
    ensures
        (r matches Err(ServiceError::Conflict)) <==> has_username(old(store)@.users, username@),
        r is Err ==> final(store)@ == old(store)@,
        !has_username(old(store)@.users, username@) ==> r is Ok || ((r matches Err(
            ServiceError::Internal,
        )) && old(store)@.users.len() > 0),
        r matches Ok(a) ==> (a@ == username@ && exists|id: u128|
            !has_user_id(old(store)@.users, id) && added_user(
                old(store)@,
                final(store)@,
                id,
                username@,
                hashed.hash@,
                hashed.salt@,
            )),
{
    let id = new_id();
    let r = register(store, id, username, hashed);
    proof {
        if has_user_id(old(store)@.users, id) {
            let i = choose|i: int|
                0 <= i < old(store)@.users.len() && (#[trigger] old(store)@.users[i]).id == id;
        }
    }
    r
}

/// Signs a user up: validates the password, hashes it with a fresh salt, and
/// stores the account under a fresh random id unless the username is taken.
pub fn create_user(store: &mut Store, create_account: CreateAccount) -> (r: Result<
    Account,
    ServiceError,
>)
    ensures
        (r matches Err(ServiceError::Validation)) <==> !password_acceptable(
            create_account.password@,
        ),
        r is Err ==> final(store)@ == old(store)@,
        (r matches Err(ServiceError::Conflict)) ==> has_username(
            old(store)@.users,
            create_account.username@,
        ),
        password_acceptable(create_account.password@) && hashable(create_account.password@)
            && has_username(old(store)@.users, create_account.username@) ==> (r matches Err(
            ServiceError::Conflict,
        )),
        password_acceptable(create_account.password@) && hashable(create_account.password@)
            && !has_username(old(store)@.users, create_account.username@) ==> r is Ok || ((r matches Err(
            ServiceError::Internal,
        )) && old(store)@.users.len() > 0),
        r matches Ok(a) ==> (a@ == create_account.username@ && exists|
            id: u128,
            hash: Seq<char>,
            salt: Seq<char>,
        |
            !has_user_id(old(store)@.users, id) && added_user(
                old(store)@,
                final(store)@,
                id,
                create_account.username@,
                hash,
                salt,
            ) && argon2_verdict(create_account.password@, hash) == Some(true)),
{
    let (username, hashed) = match prepare_signup(create_account) {
        Ok(p) => p,
        Err(e) => return Err(e),
    };
    let ghost hash = hashed.hash@;
    let ghost salt = hashed.salt@;
    let r = store_signup(store, username, hashed);
    proof {
        if r is Ok {
            let id = choose|id: u128|
                !has_user_id(old(store)@.users, id) && added_user(
                    old(store)@,
                    store@,
                    id,
                    create_account.username@,
                    hash,
                    salt,
                );
            assert(argon2_verdict(create_account.password@, hash) == Some(true));
        }
    }
    r
}

/// Once a signup of `name` has been stored, the name is taken, so a second
/// signup with it is refused as a conflict; exactly one account holds it.
pub proof fn lemma_username_once(
    before: StoreModel,
    after: StoreModel,
    id: u128,
    name: Seq<char>,
    hash: Seq<char>,
    salt: Seq<char>,
)
    requires
        after.wf(),
        added_user(before, after, id, name, hash, salt),
    ensures
        has_username(after.users, name),
        username_count(after.users, name) == 1,
{
    let k = after.users.len() - 1;
    assert(after.users[k].username@ == name);
    let p = named(name);
    assert forall|i: int| 0 <= i < after.users.len() && #[trigger] p(after.users[i]) implies i
        == k by {
        assert(after.users[i].username@ == after.users[k].username@);
    }
    lemma_count_single(after.users, p, k);
}

/// The account found by `find_user` is the one `user_index` names.
proof fn lemma_found_user(m: StoreModel, name: Seq<char>, i: int)
    requires
        m.wf(),
        0 <= i < m.users.len(),
        m.users[i].username@ == name,
    ensures
        has_username(m.users, name),
        user_index(m, name) == i,
{
    assert(has_username(m.users, name));
    let j = user_index(m, name);
    assert(m.users[i].username@ == m.users[j].username@);
}

/// The session id, or the token made from it, is already stored.
pub open spec fn session_clash(m: StoreModel, session_id: u128) -> bool {
    has_session_id(m.sessions, session_id) || has_token(m.sessions, session_token(session_id))
}

/// Logs a user in at time `now`, issuing the session `session_id` whose token
/// is returned; an unknown username and a wrong password are refused alike.
/// A session id or token that is already stored is an internal error.
pub fn login_with(store: &mut Store, login: &Login, session_id: u128, now: i64) -> (r: Result<
    String,
    ServiceError,
>)
    ensures
        r is Err ==> final(store)@ == old(store)@,
        login_refusal(old(store)@, login.username@, login.password@) matches Some(e) ==> r == Err::<
            String,
            ServiceError,
        >(e),
        login_refusal(old(store)@, login.username@, login.password@) is None && (expiry_of(
            now as int,
        ) > i64::MAX || session_clash(old(store)@, session_id)) ==> r == Err::<
            String,
            ServiceError,
        >(ServiceError::Internal),
        login_refusal(old(store)@, login.username@, login.password@) is None && expiry_of(
            now as int,
        ) <= i64::MAX && !session_clash(old(store)@, session_id) ==> (r matches Ok(t) && t@
            == session_token(session_id) && added_session(
            old(store)@,
            final(store)@,
            session_id,
            old(store)@.users[user_index(old(store)@, login.username@)].id,
            t@,
            expiry_of(now as int),
        )),
{
    let i = match store.find_user(&login.username) {
        Some(i) => i,
        None => return Err(ServiceError::Unauthorized),
    };
    proof {
        lemma_found_user(store@, login.username@, i as int);
    }
    let user = store.user(i);
    let user_id = user.id;
    match verify_password(login.password.as_str(), user.password_hash.as_str()) {
        Some(true) => {},
        Some(false) => return Err(ServiceError::Unauthorized),
        None => return Err(ServiceError::Internal),
    }
    let expires_at = match session_expiry(now) {
        Some(e) => e,
        None => return Err(ServiceError::Internal),
    };
    let token = token_for(session_id);
    let row = SessionRow { id: session_id, user_id, token: token.clone(), expires_at };
    if store.insert_session(row).is_err() {
        return Err(ServiceError::Internal);
    }
    assert(store@.sessions.drop_last() =~= old(store)@.sessions);
    Ok(token)
}

/// Logs a user in now, with a fresh random session id. The token starts with
/// `TOKEN_PREFIX`, and the session is valid from now for `SESSION_DAYS` days.
/// With the right credentials it fails only when the random id, or its
/// token, repeats one already stored.
pub fn login(store: &mut Store, credentials: Login) -> (r: Result<String, ServiceError>)
    ensures
        r is Err ==> final(store)@ == old(store)@,
        login_refusal(old(store)@, credentials.username@, credentials.password@) matches Some(e)
            ==> r == Err::<String, ServiceError>(e),
        login_refusal(old(store)@, credentials.username@, credentials.password@) is None
            ==> r is Ok || ((r matches Err(ServiceError::Internal)) && old(store)@.sessions.len()
            > 0),
        r matches Ok(t) ==> {
            &&& login_refusal(old(store)@, credentials.username@, credentials.password@) is None
            &&& t@.len() >= TOKEN_PREFIX@.len()
            &&& t@.subrange(0, TOKEN_PREFIX@.len() as int) == TOKEN_PREFIX@
            &&& !has_token(old(store)@.sessions, t@)
            &&& exists|id: u128, issued: i64|
                0 <= issued <= MAX_TIMESTAMP && t@ == session_token(id) && !has_session_id(
                    old(store)@.sessions,
                    id,
                ) && added_session(
                    old(store)@,
                    final(store)@,
                    id,
                    old(store)@.users[user_index(old(store)@, credentials.username@)].id,
                    t@,
                    expiry_of(issued as int),
                )
        },
{
    let session_id = new_id();
    let now = now_seconds();
    let r = login_with(store, &credentials, session_id, now);
    proof {
        lemma_token_prefix(session_id);
        if has_session_id(old(store)@.sessions, session_id) {
            let i = choose|i: int|
                0 <= i < old(store)@.sessions.len() && (#[trigger] old(store)@.sessions[i]).id
                    == session_id;
        }
        if has_token(old(store)@.sessions, session_token(session_id)) {
            let i = choose|i: int|
                0 <= i < old(store)@.sessions.len() && (#[trigger] old(store)@.sessions[i]).token@
                    == session_token(session_id);
        }
    }
    r
}

/// The user that a bearer token stands for at time `now`.
pub fn authorize(store: &Store, token: &String, now: i64) -> (r: Result<u128, ServiceError>)
    ensures
        r is Err <==> !store@.token_valid(token@, now),
        r matches Err(e) ==> e == ServiceError::Unauthorized,
        r matches Ok(u) ==> (exists|i: int|
            store@.live_session(token@, now, i) && store@.sessions[i].user_id == u),
{
    match store.session_user(token, now) {
        Some(u) => Ok(u),
        None => Err(ServiceError::Unauthorized),
    }
}

/// Saves a link for the holder of `token` at time `now`, under the id
/// `link_id`, with its label if one is given. The link and its label are
/// written in one unit of work: either both are stored, or nothing is. A
/// link id that is already stored is an internal error.
pub fn add_link_with(
    store: &mut Store,
    token: &String,
    new_link: NewLink,
    link_id: u128,
    now: i64,
) -> (r: Result<NewLink, ServiceError>)
    ensures
        r is Err ==> final(store)@ == old(store)@,
        !old(store)@.token_valid(token@, now) ==> r matches Err(ServiceError::Unauthorized),
        old(store)@.token_valid(token@, now) && has_url(old(store)@.links, new_link.url@)
            ==> r matches Err(ServiceError::Conflict),
        old(store)@.token_valid(token@, now) && !has_url(old(store)@.links, new_link.url@)
            && has_link_id(old(store)@.links, link_id) ==> r matches Err(ServiceError::Internal),
        old(store)@.token_valid(token@, now) && !has_url(old(store)@.links, new_link.url@)
            && !has_link_id(old(store)@.links, link_id) ==> (r matches Ok(l) && l == new_link && exists|i: int|
            old(store)@.live_session(token@, now, i) && added_link(
                old(store)@,
                final(store)@,
                link_id,
                old(store)@.sessions[i].user_id,
                new_link,
            )),
{
    let user_id = match store.session_user(token, now) {
        Some(u) => u,
        None => return Err(ServiceError::Unauthorized),
    };
    let url = match URL::try_from(new_link.url.as_str()) {
        Ok(u) => u,
        Err(_) => return Err(ServiceError::Validation),
    };
    let name = match &new_link.name {
        Some(n) => match Name::try_from(n.as_str()) {
            Ok(n) => Some(n),
            Err(_) => return Err(ServiceError::Validation),
        },
        None => None,
    };
    let label = match &new_link.label {
        Some(l) => match Label::try_from(l.as_str()) {
            Ok(l) => Some(l),
            Err(_) => return Err(ServiceError::Validation),
        },
        None => None,
    };
    let mut tx = store.begin();
    let row = LinkRow {
        id: link_id,
        user_id,
        url: url.to_string(),
        name: match name {
            Some(n) => Some(n.to_string()),
            None => None,
        },
    };
    match tx.insert_link(store, row) {
        Ok(()) => {},
        Err(StoreError::UniqueViolation) => return Err(ServiceError::Conflict),
        Err(_) => return Err(ServiceError::Internal),
    }
    assert(has_link_id(store@.links + tx.pending_links(), link_id)) by {
        let all = store@.links + tx.pending_links();
        assert(all[all.len() - 1].id == link_id);
    }
    match label {
        Some(l) => {
            if tx.insert_label(store, LabelRow { link_id, label: l.to_string() }).is_err() {
                return Err(ServiceError::Internal);
            }
        },
        None => {},
    }
    store.commit(tx);
    proof {
        assert(store@.links.drop_last() =~= old(store)@.links);
        if new_link.label is Some {
            assert(store@.labels.drop_last() =~= old(store)@.labels);
        } else {
            assert(store@.labels =~= old(store)@.labels);
        }
    }
    Ok(new_link)
}

/// Saves a link for the holder of `token`, now, under a fresh random id; the
/// link and its label are stored together or not at all.
pub fn add_link(store: &mut Store, token: &String, new_link: NewLink) -> (r: Result<
    NewLink,
    ServiceError,
>)
    ensures
        r is Err ==> final(store)@ == old(store)@,
        (forall|i: int|
            0 <= i < old(store)@.sessions.len() ==> (#[trigger] old(store)@.sessions[i]).token@
                != token@) ==> r matches Err(ServiceError::Unauthorized),
        r matches Err(ServiceError::Conflict) ==> has_url(old(store)@.links, new_link.url@),
        !(r matches Err(ServiceError::Validation)),
        (r matches Err(ServiceError::Internal)) ==> old(store)@.links.len() > 0,
        r matches Ok(l) ==> (l == new_link && !has_url(old(store)@.links, new_link.url@) && exists|
            i: int,
            link_id: u128,
            now: i64,
        |
            0 <= now <= MAX_TIMESTAMP && !has_link_id(old(store)@.links, link_id)
                && old(store)@.live_session(token@, now, i) && added_link(
                old(store)@,
                final(store)@,
                link_id,
                old(store)@.sessions[i].user_id,
                new_link,
            )),
{
    let link_id = new_id();
    let now = now_seconds();
    let ghost url = new_link.url@;
    let ghost link = new_link;
    let r = add_link_with(store, token, new_link, link_id, now);
    proof {
        if !old(store)@.token_valid(token@, now) {
        } else if has_url(old(store)@.links, url) {
        } else if has_link_id(old(store)@.links, link_id) {
        } else {
            let i = choose|i: int|
                old(store)@.live_session(token@, now, i) && added_link(
                    old(store)@,
                    store@,
                    link_id,
                    old(store)@.sessions[i].user_id,
                    link,
                );
            assert(old(store)@.live_session(token@, now, i));
        }
        if has_link_id(old(store)@.links, link_id) {
            let i = choose|i: int|
                0 <= i < old(store)@.links.len() && (#[trigger] old(store)@.links[i]).id == link_id;
        }
    }
    r
}

/// Once a link has been stored, its URL is taken, so a second add with the
/// same URL, by any user, is refused as a conflict; exactly one link holds it.
pub proof fn lemma_url_once(
    before: StoreModel,
    after: StoreModel,
    link_id: u128,
    user_id: u128,
    link: NewLink,
)
    requires
        after.wf(),
        added_link(before, after, link_id, user_id, link),
    ensures
        has_url(after.links, link.url@),
        url_count(after.links, link.url@) == 1,
{
    let k = after.links.len() - 1;
    assert(after.links[k].url@ == link.url@);
    let p = at_url(link.url@);
    assert forall|i: int| 0 <= i < after.links.len() && #[trigger] p(after.links[i]) implies i
        == k by {
        assert(after.links[i].url@ == after.links[k].url@);
    }
    lemma_count_single(after.links, p, k);
}

} // verus!
