//! An in-memory relational store holding the service's four relations, with
//! the uniqueness constraints on usernames and URLs, and a unit of work that
//! makes a link and its label visible together or not at all.

use vstd::prelude::*;

verus! {

/// A row of `users`.
pub struct UserRow {
    pub id: u128,
    pub username: String,
    pub password_hash: String,
    pub password_salt: String,
}

/// A row of `user_sessions`; `expires_at` is in seconds since the Unix epoch.
pub struct SessionRow {
    pub id: u128,
    pub user_id: u128,
    pub token: String,
    pub expires_at: i64,
}

/// A row of `links`.
pub struct LinkRow {
    pub id: u128,
    pub user_id: u128,
    pub url: String,
    pub name: Option<String>,
}

/// A row of `link_labels`.
pub struct LabelRow {
    pub link_id: u128,
    pub label: String,
}

/// Why the store refused a write.
#[derive(PartialEq, Eq, Structural, Debug, Clone, Copy)]
pub enum StoreError {
    /// The write would repeat a value that must be unique.
    UniqueViolation,
    /// The write refers to a row that does not exist.
    ForeignKeyViolation,
    /// The write would repeat the id of a row.
    DuplicateKey,
}

/// The contents of a store: its four relations in order of insertion.
pub struct StoreModel {
    pub users: Seq<UserRow>,
    pub sessions: Seq<SessionRow>,
    pub links: Seq<LinkRow>,
    pub labels: Seq<LabelRow>,
}

/// Some row of `users` has this username.
pub open spec fn has_username(users: Seq<UserRow>, name: Seq<char>) -> bool {
    exists|i: int| 0 <= i < users.len() && (#[trigger] users[i]).username@ == name
}

/// Some row of `users` has this id.
pub open spec fn has_user_id(users: Seq<UserRow>, id: u128) -> bool {
    exists|i: int| 0 <= i < users.len() && (#[trigger] users[i]).id == id
}

/// Some row of `user_sessions` has this id.
pub open spec fn has_session_id(sessions: Seq<SessionRow>, id: u128) -> bool {
    exists|i: int| 0 <= i < sessions.len() && (#[trigger] sessions[i]).id == id
}

/// Some row of `user_sessions` has this token.
pub open spec fn has_token(sessions: Seq<SessionRow>, token: Seq<char>) -> bool {
    exists|i: int| 0 <= i < sessions.len() && (#[trigger] sessions[i]).token@ == token
}

/// No two rows of `users` share an id.
pub open spec fn user_ids_unique(users: Seq<UserRow>) -> bool {
    forall|i: int, j: int|
        0 <= i < users.len() && 0 <= j < users.len() && (#[trigger] users[i]).id
            == (#[trigger] users[j]).id ==> i == j
}

/// No two rows of `user_sessions` share an id or a token.
pub open spec fn sessions_unique(sessions: Seq<SessionRow>) -> bool {
    forall|i: int, j: int|
        0 <= i < sessions.len() && 0 <= j < sessions.len() && ((#[trigger] sessions[i]).id
            == (#[trigger] sessions[j]).id || sessions[i].token@ == sessions[j].token@) ==> i == j
}

/// No two rows of `links` share an id.
pub open spec fn link_ids_unique(links: Seq<LinkRow>) -> bool {
    forall|i: int, j: int|
        0 <= i < links.len() && 0 <= j < links.len() && (#[trigger] links[i]).id
            == (#[trigger] links[j]).id ==> i == j
}

/// Some row of `links` has this URL.
pub open spec fn has_url(links: Seq<LinkRow>, url: Seq<char>) -> bool {
    exists|i: int| 0 <= i < links.len() && (#[trigger] links[i]).url@ == url
}

/// Some row of `links` has this id.
pub open spec fn has_link_id(links: Seq<LinkRow>, id: u128) -> bool {
    exists|i: int| 0 <= i < links.len() && (#[trigger] links[i]).id == id
}

/// No two rows of `users` share a username.
pub open spec fn usernames_unique(users: Seq<UserRow>) -> bool {
    forall|i: int, j: int|
        0 <= i < users.len() && 0 <= j < users.len() && (#[trigger] users[i]).username@
            == (#[trigger] users[j]).username@ ==> i == j
}

/// No two rows of `links` share a URL.
pub open spec fn urls_unique(links: Seq<LinkRow>) -> bool {
    forall|i: int, j: int|
        0 <= i < links.len() && 0 <= j < links.len() && (#[trigger] links[i]).url@
            == (#[trigger] links[j]).url@ ==> i == j
}

/// Every label refers to a link of `links`.
pub open spec fn labels_attached(links: Seq<LinkRow>, labels: Seq<LabelRow>) -> bool {
    forall|k: int| 0 <= k < labels.len() ==> has_link_id(links, (#[trigger] labels[k]).link_id)
}

/// Number of elements of `s` that satisfy `p`.
pub open spec fn count_where<T>(s: Seq<T>, p: spec_fn(T) -> bool) -> nat
    decreases s.len(),
{
    if s.len() == 0 {
        0
    } else {
        count_where(s.drop_last(), p) + if p(s.last()) {
            1nat
        } else {
            0nat
        }
    }
}

/// The rows of `users` with this username.
pub open spec fn named(name: Seq<char>) -> spec_fn(UserRow) -> bool {
    |u: UserRow| u.username@ == name
}

/// The rows of `links` with this URL.
pub open spec fn at_url(url: Seq<char>) -> spec_fn(LinkRow) -> bool {
    |l: LinkRow| l.url@ == url
}

/// Number of accounts with this username.
pub open spec fn username_count(users: Seq<UserRow>, name: Seq<char>) -> nat {
    count_where(users, named(name))
}

/// Number of links with this URL.
pub open spec fn url_count(links: Seq<LinkRow>, url: Seq<char>) -> nat {
    count_where(links, at_url(url))
}

/// A sequence in which exactly one element satisfies `p` counts one such element.
pub proof fn lemma_count_single<T>(s: Seq<T>, p: spec_fn(T) -> bool, k: int)
    requires
        0 <= k < s.len(),
        p(s[k]),
        forall|i: int| 0 <= i < s.len() && #[trigger] p(s[i]) ==> i == k,
    ensures
        count_where(s, p) == 1,
    decreases s.len(),
{
    if k == s.len() - 1 {
        lemma_count_none(s.drop_last(), p);
    } else {
        assert forall|i: int| 0 <= i < s.drop_last().len() && #[trigger] p(s.drop_last()[i]) implies i
            == k by {
            assert(p(s[i]));
        }
        assert(!p(s[s.len() - 1]));
        lemma_count_single(s.drop_last(), p, k);
    }
}

/// A sequence with no element satisfying `p` counts none.
pub proof fn lemma_count_none<T>(s: Seq<T>, p: spec_fn(T) -> bool)
    requires
        forall|i: int| 0 <= i < s.len() ==> !p(#[trigger] s[i]),
    ensures
        count_where(s, p) == 0,
    decreases s.len(),
{
    if s.len() > 0 {
        assert(!p(s[s.len() - 1]));
        assert forall|i: int| 0 <= i < s.drop_last().len() implies !p(#[trigger] s.drop_last()[i]) by {
            assert(!p(s[i]));
        }
        lemma_count_none(s.drop_last(), p);
    }
}

impl StoreModel {
    /// The store after the given links and labels are added at the end.
    pub open spec fn with_writes(self, links: Seq<LinkRow>, labels: Seq<LabelRow>) -> StoreModel {
        StoreModel { links: self.links + links, labels: self.labels + labels, ..self }
    }

    /// The constraints of the schema hold.
    pub open spec fn wf(self) -> bool {
        &&& usernames_unique(self.users)
        &&& user_ids_unique(self.users)
        &&& sessions_unique(self.sessions)
        &&& urls_unique(self.links)
        &&& link_ids_unique(self.links)
        &&& labels_attached(self.links, self.labels)
    }

    /// The user id of a session with this token that has not expired at `now`.
    pub open spec fn live_session(self, token: Seq<char>, now: i64, i: int) -> bool {
        0 <= i < self.sessions.len() && self.sessions[i].token@ == token && now
            < self.sessions[i].expires_at
    }

    /// Some session with this token has not expired at `now`.
    pub open spec fn token_valid(self, token: Seq<char>, now: i64) -> bool {
        exists|i: int| self.live_session(token, now, i)
    }
}

/// The four relations, kept in vectors.
pub struct Store {
    users: Vec<UserRow>,
    sessions: Vec<SessionRow>,
    links: Vec<LinkRow>,
    labels: Vec<LabelRow>,
}

impl View for Store {
    type V = StoreModel;

    closed spec fn view(&self) -> StoreModel {
        StoreModel {
            users: self.users@,
            sessions: self.sessions@,
            links: self.links@,
            labels: self.labels@,
        }
    }
}

impl Store {
    /// The schema's constraints hold of every store.
    #[verifier::type_invariant]
    spec fn well_formed(&self) -> bool {
        self@.wf()
    }

    /// An empty store.
    pub fn new() -> (r: Store)
        ensures
            r@.users.len() == 0,
            r@.sessions.len() == 0,
            r@.links.len() == 0,
            r@.labels.len() == 0,
            r@.wf(),
    {
        Store { users: Vec::new(), sessions: Vec::new(), links: Vec::new(), labels: Vec::new() }
    }

    /// Number of accounts.
    pub fn user_count(&self) -> (r: usize)
        ensures
            r == self@.users.len(),
            self@.wf(),
    {
        proof {
            use_type_invariant(self);
        }
        self.users.len()
    }

    /// Number of sessions.
    pub fn session_count(&self) -> (r: usize)
        ensures
            r == self@.sessions.len(),
            self@.wf(),
    {
        proof {
            use_type_invariant(self);
        }
        self.sessions.len()
    }

    /// Number of links.
    pub fn link_count(&self) -> (r: usize)
        ensures
            r == self@.links.len(),
            self@.wf(),
    {
        proof {
            use_type_invariant(self);
        }
        self.links.len()
    }

    /// Number of labels.
    pub fn label_count(&self) -> (r: usize)
        ensures
            r == self@.labels.len(),
            self@.wf(),
    {
        proof {
            use_type_invariant(self);
        }
        self.labels.len()
    }

    /// Whether some link has this URL.
    pub fn has_url(&self, url: &String) -> (r: bool)
        ensures
            r == has_url(self@.links, url@),
            self@.wf(),
    {
        proof {
            use_type_invariant(self);
        }
        url_taken(&self.links, url)
    }

    /// The position of the account with this username, if there is one.
    pub fn find_user(&self, username: &String) -> (r: Option<usize>)
        ensures
            r is None <==> !has_username(self@.users, username@),
            r matches Some(i) ==> i < self@.users.len() && self@.users[i as int].username@
                == username@,
            self@.wf(),
    {
        proof {
            use_type_invariant(self);
        }
        let mut i: usize = 0;
        while i < self.users.len()
            invariant
                i <= self.users@.len(),
                self@.wf(),
                forall|j: int| 0 <= j < i ==> (#[trigger] self.users@[j]).username@ != username@,
            decreases self.users@.len() - i,
        {
            if self.users[i].username == *username {
                return Some(i);
            }
            i = i + 1;
        }
        None
    }

    /// The account at position `i`.
    pub fn user(&self, i: usize) -> (r: &UserRow)
        requires
            i < self@.users.len(),
        ensures
            *r == self@.users[i as int],
            self@.wf(),
    {
        proof {
            use_type_invariant(self);
        }
        &self.users[i]
    }

    /// Adds an account, unless its username or its id is taken.
    pub fn insert_user(&mut self, row: UserRow) -> (r: Result<(), StoreError>)
        ensures
            old(self)@.wf(),
            final(self)@.wf(),
            r is Err <==> has_username(old(self)@.users, row.username@) || has_user_id(
                old(self)@.users,
                row.id,
            ),
            r matches Err(e) ==> (final(self)@ == old(self)@ && e == if has_username(
                old(self)@.users,
                row.username@,
            ) {
                StoreError::UniqueViolation
            } else {
                StoreError::DuplicateKey
            }),
            r is Ok ==> final(self)@ == (StoreModel { users: old(self)@.users.push(row), ..old(self)@ }),
    {
        if self.find_user(&row.username).is_some() {
            return Err(StoreError::UniqueViolation);
        }
        if user_id_present(&self.users, row.id) {
            return Err(StoreError::DuplicateKey);
        }
        let mut users = Vec::new();
        std::mem::swap(&mut users, &mut self.users);
        users.push(row);
        self.users = users;
        proof {
            use_type_invariant(&*self);
        }
        Ok(())
    }

    /// Adds a session, unless its id or its token is taken.
    pub fn insert_session(&mut self, row: SessionRow) -> (r: Result<(), StoreError>)
        ensures
            old(self)@.wf(),
            final(self)@.wf(),
            r is Err <==> has_session_id(old(self)@.sessions, row.id) || has_token(
                old(self)@.sessions,
                row.token@,
            ),
            r matches Err(e) ==> (final(self)@ == old(self)@ && e == if has_session_id(
                old(self)@.sessions,
                row.id,
            ) {
                StoreError::DuplicateKey
            } else {
                StoreError::UniqueViolation
            }),
            r is Ok ==> final(self)@ == (StoreModel {
                sessions: old(self)@.sessions.push(row),
                ..old(self)@
            }),
    {
        proof {
            use_type_invariant(&*self);
        }
        if session_id_present(&self.sessions, row.id) {
            return Err(StoreError::DuplicateKey);
        }
        if token_present(&self.sessions, &row.token) {
            return Err(StoreError::UniqueViolation);
        }
        let mut sessions = Vec::new();
        std::mem::swap(&mut sessions, &mut self.sessions);
        sessions.push(row);
        self.sessions = sessions;
        Ok(())
    }

    /// The user of the first session with this token that has not expired at `now`.
    pub fn session_user(&self, token: &String, now: i64) -> (r: Option<u128>)
        ensures
            r is Some <==> self@.token_valid(token@, now),
            r matches Some(u) ==> exists|i: int|
                self@.live_session(token@, now, i) && self@.sessions[i].user_id == u,
            self@.wf(),
    {
        proof {
            use_type_invariant(self);
        }
        let mut i: usize = 0;
        while i < self.sessions.len()
            invariant
                i <= self.sessions@.len(),
                self@.wf(),
                forall|j: int| 0 <= j < i ==> !self@.live_session(token@, now, j),
            decreases self.sessions@.len() - i,
        {
            if self.sessions[i].token == *token && now < self.sessions[i].expires_at {
                assert(self@.live_session(token@, now, i as int));
                return Some(self.sessions[i].user_id);
            }
            i = i + 1;
        }
        None
    }
}

/// Whether some account of `users` has this id.
fn user_id_present(users: &Vec<UserRow>, id: u128) -> (r: bool)
    ensures
        r == has_user_id(users@, id),
{
    let mut i: usize = 0;
    while i < users.len()
        invariant
            i <= users@.len(),
            forall|j: int| 0 <= j < i ==> (#[trigger] users@[j]).id != id,
        decreases users@.len() - i,
    {
        if users[i].id == id {
            return true;
        }
        i = i + 1;
    }
    false
}

/// Whether some session of `sessions` has this id.
fn session_id_present(sessions: &Vec<SessionRow>, id: u128) -> (r: bool)
    ensures
        r == has_session_id(sessions@, id),
{
    let mut i: usize = 0;
    while i < sessions.len()
        invariant
            i <= sessions@.len(),
            forall|j: int| 0 <= j < i ==> (#[trigger] sessions@[j]).id != id,
        decreases sessions@.len() - i,
    {
        if sessions[i].id == id {
            return true;
        }
        i = i + 1;
    }
    false
}

/// Whether some session of `sessions` has this token.
fn token_present(sessions: &Vec<SessionRow>, token: &String) -> (r: bool)
    ensures
        r == has_token(sessions@, token@),
{
    let mut i: usize = 0;
    while i < sessions.len()
        invariant
            i <= sessions@.len(),
            forall|j: int| 0 <= j < i ==> (#[trigger] sessions@[j]).token@ != token@,
        decreases sessions@.len() - i,
    {
        if sessions[i].token == *token {
            return true;
        }
        i = i + 1;
    }
    false
}

/// Whether some link of `links` has this URL.
fn url_taken(links: &Vec<LinkRow>, url: &String) -> (r: bool)
    ensures
        r == has_url(links@, url@),
{
    let mut i: usize = 0;
    while i < links.len()
        invariant
            i <= links@.len(),
            forall|j: int| 0 <= j < i ==> (#[trigger] links@[j]).url@ != url@,
        decreases links@.len() - i,
    {
        if links[i].url == *url {
            return true;
        }
        i = i + 1;
    }
    false
}

/// Whether some link of `links` has this id.
fn link_id_present(links: &Vec<LinkRow>, id: u128) -> (r: bool)
    ensures
        r == has_link_id(links@, id),
{
    let mut i: usize = 0;
    while i < links.len()
        invariant
            i <= links@.len(),
            forall|j: int| 0 <= j < i ==> (#[trigger] links@[j]).id != id,
        decreases links@.len() - i,
    {
        if links[i].id == id {
            return true;
        }
        i = i + 1;
    }
    false
}

/// A link id or URL found in one of two sequences is found in their concatenation, and back.
proof fn lemma_links_concat(a: Seq<LinkRow>, b: Seq<LinkRow>, url: Seq<char>, id: u128)
    ensures
        has_url(a + b, url) <==> has_url(a, url) || has_url(b, url),
        has_link_id(a + b, id) <==> has_link_id(a, id) || has_link_id(b, id),
{
    lemma_url_concat(a, b, url);
    lemma_link_id_concat(a, b, id);
}

/// A URL found in one of two sequences of links is found in their concatenation, and back.
proof fn lemma_url_concat(a: Seq<LinkRow>, b: Seq<LinkRow>, url: Seq<char>)
    ensures
        has_url(a + b, url) <==> has_url(a, url) || has_url(b, url),
{
    let ab = a + b;
    if has_url(ab, url) {
        let i = choose|i: int| 0 <= i < ab.len() && (#[trigger] ab[i]).url@ == url;
        if i < a.len() {
            assert(a[i] == ab[i]);
        } else {
            assert(b[i - a.len()] == ab[i]);
        }
    }
    if has_url(a, url) {
        let i = choose|i: int| 0 <= i < a.len() && (#[trigger] a[i]).url@ == url;
        assert(ab[i] == a[i]);
    }
    if has_url(b, url) {
        let i = choose|i: int| 0 <= i < b.len() && (#[trigger] b[i]).url@ == url;
        assert(ab[i + a.len()] == b[i]);
    }
}

/// A link id found in one of two sequences of links is found in their concatenation, and back.
proof fn lemma_link_id_concat(a: Seq<LinkRow>, b: Seq<LinkRow>, id: u128)
    ensures
        has_link_id(a + b, id) <==> has_link_id(a, id) || has_link_id(b, id),
{
    let ab = a + b;
    if has_link_id(ab, id) {
        let i = choose|i: int| 0 <= i < ab.len() && (#[trigger] ab[i]).id == id;
        if i < a.len() {
            assert(a[i] == ab[i]);
        } else {
            assert(b[i - a.len()] == ab[i]);
        }
    }
    if has_link_id(a, id) {
        let i = choose|i: int| 0 <= i < a.len() && (#[trigger] a[i]).id == id;
        assert(ab[i] == a[i]);
    }
    if has_link_id(b, id) {
        let i = choose|i: int| 0 <= i < b.len() && (#[trigger] b[i]).id == id;
        assert(ab[i + a.len()] == b[i]);
    }
}

/// Writes made inside a unit of work. Nothing of them is visible in the store
/// until `Store::commit`; dropping the unit of work discards them all.
pub struct Transaction {
    links: Vec<LinkRow>,
    labels: Vec<LabelRow>,
}

impl Transaction {
    /// The links written so far.
    pub closed spec fn pending_links(&self) -> Seq<LinkRow> {
        self.links@
    }

    /// The labels written so far.
    pub closed spec fn pending_labels(&self) -> Seq<LabelRow> {
        self.labels@
    }

    /// The writes would keep the store's constraints if committed now.
    pub open spec fn fits(&self, m: StoreModel) -> bool {
        m.with_writes(self.pending_links(), self.pending_labels()).wf()
    }

    /// Writes a link, unless its URL or its id is in the store or already written here.
    pub fn insert_link(&mut self, store: &Store, row: LinkRow) -> (r: Result<(), StoreError>)
        requires
            old(self).fits(store@),
        ensures
            final(self).fits(store@),
            r is Err <==> has_url(store@.links + old(self).pending_links(), row.url@) || has_link_id(
                store@.links + old(self).pending_links(),
                row.id,
            ),
            r matches Err(e) ==> (*final(self) == *old(self) && e == if has_url(
                store@.links + old(self).pending_links(),
                row.url@,
            ) {
                StoreError::UniqueViolation
            } else {
                StoreError::DuplicateKey
            }),
            r is Ok ==> final(self).pending_links() == old(self).pending_links().push(row)
                && final(self).pending_labels() == old(self).pending_labels(),
    {
        proof {
            lemma_links_concat(store@.links, self.links@, row.url@, row.id);
        }
        if url_taken(&store.links, &row.url) || url_taken(&self.links, &row.url) {
            return Err(StoreError::UniqueViolation);
        }
        if link_id_present(&store.links, row.id) || link_id_present(&self.links, row.id) {
            return Err(StoreError::DuplicateKey);
        }
        let ghost before = store@.links + self.links@;
        self.links.push(row);
        proof {
            let after = store@.links + self.links@;
            assert(after =~= before.push(row));
            let labels = store@.labels + self.labels@;
            assert forall|k: int| 0 <= k < labels.len() implies has_link_id(
                after,
                (#[trigger] labels[k]).link_id,
            ) by {
                let i = choose|i: int| 0 <= i < before.len() && (#[trigger] before[i]).id
                    == labels[k].link_id;
                assert(after[i] == before[i]);
            }
        }
        Ok(())
    }

    /// Writes a label, unless the link it refers to is neither in the store nor written here.
    pub fn insert_label(&mut self, store: &Store, row: LabelRow) -> (r: Result<(), StoreError>)
        requires
            old(self).fits(store@),
        ensures
            final(self).fits(store@),
            r is Err <==> !has_link_id(store@.links + old(self).pending_links(), row.link_id),
            r matches Err(e) ==> e == StoreError::ForeignKeyViolation && *final(self) == *old(self),
            r is Ok ==> final(self).pending_labels() == old(self).pending_labels().push(row)
                && final(self).pending_links() == old(self).pending_links(),
    {
        proof {
            lemma_link_id_concat(store@.links, self.links@, row.link_id);
        }
        if !link_id_present(&store.links, row.link_id) && !link_id_present(
            &self.links,
            row.link_id,
        ) {
            return Err(StoreError::ForeignKeyViolation);
        }
        let ghost before = store@.labels + self.labels@;
        self.labels.push(row);
        proof {
            let after = store@.labels + self.labels@;
            assert(after =~= before.push(row));
            assert forall|k: int| 0 <= k < after.len() implies has_link_id(
                store@.links + self.links@,
                (#[trigger] after[k]).link_id,
            ) by {
                if k < before.len() {
                    assert(after[k] == before[k]);
                }
            }
        }
        Ok(())
    }
}

impl Store {
    /// Opens a unit of work with no writes.
    pub fn begin(&self) -> (r: Transaction)
        ensures
            r.pending_links().len() == 0,
            r.pending_labels().len() == 0,
            r.fits(self@),
    {
        proof {
            use_type_invariant(self);
        }
        let r = Transaction { links: Vec::new(), labels: Vec::new() };
        assert(self@.with_writes(r.links@, r.labels@) =~= self@);
        r
    }

    /// Makes every write of the unit of work visible at once.
    pub fn commit(&mut self, tx: Transaction)
        requires
            tx.fits(old(self)@),
        ensures
            final(self)@ == old(self)@.with_writes(tx.pending_links(), tx.pending_labels()),
            final(self)@.wf(),
    {
        proof {
            use_type_invariant(&*self);
        }
        let mut tx = tx;
        let mut labels = Vec::new();
        std::mem::swap(&mut labels, &mut self.labels);
        let mut links = Vec::new();
        std::mem::swap(&mut links, &mut self.links);
        links.append(&mut tx.links);
        labels.append(&mut tx.labels);
        self.links = links;
        self.labels = labels;
    }
}

} // verus!
