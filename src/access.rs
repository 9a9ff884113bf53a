//! Access control: the admins, the per-chat command grants, and the check made before every
//! command.

use vstd::prelude::*;

use crate::commands::{is_restricted_command, restricted, short_name, tier_of, AccessTier, Command};
use crate::committee::names_view;
use crate::config::Config;
use crate::text::{same_text, secrets_match};

verus! {

/// An admin: the identity they authenticated from and the name they gave.
pub struct Admin {
    pub telegram_id: String,
    pub name: String,
}

/// A chat's permission to use a command, by the command's short name.
pub struct Grant {
    pub chat_id: String,
    pub command: String,
}

/// The store's rows: admins as (identity, name), grants as (chat, command).
pub struct AccessModel {
    pub admins: Seq<(Seq<char>, Seq<char>)>,
    pub grants: Seq<(Seq<char>, Seq<char>)>,
}

/// No two entries of `s` have the same key.
pub open spec fn unique_by<A, K>(s: Seq<A>, key: spec_fn(A) -> K) -> bool {
    forall|i: int, j: int|
        0 <= i < s.len() && 0 <= j < s.len() && i != j ==> key(s[i]) != key(s[j])
}

pub open spec fn row_id(r: (Seq<char>, Seq<char>)) -> Seq<char> {
    r.0
}

pub open spec fn whole_row(r: (Seq<char>, Seq<char>)) -> (Seq<char>, Seq<char>) {
    r
}

pub open spec fn not_named(name: Seq<char>) -> spec_fn((Seq<char>, Seq<char>)) -> bool {
    |r: (Seq<char>, Seq<char>)| r.1 != name
}

pub open spec fn not_row(row: (Seq<char>, Seq<char>)) -> spec_fn((Seq<char>, Seq<char>)) -> bool {
    |r: (Seq<char>, Seq<char>)| r != row
}

pub open spec fn of_chat(chat: Seq<char>) -> spec_fn((Seq<char>, Seq<char>)) -> bool {
    |r: (Seq<char>, Seq<char>)| r.0 == chat
}

impl AccessModel {
    pub open spec fn empty() -> AccessModel {
        AccessModel { admins: Seq::empty(), grants: Seq::empty() }
    }

    /// One row per admin identity, one row per grant.
    pub open spec fn wf(self) -> bool {
        &&& unique_by(self.admins, |r: (Seq<char>, Seq<char>)| row_id(r))
        &&& unique_by(self.grants, |r: (Seq<char>, Seq<char>)| whole_row(r))
    }

    pub open spec fn is_admin(self, id: Seq<char>) -> bool {
        exists|i: int| 0 <= i < self.admins.len() && #[trigger] self.admins[i].0 == id
    }

    pub open spec fn has_admin_named(self, name: Seq<char>) -> bool {
        exists|i: int| 0 <= i < self.admins.len() && #[trigger] self.admins[i].1 == name
    }

    pub open spec fn authorized(self, chat: Seq<char>, command: Seq<char>) -> bool {
        self.grants.contains((chat, command))
    }

    pub open spec fn with_admin(self, id: Seq<char>, name: Seq<char>) -> AccessModel {
        AccessModel { admins: self.admins.push((id, name)), ..self }
    }

    /// Every admin with that name removed; nothing changes when there is none.
    pub open spec fn without_admins_named(self, name: Seq<char>) -> AccessModel {
        if self.has_admin_named(name) {
            AccessModel { admins: self.admins.filter(not_named(name)), ..self }
        } else {
            self
        }
    }

    /// The grant added; nothing changes when it is there already.
    pub open spec fn with_grant(self, chat: Seq<char>, command: Seq<char>) -> AccessModel {
        if self.authorized(chat, command) {
            self
        } else {
            AccessModel { grants: self.grants.push((chat, command)), ..self }
        }
    }

    /// The grant removed; nothing changes when it is not there.
    pub open spec fn without_grant(self, chat: Seq<char>, command: Seq<char>) -> AccessModel {
        if self.authorized(chat, command) {
            AccessModel { grants: self.grants.filter(not_row((chat, command))), ..self }
        } else {
            self
        }
    }
}

pub open spec fn admin_rows(v: Seq<Admin>) -> Seq<(Seq<char>, Seq<char>)> {
    v.map_values(|a: Admin| (a.telegram_id@, a.name@))
}

pub open spec fn grant_rows(v: Seq<Grant>) -> Seq<(Seq<char>, Seq<char>)> {
    v.map_values(|g: Grant| (g.chat_id@, g.command@))
}

/// Filtering keeps keys unique.
pub proof fn lemma_filter_unique_by<A, K>(s: Seq<A>, p: spec_fn(A) -> bool, key: spec_fn(A) -> K)
    requires
        unique_by(s, key),
    ensures
        unique_by(s.filter(p), key),
    decreases s.len(),
{
    if s.len() == 0 {
        reveal(Seq::filter);
    } else {
        let d = s.drop_last();
        let e = s.last();
        assert(unique_by(d, key)) by {
            assert forall|i: int, j: int|
                0 <= i < d.len() && 0 <= j < d.len() && i != j implies key(d[i]) != key(d[j]) by {
                assert(d[i] == s[i] && d[j] == s[j]);
            }
        }
        lemma_filter_unique_by(d, p, key);
        assert(s =~= d.push(e));
        d.lemma_filter_push(e, p);
        if p(e) {
            let f = d.filter(p);
            assert forall|m: int| 0 <= m < f.len() implies key(f[m]) != key(e) by {
                assert(f.contains(f[m]));
                d.lemma_filter_contains_rev(p, f[m]);
                let j = choose|j: int| 0 <= j < d.len() && d[j] == f[m];
                assert(s[j] == d[j]);
                assert(key(s[j]) != key(s[s.len() - 1]));
            }
            assert forall|i: int, j: int|
                0 <= i < f.push(e).len() && 0 <= j < f.push(e).len() && i != j implies key(
                f.push(e)[i],
            ) != key(f.push(e)[j]) by {
                if i < f.len() && j < f.len() {
                    assert(f.push(e)[i] == f[i] && f.push(e)[j] == f[j]);
                }
            }
        }
    }
}

/// The admins and grants, kept in memory while a command is decided.
pub struct AccessStore {
    admins: Vec<Admin>,
    grants: Vec<Grant>,
}

impl View for AccessStore {
    type V = AccessModel;

    closed spec fn view(&self) -> AccessModel {
        AccessModel { admins: admin_rows(self.admins@), grants: grant_rows(self.grants@) }
    }
}

/// An admin could not be added.
#[derive(PartialEq, Eq, Structural, Debug, Clone, Copy)]
pub enum AccessError {
    /// That identity is an admin already.
    DuplicateAdmin,
}

/// What removing admins by name did.
#[derive(PartialEq, Eq, Structural, Debug, Clone, Copy)]
pub enum RemoveOutcome {
    Removed,
    NotFound,
}

/// What a grant did.
#[derive(PartialEq, Eq, Structural, Debug, Clone, Copy)]
pub enum GrantOutcome {
    Granted,
    AlreadyGranted,
}

/// What a revocation did.
#[derive(PartialEq, Eq, Structural, Debug, Clone, Copy)]
pub enum RevokeOutcome {
    Revoked,
    NotGranted,
}

impl AccessStore {
    pub fn new() -> (r: AccessStore)
        ensures
            r@ == AccessModel::empty(),
            r@.wf(),
    {
        let r = AccessStore { admins: Vec::new(), grants: Vec::new() };
        assert(r@.admins =~= Seq::<(Seq<char>, Seq<char>)>::empty());
        assert(r@.grants =~= Seq::<(Seq<char>, Seq<char>)>::empty());
        r
    }

    /// Whether `id` is an admin.
    pub fn is_admin(&self, id: &str) -> (r: bool)
        ensures
            r == self@.is_admin(id@),
    {
        let ghost rows = self@.admins;
        let mut i: usize = 0;
        while i < self.admins.len()
            invariant
                i <= self.admins@.len(),
                rows == admin_rows(self.admins@),
                forall|j: int| 0 <= j < i ==> rows[j].0 != id@,
            decreases self.admins@.len() - i,
        {
            if same_text(self.admins[i].telegram_id.as_str(), id) {
                assert(self@.admins[i as int].0 == id@);
                return true;
            }
            i = i + 1;
        }
        false
    }

    /// Adds an admin; an identity that is an admin already is refused.
    pub fn add_admin(&mut self, id: String, name: String) -> (r: Result<(), AccessError>)
        requires
            old(self)@.wf(),
        ensures
            final(self)@.wf(),
            old(self)@.is_admin(id@) ==> r == Err::<(), AccessError>(AccessError::DuplicateAdmin)
                && final(self)@ == old(self)@,
            !old(self)@.is_admin(id@) ==> r is Ok && final(self)@ == old(self)@.with_admin(id@, name@),
    {
        if self.is_admin(id.as_str()) {
            return Err(AccessError::DuplicateAdmin);
        }
        let ghost before = self@;
        self.admins.push(Admin { telegram_id: id, name });
        assert(self@.admins =~= before.admins.push((id@, name@)));
        assert(self@.grants == before.grants);
        assert(unique_by(self@.admins, |r: (Seq<char>, Seq<char>)| row_id(r))) by {
            let a = self@.admins;
            assert forall|i: int, j: int| 0 <= i < a.len() && 0 <= j < a.len() && i != j implies row_id(
                a[i],
            ) != row_id(a[j]) by {
                if i == a.len() - 1 {
                    assert(before.admins[j].0 == a[j].0);
                } else if j == a.len() - 1 {
                    assert(before.admins[i].0 == a[i].0);
                }
            }
        }
        Ok(())
    }

    /// Removes every admin with that name, or reports that there is none.
    pub fn remove_admin(&mut self, name: &str) -> (r: RemoveOutcome)
        requires
            old(self)@.wf(),
        ensures
            final(self)@.wf(),
            final(self)@ == old(self)@.without_admins_named(name@),
            r == RemoveOutcome::NotFound <==> !old(self)@.has_admin_named(name@),
    {
        let ghost rows = self@.admins;
        let ghost p = not_named(name@);
        let mut kept: Vec<Admin> = Vec::new();
        let mut found = false;
        let mut i: usize = 0;
        while i < self.admins.len()
            invariant
                i <= self.admins@.len(),
                rows == admin_rows(self.admins@),
                p == not_named(name@),
                admin_rows(kept@) == rows.take(i as int).filter(p),
                found <==> exists|j: int| 0 <= j < i && #[trigger] rows[j].1 == name@,
            decreases self.admins@.len() - i,
        {
            proof {
                assert(rows.take(i as int + 1) =~= rows.take(i as int).push(rows[i as int]));
                rows.take(i as int).lemma_filter_push(rows[i as int], p);
            }
            let a = &self.admins[i];
            if same_text(a.name.as_str(), name) {
                found = true;
            } else {
                let ghost before = admin_rows(kept@);
                kept.push(Admin { telegram_id: a.telegram_id.clone(), name: a.name.clone() });
                assert(admin_rows(kept@) =~= before.push(rows[i as int]));
            }
            i = i + 1;
        }
        assert(rows.take(i as int) =~= rows);
        if !found {
            return RemoveOutcome::NotFound;
        }
        proof {
            lemma_filter_unique_by(rows, p, |r: (Seq<char>, Seq<char>)| row_id(r));
        }
        self.admins = kept;
        RemoveOutcome::Removed
    }

    /// Whether `chat` was granted `command`.
    pub fn is_authorized(&self, chat: &str, command: &str) -> (r: bool)
        ensures
            r == self@.authorized(chat@, command@),
    {
        let ghost rows = self@.grants;
        let mut i: usize = 0;
        while i < self.grants.len()
            invariant
                i <= self.grants@.len(),
                rows == grant_rows(self.grants@),
                forall|j: int| 0 <= j < i ==> rows[j] != (chat@, command@),
            decreases self.grants@.len() - i,
        {
            let g = &self.grants[i];
            if same_text(g.chat_id.as_str(), chat) && same_text(g.command.as_str(), command) {
                assert(rows[i as int] == (chat@, command@));
                return true;
            }
            i = i + 1;
        }
        false
    }

    /// Grants `command` to `chat`; granting twice leaves one grant.
    pub fn grant(&mut self, chat: String, command: String) -> (r: GrantOutcome)
        requires
            old(self)@.wf(),
        ensures
            final(self)@.wf(),
            final(self)@ == old(self)@.with_grant(chat@, command@),
            r == GrantOutcome::AlreadyGranted <==> old(self)@.authorized(chat@, command@),
    {
        if self.is_authorized(chat.as_str(), command.as_str()) {
            return GrantOutcome::AlreadyGranted;
        }
        let ghost before = self@;
        let ghost row = (chat@, command@);
        self.grants.push(Grant { chat_id: chat, command });
        assert(self@.grants =~= before.grants.push(row));
        assert(self@.admins == before.admins);
        assert(unique_by(self@.grants, |r: (Seq<char>, Seq<char>)| whole_row(r))) by {
            let g = self@.grants;
            assert forall|i: int, j: int| 0 <= i < g.len() && 0 <= j < g.len() && i != j implies whole_row(
                g[i],
            ) != whole_row(g[j]) by {
                if i == g.len() - 1 {
                    assert(before.grants[j] == g[j]);
                    assert(before.grants.contains(g[j]));
                } else if j == g.len() - 1 {
                    assert(before.grants[i] == g[i]);
                    assert(before.grants.contains(g[i]));
                }
            }
        }
        GrantOutcome::Granted
    }

    /// Takes `command` back from `chat`; revoking a missing grant changes nothing.
    pub fn revoke(&mut self, chat: &str, command: &str) -> (r: RevokeOutcome)
        requires
            old(self)@.wf(),
        ensures
            final(self)@.wf(),
            final(self)@ == old(self)@.without_grant(chat@, command@),
            r == RevokeOutcome::NotGranted <==> !old(self)@.authorized(chat@, command@),
    {
        let ghost rows = self@.grants;
        let ghost p = not_row((chat@, command@));
        let mut kept: Vec<Grant> = Vec::new();
        let mut found = false;
        let mut i: usize = 0;
        while i < self.grants.len()
            invariant
                i <= self.grants@.len(),
                rows == grant_rows(self.grants@),
                p == not_row((chat@, command@)),
                grant_rows(kept@) == rows.take(i as int).filter(p),
                found <==> exists|j: int| 0 <= j < i && #[trigger] rows[j] == (chat@, command@),
            decreases self.grants@.len() - i,
        {
            proof {
                assert(rows.take(i as int + 1) =~= rows.take(i as int).push(rows[i as int]));
                rows.take(i as int).lemma_filter_push(rows[i as int], p);
            }
            let g = &self.grants[i];
            if same_text(g.chat_id.as_str(), chat) && same_text(g.command.as_str(), command) {
                found = true;
            } else {
                let ghost before = grant_rows(kept@);
                kept.push(Grant { chat_id: g.chat_id.clone(), command: g.command.clone() });
                assert(grant_rows(kept@) =~= before.push(rows[i as int]));
            }
            i = i + 1;
        }
        assert(rows.take(i as int) =~= rows);
        if !found {
            return RevokeOutcome::NotGranted;
        }
        proof {
            lemma_filter_unique_by(rows, p, |r: (Seq<char>, Seq<char>)| whole_row(r));
        }
        self.grants = kept;
        RevokeOutcome::Revoked
    }
}

/// What `/authenticate` did.
#[derive(PartialEq, Eq, Structural, Debug, Clone, Copy)]
pub enum AuthenticateOutcome {
    Authenticated,
    WrongToken,
    AlreadyAdmin,
}

/// `/authenticate <token> <name>`: with the configured admin token, `identity` becomes an admin
/// under `name`. The token is compared without stopping at the first difference.
pub fn authenticate(
    store: &mut AccessStore,
    config: &Config,
    token: &str,
    identity: String,
    name: String,
) -> (r: AuthenticateOutcome)
    requires
        old(store)@.wf(),
    ensures
        final(store)@.wf(),
        token@ != config.admin_token@ ==> r == AuthenticateOutcome::WrongToken && final(store)@ == old(
            store,
        )@,
        token@ == config.admin_token@ && old(store)@.is_admin(identity@) ==> r
            == AuthenticateOutcome::AlreadyAdmin && final(store)@ == old(store)@,
        token@ == config.admin_token@ && !old(store)@.is_admin(identity@) ==> r
            == AuthenticateOutcome::Authenticated && final(store)@ == old(store)@.with_admin(
            identity@,
            name@,
        ),
{
    if !secrets_match(config.admin_token.as_str(), token) {
        return AuthenticateOutcome::WrongToken;
    }
    match store.add_admin(identity, name) {
        Ok(()) => AuthenticateOutcome::Authenticated,
        Err(_) => AuthenticateOutcome::AlreadyAdmin,
    }
}

/// What `/authorize` did.
#[derive(PartialEq, Eq, Structural, Debug, Clone, Copy)]
pub enum AuthorizeOutcome {
    /// No command of the authorized-chat tier has that short name.
    UnknownCommand,
    Granted,
    AlreadyGranted,
}

/// `/authorize <command>` in `chat`: grants a command that chats must be granted.
pub fn authorize(store: &mut AccessStore, chat: String, command: String) -> (r: AuthorizeOutcome)
    requires
        old(store)@.wf(),
    ensures
        final(store)@.wf(),
        !restricted(command@) ==> r == AuthorizeOutcome::UnknownCommand && final(store)@ == old(
            store,
        )@,
        restricted(command@) ==> final(store)@ == old(store)@.with_grant(chat@, command@) && (r
            == AuthorizeOutcome::AlreadyGranted <==> old(store)@.authorized(chat@, command@)) && r
            != AuthorizeOutcome::UnknownCommand,
{
    if !is_restricted_command(command.as_str()) {
        return AuthorizeOutcome::UnknownCommand;
    }
    match store.grant(chat, command) {
        GrantOutcome::Granted => AuthorizeOutcome::Granted,
        GrantOutcome::AlreadyGranted => AuthorizeOutcome::AlreadyGranted,
    }
}

/// `/adminremove <name>`.
pub fn admin_remove(store: &mut AccessStore, name: &str) -> (r: RemoveOutcome)
    requires
        old(store)@.wf(),
    ensures
        final(store)@.wf(),
        final(store)@ == old(store)@.without_admins_named(name@),
        r == RemoveOutcome::NotFound <==> !old(store)@.has_admin_named(name@),
{
    store.remove_admin(name)
}

/// `/unauthorize <command>` in `chat`.
pub fn unauthorize(store: &mut AccessStore, chat: &str, command: &str) -> (r: RevokeOutcome)
    requires
        old(store)@.wf(),
    ensures
        final(store)@.wf(),
        final(store)@ == old(store)@.without_grant(chat@, command@),
        r == RevokeOutcome::NotGranted <==> !old(store)@.authorized(chat@, command@),
{
    store.revoke(chat, command)
}

/// The names of the admins, in the store's order.
pub fn admin_list(store: &AccessStore) -> (r: Vec<String>)
    ensures
        names_view(r@) == store@.admins.map_values(|a: (Seq<char>, Seq<char>)| a.1),
{
    let ghost rows = store@.admins;
    let mut r: Vec<String> = Vec::new();
    let mut i: usize = 0;
    while i < store.admins.len()
        invariant
            i <= store.admins@.len(),
            rows == admin_rows(store.admins@),
            r@.len() == i,
            forall|j: int| 0 <= j < i ==> #[trigger] r@[j]@ == rows[j].1,
        decreases store.admins@.len() - i,
    {
        r.push(store.admins[i].name.clone());
        i = i + 1;
    }
    assert(names_view(r@) =~= rows.map_values(|a: (Seq<char>, Seq<char>)| a.1));
    r
}

/// The commands granted to `chat`, in the store's order.
pub fn authorizations(store: &AccessStore, chat: &str) -> (r: Vec<String>)
    ensures
        names_view(r@) == store@.grants.filter(of_chat(chat@)).map_values(
            |g: (Seq<char>, Seq<char>)| g.1,
        ),
{
    let ghost rows = store@.grants;
    let ghost p = of_chat(chat@);
    let mut r: Vec<String> = Vec::new();
    let mut i: usize = 0;
    while i < store.grants.len()
        invariant
            i <= store.grants@.len(),
            rows == grant_rows(store.grants@),
            p == of_chat(chat@),
            r@.len() == rows.take(i as int).filter(p).len(),
            forall|j: int|
                0 <= j < r@.len() ==> #[trigger] r@[j]@ == rows.take(i as int).filter(p)[j].1,
        decreases store.grants@.len() - i,
    {
        proof {
            assert(rows.take(i as int + 1) =~= rows.take(i as int).push(rows[i as int]));
            rows.take(i as int).lemma_filter_push(rows[i as int], p);
        }
        let g = &store.grants[i];
        if same_text(g.chat_id.as_str(), chat) {
            r.push(g.command.clone());
        }
        i = i + 1;
    }
    assert(rows.take(i as int) =~= rows);
    assert(names_view(r@) =~= rows.filter(p).map_values(|g: (Seq<char>, Seq<char>)| g.1));
    r
}

/// What happens to a command that was read from a chat.
#[derive(PartialEq, Eq, Structural, Debug, Clone, Copy)]
pub enum Access {
    /// Run it.
    Dispatch,
    /// Tell the chat it may not use the command, and stop.
    Reject,
    /// Stop without a word.
    Ignore,
}

/// The decision on `command` sent from `chat` by `caller`: public commands run; a command of
/// the authorized-chat tier runs where the chat was granted it and is rejected elsewhere; an
/// admin command runs for admins and is ignored for anyone else.
pub open spec fn access_spec(
    m: AccessModel,
    command: crate::commands::CommandModel,
    chat: Seq<char>,
    caller: Option<Seq<char>>,
) -> Access {
    match tier_of(command) {
        AccessTier::Public => Access::Dispatch,
        AccessTier::AuthorizedChat => if m.authorized(chat, short_name(command)) {
            Access::Dispatch
        } else {
            Access::Reject
        },
        AccessTier::AdminOnly => match caller {
            Some(id) => if m.is_admin(id) {
                Access::Dispatch
            } else {
                Access::Ignore
            },
            None => Access::Ignore,
        },
    }
}

pub open spec fn caller_view(caller: Option<String>) -> Option<Seq<char>> {
    match caller {
        Some(s) => Some(s@),
        None => None,
    }
}

/// Decides whether `command`, sent from `chat` by `caller`, may run.
pub fn check_access(store: &AccessStore, command: &Command, chat: &str, caller: &Option<String>) -> (r: Access)
    ensures
        r == access_spec(store@, command@, chat@, caller_view(*caller)),
{
    match command.access_tier() {
        AccessTier::Public => Access::Dispatch,
        AccessTier::AuthorizedChat => {
            if store.is_authorized(chat, command.shortand()) {
                Access::Dispatch
            } else {
                Access::Reject
            }
        },
        AccessTier::AdminOnly => match caller {
            Some(id) => {
                if store.is_admin(id.as_str()) {
                    Access::Dispatch
                } else {
                    Access::Ignore
                }
            },
            None => Access::Ignore,
        },
    }
}

/// A new store grants nothing.
pub proof fn lemma_new_store_grants_nothing(chat: Seq<char>, command: Seq<char>)
    ensures
        !AccessModel::empty().authorized(chat, command),
{
}

/// After a grant the chat may use the command; granting it again changes nothing; a grant of
/// any other pair leaves this pair as it was.
pub proof fn lemma_grant_effect(
    m: AccessModel,
    chat: Seq<char>,
    command: Seq<char>,
    other_chat: Seq<char>,
    other_command: Seq<char>,
)
    ensures
        m.with_grant(chat, command).authorized(chat, command),
        m.with_grant(chat, command).with_grant(chat, command) == m.with_grant(chat, command),
        (other_chat, other_command) != (chat, command) ==> (m.with_grant(
            other_chat,
            other_command,
        ).authorized(chat, command) <==> m.authorized(chat, command)),
{
    let g = m.with_grant(chat, command);
    if !m.authorized(chat, command) {
        assert(g.grants[g.grants.len() - 1] == (chat, command));
    }
    if (other_chat, other_command) != (chat, command) && !m.authorized(other_chat, other_command) {
        let h = m.with_grant(other_chat, other_command);
        if h.authorized(chat, command) {
            let i = choose|i: int| 0 <= i < h.grants.len() && h.grants[i] == (chat, command);
            assert(m.grants[i] == (chat, command));
        }
        if m.authorized(chat, command) {
            let i = choose|i: int| 0 <= i < m.grants.len() && m.grants[i] == (chat, command);
            assert(h.grants[i] == (chat, command));
        }
    }
}

/// After a revocation the chat may not use the command; revoking again changes nothing; a
/// revocation of any other pair leaves this pair as it was.
pub proof fn lemma_revoke_effect(
    m: AccessModel,
    chat: Seq<char>,
    command: Seq<char>,
    other_chat: Seq<char>,
    other_command: Seq<char>,
)
    ensures
        !m.without_grant(chat, command).authorized(chat, command),
        m.without_grant(chat, command).without_grant(chat, command) == m.without_grant(
            chat,
            command,
        ),
        (other_chat, other_command) != (chat, command) ==> (m.without_grant(
            other_chat,
            other_command,
        ).authorized(chat, command) <==> m.authorized(chat, command)),
{
    let pair = (chat, command);
    let r = m.without_grant(chat, command);
    if m.authorized(chat, command) {
        let f = m.grants.filter(not_row(pair));
        if f.contains(pair) {
            let i = choose|i: int| 0 <= i < f.len() && f[i] == pair;
            m.grants.lemma_filter_pred(not_row(pair), i);
        }
    }
    if (other_chat, other_command) != pair && m.authorized(other_chat, other_command) {
        let p = not_row((other_chat, other_command));
        let f = m.grants.filter(p);
        if f.contains(pair) {
            m.grants.lemma_filter_contains_rev(p, pair);
        }
        if m.authorized(chat, command) {
            let i = choose|i: int| 0 <= i < m.grants.len() && m.grants[i] == pair;
            m.grants.lemma_filter_contains(p, i);
        }
    }
}

/// Adding an identity that is not an admin makes it one, and removing admins by the name it
/// was added under makes it none again. Removing a name that no admin has changes nothing.
pub proof fn lemma_admin_add_remove(m: AccessModel, id: Seq<char>, name: Seq<char>, other: Seq<char>)
    requires
        !m.is_admin(id),
    ensures
        m.with_admin(id, name).is_admin(id),
        !m.with_admin(id, name).without_admins_named(name).is_admin(id),
        !m.has_admin_named(other) ==> m.without_admins_named(other) == m,
{
    let a = m.with_admin(id, name);
    let last = a.admins.len() - 1;
    assert(a.admins[last].0 == id);
    assert(a.admins[last].1 == name);
    let r = a.without_admins_named(name);
    if r.is_admin(id) {
        let p = not_named(name);
        let f = a.admins.filter(p);
        let i = choose|i: int| 0 <= i < f.len() && #[trigger] f[i].0 == id;
        a.admins.lemma_filter_pred(p, i);
        assert(f.contains(f[i]));
        a.admins.lemma_filter_contains_rev(p, f[i]);
        let j = choose|j: int| 0 <= j < a.admins.len() && a.admins[j] == f[i];
        if j < last {
            assert(m.admins[j].0 == id);
        }
    }
}

/// A granted pair has exactly one row in a well-formed store.
pub proof fn lemma_one_row_per_grant(m: AccessModel, chat: Seq<char>, command: Seq<char>)
    requires
        m.wf(),
        m.authorized(chat, command),
    ensures
        exists|i: int|
            0 <= i < m.grants.len() && m.grants[i] == (chat, command) && forall|j: int|
                0 <= j < m.grants.len() && #[trigger] m.grants[j] == (chat, command) ==> j == i,
{
    let i = choose|i: int| 0 <= i < m.grants.len() && m.grants[i] == (chat, command);
    assert forall|j: int|
        0 <= j < m.grants.len() && #[trigger] m.grants[j] == (chat, command) implies j == i by {
        if j != i {
            assert(whole_row(m.grants[i]) != whole_row(m.grants[j]));
        }
    }
}

/// A grant keeps the store well formed, so two grants of one pair, one after the other,
/// leave exactly one row for it.
pub proof fn lemma_grant_twice_one_row(m: AccessModel, chat: Seq<char>, command: Seq<char>)
    requires
        m.wf(),
    ensures
        m.with_grant(chat, command).wf(),
        m.with_grant(chat, command).with_grant(chat, command).wf(),
        exists|i: int|
            0 <= i < m.with_grant(chat, command).with_grant(chat, command).grants.len()
                && m.with_grant(chat, command).with_grant(chat, command).grants[i] == (chat, command)
                && forall|j: int|
                0 <= j < m.with_grant(chat, command).with_grant(chat, command).grants.len()
                    && #[trigger] m.with_grant(chat, command).with_grant(chat, command).grants[j]
                    == (chat, command) ==> j == i,
{
    let g = m.with_grant(chat, command);
    if !m.authorized(chat, command) {
        let n = g.grants.len();
        assert forall|i: int, j: int| 0 <= i < n && 0 <= j < n && i != j implies whole_row(
            g.grants[i],
        ) != whole_row(g.grants[j]) by {
            if i == n - 1 {
                assert(m.grants.contains(m.grants[j]));
            } else if j == n - 1 {
                assert(m.grants.contains(m.grants[i]));
            }
        }
    }
    lemma_grant_effect(m, chat, command, chat, command);
    lemma_one_row_per_grant(g, chat, command);
}

} // verus!
