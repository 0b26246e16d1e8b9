//! Who calls, and what they may do.
//!
//! A caller presents a key: its id and its secret. The store keeps only a keyed
//! digest of the secret. The role of the principal behind the key says which
//! actions are open to it, and three allowlists say on which objects, outputs
//! and discovery domains.

use vstd::prelude::*;

use crate::crypto::{ct_eq, hmac_sha256, uuid_bytes, uuid_text};
use crate::error::ControlError;
use crate::table::Table;
use crate::text::{
    cat2, cat3, clone_texts, debug_text, split_once, starts_with, str_eq, strip_prefix, trim,
    CharClass,
};

verus! {

// ---- Roles -----------------------------------------------------------------------

/// A role, from the least privilege to the most.
#[derive(Debug, Clone, Copy, PartialEq, Eq, PartialOrd, Ord, Hash, Structural)]
pub enum Role {
    /// May observe, and nothing else ever.
    ReadOnly,
    /// May observe.
    Viewer,
    /// May run the show.
    Operator,
    /// May do anything.
    Admin,
}

/// What a request does.
#[derive(Debug, Clone, Copy, PartialEq, Eq, Hash, Structural)]
pub enum Action {
    /// Reads.
    Read,
    /// Creates, changes or commands.
    Write,
    /// Deletes or administers.
    Administer,
}

/// The place of a role among the privileges.
pub open spec fn rank(role: Role) -> nat {
    match role {
        Role::ReadOnly => 0,
        Role::Viewer => 1,
        Role::Operator => 2,
        Role::Admin => 3,
    }
}

/// Whether `role` may do `action`: everyone reads, operators write, and only an
/// administrator administers.
pub open spec fn may(role: Role, action: Action) -> bool {
    match action {
        Action::Read => true,
        Action::Write => rank(role) >= rank(Role::Operator),
        Action::Administer => role == Role::Admin,
    }
}

/// The name of a role.
pub open spec fn role_name(role: Role) -> Seq<char> {
    match role {
        Role::ReadOnly => "ReadOnly"@,
        Role::Viewer => "Viewer"@,
        Role::Operator => "Operator"@,
        Role::Admin => "Admin"@,
    }
}

/// The name of an action.
pub open spec fn action_name(action: Action) -> Seq<char> {
    match action {
        Action::Read => "Read"@,
        Action::Write => "Write"@,
        Action::Administer => "Administer"@,
    }
}

impl Role {
    /// Whether the role may do `action`.
    pub fn can(self, action: Action) -> (r: bool)
        ensures
            r == may(self, action),
    {
        match (self, action) {
            (Role::Admin, _) => true,
            (_, Action::Read) => true,
            (Role::Operator, Action::Write) => true,
            _ => false,
        }
    }

    /// Refuses an action that the role may not do.
    pub fn require(self, action: Action) -> (r: Result<(), ControlError>)
        ensures
            match r {
                Ok(_) => may(self, action),
                Err(ControlError::Forbidden(m)) => !may(self, action) && m@ == "role "@ + role_name(
                    self,
                ) + " may not perform "@ + action_name(action),
                Err(_) => false,
            },
    {
        if self.can(action) {
            return Ok(());
        }
        let role = match self {
            Role::ReadOnly => "ReadOnly",
            Role::Viewer => "Viewer",
            Role::Operator => "Operator",
            Role::Admin => "Admin",
        };
        let name = match action {
            Action::Read => "Read",
            Action::Write => "Write",
            Action::Administer => "Administer",
        };
        let mut m = cat3("role ", role, " may not perform ");
        m.append(name);
        Err(ControlError::Forbidden(m))
    }
}

// ---- Principals --------------------------------------------------------------------

/// The identity behind a key. An allowlist that is absent permits everything
/// on its axis; an empty one permits nothing.
#[derive(Debug, PartialEq, Eq)]
pub struct Principal {
    /// The id of the key.
    pub key_id: String,
    /// The role.
    pub role: Role,
    /// The objects that it may touch.
    pub scoped_object_ids: Option<Vec<String>>,
    /// The outputs that it may touch. An entry that starts with `program:`
    /// grants a program, and no output.
    pub scoped_output_ids: Option<Vec<String>>,
    /// The discovery domains that it may see.
    pub scoped_discovery_domains: Option<Vec<String>>,
}

/// Three allowlists.
#[verifier::ext_equal]
pub struct ScopesView {
    /// Objects.
    pub objects: Option<Seq<Seq<char>>>,
    /// Outputs and programs.
    pub outputs: Option<Seq<Seq<char>>>,
    /// Discovery domains.
    pub discovery_domains: Option<Seq<Seq<char>>>,
}

/// The identity behind a key.
#[verifier::ext_equal]
pub struct PrincipalView {
    /// The id of the key.
    pub key_id: Seq<char>,
    /// The role.
    pub role: Role,
    /// The allowlists.
    pub scopes: ScopesView,
}

/// The texts of an optional list.
pub open spec fn list_texts(list: Option<Vec<String>>) -> Option<Seq<Seq<char>>> {
    match list {
        Some(v) => Some(crate::text::texts(v@)),
        None => None,
    }
}

/// The texts of an optional slice.
pub open spec fn slice_texts(list: Option<&[String]>) -> Option<Seq<Seq<char>>> {
    match list {
        Some(v) => Some(crate::text::texts(v@)),
        None => None,
    }
}

fn clone_list(list: &Option<Vec<String>>) -> (r: Option<Vec<String>>)
    ensures
        list_texts(r) == list_texts(*list),
{
    match list {
        Some(v) => Some(clone_texts(v)),
        None => None,
    }
}

fn as_slice(list: &Option<Vec<String>>) -> (r: Option<&[String]>)
    ensures
        slice_texts(r) == list_texts(*list),
{
    match list {
        Some(v) => Some(v.as_slice()),
        None => None,
    }
}

/// The allowlists of a principal.
#[derive(Debug, Clone, Copy, PartialEq, Eq)]
pub struct AuthzScopes<'a> {
    objects: Option<&'a [String]>,
    outputs: Option<&'a [String]>,
    discovery_domains: Option<&'a [String]>,
}

impl<'a> AuthzScopes<'a> {
    /// The allowlists.
    pub closed spec fn view(self) -> ScopesView {
        ScopesView {
            objects: slice_texts(self.objects),
            outputs: slice_texts(self.outputs),
            discovery_domains: slice_texts(self.discovery_domains),
        }
    }

    /// These allowlists.
    pub fn new(
        objects: Option<&'a [String]>,
        outputs: Option<&'a [String]>,
        discovery_domains: Option<&'a [String]>,
    ) -> (r: Self)
        ensures
            r@ == (ScopesView {
                objects: slice_texts(objects),
                outputs: slice_texts(outputs),
                discovery_domains: slice_texts(discovery_domains),
            }),
    {
        AuthzScopes { objects, outputs, discovery_domains }
    }
}

/// No allowlist at all.
pub open spec fn unscoped() -> ScopesView {
    ScopesView { objects: None, outputs: None, discovery_domains: None }
}

impl Principal {
    /// The identity.
    pub open spec fn view(self) -> PrincipalView {
        PrincipalView {
            key_id: self.key_id@,
            role: self.role,
            scopes: ScopesView {
                objects: list_texts(self.scoped_object_ids),
                outputs: list_texts(self.scoped_output_ids),
                discovery_domains: list_texts(self.scoped_discovery_domains),
            },
        }
    }

    /// Whether it is held to certain objects.
    pub fn is_scoped(&self) -> (r: bool)
        ensures
            r == (self@.scopes.objects is Some),
    {
        self.scoped_object_ids.is_some()
    }

    /// Whether it is held to certain outputs.
    pub fn is_output_scoped(&self) -> (r: bool)
        ensures
            r == (self@.scopes.outputs is Some),
    {
        self.scoped_output_ids.is_some()
    }

    /// Whether it is held to certain discovery domains.
    pub fn is_discovery_scoped(&self) -> (r: bool)
        ensures
            r == (self@.scopes.discovery_domains is Some),
    {
        self.scoped_discovery_domains.is_some()
    }

    /// Its allowlists.
    pub fn scopes(&self) -> (r: AuthzScopes<'_>)
        ensures
            r@ == self@.scopes,
    {
        AuthzScopes::new(
            as_slice(&self.scoped_object_ids),
            as_slice(&self.scoped_output_ids),
            as_slice(&self.scoped_discovery_domains),
        )
    }

    /// The principal of every request where authentication is switched off.
    pub fn local_admin() -> (r: Self)
        ensures
            r@ == admin_view("local-admin"@),
    {
        administrator("local-admin")
    }
}

impl Clone for Principal {
    fn clone(&self) -> (r: Self)
        ensures
            r@ == self@,
    {
        Principal {
            key_id: self.key_id.clone(),
            role: self.role,
            scoped_object_ids: clone_list(&self.scoped_object_ids),
            scoped_output_ids: clone_list(&self.scoped_output_ids),
            scoped_discovery_domains: clone_list(&self.scoped_discovery_domains),
        }
    }
}

/// An administrator without allowlists.
pub open spec fn admin_view(key_id: Seq<char>) -> PrincipalView {
    PrincipalView { key_id, role: Role::Admin, scopes: unscoped() }
}

fn administrator(key_id: &str) -> (r: Principal)
    ensures
        r@ == admin_view(key_id@),
{
    Principal {
        key_id: key_id.to_owned(),
        role: Role::Admin,
        scoped_object_ids: None,
        scoped_output_ids: None,
        scoped_discovery_domains: None,
    }
}

// ---- Scopes ------------------------------------------------------------------------

/// What a request or an event is about.
#[derive(Debug, Clone, Copy, PartialEq, Eq)]
pub enum AuthzScope<'a> {
    /// Nothing that is held to a list.
    Public,
    /// An object.
    Object(&'a str),
    /// An output.
    Output(&'a str),
    /// A program.
    Program(&'a str),
    /// A row of the discovery inventory, with its domain where it has one.
    DiscoveryDomain(Option<&'a str>),
    /// An object and an output at once.
    ObjectAndOutput {
        /// The object.
        object: &'a str,
        /// The output.
        output: &'a str,
    },
}

/// What a request or an event is about.
pub enum ScopeView {
    /// Nothing that is held to a list.
    Public,
    /// An object.
    Object(Seq<char>),
    /// An output.
    Output(Seq<char>),
    /// A program.
    Program(Seq<char>),
    /// A row of the discovery inventory.
    DiscoveryDomain(Option<Seq<char>>),
    /// An object and an output.
    ObjectAndOutput(Seq<char>, Seq<char>),
}

impl<'a> AuthzScope<'a> {
    /// What the request is about.
    pub open spec fn view(self) -> ScopeView {
        match self {
            AuthzScope::Public => ScopeView::Public,
            AuthzScope::Object(id) => ScopeView::Object(id@),
            AuthzScope::Output(id) => ScopeView::Output(id@),
            AuthzScope::Program(id) => ScopeView::Program(id@),
            AuthzScope::DiscoveryDomain(Some(d)) => ScopeView::DiscoveryDomain(Some(d@)),
            AuthzScope::DiscoveryDomain(None) => ScopeView::DiscoveryDomain(None),
            AuthzScope::ObjectAndOutput { object, output } => ScopeView::ObjectAndOutput(
                object@,
                output@,
            ),
        }
    }
}

/// Whether an allowlist permits `id`. One that exists never permits what has
/// no id.
pub open spec fn listed(list: Option<Seq<Seq<char>>>, id: Option<Seq<char>>) -> bool {
    match (list, id) {
        (None, _) => true,
        (Some(allowed), Some(i)) => allowed.contains(i),
        (Some(_), None) => false,
    }
}

/// Whether the output allowlist permits the output `id`. An entry that starts
/// with `program:` permits no output.
pub open spec fn output_listed(list: Option<Seq<Seq<char>>>, id: Seq<char>) -> bool {
    match list {
        None => true,
        Some(allowed) => allowed.contains(id) && !"program:"@.is_prefix_of(id),
    }
}

/// Whether the output allowlist permits the program `id`.
pub open spec fn program_listed(list: Option<Seq<Seq<char>>>, id: Seq<char>) -> bool {
    match list {
        None => true,
        Some(allowed) => allowed.contains("program:"@ + id),
    }
}

/// Whether the allowlists permit what `scope` is about.
pub open spec fn permits(scopes: ScopesView, scope: ScopeView) -> bool {
    match scope {
        ScopeView::Public => true,
        ScopeView::Object(id) => listed(scopes.objects, Some(id)),
        ScopeView::Output(id) => output_listed(scopes.outputs, id),
        ScopeView::Program(id) => program_listed(scopes.outputs, id),
        ScopeView::DiscoveryDomain(domain) => listed(scopes.discovery_domains, domain),
        ScopeView::ObjectAndOutput(object, output) => listed(scopes.objects, Some(object))
            && output_listed(scopes.outputs, output),
    }
}

fn slice_holds(list: &[String], s: &str) -> (r: bool)
    ensures
        r == crate::text::texts(list@).contains(s@),
{
    let mut i: usize = 0;
    while i < list.len()
        invariant
            i <= list.len(),
            forall|j: int| 0 <= j < i ==> (#[trigger] list@[j])@ != s@,
        decreases list.len() - i,
    {
        if str_eq(list[i].as_str(), s) {
            assert(crate::text::texts(list@)[i as int] == s@);
            return true;
        }
        i += 1;
    }
    assert(!crate::text::texts(list@).contains(s@)) by {
        if crate::text::texts(list@).contains(s@) {
            let j = choose|j: int|
                0 <= j < crate::text::texts(list@).len() && crate::text::texts(list@)[j] == s@;
            assert(list@[j]@ == s@);
        }
    }
    false
}

fn allowlist_permits(list: Option<&[String]>, id: Option<&str>) -> (r: bool)
    ensures
        r == listed(
            slice_texts(list),
            match id {
                Some(i) => Some(i@),
                None => None,
            },
        ),
{
    match (list, id) {
        (None, _) => true,
        (Some(allowed), Some(i)) => slice_holds(allowed, i),
        (Some(_), None) => false,
    }
}

fn output_scope_permits(list: Option<&[String]>, id: &str) -> (r: bool)
    ensures
        r == output_listed(slice_texts(list), id@),
{
    match list {
        None => true,
        Some(allowed) => !starts_with(id, "program:") && slice_holds(allowed, id),
    }
}

fn program_scope_permits(list: Option<&[String]>, id: &str) -> (r: bool)
    ensures
        r == program_listed(slice_texts(list), id@),
{
    match list {
        None => true,
        Some(allowed) => {
            let entry = cat2("program:", id);
            slice_holds(allowed, entry.as_str())
        },
    }
}

/// Whether the allowlists permit what `scope` is about.
pub fn scope_permits(scopes: &AuthzScopes<'_>, scope: AuthzScope<'_>) -> (r: bool)
    ensures
        r == permits(scopes@, scope@),
{
    match scope {
        AuthzScope::Public => true,
        AuthzScope::Object(id) => allowlist_permits(scopes.objects, Some(id)),
        AuthzScope::Output(id) => output_scope_permits(scopes.outputs, id),
        AuthzScope::Program(id) => program_scope_permits(scopes.outputs, id),
        AuthzScope::DiscoveryDomain(domain) => allowlist_permits(scopes.discovery_domains, domain),
        AuthzScope::ObjectAndOutput { object, output } => allowlist_permits(
            scopes.objects,
            Some(object),
        ) && output_scope_permits(scopes.outputs, output),
    }
}

/// How a refusal names what the request was about.
pub open spec fn scope_label(scope: ScopeView) -> Seq<char> {
    match scope {
        ScopeView::Public => "Public"@,
        ScopeView::Object(id) => "Object("@ + crate::text::debug_of(id) + ")"@,
        ScopeView::Output(id) => "Output("@ + crate::text::debug_of(id) + ")"@,
        ScopeView::Program(id) => "Program("@ + crate::text::debug_of(id) + ")"@,
        ScopeView::DiscoveryDomain(Some(d)) => "DiscoveryDomain(Some("@ + crate::text::debug_of(d)
            + "))"@,
        ScopeView::DiscoveryDomain(None) => "DiscoveryDomain(None)"@,
        ScopeView::ObjectAndOutput(object, output) => "ObjectAndOutput { object: "@
            + crate::text::debug_of(object) + ", output: "@ + crate::text::debug_of(output) + " }"@,
    }
}

fn scope_text(scope: AuthzScope<'_>) -> (r: String)
    ensures
        r@ == scope_label(scope@),
{
    match scope {
        AuthzScope::Public => "Public".to_owned(),
        AuthzScope::Object(id) => cat3("Object(", debug_text(id).as_str(), ")"),
        AuthzScope::Output(id) => cat3("Output(", debug_text(id).as_str(), ")"),
        AuthzScope::Program(id) => cat3("Program(", debug_text(id).as_str(), ")"),
        AuthzScope::DiscoveryDomain(Some(d)) => cat3(
            "DiscoveryDomain(Some(",
            debug_text(d).as_str(),
            "))",
        ),
        AuthzScope::DiscoveryDomain(None) => "DiscoveryDomain(None)".to_owned(),
        AuthzScope::ObjectAndOutput { object, output } => {
            let mut out = cat3(
                "ObjectAndOutput { object: ",
                debug_text(object).as_str(),
                ", output: ",
            );
            let o = debug_text(output);
            out.append(o.as_str());
            out.append(" }");
            out
        },
    }
}

/// The answer to a principal that asks for `scope`.
pub open spec fn authorized_as(
    r: Result<(), ControlError>,
    principal: PrincipalView,
    scope: ScopeView,
) -> bool {
    match r {
        Ok(_) => permits(principal.scopes, scope),
        Err(ControlError::Forbidden(m)) => !permits(principal.scopes, scope) && m@ == "principal "@
            + crate::text::debug_of(principal.key_id) + " is not authorized for "@ + scope_label(
            scope,
        ),
        Err(_) => false,
    }
}

/// Refuses what the allowlists of the principal do not permit.
pub fn authorize_scope(principal: &Principal, scope: AuthzScope<'_>) -> (r: Result<
    (),
    ControlError,
>)
    ensures
        authorized_as(r, principal@, scope@),
{
    if scope_permits(&principal.scopes(), scope) {
        return Ok(());
    }
    let mut m = cat3(
        "principal ",
        debug_text(principal.key_id.as_str()).as_str(),
        " is not authorized for ",
    );
    let label = scope_text(scope);
    m.append(label.as_str());
    Err(ControlError::Forbidden(m))
}

/// Refuses an object that the principal may not touch.
pub fn authorize_object(principal: &Principal, object_id: &str) -> (r: Result<(), ControlError>)
    ensures
        authorized_as(r, principal@, ScopeView::Object(object_id@)),
{
    authorize_scope(principal, AuthzScope::Object(object_id))
}

/// Refuses an output that the principal may not touch.
pub fn authorize_output(principal: &Principal, output_id: &str) -> (r: Result<(), ControlError>)
    ensures
        authorized_as(r, principal@, ScopeView::Output(output_id@)),
{
    authorize_scope(principal, AuthzScope::Output(output_id))
}

// ---- Keys ----------------------------------------------------------------------------

#[derive(Debug)]
struct KeyRecord {
    digest: Vec<u8>,
    principal: Principal,
}

impl KeyRecord {
    spec fn view(self) -> KeyView {
        KeyView { digest: self.digest@, principal: self.principal@ }
    }
}

/// A registered key.
#[verifier::ext_equal]
pub struct KeyView {
    /// The digest of its secret.
    pub digest: Seq<u8>,
    /// The principal behind it.
    pub principal: PrincipalView,
}

/// The registered keys.
#[verifier::ext_equal]
pub struct KeyStoreView {
    /// The key of the digests.
    pub pepper: Seq<u8>,
    /// The keys by their ids.
    pub keys: Map<Seq<char>, KeyView>,
    /// How often a principal was changed or revoked, around the clock of the
    /// counter.
    pub generation: u64,
}

/// The digest of a secret under `pepper`.
pub open spec fn digest_of(pepper: Seq<u8>, secret: Seq<char>) -> Seq<u8> {
    crate::crypto::hmac_sha256_of(pepper, vstd::utf8::encode_utf8(secret))
}

/// The store after a key was registered.
pub open spec fn registered(
    store: KeyStoreView,
    key_id: Seq<char>,
    secret: Seq<char>,
    principal: PrincipalView,
) -> KeyStoreView {
    KeyStoreView {
        keys: store.keys.insert(
            key_id,
            KeyView { digest: digest_of(store.pepper, secret), principal },
        ),
        ..store
    }
}

/// The generation after `generation`.
pub open spec fn next_generation(generation: u64) -> u64 {
    if generation == u64::MAX {
        0
    } else {
        (generation + 1) as u64
    }
}

/// The store after a key was revoked.
pub open spec fn revoked(store: KeyStoreView, key_id: Seq<char>) -> KeyStoreView {
    if store.keys.contains_key(key_id) {
        KeyStoreView {
            keys: store.keys.remove(key_id),
            generation: next_generation(store.generation),
            ..store
        }
    } else {
        store
    }
}

/// The store after a key was given another principal.
pub open spec fn repointed(
    store: KeyStoreView,
    key_id: Seq<char>,
    principal: PrincipalView,
) -> KeyStoreView {
    if store.keys.contains_key(key_id) {
        KeyStoreView {
            keys: store.keys.insert(
                key_id,
                KeyView { principal, ..store.keys[key_id] },
            ),
            generation: next_generation(store.generation),
            ..store
        }
    } else {
        store
    }
}

/// The principal that a token `ID.SECRET` authenticates: the key is known and
/// the digest of the secret is the one on record.
pub open spec fn verified(store: KeyStoreView, token: Seq<char>) -> Option<PrincipalView> {
    match crate::text::split_first(token, '.') {
        Some((key_id, secret)) => if store.keys.contains_key(key_id) && store.keys[key_id].digest
            == digest_of(store.pepper, secret) {
            Some(store.keys[key_id].principal)
        } else {
            None
        },
        None => None,
    }
}

/// The principal behind a key.
pub open spec fn principal_in(store: KeyStoreView, key_id: Seq<char>) -> Option<PrincipalView> {
    if store.keys.contains_key(key_id) {
        Some(store.keys[key_id].principal)
    } else {
        None
    }
}

/// The token in an authorization header of the bearer scheme.
pub open spec fn bearer_token(header: Seq<char>) -> Option<Seq<char>> {
    if "Bearer "@.is_prefix_of(header) {
        Some(crate::text::trim_of(header.skip("Bearer "@.len() as int), CharClass::White))
    } else if "bearer "@.is_prefix_of(header) {
        Some(crate::text::trim_of(header.skip("bearer "@.len() as int), CharClass::White))
    } else {
        None
    }
}

/// The answer to a caller of whom `principal` is known.
pub open spec fn authenticated_as(
    r: Result<Principal, ControlError>,
    principal: Option<PrincipalView>,
) -> bool {
    match r {
        Ok(p) => principal == Some(p@),
        Err(e) => e == ControlError::Unauthenticated && principal is None,
    }
}

/// The registered keys, with the digest of each secret and the principal
/// behind it.
#[derive(Debug)]
pub struct ApiKeyStore {
    pepper: Vec<u8>,
    keys: Table<KeyRecord>,
    generation: u64,
}

impl ApiKeyStore {
    /// The registered keys.
    pub closed spec fn view(self) -> KeyStoreView {
        KeyStoreView {
            pepper: self.pepper@,
            keys: self.keys@.map_values(|k: KeyRecord| k@),
            generation: self.generation,
        }
    }

    /// The store is one that the operations below can reach.
    pub closed spec fn wf(self) -> bool {
        self.keys.wf()
    }

    /// A store without keys, whose digests are keyed with `pepper`.
    pub fn new(pepper: Vec<u8>) -> (r: Self)
        ensures
            r.wf(),
            r@ == (KeyStoreView { pepper: pepper@, keys: Map::empty(), generation: 0 }),
    {
        let ghost p = pepper@;
        let r = ApiKeyStore { pepper, keys: Table::new(), generation: 0 };
        assert(r@ =~= (KeyStoreView { pepper: p, keys: Map::empty(), generation: 0 }));
        r
    }

    /// The digest of a secret.
    pub fn digest(&self, secret: &str) -> (r: Vec<u8>)
        ensures
            r@ == digest_of(self@.pepper, secret@),
    {
        hmac_sha256(self.pepper.as_slice(), secret.as_bytes())
    }

    /// Registers a key. One with the same id is replaced. The generation stays:
    /// keys are registered before anyone holds one.
    pub fn register(&mut self, key_id: &str, secret: &str, principal: Principal)
        requires
            old(self).wf(),
        ensures
            final(self).wf(),
            final(self)@ == registered(old(self)@, key_id@, secret@, principal@),
    {
        let ghost before = self@;
        let ghost p = principal@;
        let digest = self.digest(secret);
        let record = KeyRecord { digest, principal };
        let ghost rec = record@;
        self.keys.insert(key_id.to_owned(), record);
        assert(self@.keys =~= before.keys.insert(key_id@, rec));
        assert(self@ =~= registered(before, key_id@, secret@, p));
    }

    /// The principal that the token `ID.SECRET` authenticates.
    pub fn verify(&self, token: &str) -> (r: Result<Principal, ControlError>)
        requires
            self.wf(),
        ensures
            authenticated_as(r, verified(self@, token@)),
    {
        match split_once(token, '.') {
            None => Err(ControlError::Unauthenticated),
            Some((key_id, secret)) => match self.keys.get(key_id) {
                None => {
                    assert(!self@.keys.contains_key(key_id@));
                    Err(ControlError::Unauthenticated)
                },
                Some(record) => {
                    let presented = self.digest(secret);
                    assert(self@.keys.contains_key(key_id@) && self@.keys[key_id@] == record@);
                    if ct_eq(presented.as_slice(), record.digest.as_slice()) {
                        Ok(record.principal.clone())
                    } else {
                        Err(ControlError::Unauthenticated)
                    }
                },
            },
        }
    }

    /// The generation. It changes whenever a principal is changed or revoked.
    pub fn generation(&self) -> (r: u64)
        ensures
            r == self@.generation,
    {
        self.generation
    }

    /// The principal behind a key as it is now, or none where it was revoked.
    pub fn principal_for_key(&self, key_id: &str) -> (r: Option<Principal>)
        requires
            self.wf(),
        ensures
            match r {
                Some(p) => principal_in(self@, key_id@) == Some(p@),
                None => principal_in(self@, key_id@) is None,
            },
    {
        match self.keys.get(key_id) {
            Some(record) => {
                assert(self@.keys[key_id@] == record@);
                Some(record.principal.clone())
            },
            None => None,
        }
    }

    /// Revokes a key. Whether there was one.
    pub fn revoke(&mut self, key_id: &str) -> (r: bool)
        requires
            old(self).wf(),
        ensures
            final(self).wf(),
            final(self)@ == revoked(old(self)@, key_id@),
            r == old(self)@.keys.contains_key(key_id@),
    {
        let ghost before = self@;
        match self.keys.remove(key_id) {
            Some(_) => {
                self.generation = self.generation.wrapping_add(1);
                assert(self@.keys =~= before.keys.remove(key_id@));
                assert(self@ =~= revoked(before, key_id@));
                true
            },
            None => false,
        }
    }

    /// Gives a key another principal. Its secret stays. Whether there was one.
    pub fn set_principal(&mut self, key_id: &str, principal: Principal) -> (r: bool)
        requires
            old(self).wf(),
        ensures
            final(self).wf(),
            final(self)@ == repointed(old(self)@, key_id@, principal@),
            r == old(self)@.keys.contains_key(key_id@),
    {
        let ghost before = self@;
        let ghost p = principal@;
        match self.keys.remove(key_id) {
            Some(record) => {
                let next = KeyRecord { digest: record.digest, principal };
                let ghost nv = next@;
                self.keys.insert(key_id.to_owned(), next);
                self.generation = self.generation.wrapping_add(1);
                assert(self@.keys =~= before.keys.insert(key_id@, nv));
                assert(self@ =~= repointed(before, key_id@, p));
                true
            },
            None => false,
        }
    }

    /// The principal that an `Authorization` header authenticates.
    pub fn verify_authorization(&self, header_value: Option<&str>) -> (r: Result<
        Principal,
        ControlError,
    >)
        requires
            self.wf(),
        ensures
            authenticated_as(
                r,
                match header_value {
                    Some(h) => match bearer_token(h@) {
                        Some(token) => verified(self@, token),
                        None => None,
                    },
                    None => None,
                },
            ),
    {
        match header_value {
            None => Err(ControlError::Unauthenticated),
            Some(h) => match strip_prefix(h, "Bearer ") {
                Some(rest) => self.verify(trim(rest, CharClass::White)),
                None => match strip_prefix(h, "bearer ") {
                    Some(rest) => self.verify(trim(rest, CharClass::White)),
                    None => Err(ControlError::Unauthenticated),
                },
            },
        }
    }
}

// ---- First access --------------------------------------------------------------------

/// The store that holds the administrator's key alone.
pub open spec fn admin_store(pepper: Seq<u8>, secret: Seq<char>) -> KeyStoreView {
    registered(
        KeyStoreView { pepper, keys: Map::empty(), generation: 0 },
        "admin"@,
        secret,
        admin_view("admin"@),
    )
}

/// Whether a store and a token are the ones for first access, where `pepper`
/// and `drawn` were drawn: the operator's own secret is registered as it is and
/// there is no token; without one `drawn` is registered, and the token names it.
pub open spec fn provisioned(
    store: KeyStoreView,
    token: Option<Seq<char>>,
    admin_secret: Option<Seq<char>>,
    pepper: Seq<u8>,
    drawn: Seq<char>,
) -> bool {
    match admin_secret {
        Some(secret) => store == admin_store(pepper, secret) && token is None,
        None => store == admin_store(pepper, drawn) && token == Some("admin."@ + drawn),
    }
}

/// The store with the administrator's key and the token for first access, where
/// `pepper` and `drawn` are random.
pub fn provision_with(pepper: Vec<u8>, admin_secret: Option<String>, drawn: String) -> (r: (
    ApiKeyStore,
    Option<String>,
))
    ensures
        r.0.wf(),
        provisioned(
            r.0@,
            crate::text::text_opt(r.1),
            crate::text::text_opt(admin_secret),
            pepper@,
            drawn@,
        ),
{
    let mut store = ApiKeyStore::new(pepper);
    match admin_secret {
        Some(secret) => {
            store.register("admin", secret.as_str(), administrator("admin"));
            (store, None)
        },
        None => {
            store.register("admin", drawn.as_str(), administrator("admin"));
            let token = cat2("admin.", drawn.as_str());
            (store, Some(token))
        },
    }
}

/// The store with the administrator's key. The digests are keyed at random, so
/// they hold for this run alone. Without a secret of the operator's a random
/// one is registered and its token handed back.
pub fn provision_admin_keys(admin_secret: Option<String>) -> (r: (ApiKeyStore, Option<String>))
    ensures
        r.0.wf(),
        exists|pepper: Seq<u8>, drawn: Seq<char>|
            pepper.len() == 16 && crate::crypto::is_uuid(drawn) && #[trigger] provisioned(
                r.0@,
                crate::text::text_opt(r.1),
                crate::text::text_opt(admin_secret),
                pepper,
                drawn,
            ),
{
    let pepper = uuid_bytes();
    let drawn = uuid_text();
    let ghost p = pepper@;
    let ghost d = drawn@;
    let ghost secret = crate::text::text_opt(admin_secret);
    let r = provision_with(pepper, admin_secret, drawn);
    assert(provisioned(r.0@, crate::text::text_opt(r.1), secret, p, d));
    r
}

// ---- Keys of the configuration ---------------------------------------------------------

/// The role that the configuration gives a key.
#[derive(Debug, Clone, Copy, PartialEq, Eq, Structural)]
pub enum ApiKeyRole {
    /// May observe, and nothing else ever.
    ReadOnly,
    /// May observe.
    Viewer,
    /// May run the show.
    Operator,
    /// May do anything.
    Admin,
}

/// A key of the configuration. Its secret is not there, but in an environment
/// variable.
#[derive(Debug, PartialEq, Eq)]
pub struct ApiKeyConfig {
    /// The id.
    pub id: String,
    /// The environment variable that holds the secret.
    pub secret_env: String,
    /// The role.
    pub role: ApiKeyRole,
    /// The objects that it may touch.
    pub scoped_object_ids: Option<Vec<String>>,
    /// The outputs and programs that it may touch.
    pub scoped_output_ids: Option<Vec<String>>,
    /// The discovery domains that it may see.
    pub scoped_discovery_domains: Option<Vec<String>>,
}

impl ApiKeyConfig {
    /// A key without allowlists.
    pub fn new(id: &str, secret_env: &str, role: ApiKeyRole) -> (r: Self)
        ensures
            r.id@ == id@,
            r.secret_env@ == secret_env@,
            r.role == role,
            r.scoped_object_ids is None,
            r.scoped_output_ids is None,
            r.scoped_discovery_domains is None,
    {
        ApiKeyConfig {
            id: id.to_owned(),
            secret_env: secret_env.to_owned(),
            role,
            scoped_object_ids: None,
            scoped_output_ids: None,
            scoped_discovery_domains: None,
        }
    }

    /// The key, held to these objects.
    pub fn with_scoped_object_ids(self, ids: Vec<String>) -> (r: Self)
        ensures
            r == (ApiKeyConfig { scoped_object_ids: Some(ids), ..self }),
    {
        ApiKeyConfig { scoped_object_ids: Some(ids), ..self }
    }

    /// The key, held to these outputs and programs.
    pub fn with_scoped_output_ids(self, ids: Vec<String>) -> (r: Self)
        ensures
            r == (ApiKeyConfig { scoped_output_ids: Some(ids), ..self }),
    {
        ApiKeyConfig { scoped_output_ids: Some(ids), ..self }
    }

    /// The key, held to these discovery domains.
    pub fn with_scoped_discovery_domains(self, domains: Vec<String>) -> (r: Self)
        ensures
            r == (ApiKeyConfig { scoped_discovery_domains: Some(domains), ..self }),
    {
        ApiKeyConfig { scoped_discovery_domains: Some(domains), ..self }
    }
}

/// The role that a configured role stands for.
pub open spec fn role_of(role: ApiKeyRole) -> Role {
    match role {
        ApiKeyRole::ReadOnly => Role::ReadOnly,
        ApiKeyRole::Viewer => Role::Viewer,
        ApiKeyRole::Operator => Role::Operator,
        ApiKeyRole::Admin => Role::Admin,
    }
}

/// The principal behind a configured key.
pub open spec fn configured(key: ApiKeyConfig) -> PrincipalView {
    PrincipalView {
        key_id: key.id@,
        role: role_of(key.role),
        scopes: ScopesView {
            objects: list_texts(key.scoped_object_ids),
            outputs: list_texts(key.scoped_output_ids),
            discovery_domains: list_texts(key.scoped_discovery_domains),
        },
    }
}

/// The principal behind a configured key.
pub fn principal_from_config(key: &ApiKeyConfig) -> (r: Principal)
    ensures
        r@ == configured(*key),
{
    let role = match key.role {
        ApiKeyRole::ReadOnly => Role::ReadOnly,
        ApiKeyRole::Viewer => Role::Viewer,
        ApiKeyRole::Operator => Role::Operator,
        ApiKeyRole::Admin => Role::Admin,
    };
    Principal {
        key_id: key.id.clone(),
        role,
        scoped_object_ids: clone_list(&key.scoped_object_ids),
        scoped_output_ids: clone_list(&key.scoped_output_ids),
        scoped_discovery_domains: clone_list(&key.scoped_discovery_domains),
    }
}

/// The store after the configured keys were registered with their secrets.
pub open spec fn all_registered(
    store: KeyStoreView,
    keys: Seq<ApiKeyConfig>,
    secrets: Seq<Seq<char>>,
) -> KeyStoreView
    decreases secrets.len(),
{
    if secrets.len() == 0 {
        store
    } else {
        let n = secrets.len() - 1;
        registered(
            all_registered(store, keys, secrets.drop_last()),
            keys[n].id@,
            secrets[n],
            configured(keys[n]),
        )
    }
}

/// Whether `secrets` are what the look-up gave for the first of the keys.
pub open spec fn looked_up<F: Fn(&str) -> Option<String>>(
    lookup: F,
    keys: Seq<ApiKeyConfig>,
    secrets: Seq<Seq<char>>,
) -> bool {
    &&& secrets.len() <= keys.len()
    &&& forall|i: int| 0 <= i < secrets.len() ==> found(lookup, keys[i], #[trigger] secrets[i])
}

/// Whether the look-up can give `secret` for a key.
pub open spec fn found<F: Fn(&str) -> Option<String>>(
    lookup: F,
    key: ApiKeyConfig,
    secret: Seq<char>,
) -> bool {
    exists|name: &str, s: String|
        name@ == key.secret_env@ && s@ == secret && #[trigger] call_ensures(
            lookup,
            (name,),
            Some(s),
        )
}

/// Whether the look-up can give nothing for a key.
pub open spec fn missing<F: Fn(&str) -> Option<String>>(lookup: F, key: ApiKeyConfig) -> bool {
    exists|name: &str|
        name@ == key.secret_env@ && #[trigger] call_ensures(lookup, (name,), None::<String>)
}

/// Registers the configured keys in their order, each with the secret that
/// `lookup` gives for its environment variable. The first one without a secret
/// stops it: a key that nobody can use is a mistake in the configuration.
pub fn register_config_api_keys<F: Fn(&str) -> Option<String>>(
    store: &mut ApiKeyStore,
    keys: &Vec<ApiKeyConfig>,
    lookup: F,
) -> (r: Result<(), String>)
    requires
        old(store).wf(),
        forall|name: &str| #[trigger] call_requires(lookup, (name,)),
    ensures
        final(store).wf(),
        exists|secrets: Seq<Seq<char>>|
            {
                &&& #[trigger] looked_up(lookup, keys@, secrets)
                &&& final(store)@ == all_registered(old(store)@, keys@, secrets)
                &&& match r {
                    Ok(_) => secrets.len() == keys@.len(),
                    Err(m) => {
                        &&& secrets.len() < keys@.len()
                        &&& missing(lookup, keys@[secrets.len() as int])
                        &&& m@ == missing_secret(keys@[secrets.len() as int])
                    },
                }
            },
{
    let mut i: usize = 0;
    let ghost mut secrets: Seq<Seq<char>> = Seq::empty();
    while i < keys.len()
        invariant
            i <= keys.len(),
            secrets.len() == i,
            store.wf(),
            forall|name: &str| #[trigger] call_requires(lookup, (name,)),
            looked_up(lookup, keys@, secrets),
            store@ == all_registered(old(store)@, keys@, secrets),
        decreases keys.len() - i,
    {
        let key = &keys[i];
        let name = key.secret_env.as_str();
        match lookup(name) {
            Some(secret) => {
                let ghost before = secrets;
                proof {
                    secrets = secrets.push(secret@);
                    assert(secrets.drop_last() =~= before);
                    assert(found(lookup, *key, secret@));
                }
                store.register(key.id.as_str(), secret.as_str(), principal_from_config(key));
            },
            None => {
                assert(missing(lookup, *key));
                let mut m = cat3("api key ", debug_text(key.id.as_str()).as_str(), ": ");
                m.append("the secret environment variable ");
                m.append(name);
                m.append(" is not set");
                return Err(m);
            },
        }
        i += 1;
    }
    Ok(())
}

/// The message for a configured key without a secret.
pub open spec fn missing_secret(key: ApiKeyConfig) -> Seq<char> {
    "api key "@ + crate::text::debug_of(key.id@) + ": "@ + "the secret environment variable "@
        + key.secret_env@ + " is not set"@
}

// ---- Laws ------------------------------------------------------------------------------

/// What a role may do, every higher role may do.
pub proof fn law_privilege_grows_with_rank(low: Role, high: Role, action: Action)
    requires
        rank(low) <= rank(high),
        may(low, action),
    ensures
        may(high, action),
{
}

/// The observing roles change nothing.
pub proof fn law_observers_never_change_anything(role: Role, action: Action)
    requires
        role == Role::ReadOnly || role == Role::Viewer,
    ensures
        may(role, action) <==> action == Action::Read,
{
}

/// A principal without allowlists is permitted everything.
pub proof fn law_unscoped_principal_is_permitted_everything(scope: ScopeView)
    ensures
        permits(unscoped(), scope),
{
}

/// An empty allowlist permits nothing on its axis.
pub proof fn law_empty_allowlist_permits_nothing(
    scopes: ScopesView,
    id: Seq<char>,
    domain: Option<Seq<char>>,
)
    ensures
        scopes.objects == Some(Seq::<Seq<char>>::empty()) ==> !permits(
            scopes,
            ScopeView::Object(id),
        ),
        scopes.outputs == Some(Seq::<Seq<char>>::empty()) ==> !permits(
            scopes,
            ScopeView::Output(id),
        ) && !permits(scopes, ScopeView::Program(id)),
        scopes.discovery_domains == Some(Seq::<Seq<char>>::empty()) ==> !permits(
            scopes,
            ScopeView::DiscoveryDomain(domain),
        ),
{
}

/// A principal that is held to discovery domains never sees a row without one.
pub proof fn law_unlabelled_row_is_hidden(scopes: ScopesView)
    requires
        scopes.discovery_domains is Some,
    ensures
        !permits(scopes, ScopeView::DiscoveryDomain(None)),
{
}

/// A grant of a program permits no output, and a grant of an output permits no
/// program, whatever their ids.
pub proof fn law_programs_and_outputs_do_not_mix(scopes: ScopesView, id: Seq<char>)
    requires
        scopes.outputs is Some,
    ensures
        (forall|i: int|
            0 <= i < scopes.outputs->0.len() ==> "program:"@.is_prefix_of(
                #[trigger] scopes.outputs->0[i],
            )) ==> !permits(scopes, ScopeView::Output(id)),
        (forall|i: int|
            0 <= i < scopes.outputs->0.len() ==> !"program:"@.is_prefix_of(
                #[trigger] scopes.outputs->0[i],
            )) ==> !permits(scopes, ScopeView::Program(id)),
{
    let allowed = scopes.outputs->0;
    if allowed.contains("program:"@ + id) {
        let i = choose|i: int| 0 <= i < allowed.len() && allowed[i] == "program:"@ + id;
        assert("program:"@.is_prefix_of(allowed[i])) by {
            assert(("program:"@ + id).take("program:"@.len() as int) =~= "program:"@);
        }
    }
    if allowed.contains(id) {
        let i = choose|i: int| 0 <= i < allowed.len() && allowed[i] == id;
        assert(allowed[i] == id);
    }
}

/// A registered key authenticates its principal, where its id holds no full
/// stop.
pub proof fn law_registered_key_authenticates(
    store: KeyStoreView,
    key_id: Seq<char>,
    secret: Seq<char>,
    principal: PrincipalView,
)
    requires
        !key_id.contains('.'),
    ensures
        verified(registered(store, key_id, secret, principal), key_id + "."@ + secret) == Some(
            principal,
        ),
{
    reveal_strlit(".");
    lemma_token_splits(key_id, secret);
}

/// A token is cut at the full stop behind the id.
proof fn lemma_token_splits(key_id: Seq<char>, secret: Seq<char>)
    requires
        !key_id.contains('.'),
    ensures
        crate::text::split_first(key_id + "."@ + secret, '.') == Some((key_id, secret)),
{
    reveal_strlit(".");
    let token = key_id + "."@ + secret;
    let n = key_id.len() as int;
    assert(token[n] == '.');
    crate::text::lemma_first_index(token, '.');
    let i = crate::text::first_index(token, '.')->0;
    if i < n {
        assert(key_id[i] == token[i]);
        assert(key_id.contains('.'));
    }
    assert(i == n);
    assert(token.take(n) =~= key_id);
    assert(token.skip(n + 1) =~= secret);
}

/// The token for first access authenticates the administrator: the one that is
/// handed back, or the one that the operator's own secret makes.
pub proof fn law_first_access_is_the_administrators(
    store: KeyStoreView,
    token: Option<Seq<char>>,
    admin_secret: Option<Seq<char>>,
    pepper: Seq<u8>,
    drawn: Seq<char>,
)
    requires
        provisioned(store, token, admin_secret, pepper, drawn),
    ensures
        admin_secret is Some ==> token is None && verified(store, "admin."@ + admin_secret->0)
            == Some(admin_view("admin"@)),
        admin_secret is None ==> token is Some && verified(store, token->0) == Some(
            admin_view("admin"@),
        ),
{
    let secret = match admin_secret {
        Some(s) => s,
        None => drawn,
    };
    reveal_strlit("admin");
    reveal_strlit("admin.");
    reveal_strlit(".");
    law_registered_key_authenticates(
        KeyStoreView { pepper, keys: Map::empty(), generation: 0 },
        "admin"@,
        secret,
        admin_view("admin"@),
    );
    assert("admin."@ + secret =~= "admin"@ + "."@ + secret);
}

/// A token authenticates only with a secret whose digest is the one on record.
pub proof fn law_other_digest_is_refused(
    store: KeyStoreView,
    key_id: Seq<char>,
    secret: Seq<char>,
)
    requires
        !key_id.contains('.'),
        store.keys.contains_key(key_id) ==> store.keys[key_id].digest != digest_of(
            store.pepper,
            secret,
        ),
    ensures
        verified(store, key_id + "."@ + secret) is None,
{
    lemma_token_splits(key_id, secret);
}

/// A revoked key authenticates nothing. The other keys are as they were.
pub proof fn law_revoked_key_is_refused(
    store: KeyStoreView,
    key_id: Seq<char>,
    secret: Seq<char>,
    other: Seq<char>,
)
    requires
        !key_id.contains('.'),
        other != key_id,
    ensures
        verified(revoked(store, key_id), key_id + "."@ + secret) is None,
        !revoked(store, key_id).keys.contains_key(key_id),
        revoked(store, key_id).keys.contains_key(other) <==> store.keys.contains_key(other),
        store.keys.contains_key(other) ==> revoked(store, key_id).keys[other] == store.keys[other],
{
    lemma_token_splits(key_id, secret);
}

/// A key with another principal keeps its secret: the token that authenticated
/// before authenticates the new principal.
pub proof fn law_repointed_key_keeps_its_secret(
    store: KeyStoreView,
    key_id: Seq<char>,
    secret: Seq<char>,
    principal: PrincipalView,
)
    requires
        !key_id.contains('.'),
        verified(store, key_id + "."@ + secret) is Some,
    ensures
        verified(repointed(store, key_id, principal), key_id + "."@ + secret) == Some(principal),
{
    lemma_token_splits(key_id, secret);
}

/// Every change of a registered key's principal shows in the generation, and
/// nothing else does.
pub proof fn law_generation_marks_every_change(
    store: KeyStoreView,
    key_id: Seq<char>,
    secret: Seq<char>,
    principal: PrincipalView,
)
    ensures
        revoked(store, key_id).generation != store.generation <==> store.keys.contains_key(key_id),
        repointed(store, key_id, principal).generation != store.generation
            <==> store.keys.contains_key(key_id),
        registered(store, key_id, secret, principal).generation == store.generation,
{
}

/// A call that changes a key store, or may.
pub enum KeyCall {
    /// A key was registered: its id, its secret and its principal.
    Register(Seq<char>, Seq<char>, PrincipalView),
    /// A key was to be revoked: its id.
    Revoke(Seq<char>),
    /// A key was to be given another principal: its id and the principal.
    SetPrincipal(Seq<char>, PrincipalView),
}

/// The store after one more call.
pub open spec fn after_call(store: KeyStoreView, call: KeyCall) -> KeyStoreView {
    match call {
        KeyCall::Register(id, secret, principal) => registered(store, id, secret, principal),
        KeyCall::Revoke(id) => revoked(store, id),
        KeyCall::SetPrincipal(id, principal) => repointed(store, id, principal),
    }
}

/// A new store after some calls.
pub open spec fn after_calls(pepper: Seq<u8>, calls: Seq<KeyCall>) -> KeyStoreView
    decreases calls.len(),
{
    if calls.len() == 0 {
        KeyStoreView { pepper, keys: Map::empty(), generation: 0 }
    } else {
        after_call(after_calls(pepper, calls.drop_last()), calls.last())
    }
}

/// A call is answered that it changed a key: there was one to revoke, or to give
/// another principal.
pub open spec fn answered_true(store: KeyStoreView, call: KeyCall) -> bool {
    match call {
        KeyCall::Register(..) => false,
        KeyCall::Revoke(id) => store.keys.contains_key(id),
        KeyCall::SetPrincipal(id, _) => store.keys.contains_key(id),
    }
}

/// How many of the calls were answered that they changed a key.
pub open spec fn changes_among(pepper: Seq<u8>, calls: Seq<KeyCall>) -> nat
    decreases calls.len(),
{
    if calls.len() == 0 {
        0
    } else {
        let before = changes_among(pepper, calls.drop_last());
        if answered_true(after_calls(pepper, calls.drop_last()), calls.last()) {
            before + 1
        } else {
            before
        }
    }
}

/// The generation counts the changes: over any history of a store it is the
/// number of revocations and changes of principal that were answered `true`,
/// around the clock of the counter. It moves by none of the other calls.
pub proof fn law_generation_counts_the_changes(pepper: Seq<u8>, calls: Seq<KeyCall>)
    ensures
        after_calls(pepper, calls).generation == changes_among(pepper, calls)
            % 0x1_0000_0000_0000_0000,
        changes_among(pepper, calls) <= calls.len(),
        calls.len() <= u64::MAX ==> after_calls(pepper, calls).generation == changes_among(
            pepper,
            calls,
        ),
    decreases calls.len(),
{
    if calls.len() > 0 {
        law_generation_counts_the_changes(pepper, calls.drop_last());
    }
}

/// The generation never goes back while a store has seen fewer calls than the
/// counter can tell apart.
pub proof fn law_generation_never_goes_back(pepper: Seq<u8>, calls: Seq<KeyCall>, call: KeyCall)
    requires
        calls.len() < u64::MAX,
    ensures
        after_calls(pepper, calls).generation <= after_calls(pepper, calls.push(call)).generation,
        after_calls(pepper, calls).generation < after_calls(pepper, calls.push(call)).generation
            <==> answered_true(after_calls(pepper, calls), call),
{
    assert(calls.push(call).drop_last() =~= calls);
    law_generation_counts_the_changes(pepper, calls);
    law_generation_counts_the_changes(pepper, calls.push(call));
}

/// The principal that a key was given last, where it was not revoked since: by
/// registering it, or by a change of principal while it was registered.
pub open spec fn last_given(calls: Seq<KeyCall>, key_id: Seq<char>) -> Option<PrincipalView>
    decreases calls.len(),
{
    if calls.len() == 0 {
        None
    } else {
        let before = last_given(calls.drop_last(), key_id);
        match calls.last() {
            KeyCall::Register(id, _, principal) => if id == key_id {
                Some(principal)
            } else {
                before
            },
            KeyCall::Revoke(id) => if id == key_id {
                None
            } else {
                before
            },
            KeyCall::SetPrincipal(id, principal) => if id == key_id && before is Some {
                Some(principal)
            } else {
                before
            },
        }
    }
}

/// Over any history of a store, a key stands for the principal that it was given
/// last, and for none where it was never registered or was revoked since. Who a
/// token authenticates is who its key stands for.
pub proof fn law_key_stands_for_its_last_principal(
    pepper: Seq<u8>,
    calls: Seq<KeyCall>,
    key_id: Seq<char>,
    token: Seq<char>,
)
    ensures
        principal_in(after_calls(pepper, calls), key_id) == last_given(calls, key_id),
        verified(after_calls(pepper, calls), token) matches Some(p) ==> (
        match crate::text::split_first(token, '.') {
            Some((id, _)) => principal_in(after_calls(pepper, calls), id) == Some(p),
            None => false,
        }),
    decreases calls.len(),
{
    if calls.len() > 0 {
        law_key_stands_for_its_last_principal(pepper, calls.drop_last(), key_id, token);
    }
}

/// Everybody may read; operators and administrators may write; administrators alone
/// may administer.
pub proof fn law_who_may_do_what(role: Role)
    ensures
        may(role, Action::Read),
        may(role, Action::Write) <==> role == Role::Operator || role == Role::Admin,
        may(role, Action::Administer) <==> role == Role::Admin,
{
}

/// An allowlist permits what it lists and nothing else. Programs stand on the list of
/// outputs, under their own prefix; what touches an object and an output needs both.
pub proof fn law_allowlist_permits_the_listed(
    objects: Seq<Seq<char>>,
    outputs: Seq<Seq<char>>,
    domains: Seq<Seq<char>>,
    id: Seq<char>,
    other: Seq<char>,
)
    ensures
        ({
            let s = ScopesView {
                objects: Some(objects),
                outputs: Some(outputs),
                discovery_domains: Some(domains),
            };
            &&& permits(s, ScopeView::Public)
            &&& permits(s, ScopeView::Object(id)) <==> objects.contains(id)
            &&& permits(s, ScopeView::DiscoveryDomain(Some(id))) <==> domains.contains(id)
            &&& permits(s, ScopeView::Program(id)) <==> outputs.contains("program:"@ + id)
            &&& !"program:"@.is_prefix_of(id) ==> (permits(s, ScopeView::Output(id))
                <==> outputs.contains(id))
            &&& "program:"@.is_prefix_of(id) ==> !permits(s, ScopeView::Output(id))
            &&& permits(s, ScopeView::ObjectAndOutput(id, other)) <==> permits(
                s,
                ScopeView::Object(id),
            ) && permits(s, ScopeView::Output(other))
        }),
{
}

/// Each allowlist stands for itself: one that is not given restricts nothing, whatever
/// the others list.
pub proof fn law_allowlists_are_independent(s: ScopesView, id: Seq<char>)
    ensures
        s.objects is None ==> permits(s, ScopeView::Object(id)),
        s.outputs is None ==> permits(s, ScopeView::Output(id)) && permits(
            s,
            ScopeView::Program(id),
        ),
        s.discovery_domains is None ==> permits(s, ScopeView::DiscoveryDomain(Some(id)))
            && permits(s, ScopeView::DiscoveryDomain(None)),
        s.objects is None ==> (permits(s, ScopeView::ObjectAndOutput(id, id)) <==> permits(
            s,
            ScopeView::Output(id),
        )),
{
}

/// A refusal names the key and what it was refused for.
pub proof fn law_refusal_names_key_and_scope(
    r: Result<(), ControlError>,
    p: PrincipalView,
    scope: ScopeView,
)
    requires
        authorized_as(r, p, scope),
        !permits(p.scopes, scope),
    ensures
        r matches Err(ControlError::Forbidden(m)) && {
            let who = "principal "@ + crate::text::debug_of(p.key_id) + " is not authorized for "@;
            match scope {
                ScopeView::Public => false,
                ScopeView::Object(id) => m@ == who + ("Object("@ + crate::text::debug_of(id)
                    + ")"@),
                ScopeView::Output(id) => m@ == who + ("Output("@ + crate::text::debug_of(id)
                    + ")"@),
                ScopeView::Program(id) => m@ == who + ("Program("@ + crate::text::debug_of(id)
                    + ")"@),
                ScopeView::DiscoveryDomain(Some(d)) => m@ == who + ("DiscoveryDomain(Some("@
                    + crate::text::debug_of(d) + "))"@),
                ScopeView::DiscoveryDomain(None) => m@ == who + "DiscoveryDomain(None)"@,
                ScopeView::ObjectAndOutput(a, b) => m@ == who + ("ObjectAndOutput { object: "@
                    + crate::text::debug_of(a) + ", output: "@ + crate::text::debug_of(b) + " }"@),
            }
        },
{
}

/// A token is what stands behind the scheme of an authorization header, in either
/// spelling, whatever space surrounds it; another scheme has none.
pub proof fn law_bearer_token_is_read(token: Seq<char>, header: Seq<char>)
    requires
        token.len() > 0,
        !CharClass::White.has(token[0]),
        !CharClass::White.has(token.last()),
    ensures
        bearer_token("Bearer "@ + token) == Some(token),
        bearer_token("bearer "@ + token) == Some(token),
        bearer_token("Bearer  "@ + token) == Some(token),
        header.len() < 7 ==> bearer_token(header) is None,
        header.len() >= 7 && header.take(7) != "Bearer "@ && header.take(7) != "bearer "@
            ==> bearer_token(header) is None,
{
    reveal_strlit("Bearer ");
    reveal_strlit("bearer ");
    reveal_strlit("Bearer  ");
    crate::text::lemma_trim_keeps(token, CharClass::White);
    let a = "Bearer "@ + token;
    assert("Bearer "@.is_prefix_of(a));
    assert(a.skip(7) =~= token);
    let b = "bearer "@ + token;
    assert("bearer "@.is_prefix_of(b));
    assert(b[0] == 'b' && "Bearer "@[0] == 'B');
    assert(!"Bearer "@.is_prefix_of(b));
    assert(b.skip(7) =~= token);
    let c = "Bearer  "@ + token;
    assert("Bearer "@.is_prefix_of(c));
    let rest = c.skip(7);
    assert(rest =~= seq![' '] + token);
    assert(rest[0] == ' ');
    assert(rest.drop_first() =~= token);
    assert(crate::text::trim_start_of(rest, CharClass::White) == crate::text::trim_start_of(
        rest.drop_first(),
        CharClass::White,
    ));
    if "Bearer "@.is_prefix_of(header) {
        assert(header.take(7) =~= "Bearer "@);
    }
    if "bearer "@.is_prefix_of(header) {
        assert(header.take(7) =~= "bearer "@);
    }
}

/// A configured key gets the role and the allowlists that it is configured with.
pub proof fn law_configured_key_is_taken_as_written(key: ApiKeyConfig)
    ensures
        configured(key).key_id == key.id@,
        key.role == ApiKeyRole::ReadOnly <==> configured(key).role == Role::ReadOnly,
        key.role == ApiKeyRole::Viewer <==> configured(key).role == Role::Viewer,
        key.role == ApiKeyRole::Operator <==> configured(key).role == Role::Operator,
        key.role == ApiKeyRole::Admin <==> configured(key).role == Role::Admin,
        configured(key).scopes.objects is Some <==> key.scoped_object_ids is Some,
        key.scoped_object_ids matches Some(v) ==> configured(key).scopes.objects == Some(
            crate::text::texts(v@),
        ),
        configured(key).scopes.outputs is Some <==> key.scoped_output_ids is Some,
        key.scoped_output_ids matches Some(v) ==> configured(key).scopes.outputs == Some(
            crate::text::texts(v@),
        ),
        configured(key).scopes.discovery_domains is Some
            <==> key.scoped_discovery_domains is Some,
        key.scoped_discovery_domains matches Some(v) ==> configured(key).scopes.discovery_domains
            == Some(crate::text::texts(v@)),
{
}

/// Every configured key whose secret was found authenticates with that secret, where
/// the ids differ and hold no dot.
pub proof fn law_configured_keys_authenticate(
    store: KeyStoreView,
    keys: Seq<ApiKeyConfig>,
    secrets: Seq<Seq<char>>,
    i: int,
)
    requires
        secrets.len() <= keys.len(),
        0 <= i < secrets.len(),
        !keys[i].id@.contains('.'),
        forall|a: int, b: int|
            0 <= a < b < secrets.len() ==> (#[trigger] keys[a]).id@ != (#[trigger] keys[b]).id@,
    ensures
        verified(all_registered(store, keys, secrets), keys[i].id@ + "."@ + secrets[i]) == Some(
            configured(keys[i]),
        ),
        verified(all_registered(store, keys, secrets), keys[i].id@) is None,
    decreases secrets.len(),
{
    reveal_strlit(".");
    let id = keys[i].id@;
    let token = id + "."@ + secrets[i];
    crate::text::lemma_first_index(token, '.');
    crate::text::lemma_first_index(id, '.');
    assert(token[id.len() as int] == '.');
    let at = crate::text::first_index(token, '.')->0;
    if at < id.len() {
        assert(token[at] == id[at]);
    }
    assert(token.take(id.len() as int) =~= id);
    assert(token.skip((id.len() + 1) as int) =~= secrets[i]);
    lemma_configured_key_held(store, keys, secrets, i);
}

/// A key that was registered among others is held with its secret.
proof fn lemma_configured_key_held(
    store: KeyStoreView,
    keys: Seq<ApiKeyConfig>,
    secrets: Seq<Seq<char>>,
    i: int,
)
    requires
        secrets.len() <= keys.len(),
        0 <= i < secrets.len(),
        forall|a: int, b: int|
            0 <= a < b < secrets.len() ==> (#[trigger] keys[a]).id@ != (#[trigger] keys[b]).id@,
    ensures
        ({
            let after = all_registered(store, keys, secrets);
            &&& after.pepper == store.pepper
            &&& after.keys.contains_key(keys[i].id@)
            &&& after.keys[keys[i].id@].principal == configured(keys[i])
            &&& after.keys[keys[i].id@].digest == digest_of(store.pepper, secrets[i])
        }),
    decreases secrets.len(),
{
    let n = secrets.len() - 1;
    lemma_registering_keeps_pepper(store, keys, secrets.drop_last());
    if i < n {
        lemma_configured_key_held(store, keys, secrets.drop_last(), i);
    }
}

/// Registering keys leaves the pepper alone.
proof fn lemma_registering_keeps_pepper(
    store: KeyStoreView,
    keys: Seq<ApiKeyConfig>,
    secrets: Seq<Seq<char>>,
)
    ensures
        all_registered(store, keys, secrets).pepper == store.pepper,
    decreases secrets.len(),
{
    if secrets.len() > 0 {
        lemma_registering_keeps_pepper(store, keys, secrets.drop_last());
    }
}

/// The administrator that a server starts with is bound by no allowlist, and its
/// token is the one that is handed out or the secret that was given.
pub proof fn law_provisioned_token_opens_the_door(
    store: KeyStoreView,
    token: Option<Seq<char>>,
    given: Option<Seq<char>>,
    pepper: Seq<u8>,
    drawn: Seq<char>,
)
    requires
        provisioned(store, token, given, pepper, drawn),
    ensures
        given is None <==> token is Some,
        token is Some ==> verified(store, token->0) == Some(
            (PrincipalView {
                key_id: "admin"@,
                role: Role::Admin,
                scopes: (ScopesView { objects: None, outputs: None, discovery_domains: None }),
            }),
        ),
        given is Some ==> verified(store, "admin."@ + given->0) == Some(
            (PrincipalView {
                key_id: "admin"@,
                role: Role::Admin,
                scopes: (ScopesView { objects: None, outputs: None, discovery_domains: None }),
            }),
        ),
{
    reveal_strlit("admin");
    reveal_strlit("admin.");
    let secret = if given is Some { given->0 } else { drawn };
    let t = "admin."@ + secret;
    crate::text::lemma_first_index(t, '.');
    assert(t[5] == '.');
    assert(t[0] == 'a' && t[1] == 'd' && t[2] == 'm' && t[3] == 'i' && t[4] == 'n');
    assert(crate::text::first_index(t, '.') == Some(5int));
    assert(t.take(5) =~= "admin"@);
    assert(t.skip(6) =~= secret);
}

/// Roles and actions go by their names in a refusal.
pub proof fn law_roles_and_actions_are_named(role: Role, action: Action)
    ensures
        role == Role::ReadOnly ==> role_name(role) == "ReadOnly"@,
        role == Role::Viewer ==> role_name(role) == "Viewer"@,
        role == Role::Operator ==> role_name(role) == "Operator"@,
        role == Role::Admin ==> role_name(role) == "Admin"@,
        action == Action::Read ==> action_name(action) == "Read"@,
        action == Action::Write ==> action_name(action) == "Write"@,
        action == Action::Administer ==> action_name(action) == "Administer"@,
{
}

/// A key whose secret is not set is named with the variable that should hold it.
pub proof fn law_missing_secret_is_named(key: ApiKeyConfig)
    ensures
        missing_secret(key) == "api key "@ + crate::text::debug_of(key.id@) + ": "@
            + "the secret environment variable "@ + key.secret_env@ + " is not set"@,
{
}

/// The principal of a key is looked up by its id.
pub proof fn law_principal_is_found_by_key(store: KeyStoreView, key_id: Seq<char>)
    ensures
        store.keys.contains_key(key_id) ==> principal_in(store, key_id) == Some(
            store.keys[key_id].principal,
        ),
        !store.keys.contains_key(key_id) ==> principal_in(store, key_id) is None,
{
}

} // verus!
