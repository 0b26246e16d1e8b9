//! Which requests wait for a fresh lease.
//!
//! Where the entitlement has lapsed, changes of the configuration are refused.
//! Reads, the commands that keep a show running, and the licence surface itself
//! stay open, and the running program is never touched.

use vstd::prelude::*;

use crate::text::{cat3, ends_with, join, starts_with, str_eq, strip_prefix};

verus! {

/// Where the operator installs a fresh lease.
pub const LICENCE_SETTINGS_LINK: &'static str = "/settings/licence";

/// Whether a method changes things.
pub open spec fn changes(method: Seq<char>) -> bool {
    method == "POST"@ || method == "PUT"@ || method == "DELETE"@ || method == "PATCH"@
}

/// Whether a method changes things.
pub fn is_mutating(method: &str) -> (r: bool)
    ensures
        r == changes(method@),
{
    str_eq(method, "POST") || str_eq(method, "PUT") || str_eq(method, "DELETE") || str_eq(
        method,
        "PATCH",
    )
}

/// The path behind the mark of the interface version, where it has one.
pub open spec fn routed(path: Seq<char>) -> Seq<char> {
    if "/api/v1"@.is_prefix_of(path) {
        path.skip("/api/v1"@.len() as int)
    } else {
        path
    }
}

/// Whether a path leads to the licence surface, by which a lock is undone.
pub open spec fn recovers(path: Seq<char>) -> bool {
    routed(path) == "/licence"@ || "/licence/"@.is_prefix_of(routed(path))
}

/// Whether a path leads to what keeps a running show running.
pub open spec fn operates(path: Seq<char>) -> bool {
    let p = routed(path);
    ||| p == "/commands/start"@
    ||| p == "/commands/stop"@
    ||| p == "/commands/swap"@
    ||| "/take"@.is_suffix_of(p)
    ||| "/arm"@.is_suffix_of(p)
    ||| "/cancel"@.is_suffix_of(p)
    ||| "/measure"@.is_suffix_of(p)
    ||| "/ack"@.is_suffix_of(p)
    ||| "/probe"@.is_suffix_of(p)
    ||| "/reboot"@.is_suffix_of(p)
    ||| "/identify"@.is_suffix_of(p)
    ||| "/test-pattern"@.is_suffix_of(p)
    ||| "/set-mode"@.is_suffix_of(p)
    ||| p == "/tally/override"@
    ||| "/routing/"@.is_prefix_of(p)
}

/// Whether a path stays open under a lock.
pub fn is_operational_or_recovery(path: &str) -> (r: bool)
    ensures
        r == (recovers(path@) || operates(path@)),
{
    let p = match strip_prefix(path, "/api/v1") {
        Some(rest) => rest,
        None => path,
    };
    assert(p@ == routed(path@));
    if str_eq(p, "/licence") || starts_with(p, "/licence/") {
        return true;
    }
    if str_eq(p, "/commands/start") || str_eq(p, "/commands/stop") || str_eq(p, "/commands/swap") {
        return true;
    }
    ends_with(p, "/take") || ends_with(p, "/arm") || ends_with(p, "/cancel") || ends_with(
        p,
        "/measure",
    ) || ends_with(p, "/ack") || ends_with(p, "/probe") || ends_with(p, "/reboot") || ends_with(
        p,
        "/identify",
    ) || ends_with(p, "/test-pattern") || ends_with(p, "/set-mode") || str_eq(p, "/tally/override")
        || starts_with(p, "/routing/")
}

/// How the entitlement stands.
#[derive(Debug, PartialEq, Eq)]
pub struct EntitlementStatus {
    /// Whether the configuration is locked.
    pub config_locked: bool,
    /// Why it stands so.
    pub reasons: Vec<String>,
}

/// The answer to a refused request.
#[derive(Debug, PartialEq, Eq)]
pub struct Problem {
    /// The HTTP status.
    pub status: u16,
    /// The machine-readable kind.
    pub code: String,
    /// What it is, in short.
    pub title: String,
    /// What it is, in full.
    pub detail: String,
    /// Where it can be undone.
    pub instance: String,
}

/// The full text of the refusal.
pub open spec fn lock_detail(reasons: Seq<Seq<char>>) -> Seq<char> {
    "configuration is locked because the entitlement lease has lapsed ("@ + crate::text::join_of(
        reasons,
        ", "@,
    ) + "); the running program is unaffected (it keeps playing) — install a fresh lease at "@
        + LICENCE_SETTINGS_LINK@ + " to unlock reconfiguration"@
}

/// Whether a request is refused: it changes the configuration, and the
/// entitlement is known to have lapsed.
pub open spec fn locks(method: Seq<char>, path: Seq<char>, locked: Option<bool>) -> bool {
    changes(method) && !recovers(path) && !operates(path) && locked == Some(true)
}

/// The lock of an entitlement, where there is one.
pub open spec fn locked_of(status: Option<&EntitlementStatus>) -> Option<bool> {
    match status {
        Some(s) => Some(s.config_locked),
        None => None,
    }
}

/// The refusal of a request, or none where it passes.
pub fn config_lock_guard(method: &str, path: &str, status: Option<&EntitlementStatus>) -> (r: Option<
    Problem,
>)
    ensures
        match r {
            Some(p) => {
                &&& locks(method@, path@, locked_of(status))
                &&& p.status == 409
                &&& p.code@ == "config_locked"@
                &&& p.title@ == "Configuration locked (entitlement lapsed)"@
                &&& p.detail@ == lock_detail(crate::text::texts(status->0.reasons@))
                &&& p.instance@ == LICENCE_SETTINGS_LINK@
            },
            None => !locks(method@, path@, locked_of(status)),
        },
{
    if !is_mutating(method) || is_operational_or_recovery(path) {
        return None;
    }
    match status {
        None => None,
        Some(s) => {
            if !s.config_locked {
                return None;
            }
            let reasons = join(&s.reasons, ", ");
            let mut detail = cat3(
                "configuration is locked because the entitlement lease has lapsed (",
                reasons.as_str(),
                "); the running program is unaffected (it keeps playing) — install a fresh lease at ",
            );
            detail.append(LICENCE_SETTINGS_LINK);
            detail.append(" to unlock reconfiguration");
            Some(
                Problem {
                    status: 409,
                    code: "config_locked".to_owned(),
                    title: "Configuration locked (entitlement lapsed)".to_owned(),
                    detail,
                    instance: LICENCE_SETTINGS_LINK.to_owned(),
                },
            )
        },
    }
}

// ---- Laws ------------------------------------------------------------------------

/// Reading is never refused.
pub proof fn law_reads_pass(path: Seq<char>, locked: Option<bool>)
    ensures
        !locks("GET"@, path, locked),
        !locks("HEAD"@, path, locked),
        !locks("OPTIONS"@, path, locked),
{
    reveal_strlit("GET");
    reveal_strlit("HEAD");
    reveal_strlit("OPTIONS");
    reveal_strlit("POST");
    reveal_strlit("PUT");
    reveal_strlit("DELETE");
    reveal_strlit("PATCH");
    assert("GET"@[0] == 'G' && "HEAD"@[0] == 'H' && "OPTIONS"@[0] == 'O');
    assert("POST"@[0] == 'P' && "PUT"@[0] == 'P' && "DELETE"@[0] == 'D' && "PATCH"@[0] == 'P');
}

/// A lock can always be undone: the licence surface is never refused.
pub proof fn law_recovery_passes(method: Seq<char>, rest: Seq<char>, locked: Option<bool>)
    ensures
        !locks(method, "/api/v1"@ + "/licence/"@ + rest, locked),
        !locks(method, "/api/v1"@ + "/licence"@, locked),
{
    let a = "/api/v1"@ + "/licence/"@ + rest;
    let b = "/api/v1"@ + "/licence"@;
    let n = "/api/v1"@.len() as int;
    assert(a.take(n) =~= "/api/v1"@);
    assert(b.take(n) =~= "/api/v1"@);
    assert("/api/v1"@.is_prefix_of(a) && "/api/v1"@.is_prefix_of(b));
    assert(a.skip(n) =~= "/licence/"@ + rest);
    assert(b.skip(n) =~= "/licence"@);
    assert(a.skip(n).take("/licence/"@.len() as int) =~= "/licence/"@);
}

/// Only evidence of a lapsed lease locks: without a lease, or with one that
/// stands, everything passes.
pub proof fn law_only_a_lapsed_lease_locks(method: Seq<char>, path: Seq<char>, locked: Option<bool>)
    requires
        locked != Some(true),
    ensures
        !locks(method, path, locked),
{
}

/// What operates the running program passes though the lease has lapsed: starting,
/// stopping and swapping, tally overrides, routing, and every operation that is named
/// at the end of a path.
pub proof fn law_operations_pass(method: Seq<char>, front: Seq<char>, locked: Option<bool>)
    ensures
        !locks(method, "/api/v1/commands/start"@, locked),
        !locks(method, "/api/v1/commands/stop"@, locked),
        !locks(method, "/api/v1/commands/swap"@, locked),
        !locks(method, "/api/v1/tally/override"@, locked),
        !locks(method, "/api/v1/routing/"@ + front, locked),
        !locks(method, "/api/v1"@ + front + "/take"@, locked),
        !locks(method, "/api/v1"@ + front + "/arm"@, locked),
        !locks(method, "/api/v1"@ + front + "/cancel"@, locked),
        !locks(method, "/api/v1"@ + front + "/measure"@, locked),
        !locks(method, "/api/v1"@ + front + "/ack"@, locked),
        !locks(method, "/api/v1"@ + front + "/probe"@, locked),
        !locks(method, "/api/v1"@ + front + "/reboot"@, locked),
        !locks(method, "/api/v1"@ + front + "/identify"@, locked),
        !locks(method, "/api/v1"@ + front + "/test-pattern"@, locked),
        !locks(method, "/api/v1"@ + front + "/set-mode"@, locked),
{
    reveal_strlit("/api/v1");
    reveal_strlit("/api/v1/commands/start");
    reveal_strlit("/commands/start");
    reveal_strlit("/api/v1/commands/stop");
    reveal_strlit("/commands/stop");
    reveal_strlit("/api/v1/commands/swap");
    reveal_strlit("/commands/swap");
    reveal_strlit("/api/v1/tally/override");
    reveal_strlit("/tally/override");
    reveal_strlit("/api/v1/routing/");
    reveal_strlit("/routing/");
    lemma_routed("/commands/start"@);
    assert("/api/v1/commands/start"@ =~= "/api/v1"@ + "/commands/start"@);
    lemma_routed("/commands/stop"@);
    assert("/api/v1/commands/stop"@ =~= "/api/v1"@ + "/commands/stop"@);
    lemma_routed("/commands/swap"@);
    assert("/api/v1/commands/swap"@ =~= "/api/v1"@ + "/commands/swap"@);
    lemma_routed("/tally/override"@);
    assert("/api/v1/tally/override"@ =~= "/api/v1"@ + "/tally/override"@);
    lemma_routed("/routing/"@ + front);
    assert("/api/v1/routing/"@ + front =~= "/api/v1"@ + ("/routing/"@ + front));
    assert("/routing/"@.is_prefix_of("/routing/"@ + front));
    lemma_routed_end(front, "/take"@);
    lemma_routed_end(front, "/arm"@);
    lemma_routed_end(front, "/cancel"@);
    lemma_routed_end(front, "/measure"@);
    lemma_routed_end(front, "/ack"@);
    lemma_routed_end(front, "/probe"@);
    lemma_routed_end(front, "/reboot"@);
    lemma_routed_end(front, "/identify"@);
    lemma_routed_end(front, "/test-pattern"@);
    lemma_routed_end(front, "/set-mode"@);
}

/// A path is routed by what stands behind the version.
proof fn lemma_routed(rest: Seq<char>)
    ensures
        routed("/api/v1"@ + rest) == rest,
{
    reveal_strlit("/api/v1");
    assert("/api/v1"@.is_prefix_of("/api/v1"@ + rest));
    assert(("/api/v1"@ + rest).skip(7) =~= rest);
}

/// A path is routed by how it ends.
proof fn lemma_routed_end(front: Seq<char>, end: Seq<char>)
    ensures
        end.is_suffix_of(routed("/api/v1"@ + front + end)),
{
    lemma_routed(front + end);
    assert("/api/v1"@ + front + end =~= "/api/v1"@ + (front + end));
    assert((front + end).subrange(front.len() as int, (front + end).len() as int) =~= end);
}

/// Every other change is refused while the lease has lapsed, and only then.
pub proof fn law_changes_are_locked(method: Seq<char>, path: Seq<char>)
    requires
        method == "POST"@ || method == "PUT"@ || method == "DELETE"@ || method == "PATCH"@,
        !recovers(path),
        !operates(path),
    ensures
        locks(method, path, Some(true)),
        !locks(method, path, Some(false)),
        !locks(method, path, None),
{
}

/// The licence is where a lapsed lease is renewed, and nothing else that begins alike.
pub proof fn law_licence_recovers(rest: Seq<char>)
    ensures
        recovers("/api/v1/licence"@),
        recovers("/api/v1/licence/"@ + rest),
        rest.len() > 0 && rest[0] != '/' ==> !recovers("/api/v1/licence"@ + rest),
{
    reveal_strlit("/api/v1");
    reveal_strlit("/licence");
    reveal_strlit("/licence/");
    reveal_strlit("/api/v1/licence");
    reveal_strlit("/api/v1/licence/");
    lemma_routed("/licence"@);
    assert("/api/v1/licence"@ =~= "/api/v1"@ + "/licence"@);
    lemma_routed("/licence/"@ + rest);
    assert("/api/v1/licence/"@ + rest =~= "/api/v1"@ + ("/licence/"@ + rest));
    assert("/licence/"@.is_prefix_of("/licence/"@ + rest));
    if rest.len() > 0 && rest[0] != '/' {
        let p = "/licence"@ + rest;
        lemma_routed(p);
        assert("/api/v1/licence"@ + rest =~= "/api/v1"@ + p);
        assert(p.len() > 8);
        assert(p[8] == rest[0]);
        assert("/licence/"@[8] == '/');
    }
}

/// A refusal names every reason and where a new lease is installed.
pub proof fn law_refusal_says_why_and_where(a: Seq<char>, b: Seq<char>)
    ensures
        lock_detail(seq![a, b])
            == "configuration is locked because the entitlement lease has lapsed ("@ + (a + ", "@
            + b)
            + "); the running program is unaffected (it keeps playing) — install a fresh lease at "@
            + "/settings/licence"@ + " to unlock reconfiguration"@,
{
    reveal_with_fuel(crate::text::join_of, 3);
    let parts = seq![a, b];
    assert(parts.drop_last() =~= seq![a]);
    assert(crate::text::join_of(parts, ", "@) == a + ", "@ + b);
}

/// An item of a collection cannot be changed while the lease has lapsed, whatever its
/// id, unless the id is the name of an operation or the collection one of those that
/// operate the program.
pub proof fn law_items_are_locked(collection: Seq<char>, id: Seq<char>)
    requires
        !collection.contains('/'),
        !id.contains('/'),
        collection != "licence"@,
        collection != "commands"@,
        collection != "tally"@,
        collection != "routing"@,
        id != "take"@,
        id != "arm"@,
        id != "cancel"@,
        id != "measure"@,
        id != "ack"@,
        id != "probe"@,
        id != "reboot"@,
        id != "identify"@,
        id != "test-pattern"@,
        id != "set-mode"@,
    ensures
        locks("PUT"@, "/api/v1/"@ + collection + "/"@ + id, Some(true)),
        locks("DELETE"@, "/api/v1/"@ + collection + "/"@ + id, Some(true)),
{
    reveal_strlit("/");
    reveal_strlit("/api/v1");
    reveal_strlit("/api/v1/");
    let front = "/"@ + collection;
    let p = front + "/"@ + id;
    lemma_routed(p);
    assert("/api/v1/"@ + collection + "/"@ + id =~= "/api/v1"@ + p);
    lemma_first_segment(collection, id);
    reveal_strlit("take");
    reveal_strlit("/take");
    assert("/take"@.drop_first() =~= "take"@);
    lemma_last_segment(front, id, "/take"@, "take"@);
    reveal_strlit("arm");
    reveal_strlit("/arm");
    assert("/arm"@.drop_first() =~= "arm"@);
    lemma_last_segment(front, id, "/arm"@, "arm"@);
    reveal_strlit("cancel");
    reveal_strlit("/cancel");
    assert("/cancel"@.drop_first() =~= "cancel"@);
    lemma_last_segment(front, id, "/cancel"@, "cancel"@);
    reveal_strlit("measure");
    reveal_strlit("/measure");
    assert("/measure"@.drop_first() =~= "measure"@);
    lemma_last_segment(front, id, "/measure"@, "measure"@);
    reveal_strlit("ack");
    reveal_strlit("/ack");
    assert("/ack"@.drop_first() =~= "ack"@);
    lemma_last_segment(front, id, "/ack"@, "ack"@);
    reveal_strlit("probe");
    reveal_strlit("/probe");
    assert("/probe"@.drop_first() =~= "probe"@);
    lemma_last_segment(front, id, "/probe"@, "probe"@);
    reveal_strlit("reboot");
    reveal_strlit("/reboot");
    assert("/reboot"@.drop_first() =~= "reboot"@);
    lemma_last_segment(front, id, "/reboot"@, "reboot"@);
    reveal_strlit("identify");
    reveal_strlit("/identify");
    assert("/identify"@.drop_first() =~= "identify"@);
    lemma_last_segment(front, id, "/identify"@, "identify"@);
    reveal_strlit("test-pattern");
    reveal_strlit("/test-pattern");
    assert("/test-pattern"@.drop_first() =~= "test-pattern"@);
    lemma_last_segment(front, id, "/test-pattern"@, "test-pattern"@);
    reveal_strlit("set-mode");
    reveal_strlit("/set-mode");
    assert("/set-mode"@.drop_first() =~= "set-mode"@);
    lemma_last_segment(front, id, "/set-mode"@, "set-mode"@);
}

/// A path that ends in a word has that word as its last segment.
proof fn lemma_last_segment(front: Seq<char>, id: Seq<char>, end: Seq<char>, word: Seq<char>)
    requires
        !id.contains('/'),
        end.len() > 1,
        end[0] == '/',
        end.drop_first() == word,
        forall|k: int| 0 < k < end.len() ==> #[trigger] end[k] != '/',
        id != word,
    ensures
        !end.is_suffix_of(front + "/"@ + id),
{
    reveal_strlit("/");
    let p = front + "/"@ + id;
    if end.is_suffix_of(p) {
        let at = p.len() - end.len();
        assert(p.subrange(at, p.len() as int) =~= end);
        assert(p.subrange(at, p.len() as int)[0] == p[at]);
        if at > front.len() {
            assert(p[at] == id[at - front.len() - 1]);
        } else if at < front.len() {
            assert(p[front.len() as int] == '/');
            assert(p.subrange(at, p.len() as int)[front.len() - at] == '/');
            assert(end[front.len() - at] == '/');
        } else {
            assert(end.drop_first() =~= id);
        }
    }
}

/// A path of a collection is none of those that begin or read otherwise.
proof fn lemma_first_segment(collection: Seq<char>, id: Seq<char>)
    requires
        !collection.contains('/'),
        !id.contains('/'),
        collection != "licence"@,
        collection != "commands"@,
        collection != "tally"@,
        collection != "routing"@,
    ensures
        ({
            let p = "/"@ + collection + "/"@ + id;
            &&& p != "/licence"@
            &&& !"/licence/"@.is_prefix_of(p)
            &&& p != "/commands/start"@ && p != "/commands/stop"@ && p != "/commands/swap"@
            &&& p != "/tally/override"@
            &&& !"/routing/"@.is_prefix_of(p)
        }),
{
    reveal_strlit("/");
    reveal_strlit("licence");
    reveal_strlit("commands");
    reveal_strlit("tally");
    reveal_strlit("routing");
    reveal_strlit("/licence");
    reveal_strlit("/licence/");
    reveal_strlit("/commands/start");
    reveal_strlit("/commands/stop");
    reveal_strlit("/commands/swap");
    reveal_strlit("/tally/override");
    reveal_strlit("/routing/");
    let p = "/"@ + collection + "/"@ + id;
    let n = collection.len() as int;
    assert(p[n + 1] == '/');
    assert forall|k: int| 0 < k <= n implies p[k] != '/' && p[k] == collection[k - 1] by {
        assert(p[k] == collection[k - 1]);
        assert(collection.contains(collection[k - 1]));
    }
    assert(collection =~= p.subrange(1, n + 1));
    assert("licence"@ =~= "/licence/"@.subrange(1, 8));
    assert("commands"@ =~= "/commands/start"@.subrange(1, 9));
    assert("commands"@ =~= "/commands/stop"@.subrange(1, 9));
    assert("commands"@ =~= "/commands/swap"@.subrange(1, 9));
    assert("tally"@ =~= "/tally/override"@.subrange(1, 6));
    assert("routing"@ =~= "/routing/"@.subrange(1, 8));
    if p == "/licence"@ {
        assert(p.len() == 8 && "/licence"@[n + 1] == '/');
    }
    if "/licence/"@.is_prefix_of(p) {
        assert(p.take(9) =~= "/licence/"@);
        assert("/licence/"@[8] == '/');
        assert(p[8] == p.take(9)[8]);
        assert forall|k: int| 0 <= k < 9 implies p[k] == "/licence/"@[k] by {
            assert(p[k] == p.take(9)[k]);
        }
        assert(n == 7);
        assert(p.subrange(1, 8) =~= p.take(9).subrange(1, 8));
    }
    if p == "/commands/start"@ || p == "/commands/stop"@ || p == "/commands/swap"@ {
        assert(p[9] == '/');
        assert(n == 8);
    }
    if p == "/tally/override"@ {
        assert(p[6] == '/');
        assert(n == 5);
    }
    if "/routing/"@.is_prefix_of(p) {
        assert(p.take(9) =~= "/routing/"@);
        assert("/routing/"@[8] == '/');
        assert(p[8] == p.take(9)[8]);
        assert forall|k: int| 0 <= k < 9 implies p[k] == "/routing/"@[k] by {
            assert(p[k] == p.take(9)[k]);
        }
        assert(n == 7);
        assert(p.subrange(1, 8) =~= p.take(9).subrange(1, 8));
    }
}

} // verus!
