//! The configuration at the start of the run, and the state that survives it.
//!
//! Boot is the file that the run was started with. Loaded is its content at
//! that moment, kept unchanged. Running is Loaded with every change since, and
//! is written down behind the run so that the next one can resume from it.
//!
//! Paths are texts with `/` between the components.

use vstd::prelude::*;

use crate::model::Config;
use crate::text::{cat2, cat3, chars_of, str_eq};
use crate::time::millis_of;

verus! {

/// The directory of the state files, beside the boot file.
pub const STATE_DIR: &'static str = ".multiview";

/// The name of the Loaded file.
pub const LOADED_FILE: &'static str = "loaded.toml";

/// The name of the Running file.
pub const ACTIVE_FILE: &'static str = "active.toml";

// ---- Paths -------------------------------------------------------------------------

/// The length of the root of a path: `/`, or nothing.
pub open spec fn root_len(path: Seq<char>) -> nat {
    if path.len() > 0 && path[0] == '/' {
        1
    } else {
        0
    }
}

/// A path without the separators and the `.` components at its end.
pub open spec fn trim_tail(path: Seq<char>, root: nat) -> Seq<char>
    decreases path.len(),
{
    let n = path.len();
    if n > root && path.last() == '/' {
        trim_tail(path.drop_last(), root)
    } else if n > root && n >= 2 && path.last() == '.' && path[n - 2] == '/' {
        trim_tail(path.drop_last(), root)
    } else {
        path
    }
}

/// A path without the characters of its last component.
pub open spec fn drop_component(path: Seq<char>, root: nat) -> Seq<char>
    decreases path.len(),
{
    if path.len() > root && path.last() != '/' {
        drop_component(path.drop_last(), root)
    } else {
        path
    }
}

/// The path without its last component. The root and the empty path have none.
pub open spec fn parent_of(path: Seq<char>) -> Option<Seq<char>> {
    let root = root_len(path);
    let body = trim_tail(path, root);
    if body.len() <= root {
        None
    } else {
        Some(trim_tail(drop_component(body, root), root))
    }
}

/// The last component of a path, where it is a name.
pub open spec fn file_name_of(path: Seq<char>) -> Option<Seq<char>> {
    let root = root_len(path);
    let body = trim_tail(path, root);
    let name = body.skip(drop_component(body, root).len() as int);
    if body.len() <= root || name == "."@ || name == ".."@ {
        None
    } else {
        Some(name)
    }
}

/// The path `name` under the directory `dir`.
pub open spec fn joined(dir: Seq<char>, name: Seq<char>) -> Seq<char> {
    if dir.len() > 0 && dir.last() != '/' {
        dir + "/"@ + name
    } else {
        dir + name
    }
}

/// The directory of a path: a bare name lies in the current one.
pub open spec fn directory_of(path: Seq<char>) -> Seq<char> {
    match parent_of(path) {
        Some(p) if p.len() > 0 => p,
        _ => "."@,
    }
}

/// A removal from the end never makes a path longer, and what is left is how
/// the path began.
proof fn lemma_tail_is_prefix(path: Seq<char>, root: nat)
    ensures
        trim_tail(path, root).is_prefix_of(path),
        drop_component(path, root).is_prefix_of(path),
    decreases path.len(),
{
    if path.len() > 0 {
        lemma_tail_is_prefix(path.drop_last(), root);
        let t = trim_tail(path.drop_last(), root);
        let d = drop_component(path.drop_last(), root);
        assert(path.take(t.len() as int) =~= path.drop_last().take(t.len() as int));
        assert(path.take(d.len() as int) =~= path.drop_last().take(d.len() as int));
    }
}

fn root_at(v: &Vec<char>) -> (r: usize)
    ensures
        r == root_len(v@),
        r <= v@.len(),
{
    if v.len() > 0 && v[0] == '/' {
        1
    } else {
        0
    }
}

fn tail_at(v: &Vec<char>, end: usize, root: usize) -> (r: usize)
    requires
        end <= v@.len(),
    ensures
        r <= end,
        v@.take(r as int) == trim_tail(v@.take(end as int), root as nat),
{
    let mut n: usize = end;
    while n > root && (v[n - 1] == '/' || (n >= 2 && v[n - 1] == '.' && v[n - 2] == '/'))
        invariant
            n <= end <= v@.len(),
            trim_tail(v@.take(end as int), root as nat) == trim_tail(
                v@.take(n as int),
                root as nat,
            ),
        decreases n,
    {
        assert(v@.take(n as int).drop_last() =~= v@.take(n - 1));
        n -= 1;
    }
    n
}

fn component_at(v: &Vec<char>, end: usize, root: usize) -> (r: usize)
    requires
        end <= v@.len(),
    ensures
        r <= end,
        v@.take(r as int) == drop_component(v@.take(end as int), root as nat),
{
    let mut n: usize = end;
    while n > root && v[n - 1] != '/'
        invariant
            n <= end <= v@.len(),
            drop_component(v@.take(end as int), root as nat) == drop_component(
                v@.take(n as int),
                root as nat,
            ),
        decreases n,
    {
        assert(v@.take(n as int).drop_last() =~= v@.take(n - 1));
        n -= 1;
    }
    n
}

/// The path without its last component.
pub fn parent<'a>(path: &'a str) -> (r: Option<&'a str>)
    ensures
        match r {
            Some(p) => parent_of(path@) == Some(p@),
            None => parent_of(path@) is None,
        },
{
    let v = chars_of(path);
    let root = root_at(&v);
    assert(v@.take(v@.len() as int) =~= path@);
    let end = tail_at(&v, v.len(), root);
    if end <= root {
        return None;
    }
    let cut = component_at(&v, end, root);
    let n = tail_at(&v, cut, root);
    let p = path.substring_char(0, n);
    assert(p@ =~= v@.take(n as int));
    Some(p)
}

/// The last component of a path, where it is a name.
pub fn file_name<'a>(path: &'a str) -> (r: Option<&'a str>)
    ensures
        match r {
            Some(name) => file_name_of(path@) == Some(name@),
            None => file_name_of(path@) is None,
        },
{
    let v = chars_of(path);
    let root = root_at(&v);
    assert(v@.take(v@.len() as int) =~= path@);
    let end = tail_at(&v, v.len(), root);
    if end <= root {
        return None;
    }
    let cut = component_at(&v, end, root);
    let name = path.substring_char(cut, end);
    assert(name@ =~= v@.take(end as int).skip(cut as int));
    if str_eq(name, ".") || str_eq(name, "..") {
        None
    } else {
        Some(name)
    }
}

/// The path `name` under the directory `dir`.
pub fn join_path(dir: &str, name: &str) -> (r: String)
    ensures
        r@ == joined(dir@, name@),
{
    let n: usize = dir.unicode_len();
    if n > 0 && dir.get_char(n - 1) != '/' {
        cat3(dir, "/", name)
    } else {
        cat2(dir, name)
    }
}

/// The directory of a path.
pub fn directory<'a>(path: &'a str) -> (r: &'a str)
    ensures
        r@ == directory_of(path@),
{
    match parent(path) {
        Some(p) => if p.unicode_len() > 0 {
            p
        } else {
            "."
        },
        None => ".",
    }
}

/// The directory of the state files for a boot file.
pub fn state_dir_for(boot_path: &str) -> (r: String)
    ensures
        r@ == joined(directory_of(boot_path@), ".multiview"@),
{
    join_path(directory(boot_path), STATE_DIR)
}

/// The file that a write goes to before it takes the place of `path`: in the
/// same directory, `.NAME.tmp`. None where `path` names no file.
pub fn temp_path(path: &str) -> (r: Option<String>)
    ensures
        match r {
            Some(t) => file_name_of(path@) is Some && t@ == joined(
                directory_of(path@),
                "."@ + file_name_of(path@)->0 + ".tmp"@,
            ),
            None => file_name_of(path@) is None,
        },
{
    match file_name(path) {
        Some(name) => {
            let hidden = cat3(".", name, ".tmp");
            Some(join_path(directory(path), hidden.as_str()))
        },
        None => None,
    }
}

/// The message for a target that names no file.
pub fn no_file_name(path: &str) -> (r: String)
    ensures
        r@ == "atomic write target "@ + path@ + " has no file name"@,
{
    cat3("atomic write target ", path, " has no file name")
}

// ---- Resuming ----------------------------------------------------------------------

/// Why the persisted Running state cannot be resumed from.
#[derive(Debug, PartialEq, Eq)]
pub enum ResumeFault {
    /// It cannot be read.
    Unreadable(String),
    /// It does not parse.
    Unparsable(String),
    /// It does not validate.
    Invalid(String),
}

/// The reason that is reported for a fault of the file at `active`.
pub open spec fn fault_reason(active: Seq<char>, fault: ResumeFault) -> Seq<char> {
    let file = "the persisted Running state "@ + active;
    match fault {
        ResumeFault::Unreadable(e) => file + " cannot be read: "@ + e@,
        ResumeFault::Unparsable(e) => file + " does not parse as TOML: "@ + e@,
        ResumeFault::Invalid(e) => file + " does not validate: "@ + e@,
    }
}

/// The reason that is reported for a fault of the file at `active`.
pub fn resume_reason(active: &str, fault: &ResumeFault) -> (r: String)
    ensures
        r@ == fault_reason(active@, *fault),
{
    let mut out = cat2("the persisted Running state ", active);
    match fault {
        ResumeFault::Unreadable(e) => {
            out.append(" cannot be read: ");
            out.append(e.as_str());
        },
        ResumeFault::Unparsable(e) => {
            out.append(" does not parse as TOML: ");
            out.append(e.as_str());
        },
        ResumeFault::Invalid(e) => {
            out.append(" does not validate: ");
            out.append(e.as_str());
        },
    }
    out
}

/// The Running file for a boot file.
pub fn active_path_for(boot_path: &str) -> (r: String)
    ensures
        r@ == joined(joined(directory_of(boot_path@), ".multiview"@), "active.toml"@),
{
    let dir = state_dir_for(boot_path);
    join_path(dir.as_str(), ACTIVE_FILE)
}

/// The configuration to resume from, where the Running file was read, parsed
/// and validated; else the reason that is reported.
pub fn load_resume_config(boot_path: &str, outcome: Result<Config, ResumeFault>) -> (r: Result<
    Config,
    String,
>)
    ensures
        match outcome {
            Ok(config) => r == Ok::<Config, String>(config),
            Err(fault) => r is Err && r->Err_0@ == fault_reason(
                joined(joined(directory_of(boot_path@), ".multiview"@), "active.toml"@),
                fault,
            ),
        },
{
    match outcome {
        Ok(config) => Ok(config),
        Err(fault) => {
            let active = active_path_for(boot_path);
            Err(resume_reason(active.as_str(), &fault))
        },
    }
}

// ---- The model ---------------------------------------------------------------------

/// How the run starts.
#[derive(Debug, Clone, Copy, PartialEq, Eq, Structural)]
pub enum StartMode {
    /// From the boot file.
    Boot,
    /// From the persisted Running state, where it is valid.
    Resume,
}

/// The configuration at the start of the run, and how its state is written.
#[derive(Debug)]
pub struct BootModel {
    boot_path: String,
    loaded: Config,
    start: StartMode,
    resumed: bool,
    resume_fallback: Option<String>,
    active_written_ms: i64,
    revert_incomplete: bool,
    last_written: u64,
    tickets: u64,
}

/// What the model remembers of the writes and reverts of the run.
pub struct BootView {
    /// When the Running file was last written, in milliseconds of Unix time;
    /// zero where it was not.
    pub active_written_ms: i64,
    /// Whether a revert was left incomplete.
    pub revert_incomplete: bool,
    /// The ticket of the content that was last written.
    pub last_written: u64,
    /// The last ticket that was taken.
    pub tickets: u64,
}

/// Whether the content under `ticket` may be written: nothing newer was.
pub open spec fn may_write(view: BootView, ticket: u64) -> bool {
    view.last_written <= ticket
}

/// What is remembered after the content under `ticket` was written.
pub open spec fn written(view: BootView, ticket: u64) -> BootView {
    BootView { last_written: ticket, ..view }
}

/// What is remembered after a ticket was taken.
pub open spec fn ticketed(view: BootView) -> BootView {
    BootView { tickets: (view.tickets + 1) as u64, ..view }
}

impl BootModel {
    /// What the model remembers.
    pub closed spec fn view(self) -> BootView {
        BootView {
            active_written_ms: self.active_written_ms,
            revert_incomplete: self.revert_incomplete,
            last_written: self.last_written,
            tickets: self.tickets,
        }
    }

    /// The path of the boot file.
    pub closed spec fn path(self) -> Seq<char> {
        self.boot_path@
    }

    /// The Loaded snapshot.
    pub closed spec fn snapshot(self) -> Config {
        self.loaded
    }

    /// How the run was to start.
    pub closed spec fn mode(self) -> StartMode {
        self.start
    }

    /// Whether the run resumed.
    pub closed spec fn has_resumed(self) -> bool {
        self.resumed
    }

    /// Why it did not, where it should have.
    pub closed spec fn fallback(self) -> Option<String> {
        self.resume_fallback
    }

    /// What never changes in the course of a run.
    pub open spec fn same_start(self, other: BootModel) -> bool {
        &&& self.path() == other.path()
        &&& self.snapshot() == other.snapshot()
        &&& self.mode() == other.mode()
        &&& self.has_resumed() == other.has_resumed()
        &&& self.fallback() == other.fallback()
    }

    /// The model of a run that was started with `boot_path`.
    pub fn new(
        boot_path: String,
        loaded: Config,
        start: StartMode,
        resumed: bool,
        resume_fallback: Option<String>,
    ) -> (r: Self)
        ensures
            r.path() == boot_path@,
            r.snapshot() == loaded,
            r.mode() == start,
            r.has_resumed() == resumed,
            r.fallback() == resume_fallback,
            r@ == (BootView {
                active_written_ms: 0,
                revert_incomplete: false,
                last_written: 0,
                tickets: 0,
            }),
    {
        BootModel {
            boot_path,
            loaded,
            start,
            resumed,
            resume_fallback,
            active_written_ms: 0,
            revert_incomplete: false,
            last_written: 0,
            tickets: 0,
        }
    }

    /// The path of the boot file.
    pub fn boot_path(&self) -> (r: &str)
        ensures
            r@ == self.path(),
    {
        self.boot_path.as_str()
    }

    /// The Loaded snapshot.
    pub fn loaded(&self) -> (r: &Config)
        ensures
            *r == self.snapshot(),
    {
        &self.loaded
    }

    /// How the run was to start.
    pub fn start(&self) -> (r: StartMode)
        ensures
            r == self.mode(),
    {
        self.start
    }

    /// Whether the run resumed.
    pub fn resumed(&self) -> (r: bool)
        ensures
            r == self.has_resumed(),
    {
        self.resumed
    }

    /// Why the run did not resume, where it should have.
    pub fn resume_fallback(&self) -> (r: Option<&str>)
        ensures
            match r {
                Some(t) => self.fallback() is Some && t@ == self.fallback()->0@,
                None => self.fallback() is None,
            },
    {
        match &self.resume_fallback {
            Some(t) => Some(t.as_str()),
            None => None,
        }
    }

    /// The directory of the state files.
    pub fn state_dir(&self) -> (r: String)
        ensures
            r@ == joined(directory_of(self.path()), ".multiview"@),
    {
        state_dir_for(self.boot_path.as_str())
    }

    /// The Running file.
    pub fn active_path(&self) -> (r: String)
        ensures
            r@ == joined(joined(directory_of(self.path()), ".multiview"@), "active.toml"@),
    {
        active_path_for(self.boot_path.as_str())
    }

    /// The Loaded file.
    pub fn loaded_path(&self) -> (r: String)
        ensures
            r@ == joined(joined(directory_of(self.path()), ".multiview"@), "loaded.toml"@),
    {
        let dir = self.state_dir();
        join_path(dir.as_str(), LOADED_FILE)
    }

    /// When the Running file was last written, where it was.
    pub fn active_written_ms(&self) -> (r: Option<i64>)
        ensures
            r == (if self@.active_written_ms == 0 {
                None
            } else {
                Some(self@.active_written_ms)
            }),
    {
        if self.active_written_ms == 0 {
            None
        } else {
            Some(self.active_written_ms)
        }
    }

    /// Remembers that the Running file was written now, with the clock in
    /// nanoseconds.
    pub fn record_active_written(&mut self, now_nanos: i64)
        ensures
            final(self).same_start(*old(self)),
            final(self)@ == (BootView {
                active_written_ms: (now_nanos as int / 1_000_000) as i64,
                ..old(self)@
            }),
    {
        self.active_written_ms = millis_of(now_nanos);
    }

    /// Remembers that a revert was left incomplete.
    pub fn note_revert_incomplete(&mut self)
        ensures
            final(self).same_start(*old(self)),
            final(self)@ == (BootView { revert_incomplete: true, ..old(self)@ }),
    {
        self.revert_incomplete = true;
    }

    /// Whether a revert was left incomplete; it is not remembered any longer.
    pub fn take_revert_incomplete(&mut self) -> (r: bool)
        ensures
            final(self).same_start(*old(self)),
            r == old(self)@.revert_incomplete,
            final(self)@ == (BootView { revert_incomplete: false, ..old(self)@ }),
    {
        let was = self.revert_incomplete;
        self.revert_incomplete = false;
        was
    }

    /// How many tickets were drawn.
    pub fn tickets_drawn(&self) -> (r: u64)
        ensures
            r == self@.tickets,
    {
        self.tickets
    }

    /// Takes the next ticket. It is taken when the content is composed, so that
    /// the order of the tickets is the order of the contents.
    pub fn next_write_ticket(&mut self) -> (r: u64)
        requires
            old(self)@.tickets < u64::MAX,
        ensures
            final(self).same_start(*old(self)),
            final(self)@ == ticketed(old(self)@),
            r == final(self)@.tickets,
    {
        self.tickets = self.tickets + 1;
        self.tickets
    }

    /// Whether the content under `ticket` may be written.
    pub fn write_is_due(&self, ticket: u64) -> (r: bool)
        ensures
            r == may_write(self@, ticket),
    {
        self.last_written <= ticket
    }

    /// Remembers that the content under `ticket` was written.
    pub fn write_landed(&mut self, ticket: u64)
        requires
            may_write(old(self)@, ticket),
        ensures
            final(self).same_start(*old(self)),
            final(self)@ == written(old(self)@, ticket),
    {
        self.last_written = ticket;
    }
}

// ---- Laws ------------------------------------------------------------------------

/// A later ticket is a higher one.
pub proof fn law_tickets_grow(view: BootView)
    requires
        view.tickets < u64::MAX,
    ensures
        ticketed(view).tickets > view.tickets,
{
}

/// Older content never takes the place of newer content, however late its write
/// comes.
pub proof fn law_stale_content_is_not_written(view: BootView, newer: u64, stale: u64)
    requires
        may_write(view, newer),
        stale < newer,
    ensures
        !may_write(written(view, newer), stale),
{
}

/// What is on disk only ever moves on to newer content.
pub proof fn law_written_content_moves_on(view: BootView, ticket: u64)
    requires
        may_write(view, ticket),
    ensures
        written(view, ticket).last_written >= view.last_written,
{
}

/// The directory of a path is how the path begins, or the current one.
pub proof fn law_directory_is_where_the_path_begins(path: Seq<char>)
    ensures
        directory_of(path).is_prefix_of(path) || directory_of(path) == "."@,
{
    let root = root_len(path);
    let body = trim_tail(path, root);
    let cut = drop_component(body, root);
    let dir = trim_tail(cut, root);
    lemma_tail_is_prefix(path, root);
    lemma_tail_is_prefix(body, root);
    lemma_tail_is_prefix(cut, root);
    if parent_of(path) is Some {
        assert(dir =~= path.take(dir.len() as int)) by {
            assert(dir == cut.take(dir.len() as int));
            assert(cut == body.take(cut.len() as int));
            assert(body == path.take(body.len() as int));
            assert(path.take(body.len() as int).take(cut.len() as int) =~= path.take(
                cut.len() as int,
            ));
            assert(path.take(cut.len() as int).take(dir.len() as int) =~= path.take(
                dir.len() as int,
            ));
        }
    }
}

/// A path is its directory and its file name: both are found again, and joining them
/// gives the path back.
pub proof fn law_path_is_directory_and_name(dir: Seq<char>, name: Seq<char>)
    requires
        dir.len() > 0,
        dir.last() != '/',
        dir.len() >= 2 ==> !(dir.last() == '.' && dir[dir.len() - 2] == '/'),
        name.len() > 0,
        !name.contains('/'),
        name != "."@,
        name != ".."@,
    ensures
        joined(dir, name) == dir + "/"@ + name,
        parent_of(joined(dir, name)) == Some(dir),
        directory_of(joined(dir, name)) == dir,
        file_name_of(joined(dir, name)) == Some(name),
{
    reveal_strlit("/");
    reveal_strlit(".");
    let path = joined(dir, name);
    let root = root_len(path);
    let stem = dir + "/"@;
    assert(path[0] == dir[0]);
    assert(path.last() == name.last());
    assert(name.contains(name.last()));
    assert(trim_tail(path, root) == path) by {
        if path.last() == '.' {
            if name.len() == 1 {
                assert(name =~= "."@);
            } else {
                assert(path[path.len() - 2] == name[name.len() - 2]);
            }
        }
    }
    assert(path =~= stem + name);
    lemma_component_is_dropped(stem, name, root);
    assert(stem.last() == '/');
    assert(stem.drop_last() =~= dir);
    assert(trim_tail(stem, root) == trim_tail(dir, root));
    assert(trim_tail(dir, root) == dir);
    assert(path.skip(stem.len() as int) =~= name);
}

/// A name alone lies in the current directory.
pub proof fn law_bare_name_lies_here(name: Seq<char>)
    requires
        name.len() > 0,
        !name.contains('/'),
        name != "."@,
        name != ".."@,
    ensures
        directory_of(name) == "."@,
        file_name_of(name) == Some(name),
{
    reveal_strlit(".");
    assert(name.contains(name[0]));
    assert(name.contains(name.last()));
    assert(trim_tail(name, 0) == name) by {
        if name.last() == '.' && name.len() >= 2 {
            assert(name.contains(name[name.len() - 2]));
        }
    }
    assert(Seq::<char>::empty() + name =~= name);
    lemma_component_is_dropped(Seq::empty(), name, 0);
    assert(name.skip(0) =~= name);
}

/// A name is dropped whole, down to what stands before it.
proof fn lemma_component_is_dropped(stem: Seq<char>, name: Seq<char>, root: nat)
    requires
        !name.contains('/'),
        stem.len() >= root,
        stem.len() == 0 || stem.last() == '/',
    ensures
        drop_component(stem + name, root) == stem,
    decreases name.len(),
{
    let path = stem + name;
    if name.len() == 0 {
        assert(path =~= stem);
        if stem.len() == 0 {
            assert(root == 0);
        }
    } else {
        assert(name.contains(name.last()));
        assert(path.last() == name.last());
        assert(path.drop_last() =~= stem + name.drop_last());
        assert(!name.drop_last().contains('/')) by {
            if name.drop_last().contains('/') {
                let k = choose|k: int| 0 <= k < name.drop_last().len() && name.drop_last()[k] == '/';
                assert(name[k] == '/');
            }
        }
        lemma_component_is_dropped(stem, name.drop_last(), root);
    }
}

/// A running state that cannot be resumed is refused with its file and with what is
/// wrong with it.
pub proof fn law_resume_faults_are_named(active: Seq<char>, e: String)
    ensures
        fault_reason(active, ResumeFault::Unreadable(e)) == "the persisted Running state "@ + active
            + " cannot be read: "@ + e@,
        fault_reason(active, ResumeFault::Unparsable(e)) == "the persisted Running state "@ + active
            + " does not parse as TOML: "@ + e@,
        fault_reason(active, ResumeFault::Invalid(e)) == "the persisted Running state "@ + active
            + " does not validate: "@ + e@,
{
}

/// The write with the newest ticket is the one that stays: whatever the order in which
/// two writes come to their turn, an older ticket is not written over a newer one.
pub proof fn law_newest_ticket_stays(view: BootView, older: u64, newer: u64)
    requires
        older < newer,
        may_write(view, older),
    ensures
        may_write(view, newer),
        !may_write(written(view, newer), older),
        may_write(written(view, older), newer),
        written(written(view, older), newer).last_written == newer,
{
}

/// A path that ends in the directory above names no file, and trailing slashes and dots
/// do not hide one.
pub proof fn law_dots_name_no_file(dir: Seq<char>, name: Seq<char>)
    requires
        dir.len() > 0,
        dir.last() != '/',
        name.len() > 0,
        !name.contains('/'),
        name != "."@,
        name != ".."@,
    ensures
        file_name_of(dir + "/.."@) is None,
        file_name_of(dir + "/"@ + name + "/"@) == file_name_of(dir + "/"@ + name),
        file_name_of(dir + "/"@ + name + "/."@) == file_name_of(dir + "/"@ + name),
        parent_of(dir + "/"@ + name + "/"@) == parent_of(dir + "/"@ + name),
{
    reveal_strlit("/");
    reveal_strlit(".");
    reveal_strlit("..");
    reveal_strlit("/.");
    reveal_strlit("/..");
    let up = dir + "/.."@;
    let root = root_len(up);
    let stem = dir + "/"@;
    assert(up[0] == dir[0]);
    assert(up =~= stem + ".."@);
    assert(up.last() == '.' && up[up.len() - 2] == '.');
    assert(trim_tail(up, root) == up);
    assert(!".."@.contains('/'));
    lemma_component_is_dropped(stem, ".."@, root);
    assert(up.skip(stem.len() as int) =~= ".."@);
    let path = dir + "/"@ + name;
    let slashed = path + "/"@;
    let dotted = path + "/."@;
    assert(slashed[0] == path[0] && dotted[0] == path[0]);
    assert(slashed.last() == '/');
    assert(slashed.drop_last() =~= path);
    assert(trim_tail(slashed, root_len(path)) == trim_tail(path, root_len(path)));
    assert(dotted.last() == '.' && dotted[dotted.len() - 2] == '/');
    assert(dotted.drop_last() =~= slashed);
    assert(trim_tail(dotted, root_len(path)) == trim_tail(slashed, root_len(path)));
}

} // verus!
