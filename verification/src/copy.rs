//! The copy engine: given a fully-resolved source and destination profile,
//! drives a deterministic, partially-idempotent sequence of file copies and
//! cache invalidations, tolerating per-file failure without aborting the
//! whole run.
//!
//! The engine performs no filesystem access itself. It is a state machine:
//! `next_action` names the one filesystem operation to perform next, the
//! caller performs it and reports what happened through `step`, and the
//! engine appends the corresponding transcript line and moves on. A fatal
//! outcome (a listing or directory-creation failure) aborts the remainder
//! of the run; a per-file failure is recorded and the run continues.

use vstd::prelude::*;
use crate::classify::spec_has_saved_variable_extension;
use crate::classify::spec_reserved_name;
use crate::classify::is_saved_variable_file;
use crate::operation::Operation;

verus! {

/// A path relative to the installation root, as a sequence of single path
/// components.
pub struct RelPath {
    pub segments: Vec<String>,
}

impl View for RelPath {
    type V = Seq<Seq<char>>;

    open spec fn view(&self) -> Seq<Seq<char>> {
        self.segments.deep_view()
    }
}

/// The account-scope directory of an account within a version:
/// `<version>/WTF/Account/<account>`.
pub open spec fn spec_account_dir(ver: Seq<char>, acct: Seq<char>) -> Seq<Seq<char>> {
    seq![ver, "WTF"@, "Account"@, acct]
}

/// The character-scope directory of a profile:
/// `<version>/WTF/Account/<account>/<realm>/<character>`.
pub open spec fn spec_character_dir(
    ver: Seq<char>,
    acct: Seq<char>,
    realm: Seq<char>,
    ch: Seq<char>,
) -> Seq<Seq<char>> {
    spec_account_dir(ver, acct) + seq![realm, ch]
}

/// The client-wide settings files transferred at account scope.
pub open spec fn spec_account_files() -> Seq<Seq<char>> {
    seq![
        "bindings-cache.wtf"@,
        "config-cache.wtf"@,
        "macros-cache.txt"@,
        "edit-mode-cache-account.txt"@,
    ]
}

/// The per-character settings files transferred at character scope.
pub open spec fn spec_character_files() -> Seq<Seq<char>> {
    seq![
        "AddOns.txt"@,
        "config-cache.wtf"@,
        "layout-local.txt"@,
        "macros-cache.txt"@,
        "edit-mode-cache-character.txt"@,
    ]
}

/// The integrity-cache file the game client regenerates; deleted after a
/// copy so the client rebuilds it against the new content.
pub open spec fn spec_cache_file() -> Seq<char> {
    "cache.md5"@
}

/// The names in a directory listing that carry saved variables, in listing
/// order.
pub open spec fn spec_lua_names(ns: Seq<Seq<char>>) -> Seq<Seq<char>>
    decreases ns.len(),
{
    if ns.len() == 0 {
        Seq::empty()
    } else {
        let rest = spec_lua_names(ns.drop_first());
        if spec_has_saved_variable_extension(ns[0]) {
            seq![ns[0]] + rest
        } else {
            rest
        }
    }
}

/// Transcript line for a file copied without error.
pub open spec fn copied_line(name: Seq<char>) -> Seq<char> {
    "copied "@ + name
}

/// Transcript line for a failed file copy.
pub open spec fn copy_error_line(name: Seq<char>, cause: Seq<char>) -> Seq<char> {
    "error copying "@ + name + ": "@ + cause
}

/// Transcript line for a file removed without error.
pub open spec fn removed_line(name: Seq<char>) -> Seq<char> {
    "removed "@ + name
}

/// Transcript line for a failed file removal.
pub open spec fn remove_error_line(name: Seq<char>, cause: Seq<char>) -> Seq<char> {
    "error removing "@ + name + ": "@ + cause
}

/// Transcript line announcing that the destination saved-variables
/// directory is about to be created.
pub open spec fn creating_line(path: Seq<char>) -> Seq<char> {
    "destination saved-variables directory missing, creating: "@ + path
}

/// Transcript line recorded when the account phase is skipped because the
/// two accounts coincide.
pub open spec fn skip_line() -> Seq<char> {
    "skipping account copy - accounts are the same"@
}

/// Final transcript line after a fatal outcome aborts the run.
pub open spec fn aborted_line(cause: Seq<char>) -> Seq<char> {
    "aborted: "@ + cause
}

/// The textual form of a relative path under a base directory: the base
/// and every component, separated by `/`.
pub open spec fn path_display(base: Seq<char>, p: Seq<Seq<char>>) -> Seq<char>
    decreases p.len(),
{
    if p.len() == 0 {
        base
    } else {
        path_display(base, p.drop_last()) + "/"@ + p.last()
    }
}

/// Where the engine stands in the copy protocol. The `i` of a phase counts
/// how many items of that phase's list are already handled.
#[derive(Clone, Copy, Debug, PartialEq, Eq, Structural)]
pub enum Phase {
    /// Copying the account allow-list files.
    AccountFiles { i: usize },
    /// Listing the source account's saved-variables directory (fatal on
    /// failure).
    AccountList,
    /// Copying the listed account saved-variable files.
    AccountLua { i: usize },
    /// Removing the destination account's integrity cache.
    AccountCache,
    /// Copying the character allow-list files.
    CharFiles { i: usize },
    /// Probing whether the destination character's saved-variables
    /// directory exists (fatal on failure).
    CharProbe,
    /// Creating the missing destination saved-variables directory (fatal
    /// on failure).
    CharCreate,
    /// Listing the source character's saved-variables directory (fatal on
    /// failure).
    CharList,
    /// Copying the listed character saved-variable files.
    CharLua { i: usize },
    /// Removing the destination character's integrity cache.
    CharCache,
    /// The protocol ran to completion.
    Done,
    /// A fatal outcome ended the run early.
    Aborted,
}

/// One filesystem operation the engine asks its caller to perform.
pub enum Action {
    /// Copy the file at `src` to `dst`, overwriting it.
    CopyFile { src: RelPath, dst: RelPath, name: String },
    /// List the file names inside `dir`.
    ListDir { dir: RelPath },
    /// Report whether `dir` exists.
    ProbeDir { dir: RelPath },
    /// Create `dir` and all its missing ancestors.
    CreateDirAll { dir: RelPath },
    /// Delete the file at `path`.
    RemoveFile { path: RelPath, name: String },
}

/// What performing an action yielded. Every failure carries a
/// human-readable cause.
pub enum Event {
    Copied(Result<(), String>),
    Listed(Result<Vec<String>, String>),
    Probed(Result<bool, String>),
    Created(Result<(), String>),
    Removed(Result<(), String>),
}

/// How a copy run can be refused outright.
#[derive(Clone, Copy, Debug, PartialEq, Eq, Structural)]
pub enum CopyError {
    /// The selection handed to the engine was incomplete.
    NotReady,
}

/// Whether a phase belongs to the character half of the protocol (or has
/// ended). The account phases all come before it.
pub open spec fn phase_in_character(p: Phase) -> bool {
    match p {
        Phase::AccountFiles { .. } => false,
        Phase::AccountList => false,
        Phase::AccountLua { .. } => false,
        Phase::AccountCache => false,
        _ => true,
    }
}

/// The changing part of a job, seen mathematically: the phase, the
/// transcript so far, and the file names awaiting copy in the current
/// saved-variables phase.
pub struct JobModel {
    pub phase: Phase,
    pub log: Seq<Seq<char>>,
    pub pending: Seq<Seq<char>>,
}

/// A copy run in progress. The path fields are fixed at construction; the
/// phase, transcript and pending list advance with each reported event.
pub struct CopyJob {
    pub install_dir: String,
    pub src_ver: String,
    pub dst_ver: String,
    pub src_account: String,
    pub dst_account: String,
    pub src_realm: String,
    pub src_character: String,
    pub dst_realm: String,
    pub dst_character: String,
    pub pending: Vec<String>,
    pub phase: Phase,
    pub log: Vec<String>,
}

impl CopyJob {
    /// The changing state of the job.
    pub open spec fn model(&self) -> JobModel {
        JobModel { phase: self.phase, log: self.log.deep_view(), pending: self.pending.deep_view() }
    }

    /// Whether the source and destination account identifiers coincide;
    /// the sole signal that the account phase is skipped.
    pub open spec fn accounts_same(&self) -> bool {
        self.src_account@ == self.dst_account@
    }

    pub open spec fn src_account_dir(&self) -> Seq<Seq<char>> {
        spec_account_dir(self.src_ver@, self.src_account@)
    }

    pub open spec fn dst_account_dir(&self) -> Seq<Seq<char>> {
        spec_account_dir(self.dst_ver@, self.dst_account@)
    }

    pub open spec fn src_character_dir(&self) -> Seq<Seq<char>> {
        spec_character_dir(self.src_ver@, self.src_account@, self.src_realm@, self.src_character@)
    }

    pub open spec fn dst_character_dir(&self) -> Seq<Seq<char>> {
        spec_character_dir(self.dst_ver@, self.dst_account@, self.dst_realm@, self.dst_character@)
    }

    pub open spec fn src_account_sv_dir(&self) -> Seq<Seq<char>> {
        self.src_account_dir().push(spec_reserved_name())
    }

    pub open spec fn dst_account_sv_dir(&self) -> Seq<Seq<char>> {
        self.dst_account_dir().push(spec_reserved_name())
    }

    pub open spec fn src_character_sv_dir(&self) -> Seq<Seq<char>> {
        self.src_character_dir().push(spec_reserved_name())
    }

    pub open spec fn dst_character_sv_dir(&self) -> Seq<Seq<char>> {
        self.dst_character_dir().push(spec_reserved_name())
    }

    /// Whether the job stands in the character phase or later. Once there
    /// it never returns to the account phase.
    pub open spec fn in_character_phase(&self) -> bool {
        phase_in_character(self.phase)
    }

    /// Internal consistency: item counters stay inside their lists, and a
    /// job for one single account never stands in the account phase.
    pub open spec fn wf(&self) -> bool {
        &&& (self.phase matches Phase::AccountFiles { i } ==> i < spec_account_files().len())
        &&& (self.phase matches Phase::AccountLua { i } ==> i < self.pending@.len())
        &&& (self.phase matches Phase::CharFiles { i } ==> i < spec_character_files().len())
        &&& (self.phase matches Phase::CharLua { i } ==> i < self.pending@.len())
        &&& (self.accounts_same() ==> self.in_character_phase())
    }

    /// Whether the run has ended, normally or by abort.
    pub open spec fn spec_finished(&self) -> bool {
        self.phase is Done || self.phase is Aborted
    }
}

/// The transcript line a copy outcome produces.
pub open spec fn spec_copy_line(name: Seq<char>, r: Result<(), String>) -> Seq<char> {
    match r {
        Ok(_) => copied_line(name),
        Err(cause) => copy_error_line(name, cause@),
    }
}

/// The transcript line a removal outcome produces.
pub open spec fn spec_remove_line(name: Seq<char>, r: Result<(), String>) -> Seq<char> {
    match r {
        Ok(_) => removed_line(name),
        Err(cause) => remove_error_line(name, cause@),
    }
}

/// The complete transition function of the engine: how one reported event
/// advances the phase, the transcript, and the pending list. An event that
/// does not answer the pending action, or arrives after the run ended,
/// changes nothing.
pub open spec fn spec_step(pre: CopyJob, e: Event) -> JobModel {
    let m = pre.model();
    match pre.phase {
        Phase::AccountFiles { i } => match e {
            Event::Copied(r) => JobModel {
                phase: if i + 1 < spec_account_files().len() {
                    Phase::AccountFiles { i: (i + 1) as usize }
                } else {
                    Phase::AccountList
                },
                log: m.log.push(spec_copy_line(spec_account_files()[i as int], r)),
                pending: m.pending,
            },
            _ => m,
        },
        Phase::AccountList => match e {
            Event::Listed(r) => match r {
                Ok(names) => {
                    let lua = spec_lua_names(names.deep_view());
                    JobModel {
                        phase: if lua.len() == 0 {
                            Phase::AccountCache
                        } else {
                            Phase::AccountLua { i: 0 }
                        },
                        log: m.log,
                        pending: lua,
                    }
                },
                Err(cause) => JobModel {
                    phase: Phase::Aborted,
                    log: m.log.push(aborted_line(cause@)),
                    pending: m.pending,
                },
            },
            _ => m,
        },
        Phase::AccountLua { i } => match e {
            Event::Copied(r) => JobModel {
                phase: if i + 1 < m.pending.len() {
                    Phase::AccountLua { i: (i + 1) as usize }
                } else {
                    Phase::AccountCache
                },
                log: m.log.push(spec_copy_line(m.pending[i as int], r)),
                pending: m.pending,
            },
            _ => m,
        },
        Phase::AccountCache => match e {
            Event::Removed(r) => JobModel {
                phase: Phase::CharFiles { i: 0 },
                log: m.log.push(spec_remove_line(spec_cache_file(), r)),
                pending: m.pending,
            },
            _ => m,
        },
        Phase::CharFiles { i } => match e {
            Event::Copied(r) => JobModel {
                phase: if i + 1 < spec_character_files().len() {
                    Phase::CharFiles { i: (i + 1) as usize }
                } else {
                    Phase::CharProbe
                },
                log: m.log.push(spec_copy_line(spec_character_files()[i as int], r)),
                pending: m.pending,
            },
            _ => m,
        },
        Phase::CharProbe => match e {
            Event::Probed(r) => match r {
                Ok(exists) => if exists {
                    JobModel { phase: Phase::CharList, log: m.log, pending: m.pending }
                } else {
                    JobModel {
                        phase: Phase::CharCreate,
                        log: m.log.push(
                            creating_line(
                                path_display(pre.install_dir@, pre.dst_character_sv_dir()),
                            ),
                        ),
                        pending: m.pending,
                    }
                },
                Err(cause) => JobModel {
                    phase: Phase::Aborted,
                    log: m.log.push(aborted_line(cause@)),
                    pending: m.pending,
                },
            },
            _ => m,
        },
        Phase::CharCreate => match e {
            Event::Created(r) => match r {
                Ok(_) => JobModel { phase: Phase::CharList, log: m.log, pending: m.pending },
                Err(cause) => JobModel {
                    phase: Phase::Aborted,
                    log: m.log.push(aborted_line(cause@)),
                    pending: m.pending,
                },
            },
            _ => m,
        },
        Phase::CharList => match e {
            Event::Listed(r) => match r {
                Ok(names) => {
                    let lua = spec_lua_names(names.deep_view());
                    JobModel {
                        phase: if lua.len() == 0 {
                            Phase::CharCache
                        } else {
                            Phase::CharLua { i: 0 }
                        },
                        log: m.log,
                        pending: lua,
                    }
                },
                Err(cause) => JobModel {
                    phase: Phase::Aborted,
                    log: m.log.push(aborted_line(cause@)),
                    pending: m.pending,
                },
            },
            _ => m,
        },
        Phase::CharLua { i } => match e {
            Event::Copied(r) => JobModel {
                phase: if i + 1 < m.pending.len() {
                    Phase::CharLua { i: (i + 1) as usize }
                } else {
                    Phase::CharCache
                },
                log: m.log.push(spec_copy_line(m.pending[i as int], r)),
                pending: m.pending,
            },
            _ => m,
        },
        Phase::CharCache => match e {
            Event::Removed(r) => JobModel {
                phase: Phase::Done,
                log: m.log.push(spec_remove_line(spec_cache_file(), r)),
                pending: m.pending,
            },
            _ => m,
        },
        Phase::Done => m,
        Phase::Aborted => m,
    }
}

/// A directory is a prefix of every path formed by descending from it.
proof fn lemma_prefix_extend(d: Seq<Seq<char>>, tail: Seq<Seq<char>>)
    ensures
        d.is_prefix_of(d + tail),
{
    assert((d + tail).subrange(0, d.len() as int) =~= d);
}

/// The account allow-list, by position.
fn account_file_name(i: usize) -> (r: String)
    requires
        i < spec_account_files().len(),
    ensures
        r@ == spec_account_files()[i as int],
{
    if i == 0 {
        String::from_str("bindings-cache.wtf")
    } else if i == 1 {
        String::from_str("config-cache.wtf")
    } else if i == 2 {
        String::from_str("macros-cache.txt")
    } else {
        String::from_str("edit-mode-cache-account.txt")
    }
}

/// The character allow-list, by position.
fn character_file_name(i: usize) -> (r: String)
    requires
        i < spec_character_files().len(),
    ensures
        r@ == spec_character_files()[i as int],
{
    if i == 0 {
        String::from_str("AddOns.txt")
    } else if i == 1 {
        String::from_str("config-cache.wtf")
    } else if i == 2 {
        String::from_str("layout-local.txt")
    } else if i == 3 {
        String::from_str("macros-cache.txt")
    } else {
        String::from_str("edit-mode-cache-character.txt")
    }
}

/// Builds `<version>/WTF/Account/<account>` as a path value.
fn account_dir_path(ver: &String, acct: &String) -> (r: RelPath)
    ensures
        r@ == spec_account_dir(ver@, acct@),
{
    let mut segments: Vec<String> = Vec::new();
    segments.push(ver.clone());
    segments.push(String::from_str("WTF"));
    segments.push(String::from_str("Account"));
    segments.push(acct.clone());
    let r = RelPath { segments };
    proof {
        assert(r@ =~= spec_account_dir(ver@, acct@));
    }
    r
}

/// Builds `<version>/WTF/Account/<account>/<realm>/<character>`.
fn character_dir_path(ver: &String, acct: &String, realm: &String, ch: &String) -> (r: RelPath)
    ensures
        r@ == spec_character_dir(ver@, acct@, realm@, ch@),
{
    let mut r = account_dir_path(ver, acct);
    let ghost base = r@;
    r.segments.push(realm.clone());
    r.segments.push(ch.clone());
    proof {
        assert(r@ =~= base + seq![realm@, ch@]);
    }
    r
}

/// Appends one component to a path.
fn join_path(dir: RelPath, name: String) -> (r: RelPath)
    ensures
        r@ == dir@.push(name@),
{
    let ghost base = dir@;
    let mut r = dir;
    r.segments.push(name);
    proof {
        assert(r@ =~= base.push(r.segments@[r.segments@.len() - 1]@));
    }
    r
}

/// Appends the reserved saved-variables component to a path.
fn join_saved_variables(dir: RelPath) -> (r: RelPath)
    ensures
        r@ == dir@.push(spec_reserved_name()),
{
    join_path(dir, String::from_str("SavedVariables"))
}

/// The textual form of a path under a base directory.
#[verifier::loop_isolation(false)]
fn display_path(base: &String, p: &RelPath) -> (r: String)
    ensures
        r@ == path_display(base@, p@),
{
    let mut s = base.clone();
    let n = p.segments.len();
    proof {
        assert(p@.take(0) =~= Seq::<Seq<char>>::empty());
    }
    let mut i: usize = 0;
    while i < n
        invariant
            i <= n,
            n == p.segments@.len(),
            s@ == path_display(base@, p@.take(i as int)),
        decreases n - i,
    {
        s.append("/");
        s.append(p.segments[i].as_str());
        proof {
            assert(p@.take(i + 1).drop_last() =~= p@.take(i as int));
            assert(p@.take(i + 1).last() == p@[i as int]);
        }
        i += 1;
    }
    proof {
        assert(p@.take(n as int) =~= p@);
    }
    s
}

/// Unfolds `spec_lua_names` one listed name at a time.
proof fn lemma_lua_names_step(ns: Seq<Seq<char>>, i: int)
    requires
        0 <= i < ns.len(),
    ensures
        spec_lua_names(ns.skip(i)) == if spec_has_saved_variable_extension(ns[i]) {
            seq![ns[i]] + spec_lua_names(ns.skip(i + 1))
        } else {
            spec_lua_names(ns.skip(i + 1))
        },
{
    assert(ns.skip(i)[0] == ns[i]);
    assert(ns.skip(i).drop_first() =~= ns.skip(i + 1));
}

/// Keeps, in listing order, the names that carry saved variables.
#[verifier::loop_isolation(false)]
fn lua_files(names: &Vec<String>) -> (r: Vec<String>)
    ensures
        r.deep_view() == spec_lua_names(names.deep_view()),
{
    let ghost ns = names.deep_view();
    proof {
        assert(ns.skip(0) =~= ns);
    }
    let mut r: Vec<String> = Vec::new();
    let n = names.len();
    let mut i: usize = 0;
    while i < n
        invariant
            i <= n,
            n == names@.len(),
            ns == names.deep_view(),
            r.deep_view() + spec_lua_names(ns.skip(i as int)) == spec_lua_names(ns),
        decreases n - i,
    {
        let ghost pre = r.deep_view();
        proof {
            lemma_lua_names_step(ns, i as int);
            assert(ns[i as int] == names@[i as int]@);
        }
        if is_saved_variable_file(names[i].as_str()) {
            r.push(names[i].clone());
            proof {
                assert(r.deep_view() =~= pre.push(ns[i as int]));
                assert(pre.push(ns[i as int]) + spec_lua_names(ns.skip(i + 1)) =~= pre + (seq![
                    ns[i as int],
                ] + spec_lua_names(ns.skip(i + 1))));
            }
        }
        i += 1;
    }
    proof {
        assert(spec_lua_names(ns.skip(n as int)) =~= Seq::<Seq<char>>::empty());
        assert(r.deep_view() + Seq::<Seq<char>>::empty() =~= r.deep_view());
    }
    r
}

/// The transcript line for a copy outcome, as text.
fn copy_line_text(name: &String, r: &Result<(), String>) -> (t: String)
    ensures
        t@ == spec_copy_line(name@, *r),
{
    match r {
        Ok(_) => {
            let mut t = String::from_str("copied ");
            t.append(name.as_str());
            t
        },
        Err(cause) => {
            let mut t = String::from_str("error copying ");
            t.append(name.as_str());
            t.append(": ");
            t.append(cause.as_str());
            t
        },
    }
}

/// The transcript line for a removal outcome, as text.
fn remove_line_text(name: &String, r: &Result<(), String>) -> (t: String)
    ensures
        t@ == spec_remove_line(name@, *r),
{
    match r {
        Ok(_) => {
            let mut t = String::from_str("removed ");
            t.append(name.as_str());
            t
        },
        Err(cause) => {
            let mut t = String::from_str("error removing ");
            t.append(name.as_str());
            t.append(": ");
            t.append(cause.as_str());
            t
        },
    }
}

/// The final transcript line of an aborted run, as text.
fn aborted_line_text(cause: &String) -> (t: String)
    ensures
        t@ == aborted_line(cause@),
{
    let mut t = String::from_str("aborted: ");
    t.append(cause.as_str());
    t
}

/// Whether an action stays below the run's two character directories.
/// Account-scope files lie outside every such path.
pub open spec fn char_scoped(a: Action, j: CopyJob) -> bool {
    match a {
        Action::CopyFile { src, dst, .. } => j.src_character_dir().is_prefix_of(src@)
            && j.dst_character_dir().is_prefix_of(dst@),
        Action::ListDir { dir } => j.src_character_dir().is_prefix_of(dir@),
        Action::ProbeDir { dir } => j.dst_character_dir().is_prefix_of(dir@),
        Action::CreateDirAll { dir } => j.dst_character_dir().is_prefix_of(dir@),
        Action::RemoveFile { path, .. } => j.dst_character_dir().is_prefix_of(path@),
    }
}

impl CopyJob {
    /// Starts a copy run for a complete selection; refused with `NotReady`
    /// when any piece of the selection is missing, touching nothing.
    ///
    /// When source and destination account coincide the account phase is
    /// skipped bodily: the job starts in the character phase and its
    /// transcript already carries the skip note as its first line.
    pub fn new(op: &Operation) -> (r: Result<CopyJob, CopyError>)
        ensures
            op.spec_ready() == (r is Ok),
            !op.spec_ready() ==> r == Err::<CopyJob, CopyError>(CopyError::NotReady),
            r matches Ok(job) ==> {
                &&& job.wf()
                &&& job.install_dir@ == op.install->Some_0.install_dir@
                &&& job.src_ver@ == op.src_ver->Some_0.name@
                &&& job.dst_ver@ == op.dst_ver->Some_0.name@
                &&& job.src_account@ == op.src_wtf->Some_0.account@
                &&& job.src_realm@ == op.src_wtf->Some_0.realm@
                &&& job.src_character@ == op.src_wtf->Some_0.character@
                &&& job.dst_account@ == op.dst_wtf->Some_0.account@
                &&& job.dst_realm@ == op.dst_wtf->Some_0.realm@
                &&& job.dst_character@ == op.dst_wtf->Some_0.character@
                &&& job.pending.deep_view() == Seq::<Seq<char>>::empty()
                &&& (job.accounts_same() ==> job.log.deep_view() == seq![skip_line()] && job.phase
                    == (Phase::CharFiles { i: 0 }))
                &&& (!job.accounts_same() ==> job.log.deep_view() == Seq::<Seq<char>>::empty()
                    && job.phase == (Phase::AccountFiles { i: 0 }))
            },
    {
        let inst = match &op.install {
            Some(i) => i,
            None => {
                return Err(CopyError::NotReady);
            },
        };
        let src_ver = match &op.src_ver {
            Some(v) => v,
            None => {
                return Err(CopyError::NotReady);
            },
        };
        let dst_ver = match &op.dst_ver {
            Some(v) => v,
            None => {
                return Err(CopyError::NotReady);
            },
        };
        let src_wtf = match &op.src_wtf {
            Some(w) => w,
            None => {
                return Err(CopyError::NotReady);
            },
        };
        let dst_wtf = match &op.dst_wtf {
            Some(w) => w,
            None => {
                return Err(CopyError::NotReady);
            },
        };
        let same = src_wtf.account.eq(&dst_wtf.account);
        let mut log: Vec<String> = Vec::new();
        if same {
            log.push(String::from_str("skipping account copy - accounts are the same"));
            proof {
                assert(log.deep_view() =~= seq![skip_line()]);
            }
        } else {
            proof {
                assert(log.deep_view() =~= Seq::<Seq<char>>::empty());
            }
        }
        let job = CopyJob {
            install_dir: inst.install_dir.clone(),
            src_ver: src_ver.name.clone(),
            dst_ver: dst_ver.name.clone(),
            src_account: src_wtf.account.clone(),
            dst_account: dst_wtf.account.clone(),
            src_realm: src_wtf.realm.clone(),
            src_character: src_wtf.character.clone(),
            dst_realm: dst_wtf.realm.clone(),
            dst_character: dst_wtf.character.clone(),
            pending: Vec::new(),
            phase: if same {
                Phase::CharFiles { i: 0 }
            } else {
                Phase::AccountFiles { i: 0 }
            },
            log,
        };
        proof {
            assert(job.pending.deep_view() =~= Seq::<Seq<char>>::empty());
        }
        Ok(job)
    }

    /// The next filesystem operation to perform, or `None` once the run
    /// has ended. For one single account, every action stays below the two
    /// character directories: account-scope files are never touched.
    pub fn next_action(&self) -> (r: Option<Action>)
        requires
            self.wf(),
        ensures
            (r is None) == self.spec_finished(),
            self.accounts_same() ==> (r matches Some(a) ==> char_scoped(a, *self)),
            match self.phase {
                Phase::AccountFiles { i } => r matches Some(a) && a matches Action::CopyFile {
                    src,
                    dst,
                    name,
                } && src@ == self.src_account_dir().push(spec_account_files()[i as int]) && dst@
                    == self.dst_account_dir().push(spec_account_files()[i as int]) && name@
                    == spec_account_files()[i as int],
                Phase::AccountList => r matches Some(a) && a matches Action::ListDir { dir } && dir@
                    == self.src_account_sv_dir(),
                Phase::AccountLua { i } => r matches Some(a) && a matches Action::CopyFile {
                    src,
                    dst,
                    name,
                } && src@ == self.src_account_sv_dir().push(self.pending.deep_view()[i as int])
                    && dst@ == self.dst_account_sv_dir().push(self.pending.deep_view()[i as int])
                    && name@ == self.pending.deep_view()[i as int],
                Phase::AccountCache => r matches Some(a) && a matches Action::RemoveFile {
                    path,
                    name,
                } && path@ == self.dst_account_dir().push(spec_cache_file()) && name@
                    == spec_cache_file(),
                Phase::CharFiles { i } => r matches Some(a) && a matches Action::CopyFile {
                    src,
                    dst,
                    name,
                } && src@ == self.src_character_dir().push(spec_character_files()[i as int]) && dst@
                    == self.dst_character_dir().push(spec_character_files()[i as int]) && name@
                    == spec_character_files()[i as int],
                Phase::CharProbe => r matches Some(a) && a matches Action::ProbeDir { dir } && dir@
                    == self.dst_character_sv_dir(),
                Phase::CharCreate => r matches Some(a) && a matches Action::CreateDirAll { dir }
                    && dir@ == self.dst_character_sv_dir(),
                Phase::CharList => r matches Some(a) && a matches Action::ListDir { dir } && dir@
                    == self.src_character_sv_dir(),
                Phase::CharLua { i } => r matches Some(a) && a matches Action::CopyFile {
                    src,
                    dst,
                    name,
                } && src@ == self.src_character_sv_dir().push(self.pending.deep_view()[i as int])
                    && dst@ == self.dst_character_sv_dir().push(self.pending.deep_view()[i as int])
                    && name@ == self.pending.deep_view()[i as int],
                Phase::CharCache => r matches Some(a) && a matches Action::RemoveFile {
                    path,
                    name,
                } && path@ == self.dst_character_dir().push(spec_cache_file()) && name@
                    == spec_cache_file(),
                Phase::Done => r is None,
                Phase::Aborted => r is None,
            },
    {
        match self.phase {
            Phase::AccountFiles { i } => {
                let name = account_file_name(i);
                let src = join_path(
                    account_dir_path(&self.src_ver, &self.src_account),
                    name.clone(),
                );
                let dst = join_path(
                    account_dir_path(&self.dst_ver, &self.dst_account),
                    name.clone(),
                );
                Some(Action::CopyFile { src, dst, name })
            },
            Phase::AccountList => {
                let dir = join_saved_variables(account_dir_path(&self.src_ver, &self.src_account));
                Some(Action::ListDir { dir })
            },
            Phase::AccountLua { i } => {
                let name = self.pending[i].clone();
                let src = join_path(
                    join_saved_variables(account_dir_path(&self.src_ver, &self.src_account)),
                    name.clone(),
                );
                let dst = join_path(
                    join_saved_variables(account_dir_path(&self.dst_ver, &self.dst_account)),
                    name.clone(),
                );
                Some(Action::CopyFile { src, dst, name })
            },
            Phase::AccountCache => {
                let name = String::from_str("cache.md5");
                let path = join_path(
                    account_dir_path(&self.dst_ver, &self.dst_account),
                    name.clone(),
                );
                Some(Action::RemoveFile { path, name })
            },
            Phase::CharFiles { i } => {
                let name = character_file_name(i);
                let src = join_path(self.src_character_path(), name.clone());
                let dst = join_path(self.dst_character_path(), name.clone());
                proof {
                    if self.accounts_same() {
                        lemma_prefix_extend(
                            self.src_character_dir(),
                            seq![spec_character_files()[i as int]],
                        );
                        lemma_prefix_extend(
                            self.dst_character_dir(),
                            seq![spec_character_files()[i as int]],
                        );
                        assert(src@ =~= self.src_character_dir() + seq![
                            spec_character_files()[i as int],
                        ]);
                        assert(dst@ =~= self.dst_character_dir() + seq![
                            spec_character_files()[i as int],
                        ]);
                    }
                }
                Some(Action::CopyFile { src, dst, name })
            },
            Phase::CharProbe => {
                let dir = join_saved_variables(self.dst_character_path());
                proof {
                    if self.accounts_same() {
                        lemma_prefix_extend(self.dst_character_dir(), seq![spec_reserved_name()]);
                        assert(dir@ =~= self.dst_character_dir() + seq![spec_reserved_name()]);
                    }
                }
                Some(Action::ProbeDir { dir })
            },
            Phase::CharCreate => {
                let dir = join_saved_variables(self.dst_character_path());
                proof {
                    if self.accounts_same() {
                        lemma_prefix_extend(self.dst_character_dir(), seq![spec_reserved_name()]);
                        assert(dir@ =~= self.dst_character_dir() + seq![spec_reserved_name()]);
                    }
                }
                Some(Action::CreateDirAll { dir })
            },
            Phase::CharList => {
                let dir = join_saved_variables(self.src_character_path());
                proof {
                    if self.accounts_same() {
                        lemma_prefix_extend(self.src_character_dir(), seq![spec_reserved_name()]);
                        assert(dir@ =~= self.src_character_dir() + seq![spec_reserved_name()]);
                    }
                }
                Some(Action::ListDir { dir })
            },
            Phase::CharLua { i } => {
                let name = self.pending[i].clone();
                let src = join_path(join_saved_variables(self.src_character_path()), name.clone());
                let dst = join_path(join_saved_variables(self.dst_character_path()), name.clone());
                proof {
                    if self.accounts_same() {
                        let nm = self.pending.deep_view()[i as int];
                        lemma_prefix_extend(
                            self.src_character_dir(),
                            seq![spec_reserved_name(), nm],
                        );
                        lemma_prefix_extend(
                            self.dst_character_dir(),
                            seq![spec_reserved_name(), nm],
                        );
                        assert(src@ =~= self.src_character_dir() + seq![spec_reserved_name(), nm]);
                        assert(dst@ =~= self.dst_character_dir() + seq![spec_reserved_name(), nm]);
                    }
                }
                Some(Action::CopyFile { src, dst, name })
            },
            Phase::CharCache => {
                let name = String::from_str("cache.md5");
                let path = join_path(self.dst_character_path(), name.clone());
                proof {
                    if self.accounts_same() {
                        lemma_prefix_extend(self.dst_character_dir(), seq![spec_cache_file()]);
                        assert(path@ =~= self.dst_character_dir() + seq![spec_cache_file()]);
                    }
                }
                Some(Action::RemoveFile { path, name })
            },
            Phase::Done => None,
            Phase::Aborted => None,
        }
    }

    /// The source character directory as a path value.
    fn src_character_path(&self) -> (r: RelPath)
        ensures
            r@ == self.src_character_dir(),
    {
        character_dir_path(&self.src_ver, &self.src_account, &self.src_realm, &self.src_character)
    }

    /// The destination character directory as a path value.
    fn dst_character_path(&self) -> (r: RelPath)
        ensures
            r@ == self.dst_character_dir(),
    {
        character_dir_path(&self.dst_ver, &self.dst_account, &self.dst_realm, &self.dst_character)
    }

    /// Reports the outcome of the pending action and advances the engine:
    /// exactly the transition `spec_step` describes. The path fields never
    /// change.
    pub fn step(&mut self, e: Event)
        requires
            old(self).wf(),
        ensures
            final(self).wf(),
            final(self).install_dir == old(self).install_dir,
            final(self).src_ver == old(self).src_ver,
            final(self).dst_ver == old(self).dst_ver,
            final(self).src_account == old(self).src_account,
            final(self).dst_account == old(self).dst_account,
            final(self).src_realm == old(self).src_realm,
            final(self).src_character == old(self).src_character,
            final(self).dst_realm == old(self).dst_realm,
            final(self).dst_character == old(self).dst_character,
            final(self).model() == spec_step(*old(self), e),
    {
        let ghost pre = *self;
        match self.phase {
            Phase::AccountFiles { i } => match &e {
                Event::Copied(r) => {
                    let name = account_file_name(i);
                    let line = copy_line_text(&name, r);
                    self.log.push(line);
                    self.phase = if i + 1 < 4 {
                        Phase::AccountFiles { i: i + 1 }
                    } else {
                        Phase::AccountList
                    };
                    proof {
                        assert(self.log.deep_view() =~= pre.log.deep_view().push(
                            spec_copy_line(spec_account_files()[i as int], e->Copied_0),
                        ));
                        assert(self.model() == spec_step(pre, e));
                    }
                },
                _ => {
                    proof {
                        assert(self.model() == spec_step(pre, e));
                    }
                },
            },
            Phase::AccountList => match e {
                Event::Listed(r) => match r {
                    Ok(names) => {
                        let lua = lua_files(&names);
                        self.phase = if lua.len() == 0 {
                            Phase::AccountCache
                        } else {
                            Phase::AccountLua { i: 0 }
                        };
                        self.pending = lua;
                        proof {
                            assert(self.model() == spec_step(pre, Event::Listed(Ok(names))));
                        }
                    },
                    Err(cause) => {
                        let line = aborted_line_text(&cause);
                        self.log.push(line);
                        self.phase = Phase::Aborted;
                        proof {
                            assert(self.log.deep_view() =~= pre.log.deep_view().push(
                                aborted_line(cause@),
                            ));
                            assert(self.model() == spec_step(pre, Event::Listed(Err(cause))));
                        }
                    },
                },
                _ => {
                    proof {
                        assert(self.model() == spec_step(pre, e));
                    }
                },
            },
            Phase::AccountLua { i } => match &e {
                Event::Copied(r) => {
                    let name = self.pending[i].clone();
                    let line = copy_line_text(&name, r);
                    self.log.push(line);
                    self.phase = if i < self.pending.len() - 1 {
                        Phase::AccountLua { i: i + 1 }
                    } else {
                        Phase::AccountCache
                    };
                    proof {
                        assert(self.log.deep_view() =~= pre.log.deep_view().push(
                            spec_copy_line(pre.pending.deep_view()[i as int], e->Copied_0),
                        ));
                        assert(self.model() == spec_step(pre, e));
                    }
                },
                _ => {
                    proof {
                        assert(self.model() == spec_step(pre, e));
                    }
                },
            },
            Phase::AccountCache => match &e {
                Event::Removed(r) => {
                    let name = String::from_str("cache.md5");
                    let line = remove_line_text(&name, r);
                    self.log.push(line);
                    self.phase = Phase::CharFiles { i: 0 };
                    proof {
                        assert(self.log.deep_view() =~= pre.log.deep_view().push(
                            spec_remove_line(spec_cache_file(), e->Removed_0),
                        ));
                        assert(self.model() == spec_step(pre, e));
                    }
                },
                _ => {
                    proof {
                        assert(self.model() == spec_step(pre, e));
                    }
                },
            },
            Phase::CharFiles { i } => match &e {
                Event::Copied(r) => {
                    let name = character_file_name(i);
                    let line = copy_line_text(&name, r);
                    self.log.push(line);
                    self.phase = if i + 1 < 5 {
                        Phase::CharFiles { i: i + 1 }
                    } else {
                        Phase::CharProbe
                    };
                    proof {
                        assert(self.log.deep_view() =~= pre.log.deep_view().push(
                            spec_copy_line(spec_character_files()[i as int], e->Copied_0),
                        ));
                        assert(self.model() == spec_step(pre, e));
                    }
                },
                _ => {
                    proof {
                        assert(self.model() == spec_step(pre, e));
                    }
                },
            },
            Phase::CharProbe => match &e {
                Event::Probed(r) => match r {
                    Ok(exists) => {
                        if *exists {
                            self.phase = Phase::CharList;
                            proof {
                                assert(self.model() == spec_step(pre, e));
                            }
                        } else {
                            let sv = join_saved_variables(self.dst_character_path());
                            let shown = display_path(&self.install_dir, &sv);
                            let mut line = String::from_str(
                                "destination saved-variables directory missing, creating: ",
                            );
                            line.append(shown.as_str());
                            self.log.push(line);
                            self.phase = Phase::CharCreate;
                            proof {
                                assert(self.log.deep_view() =~= pre.log.deep_view().push(
                                    creating_line(
                                        path_display(
                                            pre.install_dir@,
                                            pre.dst_character_sv_dir(),
                                        ),
                                    ),
                                ));
                                assert(self.model() == spec_step(pre, e));
                            }
                        }
                    },
                    Err(cause) => {
                        let line = aborted_line_text(cause);
                        self.log.push(line);
                        self.phase = Phase::Aborted;
                        proof {
                            assert(self.log.deep_view() =~= pre.log.deep_view().push(
                                aborted_line(e->Probed_0->Err_0@),
                            ));
                            assert(self.model() == spec_step(pre, e));
                        }
                    },
                },
                _ => {
                    proof {
                        assert(self.model() == spec_step(pre, e));
                    }
                },
            },
            Phase::CharCreate => match &e {
                Event::Created(r) => match r {
                    Ok(_) => {
                        self.phase = Phase::CharList;
                        proof {
                            assert(self.model() == spec_step(pre, e));
                        }
                    },
                    Err(cause) => {
                        let line = aborted_line_text(cause);
                        self.log.push(line);
                        self.phase = Phase::Aborted;
                        proof {
                            assert(self.log.deep_view() =~= pre.log.deep_view().push(
                                aborted_line(e->Created_0->Err_0@),
                            ));
                            assert(self.model() == spec_step(pre, e));
                        }
                    },
                },
                _ => {
                    proof {
                        assert(self.model() == spec_step(pre, e));
                    }
                },
            },
            Phase::CharList => match e {
                Event::Listed(r) => match r {
                    Ok(names) => {
                        let lua = lua_files(&names);
                        self.phase = if lua.len() == 0 {
                            Phase::CharCache
                        } else {
                            Phase::CharLua { i: 0 }
                        };
                        self.pending = lua;
                        proof {
                            assert(self.model() == spec_step(pre, Event::Listed(Ok(names))));
                        }
                    },
                    Err(cause) => {
                        let line = aborted_line_text(&cause);
                        self.log.push(line);
                        self.phase = Phase::Aborted;
                        proof {
                            assert(self.log.deep_view() =~= pre.log.deep_view().push(
                                aborted_line(cause@),
                            ));
                            assert(self.model() == spec_step(pre, Event::Listed(Err(cause))));
                        }
                    },
                },
                _ => {
                    proof {
                        assert(self.model() == spec_step(pre, e));
                    }
                },
            },
            Phase::CharLua { i } => match &e {
                Event::Copied(r) => {
                    let name = self.pending[i].clone();
                    let line = copy_line_text(&name, r);
                    self.log.push(line);
                    self.phase = if i < self.pending.len() - 1 {
                        Phase::CharLua { i: i + 1 }
                    } else {
                        Phase::CharCache
                    };
                    proof {
                        assert(self.log.deep_view() =~= pre.log.deep_view().push(
                            spec_copy_line(pre.pending.deep_view()[i as int], e->Copied_0),
                        ));
                        assert(self.model() == spec_step(pre, e));
                    }
                },
                _ => {
                    proof {
                        assert(self.model() == spec_step(pre, e));
                    }
                },
            },
            Phase::CharCache => match &e {
                Event::Removed(r) => {
                    let name = String::from_str("cache.md5");
                    let line = remove_line_text(&name, r);
                    self.log.push(line);
                    self.phase = Phase::Done;
                    proof {
                        assert(self.log.deep_view() =~= pre.log.deep_view().push(
                            spec_remove_line(spec_cache_file(), e->Removed_0),
                        ));
                        assert(self.model() == spec_step(pre, e));
                    }
                },
                _ => {
                    proof {
                        assert(self.model() == spec_step(pre, e));
                    }
                },
            },
            Phase::Done => {
                proof {
                    assert(self.model() == spec_step(pre, e));
                }
            },
            Phase::Aborted => {
                proof {
                    assert(self.model() == spec_step(pre, e));
                }
            },
        }
    }

    /// The transcript accumulated so far. It is meaningful after an abort
    /// too: everything done before the fatal outcome is in it, closed by
    /// the aborting line.
    pub fn transcript(&self) -> (r: &Vec<String>)
        ensures
            r == &self.log,
    {
        &self.log
    }

    /// Whether the run has ended, normally or by abort.
    pub fn finished(&self) -> (r: bool)
        ensures
            r == self.spec_finished(),
    {
        match self.phase {
            Phase::Done => true,
            Phase::Aborted => true,
            _ => false,
        }
    }

    /// Whether a fatal outcome ended the run early. Distinguishes "ran to
    /// completion with perhaps some per-item failures" from "aborted
    /// mid-way".
    pub fn is_aborted(&self) -> (r: bool)
        ensures
            r == (self.phase is Aborted),
    {
        match self.phase {
            Phase::Aborted => true,
            _ => false,
        }
    }
}

/// Once a run stands in the character half of the protocol, no event
/// leads it back: together with `CopyJob::new` and the scope clause of
/// `next_action`, a run whose source and destination account coincide
/// never touches an account-scope file.
pub proof fn lemma_character_phase_stable(j: CopyJob, e: Event)
    requires
        j.in_character_phase(),
    ensures
        phase_in_character(spec_step(j, e).phase),
{
}

/// When the destination saved-variables directory is found missing, the
/// engine first announces it on the transcript, then has the directory
/// created with all missing ancestors, and then moves on to listing the
/// source saved variables for copying.
pub proof fn lemma_missing_sv_dir_created(j: CopyJob)
    requires
        j.phase == Phase::CharProbe,
    ensures
        spec_step(j, Event::Probed(Ok(false))).phase == Phase::CharCreate,
        spec_step(j, Event::Probed(Ok(false))).log == j.log.deep_view().push(
            creating_line(path_display(j.install_dir@, j.dst_character_sv_dir())),
        ),
        spec_step(CopyJob { phase: Phase::CharCreate, ..j }, Event::Created(Ok(()))).phase
            == Phase::CharList,
{
}

/// The course of a run does not depend on how a single file copy or cache
/// removal went: success and failure lead to the same phase with the same
/// pending list and transcripts of the same length; only the recorded
/// outcome text differs. Repeating a run over the same events therefore
/// requests the same actions throughout.
pub proof fn lemma_outcome_blind_course(
    j: CopyJob,
    r1: Result<(), String>,
    r2: Result<(), String>,
)
    ensures
        spec_step(j, Event::Copied(r1)).phase == spec_step(j, Event::Copied(r2)).phase,
        spec_step(j, Event::Copied(r1)).pending == spec_step(j, Event::Copied(r2)).pending,
        spec_step(j, Event::Copied(r1)).log.len() == spec_step(j, Event::Copied(r2)).log.len(),
        spec_step(j, Event::Removed(r1)).phase == spec_step(j, Event::Removed(r2)).phase,
        spec_step(j, Event::Removed(r1)).pending == spec_step(j, Event::Removed(r2)).pending,
        spec_step(j, Event::Removed(r1)).log.len() == spec_step(j, Event::Removed(r2)).log.len(),
{
}

} // verus!
