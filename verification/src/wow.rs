//! The installation scanner: reduces a snapshot of an installation
//! directory to a validated, sorted hierarchy of versions and profiles.
//!
//! The hierarchy on disk is `<root>/<version>/WTF/Account/<account>/<realm>/
//! <character>`, where a version folder is any directory whose name starts
//! and ends with `_`, and directories named `SavedVariables` are reserved
//! siblings rather than accounts or realms.

use vstd::prelude::*;
use vstd::multiset::Multiset;
use vstd::relations::{sorted_by, total_ordering};
use vstd::seq_lib::lemma_sorted_unique;
use crate::classify::{
    is_reserved_name,
    is_version_folder,
    spec_is_version_folder_name,
    spec_reserved_name,
};
use crate::fstree::{FsTree, has_child, has_child_dir, lemma_child_index, the_child, tree_wf};
use crate::order::{
    lemma_lex_le_antisym,
    lemma_lex_le_connected,
    lemma_lex_le_refl,
    lemma_lex_le_trans,
    lex_le,
    str_le,
};

verus! {

/// A discovered installation: the chosen root directory and every game
/// version found beneath it, in the order the root listed them.
pub struct Install {
    pub install_dir: String,
    pub versions: Vec<Version>,
}

/// One game-client version folder and the profiles found inside it, sorted
/// by account, realm and character name.
pub struct Version {
    pub name: String,
    pub wtfs: Vec<Wtf>,
}

/// One character profile: the (account, realm, character) triple that
/// identifies it within a version, and whether the character has its own
/// saved-variables directory (a profile without one may be a copy
/// destination but is not offered as a copy source).
#[derive(Debug, PartialEq, Eq)]
pub struct Wtf {
    pub account: String,
    pub realm: String,
    pub character: String,
    pub has_saved_variables: bool,
}

/// Mathematical image of a `Wtf`.
pub struct WtfView {
    pub account: Seq<char>,
    pub realm: Seq<char>,
    pub character: Seq<char>,
    pub has_saved_variables: bool,
}

/// Mathematical image of a `Version`.
pub struct VersionView {
    pub name: Seq<char>,
    pub profiles: Seq<WtfView>,
}

/// Mathematical image of an `Install`.
pub struct InstallView {
    pub install_dir: Seq<char>,
    pub versions: Seq<VersionView>,
}

impl View for Wtf {
    type V = WtfView;

    open spec fn view(&self) -> WtfView {
        WtfView {
            account: self.account@,
            realm: self.realm@,
            character: self.character@,
            has_saved_variables: self.has_saved_variables,
        }
    }
}

impl View for Version {
    type V = VersionView;

    open spec fn view(&self) -> VersionView {
        VersionView { name: self.name@, profiles: wtf_views(self.wtfs@) }
    }
}

impl View for Install {
    type V = InstallView;

    open spec fn view(&self) -> InstallView {
        InstallView { install_dir: self.install_dir@, versions: version_views(self.versions@) }
    }
}

/// The images of a sequence of profiles.
pub open spec fn wtf_views(s: Seq<Wtf>) -> Seq<WtfView> {
    s.map_values(|w: Wtf| w@)
}

/// The total order on profiles: lexicographic on (account, realm,
/// character), with the saved-variables flag as a final tie breaker so that
/// the relation is antisymmetric on whole profile values.
pub open spec fn wtf_le(a: WtfView, b: WtfView) -> bool {
    if a.account != b.account {
        lex_le(a.account, b.account)
    } else if a.realm != b.realm {
        lex_le(a.realm, b.realm)
    } else if a.character != b.character {
        lex_le(a.character, b.character)
    } else {
        !a.has_saved_variables || b.has_saved_variables
    }
}

/// The profile order as a relation value, for use with sequence sorting.
pub open spec fn wtf_order() -> spec_fn(WtfView, WtfView) -> bool {
    |a: WtfView, b: WtfView| wtf_le(a, b)
}

/// The profile order is a total order.
pub proof fn lemma_wtf_order_total()
    ensures
        total_ordering(wtf_order()),
{
    let r = wtf_order();
    assert forall|x: WtfView| #[trigger] r(x, x) by {
        lemma_lex_le_refl(x.account);
    }
    assert forall|x: WtfView, y: WtfView| #[trigger] r(x, y) && #[trigger] r(y, x) implies x
        == y by {
        if x.account != y.account {
            lemma_lex_le_antisym(x.account, y.account);
        } else if x.realm != y.realm {
            lemma_lex_le_antisym(x.realm, y.realm);
        } else if x.character != y.character {
            lemma_lex_le_antisym(x.character, y.character);
        }
    }
    assert forall|x: WtfView, y: WtfView, z: WtfView|
        #[trigger] r(x, y) && #[trigger] r(y, z) implies r(x, z) by {
        if x.account != y.account || y.account != z.account {
            lemma_lex_le_refl(x.account);
            lemma_lex_le_refl(y.account);
            lemma_lex_le_trans(x.account, y.account, z.account);
            if x.account == z.account {
                lemma_lex_le_antisym(x.account, y.account);
            }
        }
        if x.account == z.account && x.account == y.account {
            if x.realm != y.realm || y.realm != z.realm {
                lemma_lex_le_refl(x.realm);
                lemma_lex_le_refl(y.realm);
                lemma_lex_le_trans(x.realm, y.realm, z.realm);
                if x.realm == z.realm {
                    lemma_lex_le_antisym(x.realm, y.realm);
                }
            }
            if x.realm == z.realm && x.realm == y.realm {
                lemma_lex_le_refl(x.character);
                lemma_lex_le_refl(y.character);
                lemma_lex_le_trans(x.character, y.character, z.character);
                if x.character == z.character && x.character != y.character {
                    lemma_lex_le_antisym(x.character, y.character);
                }
            }
        }
    }
    assert forall|x: WtfView, y: WtfView| #[trigger] r(x, y) || #[trigger] r(y, x) by {
        lemma_lex_le_connected(x.account, y.account);
        lemma_lex_le_connected(x.realm, y.realm);
        lemma_lex_le_connected(x.character, y.character);
    }
}

/// Executable comparison of two profiles under the profile order.
pub fn wtf_le_exec(a: &Wtf, b: &Wtf) -> (r: bool)
    ensures
        r == wtf_le(a@, b@),
{
    if !a.account.eq(&b.account) {
        str_le(a.account.as_str(), b.account.as_str())
    } else if !a.realm.eq(&b.realm) {
        str_le(a.realm.as_str(), b.realm.as_str())
    } else if !a.character.eq(&b.character) {
        str_le(a.character.as_str(), b.character.as_str())
    } else {
        !a.has_saved_variables || b.has_saved_variables
    }
}

/// How enumerating one version folder's profile hierarchy can end: the
/// `WTF/Account` directory may be absent (the folder is residue of an old
/// install and is skipped), a directory that should be listable may not be
/// (fatal to the scan), or every profile is found.
pub enum VersionScan {
    Skip,
    Fail,
    Found { profiles: Seq<WtfView> },
}

/// The profile a character directory yields, under a given account and
/// realm name.
pub open spec fn spec_profile_of(acct: Seq<char>, realm: Seq<char>, ch: FsTree) -> WtfView {
    WtfView {
        account: acct,
        realm: realm,
        character: ch.name@,
        has_saved_variables: has_child_dir(ch, spec_reserved_name()),
    }
}

/// The profiles contributed by the children of one realm directory: one per
/// child directory, in listing order.
pub open spec fn spec_realm_profiles(acct: Seq<char>, realm: Seq<char>, cs: Seq<FsTree>) -> Seq<
    WtfView,
>
    decreases cs.len(),
{
    if cs.len() == 0 {
        Seq::empty()
    } else {
        let rest = spec_realm_profiles(acct, realm, cs.drop_first());
        if cs[0].is_dir {
            seq![spec_profile_of(acct, realm, cs[0])] + rest
        } else {
            rest
        }
    }
}

/// The profiles contributed by the children of one account directory.
/// Every child directory not named `SavedVariables` is a realm; a realm
/// whose listing failed is fatal.
pub open spec fn spec_account_profiles(acct: Seq<char>, cs: Seq<FsTree>) -> VersionScan
    decreases cs.len(),
{
    if cs.len() == 0 {
        VersionScan::Found { profiles: Seq::empty() }
    } else {
        let e = cs[0];
        let rest = spec_account_profiles(acct, cs.drop_first());
        if e.is_dir && e.name@ != spec_reserved_name() {
            if !e.readable {
                VersionScan::Fail
            } else if rest is Found {
                VersionScan::Found {
                    profiles: spec_realm_profiles(acct, e.name@, e.children@) + rest->profiles,
                }
            } else {
                VersionScan::Fail
            }
        } else {
            rest
        }
    }
}

/// The profiles contributed by the children of a `WTF/Account` directory.
/// Every child directory not named `SavedVariables` is an account; an
/// account whose listing failed is fatal.
pub open spec fn spec_accounts(cs: Seq<FsTree>) -> VersionScan
    decreases cs.len(),
{
    if cs.len() == 0 {
        VersionScan::Found { profiles: Seq::empty() }
    } else {
        let e = cs[0];
        let rest = spec_accounts(cs.drop_first());
        if e.is_dir && e.name@ != spec_reserved_name() {
            if !e.readable {
                VersionScan::Fail
            } else {
                let own = spec_account_profiles(e.name@, e.children@);
                if own is Found && rest is Found {
                    VersionScan::Found { profiles: own->profiles + rest->profiles }
                } else {
                    VersionScan::Fail
                }
            }
        } else {
            rest
        }
    }
}

/// Enumerating one version folder: resolve `WTF/Account` beneath it, then
/// collect accounts, realms and characters. A missing `WTF` or `Account`
/// entry skips the version; an entry that is not a directory, or a
/// directory whose listing failed, is fatal.
pub open spec fn spec_version_scan(v: FsTree) -> VersionScan {
    if !v.readable {
        VersionScan::Fail
    } else if !has_child(v.children@, "WTF"@) {
        VersionScan::Skip
    } else {
        let wtf = the_child(v.children@, "WTF"@);
        if !wtf.is_dir {
            VersionScan::Fail
        } else if !wtf.readable {
            VersionScan::Fail
        } else if !has_child(wtf.children@, "Account"@) {
            VersionScan::Skip
        } else {
            let acc = the_child(wtf.children@, "Account"@);
            if !acc.is_dir {
                VersionScan::Fail
            } else if !acc.readable {
                VersionScan::Fail
            } else {
                spec_accounts(acc.children@)
            }
        }
    }
}

/// How a scan can fail.
#[derive(Clone, Copy, Debug, PartialEq, Eq, Structural)]
pub enum ScanError {
    /// The installation root itself could not be listed (missing, not a
    /// directory, or unreadable).
    RootUnreadable,
    /// The root was listed but holds no usable version folder.
    NotAnInstallation,
    /// A version folder's profile hierarchy exists but a directory inside
    /// it could not be listed.
    VersionUnreadable,
}

/// The versions a scan of the root's children yields: each version folder
/// with a usable profile hierarchy, its profiles sorted; `None` when a
/// fatal listing failure aborts the scan.
pub open spec fn spec_versions(cs: Seq<FsTree>) -> Option<Seq<VersionView>>
    decreases cs.len(),
{
    if cs.len() == 0 {
        Some(Seq::empty())
    } else {
        let e = cs[0];
        let rest = spec_versions(cs.drop_first());
        if e.is_dir && spec_is_version_folder_name(e.name@) {
            match spec_version_scan(e) {
                VersionScan::Skip => rest,
                VersionScan::Fail => None,
                VersionScan::Found { profiles } => match rest {
                    Some(vs) => Some(
                        seq![
                            VersionView { name: e.name@, profiles: profiles.sort_by(wtf_order()) },
                        ] + vs,
                    ),
                    None => None,
                },
            }
        } else {
            rest
        }
    }
}

/// The images of a sequence of versions.
pub open spec fn version_views(s: Seq<Version>) -> Seq<VersionView> {
    s.map_values(|v: Version| v@)
}

/// The outcome of scanning a snapshot `root` of the directory `dir`: the
/// whole behaviour of `get_wow_install` as a function of its input.
pub open spec fn spec_scan(dir: Seq<char>, root: FsTree) -> Result<InstallView, ScanError> {
    if !root.is_dir || !root.readable {
        Err(ScanError::RootUnreadable)
    } else {
        match spec_versions(root.children@) {
            None => Err(ScanError::VersionUnreadable),
            Some(vs) => if vs.len() == 0 {
                Err(ScanError::NotAnInstallation)
            } else {
                Ok(InstallView { install_dir: dir, versions: vs })
            },
        }
    }
}

/// Sorts a sequence of profiles into the profile order, by repeatedly
/// moving a least remaining profile to the output.
#[verifier::loop_isolation(false)]
pub fn sort_wtfs(v: &mut Vec<Wtf>)
    ensures
        wtf_views(final(v)@) == wtf_views(old(v)@).sort_by(wtf_order()),
{
    broadcast use vstd::seq_lib::group_to_multiset_ensures;
    broadcast use vstd::multiset::group_multiset_axioms;

    let ghost orig: Seq<WtfView> = wtf_views(v@);
    proof {
        lemma_wtf_order_total();
    }
    let mut out: Vec<Wtf> = Vec::new();
    while v.len() > 0
        invariant
            sorted_by(wtf_views(out@), wtf_order()),
            wtf_views(out@).to_multiset().add(wtf_views(v@).to_multiset()) == orig.to_multiset(),
            forall|i: int, j: int|
                0 <= i < out@.len() && 0 <= j < v@.len() ==> wtf_le(
                    wtf_views(out@)[i],
                    wtf_views(v@)[j],
                ),
        decreases v@.len(),
    {
        let mut m: usize = 0;
        let mut j: usize = 1;
        while j < v.len()
            invariant
                m < j <= v@.len(),
                forall|k: int|
                    0 <= k < j ==> wtf_le(wtf_views(v@)[m as int], wtf_views(v@)[k]),
            decreases v@.len() - j,
        {
            let take = wtf_le_exec(&v[j], &v[m]);
            proof {
                let r = wtf_order();
                if take {
                    assert forall|k: int|
                        0 <= k < j + 1 implies wtf_le(wtf_views(v@)[j as int], wtf_views(v@)[k]) by {
                        if k < j {
                            assert(r(wtf_views(v@)[j as int], wtf_views(v@)[m as int]));
                            assert(r(wtf_views(v@)[m as int], wtf_views(v@)[k]));
                        } else {
                            assert(r(wtf_views(v@)[j as int], wtf_views(v@)[j as int]));
                        }
                    }
                } else {
                    assert(r(wtf_views(v@)[j as int], wtf_views(v@)[m as int])
                        || r(wtf_views(v@)[m as int], wtf_views(v@)[j as int]));
                }
            }
            if take {
                m = j;
            }
            j += 1;
        }
        let ghost pre_v = v@;
        let ghost pre_out = out@;
        let w = v.remove(m);
        out.push(w);
        proof {
            assert(wtf_views(pre_v.remove(m as int)) =~= wtf_views(pre_v).remove(m as int));
            assert(wtf_views(pre_out.push(w)) =~= wtf_views(pre_out).push(w@));
            assert(w@ == wtf_views(pre_v)[m as int]);
            let ms_out = wtf_views(pre_out).to_multiset();
            let ms_v = wtf_views(pre_v).to_multiset();
            assert(wtf_views(v@).to_multiset() =~= ms_v.remove(w@));
            assert(wtf_views(out@).to_multiset() =~= ms_out.insert(w@));
            assert(ms_v.contains(w@));
            assert(ms_out.insert(w@).add(ms_v.remove(w@)) =~= ms_out.add(ms_v));
            // the new last element of `out` is bounded by every earlier one
            assert forall|i: int, j2: int|
                0 <= i < j2 < wtf_views(out@).len() implies wtf_le(
                wtf_views(out@)[i],
                wtf_views(out@)[j2],
            ) by {
                let r = wtf_order();
                if j2 == wtf_views(out@).len() - 1 {
                    assert(wtf_views(out@)[i] == wtf_views(pre_out)[i]);
                    assert(wtf_views(out@)[j2] == w@);
                    assert(wtf_le(wtf_views(pre_out)[i], wtf_views(pre_v)[m as int]));
                } else {
                    assert(wtf_views(out@)[i] == wtf_views(pre_out)[i]);
                    assert(wtf_views(out@)[j2] == wtf_views(pre_out)[j2]);
                    assert(r(wtf_views(pre_out)[i], wtf_views(pre_out)[j2]));
                }
            }
            // everything left in `v` still dominates everything in `out`
            assert forall|i: int, j2: int|
                0 <= i < out@.len() && 0 <= j2 < v@.len() implies wtf_le(
                wtf_views(out@)[i],
                wtf_views(v@)[j2],
            ) by {
                let r = wtf_order();
                let y = wtf_views(v@)[j2];
                let idx = if j2 < m as int {
                    j2
                } else {
                    j2 + 1
                };
                assert(y == wtf_views(pre_v)[idx]);
                if i < out@.len() - 1 {
                    assert(wtf_views(out@)[i] == wtf_views(pre_out)[i]);
                    assert(wtf_le(wtf_views(pre_out)[i], wtf_views(pre_v)[idx]));
                } else {
                    assert(wtf_views(out@)[i] == w@);
                    assert(wtf_le(wtf_views(pre_v)[m as int], wtf_views(pre_v)[idx]));
                }
            }
        }
    }
    proof {
        assert(wtf_views(v@).to_multiset() =~= Multiset::empty());
        assert(wtf_views(out@).to_multiset() =~= orig.to_multiset());
        orig.lemma_sort_by_ensures(wtf_order());
        lemma_sorted_unique(wtf_views(out@), orig.sort_by(wtf_order()), wtf_order());
    }
    *v = out;
}

/// Unfolds `spec_realm_profiles` one listed entry at a time.
proof fn lemma_realm_profiles_step(a: Seq<char>, r: Seq<char>, cs: Seq<FsTree>, i: int)
    requires
        0 <= i < cs.len(),
    ensures
        spec_realm_profiles(a, r, cs.skip(i)) == if cs[i].is_dir {
            seq![spec_profile_of(a, r, cs[i])] + spec_realm_profiles(a, r, cs.skip(i + 1))
        } else {
            spec_realm_profiles(a, r, cs.skip(i + 1))
        },
{
    assert(cs.skip(i)[0] == cs[i]);
    assert(cs.skip(i).drop_first() =~= cs.skip(i + 1));
}

/// Unfolds `spec_account_profiles` one listed entry at a time.
proof fn lemma_account_profiles_step(a: Seq<char>, cs: Seq<FsTree>, i: int)
    requires
        0 <= i < cs.len(),
    ensures
        spec_account_profiles(a, cs.skip(i)) == ({
            let e = cs[i];
            let rest = spec_account_profiles(a, cs.skip(i + 1));
            if e.is_dir && e.name@ != spec_reserved_name() {
                if !e.readable {
                    VersionScan::Fail
                } else if rest is Found {
                    VersionScan::Found {
                        profiles: spec_realm_profiles(a, e.name@, e.children@) + rest->profiles,
                    }
                } else {
                    VersionScan::Fail
                }
            } else {
                rest
            }
        }),
{
    assert(cs.skip(i)[0] == cs[i]);
    assert(cs.skip(i).drop_first() =~= cs.skip(i + 1));
}

/// Unfolds `spec_accounts` one listed entry at a time.
proof fn lemma_accounts_step(cs: Seq<FsTree>, i: int)
    requires
        0 <= i < cs.len(),
    ensures
        spec_accounts(cs.skip(i)) == ({
            let e = cs[i];
            let rest = spec_accounts(cs.skip(i + 1));
            if e.is_dir && e.name@ != spec_reserved_name() {
                if !e.readable {
                    VersionScan::Fail
                } else {
                    let own = spec_account_profiles(e.name@, e.children@);
                    if own is Found && rest is Found {
                        VersionScan::Found { profiles: own->profiles + rest->profiles }
                    } else {
                        VersionScan::Fail
                    }
                }
            } else {
                rest
            }
        }),
{
    assert(cs.skip(i)[0] == cs[i]);
    assert(cs.skip(i).drop_first() =~= cs.skip(i + 1));
}

/// Unfolds `spec_versions` one listed entry at a time.
proof fn lemma_versions_step(cs: Seq<FsTree>, i: int)
    requires
        0 <= i < cs.len(),
    ensures
        spec_versions(cs.skip(i)) == ({
            let e = cs[i];
            let rest = spec_versions(cs.skip(i + 1));
            if e.is_dir && spec_is_version_folder_name(e.name@) {
                match spec_version_scan(e) {
                    VersionScan::Skip => rest,
                    VersionScan::Fail => None,
                    VersionScan::Found { profiles } => match rest {
                        Some(vs) => Some(
                            seq![
                                VersionView {
                                    name: e.name@,
                                    profiles: profiles.sort_by(wtf_order()),
                                },
                            ] + vs,
                        ),
                        None => None,
                    },
                }
            } else {
                rest
            }
        }),
{
    assert(cs.skip(i)[0] == cs[i]);
    assert(cs.skip(i).drop_first() =~= cs.skip(i + 1));
}

/// Appends to `out` one profile per child directory of a realm.
#[verifier::loop_isolation(false)]
fn collect_realm(acct: &String, realm: &FsTree, out: &mut Vec<Wtf>)
    ensures
        wtf_views(final(out)@) == wtf_views(old(out)@) + spec_realm_profiles(
            acct@,
            realm.name@,
            realm.children@,
        ),
{
    let ghost cs = realm.children@;
    proof {
        assert(cs.skip(0) =~= cs);
    }
    let n = realm.children.len();
    let mut i: usize = 0;
    while i < n
        invariant
            i <= n,
            wtf_views(out@) + spec_realm_profiles(acct@, realm.name@, cs.skip(i as int))
                == wtf_views(old(out)@) + spec_realm_profiles(acct@, realm.name@, cs),
        decreases n - i,
    {
        let ghost pre_out = out@;
        let ch = &realm.children[i];
        if ch.is_dir {
            let has_sv = ch.has_child_dir("SavedVariables");
            let w = Wtf {
                account: acct.clone(),
                realm: realm.name.clone(),
                character: ch.name.clone(),
                has_saved_variables: has_sv,
            };
            proof {
                assert("SavedVariables"@ == spec_reserved_name());
                assert(w@ == spec_profile_of(acct@, realm.name@, cs[i as int]));
            }
            out.push(w);
            proof {
                assert(wtf_views(pre_out.push(w)) =~= wtf_views(pre_out).push(w@));
            }
        }
        proof {
            lemma_realm_profiles_step(acct@, realm.name@, cs, i as int);
            assert(wtf_views(out@) + spec_realm_profiles(acct@, realm.name@, cs.skip(i + 1))
                =~= wtf_views(pre_out) + spec_realm_profiles(acct@, realm.name@, cs.skip(i as int)));
        }
        i += 1;
    }
    proof {
        assert(spec_realm_profiles(acct@, realm.name@, cs.skip(n as int)) =~= Seq::<
            WtfView,
        >::empty());
        assert(wtf_views(out@) =~= wtf_views(out@) + Seq::<WtfView>::empty());
        assert(wtf_views(old(out)@) + spec_realm_profiles(acct@, realm.name@, cs) =~= wtf_views(
            old(out)@,
        ) + spec_realm_profiles(acct@, realm.name@, cs));
    }
}

/// Appends to `out` every profile found under one account directory.
/// Returns `false` when a realm listing failed, which is fatal.
#[verifier::loop_isolation(false)]
fn collect_account(acct: &FsTree, out: &mut Vec<Wtf>) -> (ok: bool)
    ensures
        ok ==> spec_account_profiles(acct.name@, acct.children@) is Found && wtf_views(final(out)@)
            == wtf_views(old(out)@) + spec_account_profiles(
            acct.name@,
            acct.children@,
        )->profiles,
        !ok ==> spec_account_profiles(acct.name@, acct.children@) is Fail,
{
    let ghost cs = acct.children@;
    proof {
        assert(cs.skip(0) =~= cs);
    }
    let n = acct.children.len();
    let mut i: usize = 0;
    while i < n
        invariant
            i <= n,
            spec_account_profiles(acct.name@, cs.skip(i as int)) is Found
                ==> spec_account_profiles(acct.name@, cs) is Found && wtf_views(out@)
                + spec_account_profiles(acct.name@, cs.skip(i as int))->profiles == wtf_views(
                old(out)@,
            ) + spec_account_profiles(acct.name@, cs)->profiles,
            spec_account_profiles(acct.name@, cs.skip(i as int)) is Fail
                ==> spec_account_profiles(acct.name@, cs) is Fail,
        decreases n - i,
    {
        let ghost pre_out = out@;
        let e = &acct.children[i];
        proof {
            lemma_account_profiles_step(acct.name@, cs, i as int);
        }
        if e.is_dir && !is_reserved_name(e.name.as_str()) {
            if !e.readable {
                return false;
            }
            collect_realm(&acct.name, e, out);
            proof {
                let rest = spec_account_profiles(acct.name@, cs.skip(i + 1));
                if rest is Found {
                    assert(wtf_views(out@) + rest->profiles =~= wtf_views(pre_out) + (
                    spec_realm_profiles(acct.name@, e.name@, e.children@) + rest->profiles));
                }
            }
        }
        i += 1;
    }
    proof {
        assert(spec_account_profiles(acct.name@, cs.skip(n as int))
            == VersionScan::Found { profiles: Seq::<WtfView>::empty() });
        assert(wtf_views(out@) + Seq::<WtfView>::empty() =~= wtf_views(out@));
    }
    true
}

/// Appends to `out` every profile found under a version's `WTF/Account`
/// directory. Returns `false` when an account or realm listing failed.
#[verifier::loop_isolation(false)]
fn collect_accounts(account_dir: &FsTree, out: &mut Vec<Wtf>) -> (ok: bool)
    ensures
        ok ==> spec_accounts(account_dir.children@) is Found && wtf_views(final(out)@)
            == wtf_views(old(out)@) + spec_accounts(account_dir.children@)->profiles,
        !ok ==> spec_accounts(account_dir.children@) is Fail,
{
    let ghost cs = account_dir.children@;
    proof {
        assert(cs.skip(0) =~= cs);
    }
    let n = account_dir.children.len();
    let mut i: usize = 0;
    while i < n
        invariant
            i <= n,
            spec_accounts(cs.skip(i as int)) is Found ==> spec_accounts(cs) is Found && wtf_views(
                out@,
            ) + spec_accounts(cs.skip(i as int))->profiles == wtf_views(old(out)@) + spec_accounts(
                cs,
            )->profiles,
            spec_accounts(cs.skip(i as int)) is Fail ==> spec_accounts(cs) is Fail,
        decreases n - i,
    {
        let ghost pre_out = out@;
        let e = &account_dir.children[i];
        proof {
            lemma_accounts_step(cs, i as int);
        }
        if e.is_dir && !is_reserved_name(e.name.as_str()) {
            if !e.readable {
                return false;
            }
            let ok = collect_account(e, out);
            if !ok {
                return false;
            }
            proof {
                let rest = spec_accounts(cs.skip(i + 1));
                if rest is Found {
                    assert(wtf_views(out@) + rest->profiles =~= wtf_views(pre_out) + (
                    spec_account_profiles(e.name@, e.children@)->profiles + rest->profiles));
                }
            }
        }
        i += 1;
    }
    proof {
        assert(spec_accounts(cs.skip(n as int)) == VersionScan::Found {
            profiles: Seq::<WtfView>::empty(),
        });
        assert(wtf_views(out@) + Seq::<WtfView>::empty() =~= wtf_views(out@));
    }
    true
}

/// How enumerating one version folder can fail: its `WTF/Account`
/// directory is absent (the folder is residue of an old install), or a
/// directory that should be listable was not.
#[derive(Clone, Copy, Debug, PartialEq, Eq, Structural)]
pub enum VersionScanError {
    NotFound,
    Unreadable,
}

/// Reads a version folder's snapshot and lists the character
/// configurations present beneath its `WTF/Account` directory, sorted by
/// the profile order.
pub fn get_wtf_configurations(version: &FsTree) -> (r: Result<Vec<Wtf>, VersionScanError>)
    ensures
        r is Ok ==> spec_version_scan(*version) is Found && wtf_views(r->Ok_0@)
            == spec_version_scan(*version)->profiles.sort_by(wtf_order()),
        (r is Err && r->Err_0 == VersionScanError::NotFound) <==> spec_version_scan(*version)
            is Skip,
        (r is Err && r->Err_0 == VersionScanError::Unreadable) <==> spec_version_scan(*version)
            is Fail,
{
    if !version.readable {
        return Err(VersionScanError::Unreadable);
    }
    let wtf_dir = match version.find_child("WTF") {
        None => {
            return Err(VersionScanError::NotFound);
        },
        Some(d) => d,
    };
    if !wtf_dir.is_dir || !wtf_dir.readable {
        return Err(VersionScanError::Unreadable);
    }
    let account_dir = match wtf_dir.find_child("Account") {
        None => {
            return Err(VersionScanError::NotFound);
        },
        Some(d) => d,
    };
    if !account_dir.is_dir || !account_dir.readable {
        return Err(VersionScanError::Unreadable);
    }
    let mut wtfs: Vec<Wtf> = Vec::new();
    let ok = collect_accounts(account_dir, &mut wtfs);
    if !ok {
        return Err(VersionScanError::Unreadable);
    }
    sort_wtfs(&mut wtfs);
    Ok(wtfs)
}

/// Reads a snapshot of a chosen directory and finds information about the
/// game installation in it; errs when the directory does not appear to
/// contain one.
#[verifier::loop_isolation(false)]
pub fn get_wow_install(dir: String, root: &FsTree) -> (r: Result<Install, ScanError>)
    ensures
        match r {
            Ok(inst) => spec_scan(dir@, *root) is Ok && inst@ == spec_scan(dir@, *root)->Ok_0,
            Err(e) => spec_scan(dir@, *root) is Err && e == spec_scan(dir@, *root)->Err_0,
        },
{
    if !root.is_dir || !root.readable {
        return Err(ScanError::RootUnreadable);
    }
    let ghost cs = root.children@;
    proof {
        assert(cs.skip(0) =~= cs);
    }
    let n = root.children.len();
    let mut versions: Vec<Version> = Vec::new();
    let mut i: usize = 0;
    while i < n
        invariant
            i <= n,
            spec_versions(cs.skip(i as int)) matches Some(vs) ==> spec_versions(cs) matches Some(
                all,
            ) && all == version_views(versions@) + vs,
            spec_versions(cs.skip(i as int)) is None ==> spec_versions(cs) is None,
        decreases n - i,
    {
        let ghost pre = versions@;
        let e = &root.children[i];
        proof {
            lemma_versions_step(cs, i as int);
        }
        if is_version_folder(e.name.as_str(), e.is_dir) {
            match get_wtf_configurations(e) {
                Ok(wtfs) => {
                    let ver = Version { name: e.name.clone(), wtfs };
                    proof {
                        assert(version_views(pre.push(ver)) =~= version_views(pre).push(ver@));
                    }
                    versions.push(ver);
                    proof {
                        let rest = spec_versions(cs.skip(i + 1));
                        if rest is Some {
                            let vs = rest->Some_0;
                            assert(version_views(versions@) + vs =~= version_views(pre) + (
                            seq![ver@] + vs));
                        }
                    }
                },
                Err(VersionScanError::NotFound) => {
                },
                Err(VersionScanError::Unreadable) => {
                    return Err(ScanError::VersionUnreadable);
                },
            }
        }
        i += 1;
    }
    proof {
        assert(spec_versions(cs.skip(n as int)) == Some(Seq::<VersionView>::empty()));
        assert(version_views(versions@) + Seq::<VersionView>::empty() =~= version_views(
            versions@,
        ));
    }
    if versions.len() == 0 {
        return Err(ScanError::NotAnInstallation);
    }
    Ok(Install { install_dir: dir, versions })
}

/// A listing in which no entry is a version folder contributes no
/// versions.
proof fn lemma_versions_empty(cs: Seq<FsTree>)
    requires
        forall|k: int|
            0 <= k < cs.len() ==> !((#[trigger] cs[k]).is_dir && spec_is_version_folder_name(
                cs[k].name@,
            )),
    ensures
        spec_versions(cs) == Some(Seq::<VersionView>::empty()),
    decreases cs.len(),
{
    if cs.len() > 0 {
        let tail = cs.drop_first();
        assert forall|k: int| 0 <= k < tail.len() implies !((#[trigger] tail[k]).is_dir
            && spec_is_version_folder_name(tail[k].name@)) by {
            assert(tail[k] == cs[k + 1]);
        }
        lemma_versions_empty(tail);
    }
}

/// A directory tree containing no folder matching the version-folder name
/// pattern is refused as not being an installation.
pub proof fn lemma_no_version_folder_not_an_installation(dir: Seq<char>, root: FsTree)
    requires
        root.is_dir,
        root.readable,
        forall|k: int|
            0 <= k < root.children@.len() ==> !((#[trigger] root.children@[k]).is_dir
                && spec_is_version_folder_name(root.children@[k].name@)),
    ensures
        spec_scan(dir, root) == Err::<InstallView, ScanError>(ScanError::NotAnInstallation),
{
    lemma_versions_empty(root.children@);
}

/// A version folder whose profile hierarchy is absent (its `WTF/Account`
/// cannot be found) is silently left out: the scan of the whole listing is
/// the scan of the listing without it.
pub proof fn lemma_skipped_version_left_out(cs: Seq<FsTree>, k: int)
    requires
        0 <= k < cs.len(),
        spec_version_scan(cs[k]) is Skip,
    ensures
        spec_versions(cs) == spec_versions(cs.remove(k)),
    decreases cs.len(),
{
    if k == 0 {
        assert(cs.remove(0) =~= cs.drop_first());
    } else {
        assert(cs.remove(k)[0] == cs[0]);
        assert(cs.remove(k).drop_first() =~= cs.drop_first().remove(k - 1));
        assert(cs.drop_first()[k - 1] == cs[k]);
        lemma_skipped_version_left_out(cs.drop_first(), k - 1);
    }
}

/// Every version a scan accepts carries its profiles sorted by the
/// profile order.
proof fn lemma_versions_sorted(cs: Seq<FsTree>)
    ensures
        spec_versions(cs) matches Some(vs) ==> forall|k: int|
            0 <= k < vs.len() ==> sorted_by((#[trigger] vs[k]).profiles, wtf_order()),
    decreases cs.len(),
{
    if cs.len() > 0 {
        lemma_versions_sorted(cs.drop_first());
        let e = cs[0];
        if e.is_dir && spec_is_version_folder_name(e.name@) && spec_version_scan(e) is Found
            && spec_versions(cs.drop_first()) is Some {
            let ps = spec_version_scan(e)->profiles;
            lemma_wtf_order_total();
            ps.lemma_sort_by_ensures(wtf_order());
            let rest = spec_versions(cs.drop_first())->Some_0;
            let all = spec_versions(cs)->Some_0;
            assert forall|k: int| 0 <= k < all.len() implies sorted_by(
                (#[trigger] all[k]).profiles,
                wtf_order(),
            ) by {
                if k > 0 {
                    assert(all[k] == rest[k - 1]);
                }
            }
        }
    }
}

/// Whether two profiles bear the same identifying triple.
pub open spec fn same_triple(a: WtfView, b: WtfView) -> bool {
    a.account == b.account && a.realm == b.realm && a.character == b.character
}

/// No two profiles of the sequence share their identifying triple.
pub open spec fn triple_distinct(ps: Seq<WtfView>) -> bool {
    forall|i: int, j: int| 0 <= i < j < ps.len() ==> !same_triple(ps[i], ps[j])
}

/// Whether some entry of `cs` bears the name `n`.
pub open spec fn some_entry_named(cs: Seq<FsTree>, n: Seq<char>) -> bool {
    exists|k: int| 0 <= k < cs.len() && cs[k].name@ == n
}

/// Within one realm directory with distinct sibling names, the collected
/// profiles all carry that account and realm, their characters are child
/// names, and no two share a triple.
proof fn lemma_realm_profiles_distinct(acct: Seq<char>, realm: Seq<char>, cs: Seq<FsTree>)
    requires
        forall|i: int, j: int| 0 <= i < j < cs.len() ==> cs[i].name@ != cs[j].name@,
    ensures
        ({
            let ps = spec_realm_profiles(acct, realm, cs);
            &&& triple_distinct(ps)
            &&& forall|i: int|
                0 <= i < ps.len() ==> (#[trigger] ps[i]).account == acct && ps[i].realm == realm
            &&& forall|i: int|
                0 <= i < ps.len() ==> some_entry_named(cs, (#[trigger] ps[i]).character)
        }),
    decreases cs.len(),
{
    if cs.len() > 0 {
        let tail = cs.drop_first();
        assert forall|i: int, j: int| 0 <= i < j < tail.len() implies tail[i].name@
            != tail[j].name@ by {
            assert(tail[i] == cs[i + 1]);
            assert(tail[j] == cs[j + 1]);
        }
        lemma_realm_profiles_distinct(acct, realm, tail);
        let rest = spec_realm_profiles(acct, realm, tail);
        assert forall|i: int|
            0 <= i < rest.len() && some_entry_named(tail, rest[i].character) implies some_entry_named(
            cs,
            rest[i].character,
        ) && rest[i].character != cs[0].name@ by {
            let k = choose|k: int| 0 <= k < tail.len() && tail[k].name@ == rest[i].character;
            assert(cs[k + 1].name@ == rest[i].character);
        }
        let ps = spec_realm_profiles(acct, realm, cs);
        if cs[0].is_dir {
            assert(ps == seq![spec_profile_of(acct, realm, cs[0])] + rest);
            assert forall|i: int, j: int| 0 <= i < j < ps.len() implies !same_triple(
                ps[i],
                ps[j],
            ) by {
                assert(ps[j] == rest[j - 1]);
                if i > 0 {
                    assert(ps[i] == rest[i - 1]);
                }
            }
            assert forall|i: int| 0 <= i < ps.len() implies some_entry_named(
                cs,
                (#[trigger] ps[i]).character,
            ) by {
                if i == 0 {
                    assert(cs[0].name@ == ps[0].character);
                } else {
                    assert(ps[i] == rest[i - 1]);
                }
            }
        }
    }
}

/// Within one account directory whose realms are well-formed snapshots
/// with distinct names, the collected profiles all carry that account,
/// their realms are child names, and no two share a triple.
proof fn lemma_account_profiles_distinct(acct: Seq<char>, cs: Seq<FsTree>)
    requires
        forall|i: int, j: int| 0 <= i < j < cs.len() ==> cs[i].name@ != cs[j].name@,
        forall|i: int| 0 <= i < cs.len() ==> tree_wf(#[trigger] cs[i]),
    ensures
        spec_account_profiles(acct, cs) matches VersionScan::Found { profiles: ps } ==> {
            &&& triple_distinct(ps)
            &&& forall|i: int| 0 <= i < ps.len() ==> (#[trigger] ps[i]).account == acct
            &&& forall|i: int|
                0 <= i < ps.len() ==> some_entry_named(cs, (#[trigger] ps[i]).realm)
        },
    decreases cs.len(),
{
    if cs.len() > 0 {
        let tail = cs.drop_first();
        assert forall|i: int, j: int| 0 <= i < j < tail.len() implies tail[i].name@
            != tail[j].name@ by {
            assert(tail[i] == cs[i + 1]);
            assert(tail[j] == cs[j + 1]);
        }
        assert forall|i: int| 0 <= i < tail.len() implies tree_wf(#[trigger] tail[i]) by {
            assert(tail[i] == cs[i + 1]);
        }
        lemma_account_profiles_distinct(acct, tail);
        let e = cs[0];
        let rest = spec_account_profiles(acct, tail);
        if rest is Found {
            let qs = rest->profiles;
            assert forall|i: int|
                0 <= i < qs.len() && some_entry_named(tail, qs[i].realm) implies some_entry_named(
                cs,
                qs[i].realm,
            ) && qs[i].realm != e.name@ by {
                let k = choose|k: int| 0 <= k < tail.len() && tail[k].name@ == qs[i].realm;
                assert(cs[k + 1].name@ == qs[i].realm);
            }
        }
        if e.is_dir && e.name@ != spec_reserved_name() && e.readable && rest is Found {
            let own = spec_realm_profiles(acct, e.name@, e.children@);
            assert(tree_wf(e));
            lemma_realm_profiles_distinct(acct, e.name@, e.children@);
            let qs = rest->profiles;
            let ps = own + qs;
            assert(spec_account_profiles(acct, cs) == VersionScan::Found { profiles: ps });
            assert forall|i: int, j: int| 0 <= i < j < ps.len() implies !same_triple(
                ps[i],
                ps[j],
            ) by {
                if j >= own.len() {
                    assert(ps[j] == qs[j - own.len()]);
                    assert(some_entry_named(cs, ps[j].realm));
                    assert(ps[j].realm != e.name@);
                }
                if i >= own.len() {
                    assert(ps[i] == qs[i - own.len()]);
                } else {
                    assert(ps[i] == own[i]);
                    assert(ps[i].realm == e.name@);
                }
                if i < own.len() && j < own.len() {
                    assert(ps[j] == own[j]);
                }
            }
            assert forall|i: int| 0 <= i < ps.len() implies some_entry_named(
                cs,
                (#[trigger] ps[i]).realm,
            ) by {
                if i < own.len() {
                    assert(ps[i] == own[i]);
                    assert(cs[0].name@ == ps[i].realm);
                } else {
                    assert(ps[i] == qs[i - own.len()]);
                }
            }
        }
    }
}

/// Within one `WTF/Account` directory of a well-formed snapshot, the
/// collected profiles' accounts are child names and no two profiles share
/// a triple.
proof fn lemma_accounts_distinct(cs: Seq<FsTree>)
    requires
        forall|i: int, j: int| 0 <= i < j < cs.len() ==> cs[i].name@ != cs[j].name@,
        forall|i: int| 0 <= i < cs.len() ==> tree_wf(#[trigger] cs[i]),
    ensures
        spec_accounts(cs) matches VersionScan::Found { profiles: ps } ==> {
            &&& triple_distinct(ps)
            &&& forall|i: int|
                0 <= i < ps.len() ==> some_entry_named(cs, (#[trigger] ps[i]).account)
        },
    decreases cs.len(),
{
    if cs.len() > 0 {
        let tail = cs.drop_first();
        assert forall|i: int, j: int| 0 <= i < j < tail.len() implies tail[i].name@
            != tail[j].name@ by {
            assert(tail[i] == cs[i + 1]);
            assert(tail[j] == cs[j + 1]);
        }
        assert forall|i: int| 0 <= i < tail.len() implies tree_wf(#[trigger] tail[i]) by {
            assert(tail[i] == cs[i + 1]);
        }
        lemma_accounts_distinct(tail);
        let e = cs[0];
        let rest = spec_accounts(tail);
        if rest is Found {
            let qs = rest->profiles;
            assert forall|i: int|
                0 <= i < qs.len() && some_entry_named(tail, qs[i].account) implies some_entry_named(
                cs,
                qs[i].account,
            ) && qs[i].account != e.name@ by {
                let k = choose|k: int| 0 <= k < tail.len() && tail[k].name@ == qs[i].account;
                assert(cs[k + 1].name@ == qs[i].account);
            }
        }
        if e.is_dir && e.name@ != spec_reserved_name() && e.readable {
            let own_scan = spec_account_profiles(e.name@, e.children@);
            assert(tree_wf(e));
            lemma_account_profiles_distinct(e.name@, e.children@);
            if own_scan is Found && rest is Found {
                let own = own_scan->profiles;
                let qs = rest->profiles;
                let ps = own + qs;
                assert(spec_accounts(cs) == VersionScan::Found { profiles: ps });
                assert forall|i: int, j: int| 0 <= i < j < ps.len() implies !same_triple(
                    ps[i],
                    ps[j],
                ) by {
                    if j >= own.len() {
                        assert(ps[j] == qs[j - own.len()]);
                        assert(ps[j].account != e.name@);
                    }
                    if i >= own.len() {
                        assert(ps[i] == qs[i - own.len()]);
                    } else {
                        assert(ps[i] == own[i]);
                        assert(ps[i].account == e.name@);
                    }
                    if i < own.len() && j < own.len() {
                        assert(ps[j] == own[j]);
                    }
                }
                assert forall|i: int| 0 <= i < ps.len() implies some_entry_named(
                    cs,
                    (#[trigger] ps[i]).account,
                ) by {
                    if i < own.len() {
                        assert(ps[i] == own[i]);
                        assert(cs[0].name@ == ps[i].account);
                    } else {
                        assert(ps[i] == qs[i - own.len()]);
                    }
                }
            }
        }
    }
}

/// Triple-distinctness survives reordering: a permutation of a sequence
/// of pairwise triple-distinct profiles is itself triple-distinct.
proof fn lemma_triple_distinct_permutation(s1: Seq<WtfView>, s2: Seq<WtfView>)
    requires
        s1.to_multiset() == s2.to_multiset(),
        triple_distinct(s1),
    ensures
        triple_distinct(s2),
{
    broadcast use vstd::seq_lib::group_to_multiset_ensures;
    broadcast use vstd::multiset::group_multiset_axioms;

    assert forall|a: int, b: int|
        0 <= a < s1.len() && 0 <= b < s1.len() && a != b implies s1[a] != s1[b] by {
        if a < b {
            assert(!same_triple(s1[a], s1[b]));
        } else {
            assert(!same_triple(s1[b], s1[a]));
        }
    }
    assert(s1.no_duplicates());
    s1.lemma_multiset_has_no_duplicates();
    s2.lemma_multiset_has_no_duplicates_conv();
    assert(s2.no_duplicates());
    assert forall|i: int, j: int| 0 <= i < j < s2.len() implies !same_triple(s2[i], s2[j]) by {
        if same_triple(s2[i], s2[j]) {
            let x = s2[i];
            let y = s2[j];
            assert(x != y);
            assert(s2.contains(x));
            assert(s2.contains(y));
            assert(s2.to_multiset().count(x) > 0);
            assert(s2.to_multiset().count(y) > 0);
            assert(s1.to_multiset().count(x) > 0);
            assert(s1.to_multiset().count(y) > 0);
            assert(s1.contains(x));
            assert(s1.contains(y));
            let ix = choose|k: int| 0 <= k < s1.len() && s1[k] == x;
            let iy = choose|k: int| 0 <= k < s1.len() && s1[k] == y;
            assert(ix != iy);
            if ix < iy {
                assert(!same_triple(s1[ix], s1[iy]));
            } else {
                assert(!same_triple(s1[iy], s1[ix]));
            }
            assert(false);
        }
    }
}

/// In a well-formed snapshot, the profiles a version folder yields are
/// duplicate-free: no two share their (account, realm, character) triple,
/// before and after sorting.
pub proof fn lemma_version_profiles_distinct(v: FsTree)
    requires
        tree_wf(v),
        spec_version_scan(v) is Found,
    ensures
        triple_distinct(spec_version_scan(v)->profiles),
        triple_distinct(spec_version_scan(v)->profiles.sort_by(wtf_order())),
{
    let wtf = the_child(v.children@, "WTF"@);
    let acc = the_child(wtf.children@, "Account"@);
    lemma_child_index(v.children@, "WTF"@);
    lemma_child_index(wtf.children@, "Account"@);
    assert(tree_wf(wtf));
    assert(tree_wf(acc));
    assert forall|i: int, j: int| 0 <= i < j < acc.children@.len() implies acc.children@[i].name@
        != acc.children@[j].name@ by {}
    lemma_accounts_distinct(acc.children@);
    let ps = spec_version_scan(v)->profiles;
    lemma_wtf_order_total();
    ps.lemma_sort_by_ensures(wtf_order());
    lemma_triple_distinct_permutation(ps, ps.sort_by(wtf_order()));
}

/// Every version a scan of a well-formed snapshot accepts carries
/// duplicate-free profiles.
proof fn lemma_versions_distinct(cs: Seq<FsTree>)
    requires
        forall|k: int| 0 <= k < cs.len() ==> tree_wf(#[trigger] cs[k]),
    ensures
        spec_versions(cs) matches Some(vs) ==> forall|k: int|
            0 <= k < vs.len() ==> triple_distinct((#[trigger] vs[k]).profiles),
    decreases cs.len(),
{
    if cs.len() > 0 {
        let tail = cs.drop_first();
        assert forall|k: int| 0 <= k < tail.len() implies tree_wf(#[trigger] tail[k]) by {
            assert(tail[k] == cs[k + 1]);
        }
        lemma_versions_distinct(tail);
        let e = cs[0];
        if e.is_dir && spec_is_version_folder_name(e.name@) && spec_version_scan(e) is Found
            && spec_versions(tail) is Some {
            lemma_version_profiles_distinct(e);
            let rest = spec_versions(tail)->Some_0;
            let all = spec_versions(cs)->Some_0;
            assert forall|k: int| 0 <= k < all.len() implies triple_distinct(
                (#[trigger] all[k]).profiles,
            ) by {
                if k > 0 {
                    assert(all[k] == rest[k - 1]);
                }
            }
        }
    }
}

/// On success over a well-formed snapshot, no two profiles of one version
/// share their (account, realm, character) triple: sibling directory
/// names are unique, so the hierarchy yields each triple at most once.
pub proof fn lemma_scan_profiles_duplicate_free(dir: Seq<char>, root: FsTree)
    requires
        tree_wf(root),
        spec_scan(dir, root) is Ok,
    ensures
        forall|k: int|
            0 <= k < spec_scan(dir, root)->Ok_0.versions.len() ==> triple_distinct(
                (#[trigger] spec_scan(dir, root)->Ok_0.versions[k]).profiles,
            ),
{
    lemma_versions_distinct(root.children@);
}

/// On success, every version of the returned installation has its
/// profiles sorted: `profiles[i] <= profiles[i + 1]` under the (account,
/// realm, character) order.
pub proof fn lemma_scan_profiles_sorted(dir: Seq<char>, root: FsTree)
    requires
        spec_scan(dir, root) is Ok,
    ensures
        forall|k: int|
            0 <= k < spec_scan(dir, root)->Ok_0.versions.len() ==> sorted_by(
                (#[trigger] spec_scan(dir, root)->Ok_0.versions[k]).profiles,
                wtf_order(),
            ),
{
    lemma_versions_sorted(root.children@);
}

} // verus!
