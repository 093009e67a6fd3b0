//! What the presentation layer shows for the library's values: version
//! display names, profile labels, the source-selection filter, and the
//! font files the interface bundles.

use vstd::prelude::*;
use crate::classify::str_eq;
use crate::wow::{Version, Wtf, WtfView, wtf_views};

verus! {

/// The display name of a version folder: a fixed lookup over the known
/// folder names, falling back to the raw folder name.
pub open spec fn spec_display_name(name: Seq<char>) -> Seq<char> {
    if name == "_retail_"@ {
        "Retail"@
    } else if name == "_ptr_"@ {
        "Retail PTR"@
    } else if name == "_classic_"@ {
        "Classic"@
    } else if name == "_classic_era_"@ {
        "Classic Era"@
    } else if name == "_classic_ptr_"@ {
        "Classic PTR"@
    } else {
        name
    }
}

/// The label a profile is shown under: `<character> - <realm>`.
pub open spec fn spec_label(w: WtfView) -> Seq<char> {
    w.character + " - "@ + w.realm
}

/// The profiles of a version that a selection list offers: for a source
/// list, only profiles that have saved variables to copy; for a
/// destination list, all of them.
pub open spec fn spec_selectable(ps: Seq<WtfView>, is_source: bool) -> Seq<WtfView>
    decreases ps.len(),
{
    if ps.len() == 0 {
        Seq::empty()
    } else {
        let rest = spec_selectable(ps.drop_first(), is_source);
        if !is_source || ps[0].has_saved_variables {
            seq![ps[0]] + rest
        } else {
            rest
        }
    }
}

/// Unfolds `spec_selectable` one profile at a time.
proof fn lemma_selectable_step(ps: Seq<WtfView>, is_source: bool, i: int)
    requires
        0 <= i < ps.len(),
    ensures
        spec_selectable(ps.skip(i), is_source) == if !is_source || ps[i].has_saved_variables {
            seq![ps[i]] + spec_selectable(ps.skip(i + 1), is_source)
        } else {
            spec_selectable(ps.skip(i + 1), is_source)
        },
{
    assert(ps.skip(i)[0] == ps[i]);
    assert(ps.skip(i).drop_first() =~= ps.skip(i + 1));
}

impl Clone for Wtf {
    /// An exact copy: every field of the clone equals the original's.
    fn clone(&self) -> (r: Wtf)
        ensures
            r == *self,
    {
        Wtf {
            account: self.account.clone(),
            realm: self.realm.clone(),
            character: self.character.clone(),
            has_saved_variables: self.has_saved_variables,
        }
    }
}

impl Clone for Version {
    /// A copy whose name and profiles equal the original's.
    fn clone(&self) -> (r: Version)
        ensures
            r.name == self.name,
            r.wtfs@ == self.wtfs@,
            r@ == self@,
    {
        let mut wtfs: Vec<Wtf> = Vec::new();
        let n = self.wtfs.len();
        let mut i: usize = 0;
        while i < n
            invariant
                i <= n,
                n == self.wtfs@.len(),
                wtfs@ =~= self.wtfs@.take(i as int),
            decreases n - i,
        {
            wtfs.push(self.wtfs[i].clone());
            proof {
                assert(wtfs@ =~= self.wtfs@.take(i + 1));
            }
            i += 1;
        }
        proof {
            assert(self.wtfs@.take(n as int) =~= self.wtfs@);
        }
        Version { name: self.name.clone(), wtfs }
    }
}

impl Version {
    /// The name the version is displayed under.
    pub fn display_name(&self) -> (r: String)
        ensures
            r@ == spec_display_name(self.name@),
    {
        let n = self.name.as_str();
        if str_eq(n, "_retail_") {
            String::from_str("Retail")
        } else if str_eq(n, "_ptr_") {
            String::from_str("Retail PTR")
        } else if str_eq(n, "_classic_") {
            String::from_str("Classic")
        } else if str_eq(n, "_classic_era_") {
            String::from_str("Classic Era")
        } else if str_eq(n, "_classic_ptr_") {
            String::from_str("Classic PTR")
        } else {
            self.name.clone()
        }
    }

    /// The profiles offered for selection. A profile without saved
    /// variables cannot serve as a copy source and is left out of source
    /// lists; every profile may be a destination.
    #[verifier::loop_isolation(false)]
    pub fn selectable_wtfs(&self, is_source: bool) -> (r: Vec<Wtf>)
        ensures
            wtf_views(r@) == spec_selectable(wtf_views(self.wtfs@), is_source),
            forall|k: int|
                0 <= k < r@.len() && is_source ==> (#[trigger] r@[k]@).has_saved_variables,
    {
        let ghost ps = wtf_views(self.wtfs@);
        proof {
            assert(ps.skip(0) =~= ps);
        }
        let mut r: Vec<Wtf> = Vec::new();
        let n = self.wtfs.len();
        let mut i: usize = 0;
        while i < n
            invariant
                i <= n,
                n == self.wtfs@.len(),
                ps == wtf_views(self.wtfs@),
                wtf_views(r@) + spec_selectable(ps.skip(i as int), is_source) == spec_selectable(
                    ps,
                    is_source,
                ),
                forall|k: int|
                    0 <= k < r@.len() && is_source ==> (#[trigger] r@[k]@).has_saved_variables,
            decreases n - i,
        {
            let ghost pre = r@;
            proof {
                lemma_selectable_step(ps, is_source, i as int);
            }
            if !is_source || self.wtfs[i].has_saved_variables {
                r.push(self.wtfs[i].clone());
                proof {
                    assert(wtf_views(r@) =~= wtf_views(pre).push(ps[i as int]));
                    assert(wtf_views(pre).push(ps[i as int]) + spec_selectable(
                        ps.skip(i + 1),
                        is_source,
                    ) =~= wtf_views(pre) + (seq![ps[i as int]] + spec_selectable(
                        ps.skip(i + 1),
                        is_source,
                    )));
                }
            }
            i += 1;
        }
        proof {
            assert(spec_selectable(ps.skip(n as int), is_source) =~= Seq::<WtfView>::empty());
            assert(wtf_views(r@) + Seq::<WtfView>::empty() =~= wtf_views(r@));
        }
        r
    }
}

impl Wtf {
    /// The label the profile is shown under.
    pub fn label(&self) -> (r: String)
        ensures
            r@ == spec_label(self@),
    {
        let mut t = self.character.clone();
        t.append(" - ");
        t.append(self.realm.as_str());
        t
    }
}

/// The font files the user interface bundles, relative to the
/// application's asset directory.
pub open spec fn spec_fonts() -> Seq<Seq<char>> {
    seq![
        "assets/fonts/B612-Regular.ttf"@,
        "assets/fonts/B612-Bold.ttf"@,
        "assets/fonts/B612Mono-Regular.ttf"@,
        "assets/fonts/B612Mono-Bold.ttf"@,
    ]
}

/// The font files to load for the user interface, in loading order.
pub fn fonts() -> (r: Vec<String>)
    ensures
        r.deep_view() == spec_fonts(),
{
    let mut r: Vec<String> = Vec::new();
    r.push(String::from_str("assets/fonts/B612-Regular.ttf"));
    r.push(String::from_str("assets/fonts/B612-Bold.ttf"));
    r.push(String::from_str("assets/fonts/B612Mono-Regular.ttf"));
    r.push(String::from_str("assets/fonts/B612Mono-Bold.ttf"));
    proof {
        assert(r.deep_view() =~= spec_fonts());
    }
    r
}

} // verus!
