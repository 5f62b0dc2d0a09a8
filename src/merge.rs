//! Merging discovered profiles into a configuration document.

use crate::config_map::{
    document_drop_marked, document_insert, document_remove, document_sections, named_otherwise,
    section_names,
    without_marked, without_section, Document, SectionView,
};
use crate::profile::{profile_entries, ProfileView, SSOProfile};
use crate::text::{hyphenated, replace_spaces};
use vstd::prelude::*;
use vstd::string::StringExecFns;

verus! {

/// Puts discovered profiles into a configuration document as sections named
/// `profile <prefix><account name, spaces as hyphens>-<role name>`.
pub struct AwsConfigMerger {
    pub prefix: String,
    /// Whether the sections that carry this merger's prefix are removed first.
    pub clean: bool,
}

/// The name of a profile without a prefix.
pub open spec fn bare_name(p: ProfileView) -> Seq<char> {
    hyphenated(p.account_name) + "-"@ + p.role_name
}

/// The name of a profile under `prefix`.
pub open spec fn profile_name(prefix: Seq<char>, p: ProfileView) -> Seq<char> {
    prefix + bare_name(p)
}

/// The name of the section that holds the profile called `name`.
pub open spec fn section_name_of(name: Seq<char>) -> Seq<char> {
    "profile "@ + name
}

/// `d` with the section `name` holding `entries`, placed last; a section of
/// that name that was there before is gone.
pub open spec fn put_last(
    d: Seq<SectionView>,
    name: Seq<char>,
    entries: Seq<crate::config_map::EntryView>,
) -> Seq<SectionView> {
    without_section(d, name).push((name, entries))
}

/// The sections of `d` after the profiles `ps` were put in, one after another,
/// under `prefix`.
pub open spec fn merged(d: Seq<SectionView>, ps: Seq<ProfileView>, prefix: Seq<char>) -> Seq<
    SectionView,
>
    decreases ps.len(),
{
    if ps.len() == 0 {
        d
    } else {
        put_last(
            merged(d, ps.drop_last(), prefix),
            section_name_of(profile_name(prefix, ps.last())),
            profile_entries(ps.last()),
        )
    }
}

/// The sections that remain of `d` when a merger with `prefix` cleans first,
/// or all of them when it does not.
pub open spec fn before_merge(d: Seq<SectionView>, prefix: Seq<char>, clean: bool) -> Seq<
    SectionView,
> {
    if clean {
        without_marked(d, section_name_of(prefix))
    } else {
        d
    }
}

/// The views of a list of profiles.
pub open spec fn profile_views(ps: Seq<SSOProfile>) -> Seq<ProfileView> {
    ps.map_values(|p: SSOProfile| p@)
}

/// No section of `without_section(d, name)` is named `name`.
pub proof fn lemma_without_section_lacks(d: Seq<SectionView>, name: Seq<char>)
    ensures
        !section_names(without_section(d, name)).contains(name),
{
    let w = without_section(d, name);
    if section_names(w).contains(name) {
        let j = choose|j: int| 0 <= j < section_names(w).len() && section_names(w)[j] == name;
        d.lemma_filter_pred(named_otherwise(name), j);
    }
}

/// The section names that the profiles `ps` are put under, in order.
pub open spec fn section_keys(ps: Seq<ProfileView>, prefix: Seq<char>) -> Seq<Seq<char>> {
    ps.map_values(|p: ProfileView| section_name_of(profile_name(prefix, p)))
}

/// Whether a section's name is none of `ks`.
pub open spec fn named_none_of(ks: Seq<Seq<char>>) -> spec_fn(SectionView) -> bool {
    |e: SectionView| !ks.contains(e.0)
}

/// `d` without the sections whose names are in `ks`.
pub open spec fn without_keys(d: Seq<SectionView>, ks: Seq<Seq<char>>) -> Seq<SectionView> {
    d.filter(named_none_of(ks))
}

/// Filtering twice is filtering once by both predicates.
proof fn lemma_filter_twice(
    d: Seq<SectionView>,
    first: spec_fn(SectionView) -> bool,
    second: spec_fn(SectionView) -> bool,
    both: spec_fn(SectionView) -> bool,
)
    requires
        forall|e: SectionView| #[trigger] both(e) == (first(e) && second(e)),
    ensures
        d.filter(first).filter(second) == d.filter(both),
    decreases d.len(),
{
    reveal(Seq::filter);
    if d.len() > 0 {
        lemma_filter_twice(d.drop_last(), first, second, both);
        if first(d.last()) {
            assert(d.filter(first).drop_last() =~= d.drop_last().filter(first));
        }
    }
}

/// A filter that keeps nothing of `d` gives the empty sequence.
proof fn lemma_filter_none(d: Seq<SectionView>, pr: spec_fn(SectionView) -> bool)
    requires
        forall|i: int| 0 <= i < d.len() ==> !pr(#[trigger] d[i]),
    ensures
        d.filter(pr) == Seq::<SectionView>::empty(),
    decreases d.len(),
{
    reveal(Seq::filter);
    if d.len() > 0 {
        lemma_filter_none(d.drop_last(), pr);
    }
}

/// A filter that keeps all of `d` gives `d`.
proof fn lemma_filter_all(d: Seq<SectionView>, pr: spec_fn(SectionView) -> bool)
    requires
        forall|e: SectionView| #[trigger] pr(e),
    ensures
        d.filter(pr) == d,
    decreases d.len(),
{
    reveal(Seq::filter);
    if d.len() > 0 {
        lemma_filter_all(d.drop_last(), pr);
        assert(d.drop_last().push(d.last()) =~= d);
    }
}

/// Merging is taking out of the document the sections of the profiles' names,
/// then appending what merging the profiles into an empty document gives.
pub proof fn lemma_merged_split(d: Seq<SectionView>, ps: Seq<ProfileView>, prefix: Seq<char>)
    ensures
        merged(d, ps, prefix) == without_keys(d, section_keys(ps, prefix)) + merged(
            Seq::empty(),
            ps,
            prefix,
        ),
        forall|i: int|
            0 <= i < merged(Seq::empty(), ps, prefix).len() ==> section_keys(ps, prefix).contains(
                (#[trigger] merged(Seq::empty(), ps, prefix)[i]).0,
            ),
    decreases ps.len(),
{
    let ks = section_keys(ps, prefix);
    if ps.len() == 0 {
        lemma_filter_all(d, named_none_of(ks));
        assert(d + Seq::<SectionView>::empty() =~= d);
    } else {
        let ps0 = ps.drop_last();
        let p = ps.last();
        let k = section_name_of(profile_name(prefix, p));
        let ks0 = section_keys(ps0, prefix);
        lemma_merged_split(d, ps0, prefix);
        assert(ks =~= ks0.push(k));
        let w0 = without_keys(d, ks0);
        let m0 = merged(Seq::empty(), ps0, prefix);
        let not_k = named_otherwise(k);
        assert((w0 + m0).filter(not_k) == w0.filter(not_k) + m0.filter(not_k)) by {
            Seq::filter_distributes_over_add(w0, m0, not_k);
        }
        let keep = named_none_of(ks);
        let keep0 = named_none_of(ks0);
        assert forall|e: SectionView| #[trigger] keep(e) == (keep0(e) && not_k(e)) by {
            assert(ks.contains(e.0) <==> (ks0.contains(e.0) || e.0 == k)) by {
                if ks.contains(e.0) {
                    let j = choose|j: int| 0 <= j < ks.len() && ks[j] == e.0;
                    if j < ks0.len() {
                        assert(ks0[j] == e.0);
                    }
                }
                if ks0.contains(e.0) {
                    let j = choose|j: int| 0 <= j < ks0.len() && ks0[j] == e.0;
                    assert(ks[j] == e.0);
                }
                if e.0 == k {
                    assert(ks[ks.len() - 1] == e.0);
                }
            }
        }
        lemma_filter_twice(d, keep0, not_k, keep);
        let m = merged(Seq::<SectionView>::empty(), ps, prefix);
        assert(m == m0.filter(not_k).push((k, profile_entries(p))));
        assert(merged(d, ps, prefix) =~= without_keys(d, ks) + m);
        assert forall|i: int| 0 <= i < m.len() implies ks.contains((#[trigger] m[i]).0) by {
            if i == m.len() - 1 {
                assert(ks[ks.len() - 1] == k);
            } else {
                assert(m0.filter(not_k)[i] == m[i]);
                assert(m0.filter(not_k).contains(m[i]));
                m0.lemma_filter_contains_rev(not_k, m[i]);
                let j = choose|j: int| 0 <= j < m0.len() && m0[j] == m[i];
                let t = choose|t: int| 0 <= t < ks0.len() && ks0[t] == m0[j].0;
                assert(ks[t] == m[i].0);
            }
        }
    }
}

/// Merging the same profiles a second time, without cleaning, changes
/// nothing: the document holds one section per profile name, as the second
/// merge put it.
pub proof fn lemma_merge_twice(d: Seq<SectionView>, ps: Seq<ProfileView>, prefix: Seq<char>)
    ensures
        merged(merged(d, ps, prefix), ps, prefix) == merged(d, ps, prefix),
{
    let ks = section_keys(ps, prefix);
    let keep = named_none_of(ks);
    let w = without_keys(d, ks);
    let m = merged(Seq::<SectionView>::empty(), ps, prefix);
    lemma_merged_split(d, ps, prefix);
    lemma_merged_split(merged(d, ps, prefix), ps, prefix);
    Seq::filter_distributes_over_add(w, m, keep);
    lemma_filter_twice(d, keep, keep, keep);
    lemma_filter_none(m, keep);
    assert(w + Seq::<SectionView>::empty() =~= w);
}

/// No two sections of `d` share a name.
pub open spec fn names_distinct(d: Seq<SectionView>) -> bool {
    forall|j1: int, j2: int|
        0 <= j1 < d.len() && 0 <= j2 < d.len() && #[trigger] d[j1].0 == #[trigger] d[j2].0 ==> j1
            == j2
}

/// Filtering keeps names distinct.
proof fn lemma_filter_keeps_distinct(d: Seq<SectionView>, pr: spec_fn(SectionView) -> bool)
    requires
        names_distinct(d),
    ensures
        names_distinct(d.filter(pr)),
    decreases d.len(),
{
    reveal(Seq::filter);
    if d.len() > 0 {
        let d0 = d.drop_last();
        assert(names_distinct(d0)) by {
            assert forall|j1: int, j2: int|
                0 <= j1 < d0.len() && 0 <= j2 < d0.len() && #[trigger] d0[j1].0
                    == #[trigger] d0[j2].0 implies j1 == j2 by {
                assert(d[j1] == d0[j1] && d[j2] == d0[j2]);
            }
        }
        lemma_filter_keeps_distinct(d0, pr);
        let f0 = d0.filter(pr);
        if pr(d.last()) {
            let f = d.filter(pr);
            assert(f == f0.push(d.last()));
            assert forall|j1: int, j2: int|
                0 <= j1 < f.len() && 0 <= j2 < f.len() && #[trigger] f[j1].0 == #[trigger] f[j2].0
                    implies j1 == j2 by {
                if j1 < f0.len() && j2 == f0.len() {
                    assert(f0.contains(f[j1]));
                    d0.lemma_filter_contains_rev(pr, f[j1]);
                    let t = choose|t: int| 0 <= t < d0.len() && d0[t] == f[j1];
                    assert(d[t].0 == d[d.len() - 1].0);
                }
                if j2 < f0.len() && j1 == f0.len() {
                    assert(f0.contains(f[j2]));
                    d0.lemma_filter_contains_rev(pr, f[j2]);
                    let t = choose|t: int| 0 <= t < d0.len() && d0[t] == f[j2];
                    assert(d[t].0 == d[d.len() - 1].0);
                }
                if j1 < f0.len() && j2 < f0.len() {
                    assert(f0[j1] == f[j1] && f0[j2] == f[j2]);
                }
            }
        }
    }
}

/// Merging profiles into an empty document gives one section per profile
/// name, and no other.
proof fn lemma_fresh_merge_names(ps: Seq<ProfileView>, prefix: Seq<char>)
    ensures
        names_distinct(merged(Seq::empty(), ps, prefix)),
        forall|i: int|
            0 <= i < ps.len() ==> section_names(merged(Seq::empty(), ps, prefix)).contains(
                #[trigger] section_keys(ps, prefix)[i],
            ),
    decreases ps.len(),
{
    if ps.len() > 0 {
        let ps0 = ps.drop_last();
        let p = ps.last();
        let k = section_name_of(profile_name(prefix, p));
        lemma_fresh_merge_names(ps0, prefix);
        let m0 = merged(Seq::<SectionView>::empty(), ps0, prefix);
        let f = without_section(m0, k);
        let m = merged(Seq::<SectionView>::empty(), ps, prefix);
        assert(m == f.push((k, profile_entries(p))));
        lemma_filter_keeps_distinct(m0, named_otherwise(k));
        lemma_without_section_lacks(m0, k);
        assert forall|j1: int, j2: int|
            0 <= j1 < m.len() && 0 <= j2 < m.len() && #[trigger] m[j1].0 == #[trigger] m[j2].0
                implies j1 == j2 by {
            if j1 < f.len() {
                assert(section_names(f)[j1] == m[j1].0);
            }
            if j2 < f.len() {
                assert(section_names(f)[j2] == m[j2].0);
            }
            if j1 < f.len() && j2 < f.len() {
                assert(f[j1] == m[j1] && f[j2] == m[j2]);
            }
        }
        assert forall|i: int| 0 <= i < ps.len() implies section_names(m).contains(
            #[trigger] section_keys(ps, prefix)[i],
        ) by {
            let key = section_keys(ps, prefix)[i];
            if key == k {
                assert(section_names(m)[m.len() - 1] == k);
            } else {
                assert(section_keys(ps0, prefix)[i] == key);
                let t = choose|t: int| 0 <= t < m0.len() && section_names(m0)[t] == key;
                m0.lemma_filter_contains(named_otherwise(k), t);
                let u = choose|u: int| 0 <= u < f.len() && f[u] == m0[t];
                assert(section_names(m)[u] == key);
            }
        }
    }
}

/// After a merge, the document holds exactly one section under the name of
/// each merged profile.
pub proof fn lemma_one_section_per_profile(
    d: Seq<SectionView>,
    ps: Seq<ProfileView>,
    prefix: Seq<char>,
    i: int,
)
    requires
        0 <= i < ps.len(),
    ensures
        section_names(merged(d, ps, prefix)).contains(section_keys(ps, prefix)[i]),
        forall|j1: int, j2: int|
            0 <= j1 < merged(d, ps, prefix).len() && 0 <= j2 < merged(d, ps, prefix).len()
                && #[trigger] merged(d, ps, prefix)[j1].0 == section_keys(ps, prefix)[i]
                && #[trigger] merged(d, ps, prefix)[j2].0 == section_keys(ps, prefix)[i] ==> j1
                == j2,
{
    let ks = section_keys(ps, prefix);
    let key = ks[i];
    let w = without_keys(d, ks);
    let m = merged(Seq::<SectionView>::empty(), ps, prefix);
    let r = merged(d, ps, prefix);
    lemma_merged_split(d, ps, prefix);
    lemma_fresh_merge_names(ps, prefix);
    assert(r == w + m);
    assert(ks.contains(key));
    assert forall|j: int| 0 <= j < w.len() implies #[trigger] w[j].0 != key by {
        d.lemma_filter_pred(named_none_of(ks), j);
    }
    let t = choose|t: int| 0 <= t < m.len() && section_names(m)[t] == key;
    assert(section_names(r)[w.len() + t] == key);
    assert forall|j1: int, j2: int|
        0 <= j1 < r.len() && 0 <= j2 < r.len() && #[trigger] r[j1].0 == key && #[trigger] r[j2].0
            == key implies j1 == j2 by {
        if j1 < w.len() {
            assert(w[j1] == r[j1]);
        }
        if j2 < w.len() {
            assert(w[j2] == r[j2]);
        }
        assert(m[j1 - w.len()] == r[j1] && m[j2 - w.len()] == r[j2]);
    }
}

/// Cleaning is scoped to the merger's prefix: a section of the document is
/// removed exactly when its name starts with `profile <prefix>`, and any other
/// section, such as one under another prefix, is kept.
pub proof fn lemma_clean_is_scoped(d: Seq<SectionView>, prefix: Seq<char>, s: SectionView)
    requires
        d.contains(s),
    ensures
        before_merge(d, prefix, true).contains(s) <==> !section_name_of(prefix).is_prefix_of(s.0),
{
    let marker = section_name_of(prefix);
    let keep = |e: SectionView| !marker.is_prefix_of(e.0);
    let c = before_merge(d, prefix, true);
    assert(c == d.filter(keep));
    if keep(s) {
        let i = choose|i: int| 0 <= i < d.len() && d[i] == s;
        d.lemma_filter_contains(keep, i);
    }
    if c.contains(s) {
        let j = choose|j: int| 0 <= j < c.len() && c[j] == s;
        d.lemma_filter_pred(keep, j);
    }
}

/// Merging a profile whose section is already in the document moves that
/// section to the end: it comes last, with the profile's entries, and the
/// other sections keep their order.
pub proof fn lemma_overwrite_moves_to_end(d: Seq<SectionView>, p: ProfileView, prefix: Seq<char>)
    requires
        section_names(d).contains(section_name_of(profile_name(prefix, p))),
    ensures
        merged(d, seq![p], prefix).last() == (
            section_name_of(profile_name(prefix, p)),
            profile_entries(p),
        ),
        merged(d, seq![p], prefix).drop_last() == without_section(
            d,
            section_name_of(profile_name(prefix, p)),
        ),
        !section_names(merged(d, seq![p], prefix).drop_last()).contains(
            section_name_of(profile_name(prefix, p)),
        ),
{
    let k = section_name_of(profile_name(prefix, p));
    assert(seq![p].drop_last() =~= Seq::<ProfileView>::empty());
    assert(seq![p].last() == p);
    assert(merged(d, Seq::<ProfileView>::empty(), prefix) == d);
    assert(merged(d, seq![p], prefix) == without_section(d, k).push((k, profile_entries(p))));
    lemma_without_section_lacks(d, k);
    assert(merged(d, seq![p], prefix).drop_last() =~= without_section(d, k));
}

impl AwsConfigMerger {
    /// Merges `sso_profiles` into `ini`, in order. When `clean` is set, the
    /// sections whose names start with `profile <prefix>` are removed first.
    /// Each profile's section goes last in the document; one of the same name
    /// that was there before, or that an earlier profile put in, is removed.
    /// Returns the profile names, one per profile in order, for the caller to
    /// announce.
    pub fn merge(&self, sso_profiles: &Vec<SSOProfile>, ini: &mut Document) -> (r: Vec<String>)
        ensures
            document_sections(*final(ini)) == merged(
                before_merge(document_sections(*old(ini)), self.prefix@, self.clean),
                profile_views(sso_profiles@),
                self.prefix@,
            ),
            r@.len() == sso_profiles@.len(),
            forall|i: int|
                0 <= i < r@.len() ==> #[trigger] r@[i]@ == profile_name(
                    self.prefix@,
                    sso_profiles@[i]@,
                ),
    {
        let ghost start = before_merge(document_sections(*ini), self.prefix@, self.clean);
        if self.clean {
            let marker = self.section_name(&self.prefix_name(""));
            proof {
                reveal_strlit("");
                assert(self.prefix@ + ""@ =~= self.prefix@);
            }
            document_drop_marked(ini, marker.as_str());
        }
        let ghost views = profile_views(sso_profiles@);
        let mut names: Vec<String> = Vec::new();
        let mut i: usize = 0;
        while i < sso_profiles.len()
            invariant
                i <= sso_profiles@.len(),
                views == profile_views(sso_profiles@),
                document_sections(*ini) == merged(start, views.take(i as int), self.prefix@),
                names@.len() == i,
                forall|j: int|
                    0 <= j < i ==> #[trigger] names@[j]@ == profile_name(
                        self.prefix@,
                        sso_profiles@[j]@,
                    ),
            decreases sso_profiles@.len() - i,
        {
            let sso_profile = &sso_profiles[i];
            let bare = replace_spaces(sso_profile.account_name.as_str()).concat("-").concat(
                sso_profile.role_name.as_str(),
            );
            let name = self.prefix_name(bare.as_str());
            let section_name = self.section_name(name.as_str());
            proof {
                assert(bare@ == bare_name(sso_profile@));
                lemma_without_section_lacks(document_sections(*ini), section_name@);
                assert(views.take(i + 1).drop_last() =~= views.take(i as int));
                assert(views.take(i + 1).last() == sso_profile@);
            }
            // A section of the same name gives way: the new one goes last.
            document_remove(ini, &section_name);
            document_insert(ini, section_name, sso_profile.to_section());
            names.push(name);
            i = i + 1;
        }
        proof {
            assert(views.take(sso_profiles@.len() as int) =~= views);
        }
        names
    }

    /// `profile_name` behind this merger's prefix.
    pub fn prefix_name(&self, profile_name: &str) -> (r: String)
        ensures
            r@ == self.prefix@ + profile_name@,
    {
        self.prefix.clone().concat(profile_name)
    }

    /// The name of the section that holds the profile `profile_name`.
    pub fn section_name(&self, profile_name: &str) -> (r: String)
        ensures
            r@ == section_name_of(profile_name@),
    {
        String::from_str("profile ").concat(profile_name)
    }
}

} // verus!
