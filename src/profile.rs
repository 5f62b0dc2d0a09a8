//! A discovered profile: one role that can be assumed in one account.

use crate::config_map::{
    entry_keys, new_section, section_entries, section_insert, EntryView, Section,
};
use vstd::prelude::*;
use vstd::string::StringExecFns;

verus! {

#[derive(Debug)]
pub struct SSOProfile {
    pub account_id: String,
    pub account_name: String,
    pub role_name: String,
    pub start_url: String,
    pub sso_region: String,
}

/// A profile as plain values.
pub ghost struct ProfileView {
    pub account_id: Seq<char>,
    pub account_name: Seq<char>,
    pub role_name: Seq<char>,
    pub start_url: Seq<char>,
    pub sso_region: Seq<char>,
}

impl View for SSOProfile {
    type V = ProfileView;

    open spec fn view(&self) -> ProfileView {
        ProfileView {
            account_id: self.account_id@,
            account_name: self.account_name@,
            role_name: self.role_name@,
            start_url: self.start_url@,
            sso_region: self.sso_region@,
        }
    }
}

/// The entries of a profile's section: the four keys, in this order, each
/// with its value.
pub open spec fn profile_entries(p: ProfileView) -> Seq<EntryView> {
    seq![
        ("sso_start_url"@, Some(p.start_url)),
        ("sso_region"@, Some(p.sso_region)),
        ("sso_account_id"@, Some(p.account_id)),
        ("sso_role_name"@, Some(p.role_name)),
    ]
}

impl SSOProfile {
    /// The section that describes this profile.
    pub fn to_section(&self) -> (r: Section)
        ensures
            section_entries(r) == profile_entries(self@),
    {
        proof {
            reveal_strlit("sso_start_url");
            reveal_strlit("sso_region");
            reveal_strlit("sso_account_id");
            reveal_strlit("sso_role_name");
            assert("sso_start_url"@[4] != "sso_region"@[4]);
            assert("sso_start_url"@[4] != "sso_account_id"@[4]);
            assert("sso_start_url"@[4] != "sso_role_name"@[4]);
            assert("sso_region"@[4] != "sso_account_id"@[4]);
            assert("sso_region"@[5] != "sso_role_name"@[5]);
            assert("sso_account_id"@[4] != "sso_role_name"@[4]);
        }
        let mut section = new_section();
        section_insert(
            &mut section,
            String::from_str("sso_start_url"),
            Some(self.start_url.clone()),
        );
        proof {
            assert(entry_keys(section_entries(section)) =~= seq!["sso_start_url"@]);
            assert(entry_keys(section_entries(section))[0] != "sso_region"@);
        }
        section_insert(&mut section, String::from_str("sso_region"), Some(self.sso_region.clone()));
        proof {
            assert(entry_keys(section_entries(section)) =~= seq!["sso_start_url"@, "sso_region"@]);
            assert(entry_keys(section_entries(section))[0] != "sso_account_id"@);
            assert(entry_keys(section_entries(section))[1] != "sso_account_id"@);
        }
        section_insert(
            &mut section,
            String::from_str("sso_account_id"),
            Some(self.account_id.clone()),
        );
        proof {
            assert(entry_keys(section_entries(section)) =~= seq![
                "sso_start_url"@,
                "sso_region"@,
                "sso_account_id"@,
            ]);
            assert(entry_keys(section_entries(section))[0] != "sso_role_name"@);
            assert(entry_keys(section_entries(section))[1] != "sso_role_name"@);
            assert(entry_keys(section_entries(section))[2] != "sso_role_name"@);
        }
        section_insert(
            &mut section,
            String::from_str("sso_role_name"),
            Some(self.role_name.clone()),
        );
        proof {
            assert(section_entries(section) =~= profile_entries(self@));
        }
        section
    }
}

} // verus!
