//! Turning the listed accounts and their roles into profiles. The listing
//! requests are the caller's: this module decides what each answer means.

use crate::profile::{ProfileView, SSOProfile};
use vstd::prelude::*;
use vstd::string::StringExecFns;

verus! {

/// Why discovery failed.
#[derive(Debug, PartialEq, Eq)]
pub enum DiscoveryError {
    /// A listing request failed; its message.
    Fetch(String),
    MissingAccountId,
    MissingAccountName,
    MissingRoleName,
}

/// What the listing of one account gave.
#[derive(Debug)]
pub enum AccountListing {
    /// The request for the account failed.
    Failed(String),
    /// The account, with its roles.
    Listed { account_id: Option<String>, account_name: Option<String>, roles: RoleListing },
}

/// What the listing of an account's roles gave.
#[derive(Debug)]
pub enum RoleListing {
    /// A request for the roles failed.
    Failed(String),
    /// The role names, in the order listed, over all pages.
    Listed(Vec<Option<String>>),
}

/// A validated account.
#[derive(Debug)]
pub struct Account {
    pub account_id: String,
    pub account_name: String,
}

/// Lists the profiles that one SSO start URL, in one region, gives access to.
pub struct SSOProfilesLister {
    sso_region: String,
    start_url: String,
}

/// Whether a listed name is there and not empty.
pub open spec fn is_named(n: Option<String>) -> bool {
    n is Some && n->Some_0@.len() > 0
}

/// The account of a listing's id and name, or why there is none.
pub open spec fn account_result(id: Option<String>, name: Option<String>) -> Result<
    (Seq<char>, Seq<char>),
    DiscoveryError,
> {
    if !is_named(id) {
        Err(DiscoveryError::MissingAccountId)
    } else if !is_named(name) {
        Err(DiscoveryError::MissingAccountName)
    } else {
        Ok((id->Some_0@, name->Some_0@))
    }
}

/// The profile of the role at `j`.
pub open spec fn role_view(
    start_url: Seq<char>,
    sso_region: Seq<char>,
    account: (Seq<char>, Seq<char>),
    roles: Seq<Option<String>>,
    j: int,
) -> ProfileView {
    ProfileView {
        account_id: account.0,
        account_name: account.1,
        role_name: roles[j]->Some_0@,
        start_url,
        sso_region,
    }
}

/// The profiles of the first `n` roles.
pub open spec fn role_views(
    start_url: Seq<char>,
    sso_region: Seq<char>,
    account: (Seq<char>, Seq<char>),
    roles: Seq<Option<String>>,
    n: nat,
) -> Seq<ProfileView> {
    Seq::new(n, |j: int| role_view(start_url, sso_region, account, roles, j))
}

/// The profiles of one account's roles, or why there are none.
pub open spec fn role_profiles(
    start_url: Seq<char>,
    sso_region: Seq<char>,
    account: (Seq<char>, Seq<char>),
    roles: Seq<Option<String>>,
) -> Result<Seq<ProfileView>, DiscoveryError> {
    if exists|j: int| 0 <= j < roles.len() && !is_named(#[trigger] roles[j]) {
        Err(DiscoveryError::MissingRoleName)
    } else {
        Ok(role_views(start_url, sso_region, account, roles, roles.len()))
    }
}

/// The profiles of one account listing, or why there are none.
pub open spec fn listing_profiles(
    start_url: Seq<char>,
    sso_region: Seq<char>,
    l: AccountListing,
) -> Result<
    Seq<ProfileView>,
    DiscoveryError,
> {
    match l {
        AccountListing::Failed(m) => Err(DiscoveryError::Fetch(m)),
        AccountListing::Listed { account_id, account_name, roles } => match account_result(
            account_id,
            account_name,
        ) {
            Err(e) => Err(e),
            Ok(a) => match roles {
                RoleListing::Failed(m) => Err(DiscoveryError::Fetch(m)),
                RoleListing::Listed(rs) => role_profiles(start_url, sso_region, a, rs@),
            },
        },
    }
}

/// The profiles of the listings `ls`, account after account, or the first
/// error met on the way.
pub open spec fn discovered(
    start_url: Seq<char>,
    sso_region: Seq<char>,
    ls: Seq<AccountListing>,
) -> Result<
    Seq<ProfileView>,
    DiscoveryError,
>
    decreases ls.len(),
{
    if ls.len() == 0 {
        Ok(Seq::empty())
    } else {
        match discovered(start_url, sso_region, ls.drop_last()) {
            Err(e) => Err(e),
            Ok(ps) => match listing_profiles(start_url, sso_region, ls.last()) {
                Err(e) => Err(e),
                Ok(qs) => Ok(ps + qs),
            },
        }
    }
}

/// Once discovery over a prefix of the listings has failed, discovery over
/// more of them fails with the same error.
pub proof fn lemma_discovered_error_stays(
    start_url: Seq<char>,
    sso_region: Seq<char>,
    ls: Seq<AccountListing>,
    i: int,
)
    requires
        0 <= i <= ls.len(),
        discovered(start_url, sso_region, ls.take(i)) is Err,
    ensures
        discovered(start_url, sso_region, ls) == discovered(start_url, sso_region, ls.take(i)),
    decreases ls.len() - i,
{
    if i < ls.len() {
        assert(ls.take(i + 1).drop_last() =~= ls.take(i));
        lemma_discovered_error_stays(start_url, sso_region, ls, i + 1);
    } else {
        assert(ls.take(i) =~= ls);
    }
}

/// Discovery fails fast: when the listings before `i` give profiles and the
/// one at `i` fails, discovery over all of them fails with that listing's
/// error, whatever follows.
pub proof fn lemma_fail_fast(
    start_url: Seq<char>,
    sso_region: Seq<char>,
    ls: Seq<AccountListing>,
    i: int,
)
    requires
        0 <= i < ls.len(),
        discovered(start_url, sso_region, ls.take(i)) is Ok,
        listing_profiles(start_url, sso_region, ls[i]) is Err,
    ensures
        discovered(start_url, sso_region, ls) == Err::<Seq<ProfileView>, DiscoveryError>(
            listing_profiles(start_url, sso_region, ls[i])->Err_0,
        ),
{
    assert(ls.take(i + 1).drop_last() =~= ls.take(i));
    assert(ls.take(i + 1).last() == ls[i]);
    lemma_discovered_error_stays(start_url, sso_region, ls, i + 1);
}

/// Checks a listed account: its id and its name are required and not empty.
pub fn account_of(account_id: &Option<String>, account_name: &Option<String>) -> (r: Result<
    Account,
    DiscoveryError,
>)
    ensures
        match r {
            Ok(a) => account_result(*account_id, *account_name) == Ok::<
                (Seq<char>, Seq<char>),
                DiscoveryError,
            >((a.account_id@, a.account_name@)),
            Err(e) => account_result(*account_id, *account_name) == Err::<
                (Seq<char>, Seq<char>),
                DiscoveryError,
            >(e),
        },
{
    let id = match account_id {
        Some(id) if !id.as_str().is_empty() => id.clone(),
        _ => {
            return Err(DiscoveryError::MissingAccountId);
        },
    };
    let name = match account_name {
        Some(name) if !name.as_str().is_empty() => name.clone(),
        _ => {
            return Err(DiscoveryError::MissingAccountName);
        },
    };
    Ok(Account { account_id: id, account_name: name })
}

impl SSOProfilesLister {
    pub closed spec fn spec_start_url(&self) -> Seq<char> {
        self.start_url@
    }

    pub closed spec fn spec_sso_region(&self) -> Seq<char> {
        self.sso_region@
    }

    pub fn new(start_url: &str, sso_region: &str) -> (r: Self)
        ensures
            r.spec_start_url() == start_url@,
            r.spec_sso_region() == sso_region@,
    {
        SSOProfilesLister {
            sso_region: String::from_str(sso_region),
            start_url: String::from_str(start_url),
        }
    }

    /// The start URL that the profiles are reached through.
    pub fn start_url(&self) -> (r: &String)
        ensures
            r@ == self.spec_start_url(),
    {
        &self.start_url
    }

    /// The region of the SSO service.
    pub fn sso_region(&self) -> (r: &String)
        ensures
            r@ == self.spec_sso_region(),
    {
        &self.sso_region
    }

    /// Appends to `out` the profiles of `account`'s roles, in order; fails,
    /// leaving what was appended, if a role has no name.
    fn push_role_profiles(
        &self,
        account: &Account,
        roles: &Vec<Option<String>>,
        out: &mut Vec<SSOProfile>,
    ) -> (r: Result<(), DiscoveryError>)
        ensures
            match role_profiles(
                self.spec_start_url(),
                self.spec_sso_region(),
                (account.account_id@, account.account_name@),
                roles@,
            ) {
                Ok(qs) => r is Ok && final(out)@.map_values(|p: SSOProfile| p@) == old(
                    out,
                )@.map_values(|p: SSOProfile| p@) + qs,
                Err(e) => r == Err::<(), DiscoveryError>(e),
            },
    {
        let ghost su = self.spec_start_url();
        let ghost sr = self.spec_sso_region();
        let ghost a = (account.account_id@, account.account_name@);
        let ghost before = out@.map_values(|p: SSOProfile| p@);
        let mut k: usize = 0;
        while k < roles.len()
            invariant
                k <= roles@.len(),
                su == self.spec_start_url(),
                sr == self.spec_sso_region(),
                a == (account.account_id@, account.account_name@),
                forall|j: int| 0 <= j < k ==> is_named(#[trigger] roles@[j]),
                out@.map_values(|p: SSOProfile| p@) =~= before + role_views(
                    su,
                    sr,
                    a,
                    roles@,
                    k as nat,
                ),
            decreases roles@.len() - k,
        {
            let role_name = match &roles[k] {
                Some(n) if !n.as_str().is_empty() => {
                    proof {
                        assert(roles@[k as int] == Some(*n));
                    }
                    n.clone()
                },
                _ => {
                    proof {
                        assert(!is_named(roles@[k as int]));
                    }
                    return Err(DiscoveryError::MissingRoleName);
                },
            };
            let ghost old_out = out@;
            out.push(
                SSOProfile {
                    account_id: account.account_id.clone(),
                    account_name: account.account_name.clone(),
                    role_name,
                    start_url: self.start_url.clone(),
                    sso_region: self.sso_region.clone(),
                },
            );
            proof {
                let views = out@.map_values(|p: SSOProfile| p@);
                assert(views =~= old_out.map_values(|p: SSOProfile| p@).push(out@.last()@));
                assert(out@.last()@ == role_view(su, sr, a, roles@, k as int));
                assert(role_views(su, sr, a, roles@, (k + 1) as nat) =~= role_views(
                    su,
                    sr,
                    a,
                    roles@,
                    k as nat,
                ).push(role_view(su, sr, a, roles@, k as int)));
            }
            k = k + 1;
        }
        Ok(())
    }

    /// The profiles of the listed accounts and their roles, in the order
    /// listed, or the first error met on the way, with no profiles.
    pub fn discover(&self, listings: &Vec<AccountListing>) -> (r: Result<
        Vec<SSOProfile>,
        DiscoveryError,
    >)
        ensures
            match r {
                Ok(ps) => discovered(self.spec_start_url(), self.spec_sso_region(), listings@)
                    == Ok::<Seq<ProfileView>, DiscoveryError>(ps@.map_values(|p: SSOProfile| p@)),
                Err(e) => discovered(self.spec_start_url(), self.spec_sso_region(), listings@)
                    == Err::<Seq<ProfileView>, DiscoveryError>(e),
            },
    {
        let ghost su = self.spec_start_url();
        let ghost sr = self.spec_sso_region();
        let mut out: Vec<SSOProfile> = Vec::new();
        let mut i: usize = 0;
        proof {
            assert(listings@.take(0) =~= Seq::<AccountListing>::empty());
            assert(out@.map_values(|p: SSOProfile| p@) =~= Seq::<ProfileView>::empty());
        }
        while i < listings.len()
            invariant
                i <= listings@.len(),
                su == self.spec_start_url(),
                sr == self.spec_sso_region(),
                discovered(su, sr, listings@.take(i as int)) == Ok::<
                    Seq<ProfileView>,
                    DiscoveryError,
                >(out@.map_values(|p: SSOProfile| p@)),
            decreases listings@.len() - i,
        {
            proof {
                assert(listings@.take(i + 1).drop_last() =~= listings@.take(i as int));
                assert(listings@.take(i + 1).last() == listings@[i as int]);
            }
            let step = match &listings[i] {
                AccountListing::Failed(m) => Err(DiscoveryError::Fetch(m.clone())),
                AccountListing::Listed { account_id, account_name, roles } => match account_of(
                    account_id,
                    account_name,
                ) {
                    Err(e) => Err(e),
                    Ok(account) => match roles {
                        RoleListing::Failed(m) => Err(DiscoveryError::Fetch(m.clone())),
                        RoleListing::Listed(rs) => self.push_role_profiles(&account, rs, &mut out),
                    },
                },
            };
            match step {
                Ok(()) => {},
                Err(e) => {
                    proof {
                        lemma_discovered_error_stays(su, sr, listings@, i + 1);
                    }
                    return Err(e);
                },
            }
            i = i + 1;
        }
        proof {
            assert(listings@.take(listings@.len() as int) =~= listings@);
        }
        Ok(out)
    }
}

} // verus!
