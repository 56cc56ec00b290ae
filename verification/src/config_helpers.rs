//! The mail addresses that a configuration names.

use crate::address::{is_email_address, MailAddress};
use crate::config::DomainCfg;
use vstd::prelude::*;
use vstd::string::StringExecFns;

verus! {

/// The address of a user at a domain: the two names around an at sign.
pub open spec fn address_text(user: Seq<char>, domain: Seq<char>) -> Seq<char> {
    user + "@"@ + domain
}

/// The addresses of the first `upto` users of a domain, in order.
pub open spec fn domain_addresses(domain: DomainCfg, upto: int) -> Seq<Seq<char>>
    decreases upto,
{
    if upto <= 0 {
        Seq::empty()
    } else {
        domain_addresses(domain, upto - 1).push(
            address_text(domain.users@[upto - 1]@, domain.name@),
        )
    }
}

/// The addresses of the first `upto` domains, each domain's users in
/// their order.
pub open spec fn all_addresses(domains: Seq<DomainCfg>, upto: int) -> Seq<Seq<char>>
    decreases upto,
{
    if upto <= 0 {
        Seq::empty()
    } else {
        all_addresses(domains, upto - 1) + domain_addresses(
            domains[upto - 1],
            domains[upto - 1].users@.len() as int,
        )
    }
}

/// Whether every text of `texts` is a mail address.
pub open spec fn all_valid(texts: Seq<Seq<char>>) -> bool {
    forall|i: int| 0 <= i < texts.len() ==> is_email_address(#[trigger] texts[i])
}

/// The text of each address.
pub open spec fn address_views(addresses: Seq<MailAddress>) -> Seq<Seq<char>> {
    addresses.map_values(|a: MailAddress| a@)
}

/// The text of the address of a user at a domain.
fn join(user: &String, domain: &String) -> (text: String)
    ensures
        text@ == address_text(user@, domain@),
{
    user.clone().concat("@").concat(domain.as_str())
}

/// Whether all the addresses that the configuration names are mail
/// addresses.
pub fn addresses_are_valid(domains: &Vec<DomainCfg>) -> (valid: bool)
    ensures
        valid == all_valid(all_addresses(domains@, domains@.len() as int)),
{
    let mut d: usize = 0;
    while d < domains.len()
        invariant
            d <= domains.len(),
            all_valid(all_addresses(domains@, d as int)),
        decreases domains.len() - d,
    {
        let domain = &domains[d];
        let mut u: usize = 0;
        while u < domain.users.len()
            invariant
                d < domains.len(),
                *domain == domains@[d as int],
                u <= domain.users.len(),
                all_valid(all_addresses(domains@, d as int)),
                all_valid(domain_addresses(*domain, u as int)),
            decreases domain.users.len() - u,
        {
            let text = join(&domain.users[u], &domain.name);
            if MailAddress::parse(text.as_str()).is_none() {
                proof {
                    let rest = domain_addresses(*domain, domain.users@.len() as int);
                    lemma_domain_addresses(*domain, u as int, domain.users@.len() as int);
                    assert(rest[u as int] == text@);
                    lemma_later_addresses(domains@, d as int + 1, domains@.len() as int);
                    let upto = all_addresses(domains@, d as int + 1);
                    let all = all_addresses(domains@, domains@.len() as int);
                    let at = all_addresses(domains@, d as int).len() + u;
                    assert(upto[at] == text@);
                    assert(all[at] == upto[at]);
                }
                return false;
            }
            u += 1;
        }
        d += 1;
    }
    true
}

/// The first `upto` addresses of a domain are the start of the addresses
/// of more of its users.
proof fn lemma_domain_addresses(domain: DomainCfg, upto: int, more: int)
    requires
        0 <= upto < more,
    ensures
        domain_addresses(domain, more).len() == more,
        domain_addresses(domain, more)[upto] == address_text(
            domain.users@[upto]@,
            domain.name@,
        ),
    decreases more,
{
    lemma_domain_len(domain, more);
    if upto < more - 1 {
        lemma_domain_addresses(domain, upto, more - 1);
    } else {
        lemma_domain_len(domain, more - 1);
    }
}

/// A domain of `upto` users has as many addresses.
proof fn lemma_domain_len(domain: DomainCfg, upto: int)
    requires
        0 <= upto,
    ensures
        domain_addresses(domain, upto).len() == upto,
    decreases upto,
{
    if upto > 0 {
        lemma_domain_len(domain, upto - 1);
    }
}

/// The addresses of the first `upto` domains are the start of the
/// addresses of more domains.
proof fn lemma_later_addresses(domains: Seq<DomainCfg>, upto: int, more: int)
    requires
        0 <= upto <= more,
    ensures
        all_addresses(domains, upto).len() <= all_addresses(domains, more).len(),
        forall|i: int|
            0 <= i < all_addresses(domains, upto).len() ==> all_addresses(domains, more)[i]
                == all_addresses(domains, upto)[i],
    decreases more - upto,
{
    if upto < more {
        lemma_later_addresses(domains, upto, more - 1);
    }
}

/// Get a list of all the email addresses in the configuration. Every one
/// of them must be a mail address; [`checked_addresses`] tests that first.
pub fn get_all_addresses(domains: &Vec<DomainCfg>) -> (out: Vec<MailAddress>)
    requires
        all_valid(all_addresses(domains@, domains@.len() as int)),
    ensures
        address_views(out@) == all_addresses(domains@, domains@.len() as int),
{
    let mut out: Vec<MailAddress> = Vec::new();
    let mut d: usize = 0;
    assert(address_views(out@) =~= all_addresses(domains@, 0));
    while d < domains.len()
        invariant
            d <= domains.len(),
            all_valid(all_addresses(domains@, domains@.len() as int)),
            address_views(out@) == all_addresses(domains@, d as int),
        decreases domains.len() - d,
    {
        let domain = &domains[d];
        let mut u: usize = 0;
        let ghost before = address_views(out@);
        assert(before + domain_addresses(*domain, 0) =~= before);
        while u < domain.users.len()
            invariant
                d < domains.len(),
                *domain == domains@[d as int],
                u <= domain.users.len(),
                before == all_addresses(domains@, d as int),
                all_valid(all_addresses(domains@, domains@.len() as int)),
                address_views(out@) == before + domain_addresses(*domain, u as int),
            decreases domain.users.len() - u,
        {
            let text = join(&domain.users[u], &domain.name);
            proof {
                let rest = domain_addresses(*domain, domain.users@.len() as int);
                lemma_domain_addresses(*domain, u as int, domain.users@.len() as int);
                lemma_later_addresses(domains@, d as int + 1, domains@.len() as int);
                let upto = all_addresses(domains@, d as int + 1);
                let all = all_addresses(domains@, domains@.len() as int);
                let at = before.len() + u;
                assert(upto[at] == rest[u as int]);
                assert(all[at] == text@);
                assert(is_email_address(text@));
            }
            let ghost views = address_views(out@);
            match MailAddress::parse(text.as_str()) {
                Some(address) => {
                    out.push(address);
                    assert(address_views(out@) =~= views.push(text@));
                    assert(views.push(text@) =~= before + domain_addresses(*domain, u + 1));
                },
                None => {},
            }
            u += 1;
        }
        d += 1;
    }
    out
}

/// The addresses that the configuration names, if every one of them is a
/// mail address, and nothing if one is not.
pub fn checked_addresses(domains: &Vec<DomainCfg>) -> (out: Option<Vec<MailAddress>>)
    ensures
        out is Some <==> all_valid(all_addresses(domains@, domains@.len() as int)),
        out matches Some(addresses) ==> address_views(addresses@) == all_addresses(
            domains@,
            domains@.len() as int,
        ),
{
    if addresses_are_valid(domains) {
        Some(get_all_addresses(domains))
    } else {
        None
    }
}

} // verus!
