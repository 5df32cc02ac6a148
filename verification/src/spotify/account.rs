//! What kind of Spotify account is signed in.
//!
//! Playback needs Premium: Spotify refuses the audio key for anything else,
//! and undecryptable bytes are then streamed rather than an error reported,
//! which surfaces as a decode error several thousand log lines later. Recording
//! the account type at startup means a log answers "is this account Premium?"
//! without anyone having to ask the user.
use vstd::prelude::*;
use vstd::string::*;

use crate::text::{eq_ignore_ascii_case, folded, trim, trimmed};

verus! {

/// The `type` user attribute Spotify sends with product info.
#[derive(Debug, Clone, PartialEq, Eq)]
pub enum AccountType {
    Premium,
    /// A named non-Premium plan, e.g. `free`.
    Other(String),
    /// Product info never arrived, so Spotify never said. Not the same as
    /// knowing the account is not Premium.
    Unknown,
}

/// An account type with its text as a sequence of characters.
pub enum AccountView {
    Premium,
    Other(Seq<char>),
    Unknown,
}

impl View for AccountType {
    type V = AccountView;

    open spec fn view(&self) -> AccountView {
        match *self {
            AccountType::Premium => AccountView::Premium,
            AccountType::Other(plan) => AccountView::Other(plan@),
            AccountType::Unknown => AccountView::Unknown,
        }
    }
}

impl AccountType {
    /// Whether playback can work at all.
    pub fn can_play(&self) -> (r: bool)
        ensures
            r == !(self@ is Other),
    {
        // Unknown is not treated as broken: product info can lag the first
        // track, and calling a working account unplayable would be worse than
        // saying nothing.
        match self {
            AccountType::Other(_) => false,
            _ => true,
        }
    }
}

/// The account type that an attribute stands for.
pub open spec fn account_of(attribute: Option<&str>) -> AccountView {
    match attribute {
        None => AccountView::Unknown,
        Some(raw) => {
            let t = trimmed(raw@);
            if t.len() == 0 {
                AccountView::Unknown
            } else if folded(t) == folded("premium"@) {
                AccountView::Premium
            } else {
                AccountView::Other(t)
            }
        },
    }
}

/// Read the account type from Spotify's `type` attribute.
pub fn classify(attribute: Option<&str>) -> (r: AccountType)
    ensures
        r@ == account_of(attribute),
{
    match attribute {
        None => AccountType::Unknown,
        Some(raw) => {
            let t = trim(raw);
            if t.is_empty() {
                AccountType::Unknown
            } else if eq_ignore_ascii_case(t, "premium") {
                AccountType::Premium
            } else {
                AccountType::Other(t.to_owned())
            }
        },
    }
}

/// The line that describes an account.
pub open spec fn description(account: AccountView, country: Seq<char>) -> Seq<char> {
    let c = if country.len() == 0 {
        "unknown"@
    } else {
        country
    };
    match account {
        AccountView::Premium => "Spotify account: premium (country "@ + c + ")"@,
        AccountView::Other(plan) => "Spotify account: "@ + plan + " (country "@ + c
            + ") - playback needs premium, so tracks will fail to decrypt"@,
        AccountView::Unknown => "Spotify account: type not reported yet (country "@ + c + ")"@,
    }
}

/// One line for the log, naming the account type and country.
pub fn describe(account: &AccountType, country: &str) -> (r: String)
    ensures
        r@ == description(account@, country@),
{
    let c = if country.is_empty() {
        "unknown"
    } else {
        country
    };
    match account {
        AccountType::Premium => {
            let mut out = String::from_str("Spotify account: premium (country ");
            out.append(c);
            out.append(")");
            out
        },
        AccountType::Other(plan) => {
            let mut out = String::from_str("Spotify account: ");
            out.append(plan.as_str());
            out.append(" (country ");
            out.append(c);
            out.append(") - playback needs premium, so tracks will fail to decrypt");
            out
        },
        AccountType::Unknown => {
            let mut out = String::from_str("Spotify account: type not reported yet (country ");
            out.append(c);
            out.append(")");
            out
        },
    }
}

/// Only an account that is known not to be Premium cannot play, and its line
/// in the log is a warning.
pub proof fn an_unknown_account_is_not_broken()
    ensures
        account_of(None) == AccountView::Unknown,
        !(account_of(None) is Other),
{
}

/// The plan is recognised whatever its case, and only a plan that is named and
/// is another one counts as not Premium.
pub proof fn a_plan_is_recognised_in_any_case(one: &str, other: &str)
    requires
        folded(trimmed(one@)) == folded(trimmed(other@)),
    ensures
        account_of(Some(one)) is Premium <==> account_of(Some(other)) is Premium,
        account_of(Some(one)) is Unknown <==> trimmed(one@).len() == 0,
        account_of(Some(one)) matches AccountView::Other(plan) ==> plan == trimmed(one@)
            && plan.len() > 0,
{
    reveal_strlit("premium");
    assert(folded(trimmed(one@)).len() == trimmed(one@).len());
    assert(folded(trimmed(other@)).len() == trimmed(other@).len());
}

/// The line names the plan of an account that cannot play, and the country of
/// any; different countries are told apart.
pub proof fn an_account_is_described_by_its_plan(
    plan: Seq<char>,
    country: Seq<char>,
    account: AccountView,
    other: Seq<char>,
)
    requires
        country.len() > 0,
        other.len() > 0,
    ensures
        ("Spotify account: "@ + plan + " (country "@ + country + ")"@).is_prefix_of(
            description(AccountView::Other(plan), country),
        ),
        (country + ")"@).is_suffix_of(description(AccountView::Premium, country)),
        description(account, country) == description(account, other) ==> country == other,
{
    let a = description(AccountView::Other(plan), country);
    let front = "Spotify account: "@ + plan + " (country "@ + country + ")"@;
    reveal_strlit(")");
    reveal_strlit(") - playback needs premium, so tracks will fail to decrypt");
    assert(front =~= a.take(front.len() as int));
    let b = description(AccountView::Premium, country);
    let back = country + ")"@;
    assert(back =~= b.subrange(b.len() - back.len(), b.len() as int));
    let x = description(account, country);
    let y = description(account, other);
    if x == y {
        match account {
            AccountView::Premium => {
                let front = "Spotify account: premium (country "@;
                assert(x == front + country + ")"@);
                assert(y == front + other + ")"@);
                assert(x.len() == front.len() + country.len() + 1);
                assert(y.len() == front.len() + other.len() + 1);
            },
            AccountView::Other(p) => {
                let front = "Spotify account: "@ + p + " (country "@;
                let back = ") - playback needs premium, so tracks will fail to decrypt"@;
                assert(x == front + country + back);
                assert(y == front + other + back);
                assert(x.len() == front.len() + country.len() + back.len());
                assert(y.len() == front.len() + other.len() + back.len());
            },
            AccountView::Unknown => {
                let front = "Spotify account: type not reported yet (country "@;
                assert(x == front + country + ")"@);
                assert(y == front + other + ")"@);
                assert(x.len() == front.len() + country.len() + 1);
                assert(y.len() == front.len() + other.len() + 1);
            },
        }
        assert(country.len() == other.len());
        let n: int = match account {
            AccountView::Premium => "Spotify account: premium (country "@.len() as int,
            AccountView::Other(p) => ("Spotify account: "@ + p + " (country "@).len() as int,
            AccountView::Unknown => "Spotify account: type not reported yet (country "@.len() as int,
        };
        assert(x.subrange(n, n + country.len()) =~= country);
        assert(y.subrange(n, n + other.len()) =~= other);
    }
}

} // verus!
