//! Log review that reports leak categories without echoing values.
use vstd::prelude::*;
use crate::text::{lower, contains, lower_chars, contains_str};

verus! {

/// A kind of sensitive value found in a log line.
#[derive(Debug, Clone, Copy, PartialEq, Eq, Structural)]
pub enum LogLeak {
    Address,
    Signature,
    PrivacyField,
}

/// The leak categories of a line, in category order, matched without regard
/// to ASCII case.
pub open spec fn leaks_of(line: Seq<char>) -> Seq<LogLeak> {
    let l = lower(line);
    let address = contains(l, "wallet_address"@) || contains(l, "account_address"@);
    let signature = contains(l, "signature"@) || contains(l, "signed_transaction"@);
    let privacy = contains(l, "privacy_mode"@) || contains(l, "fingerprint"@) || contains(l, "private_key"@);
    (if address { seq![LogLeak::Address] } else { Seq::empty() })
        + (if signature { seq![LogLeak::Signature] } else { Seq::empty() })
        + (if privacy { seq![LogLeak::PrivacyField] } else { Seq::empty() })
}

/// Scans one log line and returns only the categories of what leaked.
pub fn scan_log_line(line: &str) -> (leaks: Vec<LogLeak>)
    ensures
        leaks@ == leaks_of(line@),
{
    let l = lower_chars(line);
    let address = contains_str(&l, "wallet_address") || contains_str(&l, "account_address");
    let signature = contains_str(&l, "signature") || contains_str(&l, "signed_transaction");
    let privacy = contains_str(&l, "privacy_mode") || contains_str(&l, "fingerprint") || contains_str(
        &l,
        "private_key",
    );
    let mut leaks: Vec<LogLeak> = Vec::new();
    if address {
        leaks.push(LogLeak::Address);
    }
    let ghost a = leaks@;
    if signature {
        leaks.push(LogLeak::Signature);
    }
    let ghost b = leaks@;
    if privacy {
        leaks.push(LogLeak::PrivacyField);
    }
    proof {
        let sa: Seq<LogLeak> = if address { seq![LogLeak::Address] } else { Seq::empty() };
        let sb: Seq<LogLeak> = if signature { seq![LogLeak::Signature] } else { Seq::empty() };
        let sc: Seq<LogLeak> = if privacy { seq![LogLeak::PrivacyField] } else { Seq::empty() };
        assert(a == sa);
        assert(b == sa + sb);
        assert(leaks@ == sa + sb + sc);
    }
    leaks
}

} // verus!
