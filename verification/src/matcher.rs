//! Line matcher: recognizes authentication-failure lines by an ordered
//! list of patterns and extracts the offending address text.  The first
//! pattern that matches wins; a line matching none yields nothing.

use vstd::prelude::*;

verus! {

/// The address text that the invalid-user pattern captures in `line`, if
/// it matches: `sshd[...]: Invalid user ... from <addr>`.
pub uninterp spec fn invalid_user_capture_of(line: Seq<char>) -> Option<Seq<char>>;

/// The address text that the failed-auth pattern captures in `line`, if it
/// matches: `sshd[...]: Failed ... for ... from <addr> port`.
pub uninterp spec fn failed_capture_of(line: Seq<char>) -> Option<Seq<char>>;

/// The address text that the preauth-disconnect pattern captures in
/// `line`, if it matches: `sshd[...]: Received disconnect from <addr>: ...
/// [preauth]`.
pub uninterp spec fn disconnect_capture_of(line: Seq<char>) -> Option<Seq<char>>;

/// Relies on `regex::Regex::captures` with the fixed invalid-user pattern:
/// the first match's named capture depends on the line alone.
#[verifier::external_body]
fn capture_invalid_user(line: &str) -> (r: Option<String>)
    ensures
        r is Some <==> invalid_user_capture_of(line@) is Some,
        r is Some ==> r.unwrap()@ == invalid_user_capture_of(line@).unwrap(),
{
    let re = match regex::Regex::new(r"sshd\[\d+\]: Invalid user (\w+) from (?P<addr>.+)") {
        Ok(re) => re,
        Err(_) => return None,
    };
    re.captures(line).and_then(|c| c.name("addr")).map(|m| m.as_str().to_string())
}

/// Relies on `regex::Regex::captures` with the fixed failed-auth pattern:
/// the first match's named capture depends on the line alone.
#[verifier::external_body]
fn capture_failed(line: &str) -> (r: Option<String>)
    ensures
        r is Some <==> failed_capture_of(line@) is Some,
        r is Some ==> r.unwrap()@ == failed_capture_of(line@).unwrap(),
{
    let re = match regex::Regex::new(
        r"sshd\[\d+\]: Failed (.+) for( invalid user)? (\w+) from (?P<addr>.+) port",
    ) {
        Ok(re) => re,
        Err(_) => return None,
    };
    re.captures(line).and_then(|c| c.name("addr")).map(|m| m.as_str().to_string())
}

/// Relies on `regex::Regex::captures` with the fixed preauth-disconnect
/// pattern: the first match's named capture depends on the line alone.
#[verifier::external_body]
fn capture_disconnect(line: &str) -> (r: Option<String>)
    ensures
        r is Some <==> disconnect_capture_of(line@) is Some,
        r is Some ==> r.unwrap()@ == disconnect_capture_of(line@).unwrap(),
{
    let re = match regex::Regex::new(
        r"sshd\[\d+\]: Received disconnect from (?P<addr>.+?):.+\[preauth\]",
    ) {
        Ok(re) => re,
        Err(_) => return None,
    };
    re.captures(line).and_then(|c| c.name("addr")).map(|m| m.as_str().to_string())
}

/// The address text that `line` yields: the capture of the first pattern,
/// in order, that matches it.
pub open spec fn spec_matches(line: Seq<char>) -> Option<Seq<char>> {
    if invalid_user_capture_of(line) is Some {
        invalid_user_capture_of(line)
    } else if failed_capture_of(line) is Some {
        failed_capture_of(line)
    } else {
        disconnect_capture_of(line)
    }
}

/// Extracts the offending address text from a log line: the named capture
/// of the first recognized pattern that matches, or nothing for a line
/// that matches no pattern.
pub fn matches(line: &str) -> (r: Option<String>)
    ensures
        r is Some <==> spec_matches(line@) is Some,
        r is Some ==> r.unwrap()@ == spec_matches(line@).unwrap(),
{
    if let Some(s) = capture_invalid_user(line) {
        return Some(s);
    }
    if let Some(s) = capture_failed(line) {
        return Some(s);
    }
    capture_disconnect(line)
}

} // verus!