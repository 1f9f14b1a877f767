//! Saved connection profiles: where to connect and as whom. A credential is
//! never part of a profile; persistence of the list is the caller's
//! business, the dedup rule for saving is decided here.

use vstd::prelude::*;

use crate::strutil::str_eq;

verus! {

/// The mathematical model of a profile.
pub struct SSHConnectionDataV {
    pub hostname: Seq<char>,
    pub username: Seq<char>,
    pub port: u16,
}

/// A saved connection profile.
#[derive(Debug, Clone, PartialEq)]
pub struct SSHConnectionData {
    pub hostname: String,
    pub username: String,
    pub port: u16,
}

impl View for SSHConnectionData {
    type V = SSHConnectionDataV;

    open spec fn view(&self) -> SSHConnectionDataV {
        SSHConnectionDataV { hostname: self.hostname@, username: self.username@, port: self.port }
    }
}

/// The views of a sequence of profiles.
pub open spec fn profile_views(s: Seq<SSHConnectionData>) -> Seq<SSHConnectionDataV> {
    s.map_values(|p: SSHConnectionData| p@)
}

/// Whether a list already holds this profile.
pub open spec fn contains_profile_spec(
    list: Seq<SSHConnectionDataV>,
    c: SSHConnectionDataV,
) -> bool {
    exists|i: int| 0 <= i < list.len() && list[i] == c
}

/// Whether two profiles name the same connection.
pub fn same_profile(a: &SSHConnectionData, b: &SSHConnectionData) -> (r: bool)
    ensures
        r == (a@ == b@),
{
    let hosts = str_eq(a.hostname.as_str(), b.hostname.as_str());
    let users = str_eq(a.username.as_str(), b.username.as_str());
    hosts && users && a.port == b.port
}

/// Whether an equal profile is already in the list.
pub fn contains_profile(list: &Vec<SSHConnectionData>, c: &SSHConnectionData) -> (r: bool)
    ensures
        r == contains_profile_spec(profile_views(list@), c@),
{
    let n = list.len();
    let mut i: usize = 0;
    while i < n
        invariant
            i <= n,
            n == list@.len(),
            forall|j: int| 0 <= j < i ==> profile_views(list@)[j] != c@,
        decreases n - i,
    {
        if same_profile(&list[i], c) {
            proof {
                assert(profile_views(list@)[i as int] == c@);
            }
            return true;
        }
        i = i + 1;
    }
    false
}

/// Save a profile unless an equal one is already in the list: the list
/// grows by exactly that profile, or stays exactly as it was. Returns
/// whether it was added.
pub fn add_profile(list: &mut Vec<SSHConnectionData>, c: SSHConnectionData) -> (added: bool)
    ensures
        added == !contains_profile_spec(profile_views(old(list)@), c@),
        added ==> final(list)@ == old(list)@.push(c),
        !added ==> final(list)@ == old(list)@,
{
    if contains_profile(list, &c) {
        false
    } else {
        list.push(c);
        true
    }
}

} // verus!
