//! Players as game servers report them.
use vstd::prelude::*;

verus! {

/// A player as a game server reports it: UUID, nick, first and last IP.
pub struct UserEntity {
    pub uuid: String,
    pub nick: String,
    pub first_ip: Option<String>,
    pub last_ip: String,
}

/// The columns of a bulk update of players: their UUIDs, last IPs and
/// nicks, each in the order of the reports.
pub fn update_columns(body: &Vec<UserEntity>) -> (cols: (Vec<String>, Vec<String>, Vec<String>))
    ensures
        cols.0@.len() == body@.len(),
        cols.1@.len() == body@.len(),
        cols.2@.len() == body@.len(),
        forall|i: int| 0 <= i < body@.len() ==> {
            &&& (#[trigger] cols.0@[i])@ == body@[i].uuid@
            &&& cols.1@[i]@ == body@[i].last_ip@
            &&& cols.2@[i]@ == body@[i].nick@
        },
{
    let mut uuids: Vec<String> = Vec::new();
    let mut last_ips: Vec<String> = Vec::new();
    let mut nicks: Vec<String> = Vec::new();
    let mut i: usize = 0;
    while i < body.len()
        invariant
            i <= body@.len(),
            uuids@.len() == i,
            last_ips@.len() == i,
            nicks@.len() == i,
            forall|j: int| 0 <= j < i ==> (#[trigger] uuids@[j])@ == body@[j].uuid@,
            forall|j: int| 0 <= j < i ==> (#[trigger] last_ips@[j])@ == body@[j].last_ip@,
            forall|j: int| 0 <= j < i ==> (#[trigger] nicks@[j])@ == body@[j].nick@,
        decreases body@.len() - i,
    {
        uuids.push(body[i].uuid.clone());
        last_ips.push(body[i].last_ip.clone());
        nicks.push(body[i].nick.clone());
        i = i + 1;
    }
    (uuids, last_ips, nicks)
}

} // verus!
