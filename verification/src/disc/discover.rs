//! The service under which peers announce themselves, and the names used in
//! the announcement.
use vstd::prelude::*;
use crate::text::{decimal, push_decimal};

verus! {

/// The mDNS service type the tool announces and browses for.
pub open spec fn service_type_text() -> Seq<char> {
    seq![
        '_', 'i', 'n', 't', 'r', 'a', 'n', 'e', 't', '-', 's', 'h', 'a', 'r', 'e', '.', '_', 't',
        'c', 'p', '.', 'l', 'o', 'c', 'a', 'l', '.',
    ]
}

/// The mDNS service type the tool announces and browses for.
pub fn service_type() -> (s: String)
    ensures
        s@ == service_type_text(),
{
    let s = "_intranet-share._tcp.local.".to_string();
    proof {
        reveal_strlit("_intranet-share._tcp.local.");
    }
    assert(s@ =~= service_type_text());
    s
}

/// The host name announced for the instance `name`: `name.local.`.
pub fn service_host_name(name: &String) -> (s: String)
    ensures
        s@ == name@ + seq!['.', 'l', 'o', 'c', 'a', 'l', '.'],
{
    let mut s = name.clone();
    s.append(".local.");
    proof {
        reveal_strlit(".local.");
    }
    assert(s@ =~= name@ + seq!['.', 'l', 'o', 'c', 'a', 'l', '.']);
    s
}

/// The property announced with the service: `update_at`, the time of the
/// announcement in seconds since the Unix epoch.
pub fn update_property(now_secs: u64) -> (p: (String, String))
    ensures
        p.0@ == seq!['u', 'p', 'd', 'a', 't', 'e', '_', 'a', 't'],
        p.1@ == decimal(now_secs as nat),
{
    let key = "update_at".to_string();
    proof {
        reveal_strlit("update_at");
    }
    let mut value = String::new();
    push_decimal(&mut value, now_secs);
    assert(value@ =~= decimal(now_secs as nat));
    assert(key@ =~= seq!['u', 'p', 'd', 'a', 't', 'e', '_', 'a', 't']);
    (key, value)
}

} // verus!
