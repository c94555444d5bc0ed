//! What this machine knows about itself.
use vstd::prelude::*;

verus! {

/// This machine as the tool presents it: its address, the port it receives
/// on, the name it announces, and where received files are saved.
#[derive(Debug)]
pub struct CurrentClientInfo {
    pub local_ip: String,
    pub port: u16,
    pub name: String,
    pub save_path: String,
}

impl Clone for CurrentClientInfo {
    fn clone(&self) -> (c: Self)
        ensures
            c == *self,
    {
        CurrentClientInfo {
            local_ip: self.local_ip.clone(),
            port: self.port,
            name: self.name.clone(),
            save_path: self.save_path.clone(),
        }
    }
}

} // verus!
