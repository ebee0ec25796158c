//! Service configuration: where to listen, which services to watch, the
//! GitHub token and the users whose stats may be served.

pub mod themes;

use vstd::prelude::*;

pub use themes::{Theme, Themes};

verus! {

/// Which IP stacks to listen on.
#[derive(Debug, Clone, Copy, PartialEq, Eq, Structural)]
pub enum ListenStack {
    V4,
    V6,
    Both,
}

/// `a` and `b` hold the same characters.
pub fn same_text(a: &str, b: &str) -> (r: bool)
    ensures
        r == (a@ == b@),
{
    let x = String::from_str(a);
    let y = String::from_str(b);
    x == y
}

impl ListenStack {
    /// The stack named in the configuration: "ipv4", "ipv6" or "both"; any
    /// other name selects IPv4.
    pub fn from_name(name: &str) -> (r: ListenStack)
        ensures
            r == (if name@ == "ipv6"@ {
                ListenStack::V6
            } else if name@ == "both"@ {
                ListenStack::Both
            } else {
                ListenStack::V4
            }),
    {
        if same_text(name, "ipv6") {
            ListenStack::V6
        } else if same_text(name, "both") {
            ListenStack::Both
        } else {
            ListenStack::V4
        }
    }
}

/// The service configuration.
#[derive(Clone)]
pub struct Config {
    /// default both (IPv4 and IPv6)
    pub listen_stack: ListenStack,
    /// default 8080
    pub listen_port: u16,
    /// systemd services to report on
    pub services: Vec<String>,
    /// token for the GitHub API
    pub github_api_token: String,
    /// users whose GitHub stats may be served; anyone when empty
    pub allow_users: Vec<String>,
}

/// The listen port used when none is configured.
pub const DEFAULT_LISTEN_PORT: u16 = 8080;

impl Config {
    /// Whether stats of `user` may be served: the allow list is empty or
    /// names the user.
    pub fn allows_user(&self, user: &str) -> (r: bool)
        ensures
            r == (self.allow_users@.len() == 0 || exists|i: int|
                0 <= i < self.allow_users@.len() && #[trigger] self.allow_users@[i]@ == user@),
    {
        if self.allow_users.len() == 0 {
            return true;
        }
        let wanted = String::from_str(user);
        let mut i: usize = 0;
        while i < self.allow_users.len()
            invariant
                i <= self.allow_users@.len(),
                wanted@ == user@,
                forall|j: int| 0 <= j < i ==> #[trigger] self.allow_users@[j]@ != user@,
            decreases self.allow_users@.len() - i,
        {
            if self.allow_users[i] == wanted {
                return true;
            }
            i = i + 1;
        }
        false
    }
}

} // verus!
