//! What the status page reports: the host, the package and the state of the
//! watched services.

use vstd::prelude::*;

verus! {

/// Name, version and home page of this package.
#[derive(Debug, Default)]
pub struct PkgInfo {
    pub name: String,
    pub version: String,
    pub homepage: String,
}

/// The host's `uname` fields.
#[derive(Debug, Default)]
pub struct MyUtsName {
    pub sysname: String,
    pub nodename: String,
    pub release: String,
    pub version: String,
    pub machine: String,
    pub domainname: String,
}

impl MyUtsName {
    /// The fields separated by single spaces, in `uname -a` order.
    pub fn as_string(&self) -> (r: String)
        ensures
            r@ == self.sysname@ + " "@ + self.nodename@ + " "@ + self.release@ + " "@ + self.version@ + " "@
                + self.machine@ + " "@ + self.domainname@,
    {
        let mut r = self.sysname.clone();
        r.append(" ");
        r.append(self.nodename.as_str());
        r.append(" ");
        r.append(self.release.as_str());
        r.append(" ");
        r.append(self.version.as_str());
        r.append(" ");
        r.append(self.machine.as_str());
        r.append(" ");
        r.append(self.domainname.as_str());
        r
    }
}

/// The state of a systemd service.
#[derive(Debug, Clone, Copy, PartialEq, Eq, Structural)]
pub enum ServiceStatus {
    Active,
    Error,
    Unknown,
}

impl ServiceStatus {
    pub open spec fn name_spec(self) -> Seq<char> {
        match self {
            ServiceStatus::Active => "Active"@,
            ServiceStatus::Error => "Error"@,
            ServiceStatus::Unknown => "Unknown"@,
        }
    }

    /// The status as shown to users.
    pub fn as_str(&self) -> (r: &'static str)
        ensures
            r@ == self.name_spec(),
    {
        match self {
            ServiceStatus::Active => "Active",
            ServiceStatus::Error => "Error",
            ServiceStatus::Unknown => "Unknown",
        }
    }
}

/// A watched service and what `systemctl status` said of it.
#[derive(Debug)]
pub struct Service {
    pub name: String,
    pub status: ServiceStatus,
    pub output: String,
}

impl Service {
    /// The report for a `systemctl status` run that finished: active with
    /// its standard output when it succeeded, in error with its standard
    /// error otherwise.
    pub fn from_exit(name: &str, success: bool, stdout: String, stderr: String) -> (r: Service)
        ensures
            r.name@ == name@,
            r.status == (if success { ServiceStatus::Active } else { ServiceStatus::Error }),
            r.output@ == (if success { stdout@ } else { stderr@ }),
    {
        if success {
            Service { name: String::from_str(name), status: ServiceStatus::Active, output: stdout }
        } else {
            Service { name: String::from_str(name), status: ServiceStatus::Error, output: stderr }
        }
    }

    /// The report for a `systemctl status` run that could not be started.
    pub fn unknown(name: &str, error: &str) -> (r: Service)
        ensures
            r.name@ == name@,
            r.status == ServiceStatus::Unknown,
            r.output@ == "systemctl status "@ + name@ + " running error: "@ + error@,
    {
        let mut output = String::from_str("systemctl status ");
        output.append(name);
        output.append(" running error: ");
        output.append(error);
        Service { name: String::from_str(name), status: ServiceStatus::Unknown, output }
    }
}

} // verus!
