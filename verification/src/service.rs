//! The parameters of the netsim daemon's service.

use vstd::prelude::*;

verus! {

/// How the daemon was started.
pub struct ServiceParams {
    pub fd_startup_str: String,
    pub no_cli_ui: bool,
    pub no_web_ui: bool,
    pub hci_port: u16,
    pub instance_num: u16,
    pub dev: bool,
    pub vsock: u16,
}

impl ServiceParams {
    /// The parameters, as given.
    pub fn new(
        fd_startup_str: String,
        no_cli_ui: bool,
        no_web_ui: bool,
        hci_port: u16,
        instance_num: u16,
        dev: bool,
        vsock: u16,
    ) -> (r: Self)
        ensures
            r.fd_startup_str == fd_startup_str,
            r.no_cli_ui == no_cli_ui,
            r.no_web_ui == no_web_ui,
            r.hci_port == hci_port,
            r.instance_num == instance_num,
            r.dev == dev,
            r.vsock == vsock,
    {
        ServiceParams { fd_startup_str, no_cli_ui, no_web_ui, hci_port, instance_num, dev, vsock }
    }
}

} // verus!
