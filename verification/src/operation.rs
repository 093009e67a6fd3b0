//! The profile selection held between user actions: which installation,
//! source version and profile, and destination version and profile a copy
//! will use. The selection is replaced piece by piece as choices arrive
//! and is "ready" exactly when all five pieces are present.
//!
//! Outside work — showing a folder picker, scanning a directory, running a
//! copy — is not performed here: `update` answers each message with the
//! command the caller should carry out, and the caller reports results
//! back through `set_install` and `set_copy_logs`.

use vstd::prelude::*;
use crate::wow::{Install, Version, Wtf};

verus! {

/// The state one copy operation is chosen through.
pub struct Operation {
    pub install: Option<Install>,
    pub src_ver: Option<Version>,
    pub src_wtf: Option<Wtf>,
    pub dst_ver: Option<Version>,
    pub dst_wtf: Option<Wtf>,
    pub copy_logs: Option<Vec<String>>,
}

/// One user action on the selection.
pub enum Message {
    /// Choose a (new) installation directory.
    Install,
    /// Choose the source version.
    SrcVer(Version),
    /// Choose the source profile.
    SrcWtf(Wtf),
    /// Choose the destination version.
    DstVer(Version),
    /// Choose the destination profile.
    DstWtf(Wtf),
    /// Run the copy for the current selection.
    Copy,
    /// Clear the source choice.
    ResetSrc,
    /// Clear the destination choice.
    ResetDst,
}

/// The outside work a message asks the caller to perform.
#[derive(Clone, Copy, Debug, PartialEq, Eq, Structural)]
pub enum Command {
    /// Nothing to do beyond the state change already made.
    Nothing,
    /// Let the user pick an installation directory, scan it, and hand the
    /// result to `set_install`.
    PickInstall,
    /// Run the copy engine on the current selection and hand the
    /// transcript to `set_copy_logs`.
    RunCopy,
}

impl Operation {
    /// A selection with nothing chosen yet.
    pub fn new() -> (r: Operation)
        ensures
            r.install is None,
            r.src_ver is None,
            r.src_wtf is None,
            r.dst_ver is None,
            r.dst_wtf is None,
            r.copy_logs is None,
    {
        Operation {
            install: None,
            src_ver: None,
            src_wtf: None,
            dst_ver: None,
            dst_wtf: None,
            copy_logs: None,
        }
    }

    /// A copy may run exactly when the installation and all four
    /// source/destination choices are present.
    pub open spec fn spec_ready(&self) -> bool {
        &&& self.install is Some
        &&& self.src_ver is Some
        &&& self.src_wtf is Some
        &&& self.dst_ver is Some
        &&& self.dst_wtf is Some
    }

    /// Whether the selection is complete.
    pub fn is_ready(&self) -> (r: bool)
        ensures
            r == self.spec_ready(),
    {
        self.install.is_some() && self.src_ver.is_some() && self.src_wtf.is_some()
            && self.dst_ver.is_some() && self.dst_wtf.is_some()
    }

    /// Applies one user action to the selection and names the outside work
    /// it calls for. Choosing a version or profile records it; a reset
    /// clears the respective pair; `Install` and `Copy` change nothing here
    /// and are answered with the command to carry out.
    pub fn update(&mut self, message: Message) -> (cmd: Command)
        ensures
            final(self).install == old(self).install,
            final(self).copy_logs == old(self).copy_logs,
            match message {
                Message::Install => cmd == Command::PickInstall && *final(self) == *old(self),
                Message::Copy => cmd == Command::RunCopy && *final(self) == *old(self),
                Message::ResetSrc => cmd == Command::Nothing && final(self).src_ver is None
                    && final(self).src_wtf is None && final(self).dst_ver == old(self).dst_ver
                    && final(self).dst_wtf == old(self).dst_wtf,
                Message::ResetDst => cmd == Command::Nothing && final(self).dst_ver is None
                    && final(self).dst_wtf is None && final(self).src_ver == old(self).src_ver
                    && final(self).src_wtf == old(self).src_wtf,
                Message::SrcVer(v) => cmd == Command::Nothing && final(self).src_ver == Some(v)
                    && final(self).src_wtf == old(self).src_wtf && final(self).dst_ver == old(self).dst_ver && final(self).dst_wtf == old(self).dst_wtf,
                Message::DstVer(v) => cmd == Command::Nothing && final(self).dst_ver == Some(v)
                    && final(self).src_ver == old(self).src_ver && final(self).src_wtf == old(self).src_wtf && final(self).dst_wtf == old(self).dst_wtf,
                Message::SrcWtf(w) => cmd == Command::Nothing && final(self).src_wtf == Some(w)
                    && final(self).src_ver == old(self).src_ver && final(self).dst_ver == old(self).dst_ver && final(self).dst_wtf == old(self).dst_wtf,
                Message::DstWtf(w) => cmd == Command::Nothing && final(self).dst_wtf == Some(w)
                    && final(self).src_ver == old(self).src_ver && final(self).src_wtf == old(self).src_wtf && final(self).dst_ver == old(self).dst_ver,
            },
    {
        match message {
            Message::Install => Command::PickInstall,
            Message::Copy => Command::RunCopy,
            Message::ResetSrc => {
                self.src_ver = None;
                self.src_wtf = None;
                Command::Nothing
            },
            Message::ResetDst => {
                self.dst_ver = None;
                self.dst_wtf = None;
                Command::Nothing
            },
            Message::SrcVer(v) => {
                self.src_ver = Some(v);
                Command::Nothing
            },
            Message::DstVer(v) => {
                self.dst_ver = Some(v);
                Command::Nothing
            },
            Message::SrcWtf(w) => {
                self.src_wtf = Some(w);
                Command::Nothing
            },
            Message::DstWtf(w) => {
                self.dst_wtf = Some(w);
                Command::Nothing
            },
        }
    }

    /// Delivers the outcome of picking and scanning an installation
    /// directory. A successful scan replaces the installation and clears
    /// every version and profile choice; a failed pick changes nothing.
    pub fn set_install(&mut self, inst: Option<Install>) -> (changed: bool)
        ensures
            final(self).copy_logs == old(self).copy_logs,
            match inst {
                Some(i) => changed && final(self).install == Some(i) && final(self).src_ver is None
                    && final(self).src_wtf is None && final(self).dst_ver is None && final(self).dst_wtf is None,
                None => !changed && *final(self) == *old(self),
            },
    {
        match inst {
            Some(i) => {
                self.install = Some(i);
                self.src_ver = None;
                self.src_wtf = None;
                self.dst_ver = None;
                self.dst_wtf = None;
                true
            },
            None => false,
        }
    }

    /// Delivers the transcript of a finished copy run.
    pub fn set_copy_logs(&mut self, logs: Vec<String>) -> (r: ())
        ensures
            final(self).copy_logs == Some(logs),
            final(self).install == old(self).install,
            final(self).src_ver == old(self).src_ver,
            final(self).src_wtf == old(self).src_wtf,
            final(self).dst_ver == old(self).dst_ver,
            final(self).dst_wtf == old(self).dst_wtf,
    {
        self.copy_logs = Some(logs);
    }
}

/// The default installation directory for a platform, given the platform
/// name and, on Linux, the user's home directory. Platforms other than
/// these three have no default.
pub fn default_install_dir(os: &str, home: Option<&str>) -> (r: Option<String>)
    ensures
        os@ == "windows"@ ==> (r matches Some(d) && d@
            == "C:\\Program Files (x86)\\World of Warcraft"@),
        os@ == "macos"@ ==> (r matches Some(d) && d@ == "/Applications/World of Warcraft"@),
        os@ == "linux"@ ==> match home {
            Some(h) => (r matches Some(d) && d@ == h@
                + "/Games/battlenet/drive_c/Program Files (x86)/World of Warcraft"@),
            None => r is None,
        },
        os@ != "windows"@ && os@ != "macos"@ && os@ != "linux"@ ==> r is None,
{
    proof {
        reveal_strlit("windows");
        reveal_strlit("macos");
        reveal_strlit("linux");
        assert("windows"@.len() == 7);
        assert("macos"@.len() == 5);
        assert("linux"@.len() == 5);
        assert("macos"@[0] == 'm');
        assert("linux"@[0] == 'l');
        assert("macos"@ != "windows"@);
        assert("linux"@ != "windows"@);
        assert("macos"@ != "linux"@);
    }
    if crate::classify::str_eq(os, "windows") {
        Some(String::from_str("C:\\Program Files (x86)\\World of Warcraft"))
    } else if crate::classify::str_eq(os, "macos") {
        Some(String::from_str("/Applications/World of Warcraft"))
    } else if crate::classify::str_eq(os, "linux") {
        match home {
            Some(h) => {
                let mut d = h.to_owned();
                d.append("/Games/battlenet/drive_c/Program Files (x86)/World of Warcraft");
                Some(d)
            },
            None => None,
        }
    } else {
        None
    }
}

} // verus!
