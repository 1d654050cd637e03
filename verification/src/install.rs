//! The orchestrated install: validate, prepare, extract, link, done.
//!
//! One [`InstallFlow`] walks the linear state machine of a structured
//! payload install. The host performs each step's outside work (creating
//! the directory tree, extracting the archive, materializing shortcuts) and
//! reports the outcome; the flow decides what follows, hands out the
//! milestone progress values of the single report stream, and derives the
//! shortcut targets. Any failure before linking aborts the whole flow.

use vstd::prelude::*;

use crate::errors::InstallError;
use crate::paths::{desktop_shortcut_path, start_menu_shortcut_path};
use crate::paths::{desktop_shortcut_path_spec, start_menu_shortcut_path_spec};
use crate::progress::{lemma_le_same_den, monotone, Progress};
use crate::shortcuts::ShortcutPlan;

verus! {

/// The stage an install flow stands before.
#[derive(Debug, Clone, Copy, PartialEq, Eq, Structural)]
pub enum InstallStage {
    /// The installer payload has not been checked yet.
    Validating,
    /// The install directory tree is being created.
    Preparing,
    /// The payload is being extracted into the install directory.
    Extracting,
    /// Shortcuts are being created.
    Linking,
    /// The install completed; the final progress value went out.
    Done,
}

/// The milestone reported after the install directory stands.
pub open spec fn prepare_progress() -> Progress {
    Progress { num: 10, den: 100 }
}

/// The milestone reported after extraction.
pub open spec fn extract_progress() -> Progress {
    Progress { num: 85, den: 100 }
}

/// The final progress value of a successful install.
pub open spec fn done_progress() -> Progress {
    Progress { num: 100, den: 100 }
}

/// One orchestrated install of a structured payload.
pub struct InstallFlow {
    install_dir: String,
    exe_name: String,
    app_name: String,
    create_desktop: bool,
    create_start_menu: bool,
    stage: InstallStage,
    emitted: Ghost<Seq<Progress>>,
}

impl InstallFlow {
    /// The target install directory.
    pub closed spec fn install_dir(self) -> Seq<char> {
        self.install_dir@
    }

    /// The name of the executable the payload provides.
    pub closed spec fn exe_name(self) -> Seq<char> {
        self.exe_name@
    }

    /// The display name shortcuts are derived from.
    pub closed spec fn app_name(self) -> Seq<char> {
        self.app_name@
    }

    /// Whether a desktop shortcut was requested.
    pub closed spec fn create_desktop(self) -> bool {
        self.create_desktop
    }

    /// Whether a start-menu shortcut was requested.
    pub closed spec fn create_start_menu(self) -> bool {
        self.create_start_menu
    }

    /// The stage the flow stands before.
    pub closed spec fn stage(self) -> InstallStage {
        self.stage
    }

    /// Every progress value handed out so far, oldest first.
    pub closed spec fn emitted(self) -> Seq<Progress> {
        self.emitted@
    }

    /// The report stream matches the stage reached.
    pub closed spec fn wf(self) -> bool {
        match self.stage {
            InstallStage::Validating => self.emitted@ =~= Seq::<Progress>::empty(),
            InstallStage::Preparing => self.emitted@ =~= Seq::<Progress>::empty(),
            InstallStage::Extracting => self.emitted@ =~= seq![prepare_progress()],
            InstallStage::Linking => self.emitted@ =~= seq![prepare_progress(), extract_progress()],
            InstallStage::Done => self.emitted@ =~= seq![
                prepare_progress(),
                extract_progress(),
                done_progress(),
            ],
        }
    }

    /// The request is immutable for the duration of the flow.
    pub open spec fn same_request(self, other: InstallFlow) -> bool {
        &&& self.install_dir() == other.install_dir()
        &&& self.exe_name() == other.exe_name()
        &&& self.app_name() == other.app_name()
        &&& self.create_desktop() == other.create_desktop()
        &&& self.create_start_menu() == other.create_start_menu()
    }

    /// Start an install flow for one request.
    pub fn new(
        install_dir: String,
        exe_name: String,
        app_name: String,
        create_desktop: bool,
        create_start_menu: bool,
    ) -> (f: InstallFlow)
        ensures
            f.wf(),
            f.stage() == InstallStage::Validating,
            f.install_dir() == install_dir@,
            f.exe_name() == exe_name@,
            f.app_name() == app_name@,
            f.create_desktop() == create_desktop,
            f.create_start_menu() == create_start_menu,
            f.emitted() =~= Seq::<Progress>::empty(),
    {
        InstallFlow {
            install_dir,
            exe_name,
            app_name,
            create_desktop,
            create_start_menu,
            stage: InstallStage::Validating,
            emitted: Ghost(Seq::empty()),
        }
    }

    /// Check that the installer payload exists. A missing payload aborts
    /// the flow before anything is touched.
    pub fn validate(&mut self, installer_exists: bool) -> (r: Result<(), InstallError>)
        requires
            old(self).wf(),
            old(self).stage() == InstallStage::Validating,
        ensures
            final(self).wf(),
            old(self).same_request(*final(self)),
            final(self).emitted() == old(self).emitted(),
            !installer_exists ==> r == Err::<(), InstallError>(InstallError::InstallerNotFound)
                && final(self).stage() == InstallStage::Validating,
            installer_exists ==> r == Ok::<(), InstallError>(()) && final(self).stage()
                == InstallStage::Preparing,
    {
        if installer_exists {
            self.stage = InstallStage::Preparing;
            Ok(())
        } else {
            Err(InstallError::InstallerNotFound)
        }
    }

    /// Record whether the host could create the install directory tree.
    /// On success the first milestone is due for report.
    pub fn prepared(&mut self, dir_created: bool) -> (r: Result<Progress, InstallError>)
        requires
            old(self).wf(),
            old(self).stage() == InstallStage::Preparing,
        ensures
            final(self).wf(),
            old(self).same_request(*final(self)),
            !dir_created ==> r == Err::<Progress, InstallError>(InstallError::IoError)
                && final(self).stage() == InstallStage::Preparing
                && final(self).emitted() == old(self).emitted(),
            dir_created ==> r == Ok::<Progress, InstallError>(prepare_progress())
                && final(self).stage() == InstallStage::Extracting
                && final(self).emitted() =~= old(self).emitted().push(prepare_progress()),
    {
        if dir_created {
            self.stage = InstallStage::Extracting;
            proof {
                self.emitted@ = self.emitted@.push(prepare_progress());
            }
            Ok(Progress { num: 10, den: 100 })
        } else {
            Err(InstallError::IoError)
        }
    }

    /// Record whether the host could extract the payload into the install
    /// directory. On success the extraction milestone is due for report.
    pub fn extracted(&mut self, extract_ok: bool) -> (r: Result<Progress, InstallError>)
        requires
            old(self).wf(),
            old(self).stage() == InstallStage::Extracting,
        ensures
            final(self).wf(),
            old(self).same_request(*final(self)),
            !extract_ok ==> r == Err::<Progress, InstallError>(InstallError::ExtractError)
                && final(self).stage() == InstallStage::Extracting
                && final(self).emitted() == old(self).emitted(),
            extract_ok ==> r == Ok::<Progress, InstallError>(extract_progress())
                && final(self).stage() == InstallStage::Linking
                && final(self).emitted() =~= old(self).emitted().push(extract_progress()),
    {
        if extract_ok {
            self.stage = InstallStage::Linking;
            proof {
                self.emitted@ = self.emitted@.push(extract_progress());
            }
            Ok(Progress { num: 85, den: 100 })
        } else {
            Err(InstallError::ExtractError)
        }
    }

    /// The executable every shortcut of this install points at:
    /// `exe_name` inside the install directory.
    pub fn exe_path(&self, sep: &str) -> (r: String)
        ensures
            r@ == self.install_dir() + sep@ + self.exe_name(),
    {
        let mut r = self.install_dir.clone();
        r.append(sep);
        r.append(self.exe_name.as_str());
        r
    }

    /// Lay out the linking step: which shortcuts to create, pointing at the
    /// installed executable and working in the install directory. A
    /// requested shortcut whose base directory cannot be resolved is
    /// skipped silently; it never fails the install.
    pub fn link_plan(
        &self,
        desktop_dir: Option<&str>,
        appdata_dir: Option<&str>,
        sep: &str,
    ) -> (p: ShortcutPlan)
        requires
            self.wf(),
            self.stage() == InstallStage::Linking,
        ensures
            p.target@ == self.install_dir() + sep@ + self.exe_name(),
            p.working_dir@ == self.install_dir(),
            (match (self.create_desktop(), desktop_dir) {
                (true, Some(d)) => p.desktop_shortcut matches Some(s) && s@
                    == desktop_shortcut_path_spec(d@, sep@, self.app_name()),
                _ => p.desktop_shortcut is None,
            }),
            (match (self.create_start_menu(), appdata_dir) {
                (true, Some(a)) => p.start_menu_shortcut matches Some(s) && s@
                    == start_menu_shortcut_path_spec(a@, sep@, self.app_name()),
                _ => p.start_menu_shortcut is None,
            }),
    {
        let desktop_shortcut = if self.create_desktop {
            match desktop_dir {
                Some(d) => Some(desktop_shortcut_path(d, sep, self.app_name.as_str())),
                None => None,
            }
        } else {
            None
        };
        let start_menu_shortcut = if self.create_start_menu {
            match appdata_dir {
                Some(a) => Some(start_menu_shortcut_path(a, sep, self.app_name.as_str())),
                None => None,
            }
        } else {
            None
        };
        ShortcutPlan {
            target: self.exe_path(sep),
            working_dir: self.install_dir.clone(),
            desktop_shortcut,
            start_menu_shortcut,
        }
    }

    /// Close the flow: the final progress value of the single successful
    /// report stream is due.
    pub fn finish(&mut self) -> (p: Progress)
        requires
            old(self).wf(),
            old(self).stage() == InstallStage::Linking,
        ensures
            final(self).wf(),
            old(self).same_request(*final(self)),
            final(self).stage() == InstallStage::Done,
            p == done_progress(),
            p.is_complete(),
            final(self).emitted() =~= seq![prepare_progress(), extract_progress(), done_progress()],
    {
        self.stage = InstallStage::Done;
        proof {
            self.emitted@ = self.emitted@.push(done_progress());
            assert(self.emitted@ =~= seq![
                prepare_progress(),
                extract_progress(),
                done_progress(),
            ]);
        }
        Progress { num: 100, den: 100 }
    }
}

/// Within one orchestrated install the progress values are non-decreasing,
/// and a completed flow's last value equals one.
pub proof fn lemma_install_stream_shape(f: InstallFlow)
    requires
        f.wf(),
    ensures
        monotone(f.emitted()),
        f.stage() == InstallStage::Done ==> f.emitted().len() > 0 && f.emitted().last().is_complete(),
{
    assert forall|i: int, j: int|
        0 <= i <= j < f.emitted().len() implies #[trigger] f.emitted()[i].le(
        #[trigger] f.emitted()[j],
    ) by {
        lemma_le_same_den(f.emitted()[i], f.emitted()[j]);
    }
}

} // verus!
