use vstd::prelude::*;
use crate::defs::{MigError, MigErrorKind};
use crate::fs_writer::FlashResult;
use crate::paths::{join, path_join};
use crate::stage2::Mounts;

verus! {

/// The memory the second stage keeps free beyond the files it copies to RAM: 32 MiB.
pub const STAGE2_MEM_THRESHOLD: u64 = 33554432;

/// The name of the second stage's log file.
pub const MIGRATE_LOG_FILE: &'static str = "migrate.log";

/// The RAM directory the second stage copies its files to.
pub const MIGRATE_TEMP_DIR: &'static str = "/migrate_tmp";

/// The name of the copied balena OS image.
pub const BALENA_IMAGE_FILE: &'static str = "balenaOS.img.gz";

/// How the second stage ends when it gives up: reboot into the old system, or stop in a
/// rescue shell.
#[derive(Debug, Clone, Copy, PartialEq, Eq, Structural)]
pub enum FailMode {
    Reboot,
    RescueShell,
}

/// What the second stage has decided so far: whether the old system can still boot.
#[derive(Debug)]
pub struct Stage2 {
    pub recoverable_state: bool,
    pub fail_mode: FailMode,
}

/// The memory that the files copied to RAM take: the image, the configuration, the backup
/// where there is one, and the network manager files.
pub open spec fn copy_size(image: u64, config: u64, backup: Option<u64>, nwmgr: Seq<u64>) -> int
    decreases nwmgr.len(),
{
    if nwmgr.len() == 0 {
        image + config + match backup {
            Some(b) => b as int,
            None => 0,
        }
    } else {
        copy_size(image, config, backup, nwmgr.drop_last()) + nwmgr.last()
    }
}

impl Stage2 {
    /// A second stage that starts out unrecoverable, with the configured fail mode.
    pub fn new(fail_mode: FailMode) -> (r: Stage2)
        ensures
            !r.recoverable_state,
            r.fail_mode == fail_mode,
    {
        Stage2 { recoverable_state: false, fail_mode }
    }

    /// Whether the watchdog handler is started: only for a non-empty list of watchdogs.
    pub fn watchdogs_needed(count: Option<usize>) -> (r: bool)
        ensures
            r == (count matches Some(n) && n > 0),
    {
        match count {
            Some(n) => n > 0,
            None => false,
        }
    }

    /// Where the second stage keeps its log: in the log directory where one is mounted; else in
    /// the work directory, where the image is not flashed or the work files stay where they
    /// are; else nowhere.
    pub fn log_file(mounts: &Mounts, no_flash: bool) -> (r: Option<String>)
        ensures
            match mounts.log_path {
                Some(l) => r matches Some(f) && f@ == path_join(l@, MIGRATE_LOG_FILE@),
                None => match mounts.work_path {
                    Some(w) => if no_flash || mounts.work_no_copy {
                        r matches Some(f) && f@ == path_join(w@, MIGRATE_LOG_FILE@)
                    } else {
                        r is None
                    },
                    None => r is None,
                },
            },
    {
        match mounts.get_log_path() {
            Some(l) => Some(join(l, MIGRATE_LOG_FILE)),
            None => {
                if no_flash || mounts.is_work_no_copy() {
                    match mounts.get_work_path() {
                        Some(w) => Some(join(w, MIGRATE_LOG_FILE)),
                        None => None,
                    }
                } else {
                    None
                }
            },
        }
    }

    /// Records whether the old boot configuration was restored: then a reboot gets back to the
    /// old system.
    pub fn boot_restored(&mut self, restored: bool)
        ensures
            final(self).recoverable_state == (old(self).recoverable_state || restored),
            final(self).fail_mode == old(self).fail_mode,
    {
        if restored {
            self.recoverable_state = true;
        }
    }

    /// Records that balena OS got its configuration and network connections: from then on a
    /// reboot gets into balena OS.
    pub fn balena_configured(&mut self)
        ensures
            final(self).recoverable_state,
            final(self).fail_mode == old(self).fail_mode,
    {
        self.recoverable_state = true;
    }

    /// The memory the files to copy to RAM take.
    pub fn required_copy_size(image: u64, config: u64, backup: Option<u64>, nwmgr: &[u64]) -> (r: u64)
        requires
            copy_size(image, config, backup, nwmgr@) <= u64::MAX,
        ensures
            r == copy_size(image, config, backup, nwmgr@),
    {
        proof {
            lemma_copy_size_mono(image, config, backup, nwmgr@, 0);
        }
        let mut r: u64 = image + config;
        match backup {
            Some(b) => {
                r = r + b;
            },
            None => {},
        }
        assert(r == copy_size(image, config, backup, nwmgr@.take(0)));
        let mut k: usize = 0;
        while k < nwmgr.len()
            invariant
                k <= nwmgr@.len(),
                copy_size(image, config, backup, nwmgr@) <= u64::MAX,
                r == copy_size(image, config, backup, nwmgr@.take(k as int)),
            decreases nwmgr.len() - k,
        {
            proof {
                assert(nwmgr@.take(k + 1).drop_last() =~= nwmgr@.take(k as int));
                lemma_copy_size_mono(image, config, backup, nwmgr@, k + 1);
            }
            r = r + nwmgr[k];
            k = k + 1;
        }
        assert(nwmgr@.take(nwmgr@.len() as int) =~= nwmgr@);
        r
    }

    /// Whether the files are copied to RAM: not when the work directory lies on another drive;
    /// else the available memory must exceed what they take by the threshold.
    pub fn copy_to_ram(work_no_copy: bool, mem: Result<(u64, u64), MigError>, required: u64) -> (r: Result<
        bool,
        MigError,
    >)
        ensures
            work_no_copy ==> r == Ok::<bool, MigError>(false),
            !work_no_copy ==> match mem {
                Err(_) => r == Err::<bool, MigError>(MigError { kind: MigErrorKind::Displayed }),
                Ok((_tot, avail)) => if avail > required + STAGE2_MEM_THRESHOLD {
                    r == Ok::<bool, MigError>(true)
                } else {
                    r == Err::<bool, MigError>(MigError { kind: MigErrorKind::InvState })
                },
            },
    {
        if work_no_copy {
            return Ok(false);
        }
        match mem {
            Err(_) => Err(MigError::displayed()),
            Ok((_tot, avail)) => {
                if required <= avail && avail - required > STAGE2_MEM_THRESHOLD {
                    Ok(true)
                } else {
                    Err(MigError::from_kind(MigErrorKind::InvState))
                }
            },
        }
    }

    /// Where the image to flash is: in the work directory when the files were not copied and
    /// the work directory is known, else in the RAM directory.
    pub fn image_path(mounts: &Mounts, image_rel_path: &str) -> (r: String)
        ensures
            r@ == if mounts.work_no_copy && mounts.work_path is Some {
                path_join(mounts.work_path->0@, image_rel_path@)
            } else {
                path_join(MIGRATE_TEMP_DIR@, BALENA_IMAGE_FILE@)
            },
    {
        if mounts.is_work_no_copy() {
            match mounts.get_work_path() {
                Some(w) => join(w, image_rel_path),
                None => join(MIGRATE_TEMP_DIR, BALENA_IMAGE_FILE),
            }
        } else {
            join(MIGRATE_TEMP_DIR, BALENA_IMAGE_FILE)
        }
    }

    /// Records how writing balena OS ended.
    pub fn flashed(&mut self, result: FlashResult) -> (r: Result<(), MigError>)
        ensures
            final(self).fail_mode == old(self).fail_mode,
            match result {
                FlashResult::Success => r is Ok && final(self).recoverable_state == old(self).recoverable_state,
                FlashResult::FailRecoverable => r == Err::<(), MigError>(MigError { kind: MigErrorKind::Displayed })
                    && final(self).recoverable_state,
                FlashResult::FailNonRecoverable => r == Err::<(), MigError>(MigError { kind: MigErrorKind::Displayed })
                    && !final(self).recoverable_state,
            },
    {
        match result {
            FlashResult::Success => Ok(()),
            FlashResult::FailRecoverable => {
                self.recoverable_state = true;
                Err(MigError::displayed())
            },
            FlashResult::FailNonRecoverable => {
                self.recoverable_state = false;
                Err(MigError::displayed())
            },
        }
    }

    /// How the second stage ends after an error: as configured while the old system can still
    /// boot, else in a rescue shell.
    pub fn error_exit(&self) -> (r: FailMode)
        ensures
            r == if self.recoverable_state {
                self.fail_mode
            } else {
                FailMode::RescueShell
            },
    {
        if self.recoverable_state {
            self.fail_mode
        } else {
            FailMode::RescueShell
        }
    }
}

/// The steps of the second stage, in order.
#[derive(Debug, Clone, Copy, PartialEq, Eq, Structural)]
pub enum Stage2Step {
    /// Mount the former boot partition and the work and log locations.
    MountLocations,
    /// Put back the boot files that the first stage changed.
    RestoreBoot,
    /// Copy the migration files to RAM where that is needed.
    SecureFiles,
    /// Unmount what lies on the disk about to be written.
    UnmountBoot,
    /// Flash the image, or partition, format and fill the disk.
    WriteBalena,
    /// Give balena OS its configuration and network connections.
    ConfigureBalena,
}

/// How a step ended: it did its work, it failed, or (writing balena OS) it ended so.
#[derive(Debug, Clone, Copy, PartialEq, Eq, Structural)]
pub enum Stage2Outcome {
    Done,
    Failed,
    Written(FlashResult),
}

/// What the second stage does next: run a step, reboot (the migration is through, or the disk
/// is not to be flashed), or give up and end as the fail mode says.
#[derive(Debug, Clone, Copy, PartialEq, Eq, Structural)]
pub enum Stage2Action {
    Run(Stage2Step),
    Reboot,
    GiveUp(FailMode),
}

/// How the second stage ends after an error in a state (see `error_exit`).
pub open spec fn exit_mode(recoverable: bool, fail_mode: FailMode) -> FailMode {
    if recoverable {
        fail_mode
    } else {
        FailMode::RescueShell
    }
}

/// The step after a step that succeeded, for the steps whose failure ends the second stage.
pub open spec fn step_after(step: Stage2Step, no_flash: bool) -> Stage2Action {
    match step {
        Stage2Step::MountLocations => Stage2Action::Run(Stage2Step::RestoreBoot),
        Stage2Step::RestoreBoot => Stage2Action::Run(Stage2Step::SecureFiles),
        Stage2Step::SecureFiles => Stage2Action::Run(Stage2Step::UnmountBoot),
        Stage2Step::UnmountBoot => if no_flash {
            Stage2Action::Reboot
        } else {
            Stage2Action::Run(Stage2Step::WriteBalena)
        },
        Stage2Step::WriteBalena => Stage2Action::Run(Stage2Step::ConfigureBalena),
        Stage2Step::ConfigureBalena => Stage2Action::Reboot,
    }
}

impl Stage2 {
    /// The first step of the second stage.
    pub fn first_step() -> (r: Stage2Action)
        ensures
            r == Stage2Action::Run(Stage2Step::MountLocations),
    {
        Stage2Action::Run(Stage2Step::MountLocations)
    }

    /// Decides what follows a step from how it ended. A failed restore of the boot files is
    /// tolerated; writing balena OS ends as `flashed` records it; balena OS with its
    /// configuration makes a reboot safe; any other failure ends the second stage as
    /// `error_exit` says.
    pub fn next(&mut self, step: Stage2Step, outcome: Stage2Outcome, no_flash: bool) -> (r: Stage2Action)
        ensures
            final(self).fail_mode == old(self).fail_mode,
            step == Stage2Step::RestoreBoot ==> r == Stage2Action::Run(Stage2Step::SecureFiles)
                && final(self).recoverable_state == (old(self).recoverable_state || outcome == Stage2Outcome::Done),
            step == Stage2Step::WriteBalena ==> match outcome {
                Stage2Outcome::Done | Stage2Outcome::Written(FlashResult::Success) => r == Stage2Action::Run(
                    Stage2Step::ConfigureBalena,
                ) && final(self).recoverable_state == old(self).recoverable_state,
                Stage2Outcome::Written(FlashResult::FailRecoverable) => final(self).recoverable_state && r
                    == Stage2Action::GiveUp(old(self).fail_mode),
                Stage2Outcome::Written(FlashResult::FailNonRecoverable) => !final(self).recoverable_state && r
                    == Stage2Action::GiveUp(FailMode::RescueShell),
                Stage2Outcome::Failed => final(self).recoverable_state == old(self).recoverable_state && r
                    == Stage2Action::GiveUp(exit_mode(old(self).recoverable_state, old(self).fail_mode)),
            },
            step != Stage2Step::RestoreBoot && step != Stage2Step::WriteBalena ==> if outcome == Stage2Outcome::Done {
                &&& r == step_after(step, no_flash)
                &&& final(self).recoverable_state == (old(self).recoverable_state || step
                    == Stage2Step::ConfigureBalena)
            } else {
                &&& r == Stage2Action::GiveUp(exit_mode(old(self).recoverable_state, old(self).fail_mode))
                &&& final(self).recoverable_state == old(self).recoverable_state
            },
    {
        match step {
            Stage2Step::RestoreBoot => {
                let restored = match outcome {
                    Stage2Outcome::Done => true,
                    _ => false,
                };
                self.boot_restored(restored);
                Stage2Action::Run(Stage2Step::SecureFiles)
            },
            Stage2Step::WriteBalena => match outcome {
                Stage2Outcome::Written(result) => match self.flashed(result) {
                    Ok(()) => Stage2Action::Run(Stage2Step::ConfigureBalena),
                    Err(_) => Stage2Action::GiveUp(self.error_exit()),
                },
                Stage2Outcome::Done => Stage2Action::Run(Stage2Step::ConfigureBalena),
                Stage2Outcome::Failed => Stage2Action::GiveUp(self.error_exit()),
            },
            _ => match outcome {
                Stage2Outcome::Done => match step {
                    Stage2Step::MountLocations => Stage2Action::Run(Stage2Step::RestoreBoot),
                    Stage2Step::SecureFiles => Stage2Action::Run(Stage2Step::UnmountBoot),
                    Stage2Step::UnmountBoot => if no_flash {
                        Stage2Action::Reboot
                    } else {
                        Stage2Action::Run(Stage2Step::WriteBalena)
                    },
                    _ => {
                        self.balena_configured();
                        Stage2Action::Reboot
                    },
                },
                _ => Stage2Action::GiveUp(self.error_exit()),
            },
        }
    }
}

proof fn lemma_copy_size_mono(image: u64, config: u64, backup: Option<u64>, s: Seq<u64>, k: int)
    requires
        0 <= k <= s.len(),
    ensures
        copy_size(image, config, backup, s.take(k)) <= copy_size(image, config, backup, s),
        image + config <= copy_size(image, config, backup, s.take(k)),
        copy_size(image, config, backup, s.take(0)) == image + config + match backup {
            Some(b) => b as int,
            None => 0,
        },
    decreases s.len() - k,
{
    assert(s.take(0) =~= Seq::<u64>::empty());
    if k < s.len() {
        lemma_copy_size_mono(image, config, backup, s, k + 1);
        assert(s.take(k + 1).drop_last() =~= s.take(k));
    } else {
        assert(s.take(k) =~= s);
    }
    lemma_copy_size_base(image, config, backup, s.take(k));
}

proof fn lemma_copy_size_base(image: u64, config: u64, backup: Option<u64>, s: Seq<u64>)
    ensures
        image + config <= copy_size(image, config, backup, s),
    decreases s.len(),
{
    if s.len() > 0 {
        lemma_copy_size_base(image, config, backup, s.drop_last());
    }
}

} // verus!
