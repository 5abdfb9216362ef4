//! Boot-drive bookkeeping. The filesystem probing itself — which drive
//! letters exist, which marker files and folders they hold — is done by the
//! caller and handed in as one probe record per letter; this module decides
//! which probes constitute a usable boot drive for a mode and keeps the
//! resulting list and the currently selected drive.

use vstd::prelude::*;
use vstd::string::*;
use crate::mode::PluginMode;

verus! {

/// One recognized boot drive: its letter (with colon) and a version label.
pub struct BootDrive {
    pub letter: String,
    pub version: String,
}

/// The mathematical value of a boot drive.
#[verifier::ext_equal]
pub struct DriveData {
    pub letter: Seq<char>,
    pub version: Seq<char>,
}

impl View for BootDrive {
    type V = DriveData;

    open spec fn view(&self) -> DriveData {
        DriveData { letter: self.letter@, version: self.version@ }
    }
}

pub open spec fn drive_views(s: Seq<BootDrive>) -> Seq<DriveData> {
    s.map_values(|d: BootDrive| d@)
}

impl Clone for BootDrive {
    fn clone(&self) -> (r: Self)
        ensures
            r == *self,
    {
        BootDrive { letter: self.letter.clone(), version: self.version.clone() }
    }
}

/// What the caller found on one drive letter: whether the boot marker files
/// (the configuration file and the image) are both present, the version
/// read from that configuration if it could be read, and whether the mode's
/// own plugin folder exists.
pub struct DriveProbe {
    pub letter: String,
    pub has_boot_marker: bool,
    pub marker_version: Option<String>,
    pub has_mode_folder: bool,
}

/// The drive a probe yields for a mode, if any. The first mode requires the
/// marker files and a readable version; the other two accept their own
/// folder outright and otherwise fall back to a marker-file drive under a
/// compatibility label, whether or not its version could be read.
pub open spec fn spec_classify_drive(mode: PluginMode, p: DriveProbe) -> Option<DriveData> {
    match mode {
        PluginMode::CloudPE => {
            if p.has_boot_marker && p.marker_version is Some {
                Some(DriveData { letter: p.letter@, version: p.marker_version->Some_0@ })
            } else {
                None
            }
        },
        PluginMode::HotPE => {
            if p.has_mode_folder {
                Some(DriveData { letter: p.letter@, version: "HotPE"@ })
            } else if p.has_boot_marker {
                Some(DriveData { letter: p.letter@, version: "Cloud-PE (HotPE兼容)"@ })
            } else {
                None
            }
        },
        PluginMode::Edgeless => {
            if p.has_mode_folder {
                Some(DriveData { letter: p.letter@, version: "Edgeless"@ })
            } else if p.has_boot_marker {
                Some(DriveData { letter: p.letter@, version: "Cloud-PE (Edgeless兼容)"@ })
            } else {
                None
            }
        },
        PluginMode::Select => None,
    }
}

/// Classifies one probed drive letter.
pub fn classify_drive(mode: PluginMode, probe: &DriveProbe) -> (r: Option<BootDrive>)
    ensures
        match r {
            Some(d) => spec_classify_drive(mode, *probe) == Some(d@),
            None => spec_classify_drive(mode, *probe) is None,
        },
{
    match mode {
        PluginMode::CloudPE => {
            if probe.has_boot_marker {
                match &probe.marker_version {
                    Some(v) => Some(
                        BootDrive { letter: probe.letter.clone(), version: v.clone() },
                    ),
                    None => None,
                }
            } else {
                None
            }
        },
        PluginMode::HotPE => {
            if probe.has_mode_folder {
                Some(
                    BootDrive {
                        letter: probe.letter.clone(),
                        version: String::from_str("HotPE"),
                    },
                )
            } else if probe.has_boot_marker {
                Some(
                    BootDrive {
                        letter: probe.letter.clone(),
                        version: String::from_str("Cloud-PE (HotPE兼容)"),
                    },
                )
            } else {
                None
            }
        },
        PluginMode::Edgeless => {
            if probe.has_mode_folder {
                Some(
                    BootDrive {
                        letter: probe.letter.clone(),
                        version: String::from_str("Edgeless"),
                    },
                )
            } else if probe.has_boot_marker {
                Some(
                    BootDrive {
                        letter: probe.letter.clone(),
                        version: String::from_str("Cloud-PE (Edgeless兼容)"),
                    },
                )
            } else {
                None
            }
        },
        PluginMode::Select => None,
    }
}

/// The drives that a sequence of probes yields, in probe order.
pub open spec fn spec_scan_drives(mode: PluginMode, probes: Seq<DriveProbe>) -> Seq<DriveData>
    decreases probes.len(),
{
    if probes.len() == 0 {
        Seq::empty()
    } else {
        let pre = spec_scan_drives(mode, probes.drop_last());
        match spec_classify_drive(mode, probes.last()) {
            Some(d) => pre.push(d),
            None => pre,
        }
    }
}

/// The list of recognized boot drives for one mode, and the drive currently
/// selected.
pub struct BootDriveManager {
    boot_drives: Vec<BootDrive>,
    current_drive: Option<String>,
    mode: PluginMode,
}

impl BootDriveManager {
    pub closed spec fn spec_drives(self) -> Seq<DriveData> {
        drive_views(self.boot_drives@)
    }

    pub closed spec fn spec_current(self) -> Option<Seq<char>> {
        match self.current_drive {
            Some(s) => Some(s@),
            None => None,
        }
    }

    pub closed spec fn spec_mode(self) -> PluginMode {
        self.mode
    }

    /// A manager with no drives found yet and none selected.
    pub fn new(mode: PluginMode) -> (r: Self)
        ensures
            r.spec_mode() == mode,
            r.spec_drives().len() == 0,
            r.spec_current() is None,
    {
        let r = BootDriveManager { boot_drives: Vec::new(), current_drive: None, mode };
        assert(r.spec_drives() =~= Seq::<DriveData>::empty());
        r
    }

    /// The drives the given probes yield for this manager's mode.
    pub fn scan_boot_drives(&self, probes: &Vec<DriveProbe>) -> (r: Vec<BootDrive>)
        ensures
            drive_views(r@) == spec_scan_drives(self.spec_mode(), probes@),
    {
        let mode: PluginMode = self.mode;
        let mut r: Vec<BootDrive> = Vec::new();
        let mut i: usize = 0;
        assert(drive_views(r@) =~= spec_scan_drives(mode, probes@.subrange(0, 0)));
        while i < probes.len()
            invariant
                i <= probes@.len(),
                mode == self.spec_mode(),
                drive_views(r@) == spec_scan_drives(mode, probes@.subrange(0, i as int)),
            decreases probes@.len() - i,
        {
            let ghost pre_sub = probes@.subrange(0, i as int);
            let ghost post_sub = probes@.subrange(0, i + 1 as int);
            assert(post_sub.drop_last() =~= pre_sub);
            assert(post_sub.last() == probes@[i as int]);
            match classify_drive(mode, &probes[i]) {
                Some(d) => {
                    let ghost old_rv = drive_views(r@);
                    r.push(d);
                    assert(drive_views(r@) =~= old_rv.push(r@.last()@));
                },
                None => {},
            }
            i = i + 1;
        }
        assert(probes@.subrange(0, probes@.len() as int) =~= probes@);
        r
    }

    /// A copy of the recognized drives.
    pub fn get_all_drives(&self) -> (r: Vec<BootDrive>)
        ensures
            drive_views(r@) == self.spec_drives(),
    {
        let mut r: Vec<BootDrive> = Vec::new();
        let mut i: usize = 0;
        assert(drive_views(r@) =~= self.spec_drives().subrange(0, 0));
        while i < self.boot_drives.len()
            invariant
                i <= self.boot_drives@.len(),
                self.spec_drives().len() == self.boot_drives@.len(),
                drive_views(r@) == self.spec_drives().subrange(0, i as int),
            decreases self.boot_drives@.len() - i,
        {
            let ghost old_rv = drive_views(r@);
            r.push(self.boot_drives[i].clone());
            i = i + 1;
            assert(drive_views(r@) =~= old_rv.push(self.spec_drives()[i - 1]));
            assert(drive_views(r@) =~= self.spec_drives().subrange(0, i as int));
        }
        assert(self.spec_drives().subrange(0, self.spec_drives().len() as int)
            =~= self.spec_drives());
        r
    }

    /// The currently selected drive letter, if one is set.
    pub fn get_current_drive(&self) -> (r: Option<String>)
        ensures
            match r {
                Some(s) => self.spec_current() == Some(s@),
                None => self.spec_current() is None,
            },
    {
        match &self.current_drive {
            Some(s) => Some(s.clone()),
            None => None,
        }
    }

    /// Selects a drive.
    pub fn set_current_drive(&mut self, drive: String)
        ensures
            final(self).spec_current() == Some(drive@),
            final(self).spec_drives() == old(self).spec_drives(),
            final(self).spec_mode() == old(self).spec_mode(),
    {
        self.current_drive = Some(drive);
    }

    /// Replaces the drive list with what the given probes yield.
    pub fn reload(&mut self, probes: &Vec<DriveProbe>)
        ensures
            final(self).spec_drives() == spec_scan_drives(old(self).spec_mode(), probes@),
            final(self).spec_current() == old(self).spec_current(),
            final(self).spec_mode() == old(self).spec_mode(),
    {
        let scanned: Vec<BootDrive> = self.scan_boot_drives(probes);
        self.boot_drives = scanned;
    }
}

} // verus!
