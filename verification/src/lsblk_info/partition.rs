use vstd::prelude::*;
use crate::defs::{MigError, MigErrorKind};
use crate::lsblk_info::result_params::{
    field_opt_path, field_str, field_uint, lookup, opt_view, ResultParams,
};
use crate::text::{push_str, str_eq, to_string};

verus! {

/// What a partition is, as plain values.
pub struct PartitionView {
    pub name: Seq<char>,
    pub kname: Seq<char>,
    pub maj_min: Seq<char>,
    pub ro: bool,
    pub uuid: Option<Seq<char>>,
    pub fstype: Option<Seq<char>>,
    pub mountpoint: Option<Seq<char>>,
    pub label: Option<Seq<char>>,
    pub part_table_type: Seq<char>,
    pub part_entry_type: Seq<char>,
    pub partuuid: Option<Seq<char>>,
    pub size: nat,
    pub index: nat,
}

/// A partition as `lsblk` and `udevadm` describe it.
#[derive(Debug)]
pub struct Partition {
    pub name: String,
    pub kname: String,
    pub maj_min: String,
    pub ro: bool,
    pub uuid: Option<String>,
    pub fstype: Option<String>,
    pub mountpoint: Option<String>,
    pub label: Option<String>,
    pub part_table_type: String,
    pub part_entry_type: String,
    pub partuuid: Option<String>,
    pub size: u64,
    pub index: u16,
}

impl View for Partition {
    type V = PartitionView;

    open spec fn view(&self) -> PartitionView {
        PartitionView {
            name: self.name@,
            kname: self.kname@,
            maj_min: self.maj_min@,
            ro: self.ro,
            uuid: opt_view(self.uuid),
            fstype: opt_view(self.fstype),
            mountpoint: opt_view(self.mountpoint),
            label: opt_view(self.label),
            part_table_type: self.part_table_type@,
            part_entry_type: self.part_entry_type@,
            partuuid: opt_view(self.partuuid),
            size: self.size as nat,
            index: self.index as nat,
        }
    }
}

/// The first missing or malformed mandatory parameter of a partition, in the order the
/// parameters are read: the lsblk ones, then the udev ones.
pub open spec fn partition_error(
    l: Seq<(Seq<char>, Seq<char>)>,
    u: Seq<(Seq<char>, Seq<char>)>,
) -> Option<MigErrorKind> {
    if field_str(l, "NAME"@) is Err {
        Some(MigErrorKind::NotFound)
    } else if field_str(l, "KNAME"@) is Err {
        Some(MigErrorKind::NotFound)
    } else if field_str(l, "MAJ:MIN"@) is Err {
        Some(MigErrorKind::NotFound)
    } else if field_uint(l, "SIZE"@, u64::MAX as nat) is Err {
        Some(field_uint(l, "SIZE"@, u64::MAX as nat)->Err_0)
    } else if field_str(l, "RO"@) is Err {
        Some(MigErrorKind::NotFound)
    } else if field_str(u, "ID_PART_TABLE_TYPE"@) is Err {
        Some(MigErrorKind::NotFound)
    } else if field_str(u, "ID_PART_ENTRY_TYPE"@) is Err {
        Some(MigErrorKind::NotFound)
    } else if field_uint(u, "ID_PART_ENTRY_NUMBER"@, u16::MAX as nat) is Err {
        Some(field_uint(u, "ID_PART_ENTRY_NUMBER"@, u16::MAX as nat)->Err_0)
    } else {
        None
    }
}

/// The partition described by the lsblk parameters `l` and the udev parameters `u`, when
/// `partition_error` finds nothing wrong with them.
pub open spec fn partition_from(
    l: Seq<(Seq<char>, Seq<char>)>,
    u: Seq<(Seq<char>, Seq<char>)>,
) -> PartitionView {
    PartitionView {
        name: field_str(l, "NAME"@)->Ok_0,
        kname: field_str(l, "KNAME"@)->Ok_0,
        maj_min: field_str(l, "MAJ:MIN"@)->Ok_0,
        ro: field_str(l, "RO"@)->Ok_0 == seq!['1'],
        uuid: lookup(l, "UUID"@),
        fstype: lookup(l, "FSTYPE"@),
        mountpoint: field_opt_path(l, "MOUNTPOINT"@),
        label: lookup(l, "LABEL"@),
        part_table_type: field_str(u, "ID_PART_TABLE_TYPE"@)->Ok_0,
        part_entry_type: field_str(u, "ID_PART_ENTRY_TYPE"@)->Ok_0,
        partuuid: lookup(u, "ID_PART_ENTRY_UUID"@),
        size: field_uint(l, "SIZE"@, u64::MAX as nat)->Ok_0,
        index: field_uint(u, "ID_PART_ENTRY_NUMBER"@, u16::MAX as nat)->Ok_0,
    }
}

/// `/dev/` followed by a device name.
pub open spec fn dev_path(name: Seq<char>) -> Seq<char> {
    "/dev/"@ + name
}

/// Builds `/dev/<name>`.
pub fn dev_path_of(name: &str) -> (r: String)
    ensures
        r@ == dev_path(name@),
{
    let mut r = to_string("/dev/");
    push_str(&mut r, name);
    r
}

impl Partition {
    /// The partition that an `lsblk` line and the `udevadm` properties of the same device
    /// describe.
    pub fn new(lsblk_result: &ResultParams, udev_result: &ResultParams) -> (r: Result<Partition, MigError>)
        ensures
            match r {
                Ok(p) => partition_error(lsblk_result@, udev_result@).is_none() && p@ == partition_from(
                    lsblk_result@,
                    udev_result@,
                ),
                Err(e) => partition_error(lsblk_result@, udev_result@) == Some(e.kind),
            },
    {
        let name = to_string(lsblk_result.get_str("NAME")?);
        let kname = to_string(lsblk_result.get_str("KNAME")?);
        let maj_min = to_string(lsblk_result.get_str("MAJ:MIN")?);
        let uuid = lsblk_result.get_opt_str("UUID");
        let size = lsblk_result.get_u64("SIZE")?;
        let label = lsblk_result.get_opt_str("LABEL");
        let mountpoint = lsblk_result.get_opt_pathbuf("MOUNTPOINT");
        let fstype = lsblk_result.get_opt_str("FSTYPE");
        let ro_str = lsblk_result.get_str("RO")?;
        let ro = str_eq(ro_str, "1");
        proof {
            reveal_strlit("1");
            assert("1"@ =~= seq!['1']);
        }
        let part_table_type = to_string(udev_result.get_str("ID_PART_TABLE_TYPE")?);
        let part_entry_type = to_string(udev_result.get_str("ID_PART_ENTRY_TYPE")?);
        let partuuid = udev_result.get_opt_str("ID_PART_ENTRY_UUID");
        let index = udev_result.get_u16("ID_PART_ENTRY_NUMBER")?;
        Ok(Partition {
            name,
            kname,
            maj_min,
            ro,
            uuid,
            fstype,
            mountpoint,
            label,
            part_table_type,
            part_entry_type,
            partuuid,
            size,
            index,
        })
    }

    /// The partition that `lsblk` reports for a partition device, given as the single result
    /// of that query and the `udevadm` properties of the device.
    pub fn from_path(lsblk_results: &Vec<ResultParams>, udev_result: &ResultParams) -> (r: Result<Partition, MigError>)
        ensures
            lsblk_results@.len() != 1 ==> r == Err::<Partition, MigError>(MigError { kind: MigErrorKind::InvParam }),
            lsblk_results@.len() == 1 ==> match field_str(udev_result@, "DEVTYPE"@) {
                Err(k) => r == Err::<Partition, MigError>(MigError { kind: k }),
                Ok(t) => if t == "partition"@ {
                    match r {
                        Ok(p) => partition_error(lsblk_results@[0]@, udev_result@).is_none()
                            && p@ == partition_from(lsblk_results@[0]@, udev_result@),
                        Err(e) => partition_error(lsblk_results@[0]@, udev_result@) == Some(e.kind),
                    }
                } else {
                    r == Err::<Partition, MigError>(MigError { kind: MigErrorKind::InvParam })
                },
            },
    {
        if lsblk_results.len() == 1 {
            let dev_type = udev_result.get_str("DEVTYPE")?;
            if str_eq(dev_type, "partition") {
                Partition::new(&lsblk_results[0], udev_result)
            } else {
                Err(MigError::from_kind(MigErrorKind::InvParam))
            }
        } else {
            Err(MigError::from_kind(MigErrorKind::InvParam))
        }
    }

    /// The device path of the partition, `/dev/<name>`.
    pub fn get_path(&self) -> (r: String)
        ensures
            r@ == dev_path(self.name@),
    {
        dev_path_of(self.name.as_str())
    }
}

} // verus!
