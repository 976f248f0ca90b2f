use vstd::prelude::*;
use crate::defs::{MigError, MigErrorKind};
use crate::lsblk_info::partition::{
    dev_path, dev_path_of, partition_error, partition_from, Partition, PartitionView,
};
use crate::lsblk_info::result_params::{field_str, field_uint, lookup, opt_view, ResultParams};
use crate::text::{str_eq, to_string};

verus! {

/// What a block device is, as plain values.
pub struct BlockDeviceView {
    pub name: Seq<char>,
    pub kname: Seq<char>,
    pub maj_min: Seq<char>,
    pub uuid: Option<Seq<char>>,
    pub size: nat,
    pub children: Option<Seq<PartitionView>>,
}

/// A block device (a disk) and its partitions, as `lsblk` describes them.
#[derive(Debug)]
pub struct BlockDevice {
    pub name: String,
    pub kname: String,
    pub maj_min: String,
    pub uuid: Option<String>,
    pub size: u64,
    pub children: Option<Vec<Partition>>,
}

/// The views of a list of partitions.
pub open spec fn partitions_view(v: Seq<Partition>) -> Seq<PartitionView> {
    v.map_values(|p: Partition| p@)
}

impl View for BlockDevice {
    type V = BlockDeviceView;

    open spec fn view(&self) -> BlockDeviceView {
        BlockDeviceView {
            name: self.name@,
            kname: self.kname@,
            maj_min: self.maj_min@,
            uuid: opt_view(self.uuid),
            size: self.size as nat,
            children: match self.children {
                Some(c) => Some(partitions_view(c@)),
                None => None,
            },
        }
    }
}

/// The first missing or malformed mandatory parameter of a block device.
pub open spec fn block_device_error(l: Seq<(Seq<char>, Seq<char>)>) -> Option<MigErrorKind> {
    if field_str(l, "NAME"@) is Err {
        Some(MigErrorKind::NotFound)
    } else if field_str(l, "KNAME"@) is Err {
        Some(MigErrorKind::NotFound)
    } else if field_str(l, "MAJ:MIN"@) is Err {
        Some(MigErrorKind::NotFound)
    } else if field_uint(l, "SIZE"@, u64::MAX as nat) is Err {
        Some(field_uint(l, "SIZE"@, u64::MAX as nat)->Err_0)
    } else {
        None
    }
}

/// The block device described by the lsblk parameters `l`, without partitions.
pub open spec fn block_device_from(l: Seq<(Seq<char>, Seq<char>)>) -> BlockDeviceView {
    BlockDeviceView {
        name: field_str(l, "NAME"@)->Ok_0,
        kname: field_str(l, "KNAME"@)->Ok_0,
        maj_min: field_str(l, "MAJ:MIN"@)->Ok_0,
        uuid: lookup(l, "UUID"@),
        size: field_uint(l, "SIZE"@, u64::MAX as nat)->Ok_0,
        children: None,
    }
}

/// A further line of the `lsblk` output for one device: it must be a partition.
pub open spec fn partition_line(
    l: Seq<(Seq<char>, Seq<char>)>,
    u: Seq<(Seq<char>, Seq<char>)>,
) -> Result<PartitionView, MigErrorKind> {
    if field_str(l, "NAME"@) is Err {
        Err(MigErrorKind::NotFound)
    } else {
        match field_str(u, "DEVTYPE"@) {
            Err(k) => Err(k),
            Ok(t) => if t == "partition"@ {
                match partition_error(l, u) {
                    Some(k) => Err(k),
                    None => Ok(partition_from(l, u)),
                }
            } else {
                Err(MigErrorKind::InvParam)
            },
        }
    }
}

/// The partitions of the lines `1..n` of the `lsblk` output for one device.
pub open spec fn partition_lines(
    ls: Seq<Seq<(Seq<char>, Seq<char>)>>,
    us: Seq<Seq<(Seq<char>, Seq<char>)>>,
    n: int,
) -> Result<Seq<PartitionView>, MigErrorKind>
    decreases n,
{
    if n <= 1 {
        Ok(Seq::empty())
    } else {
        match partition_lines(ls, us, n - 1) {
            Err(k) => Err(k),
            Ok(ps) => match partition_line(ls[n - 1], us[n - 1]) {
                Err(k) => Err(k),
                Ok(p) => Ok(ps.push(p)),
            },
        }
    }
}

/// The views of a list of parameter sets.
pub open spec fn params_view(v: Seq<ResultParams>) -> Seq<Seq<(Seq<char>, Seq<char>)>> {
    v.map_values(|p: ResultParams| p@)
}

/// The first child of `d` named `name`, if any.
pub open spec fn child_named(d: BlockDeviceView, name: Seq<char>, j: int) -> bool {
    &&& d.children is Some
    &&& 0 <= j < d.children->0.len()
    &&& d.children->0[j].name == name
    &&& forall|k: int| 0 <= k < j ==> d.children->0[k].name != name
}

/// `d` has a child named `name`.
pub open spec fn has_child_named(d: BlockDeviceView, name: Seq<char>) -> bool {
    &&& d.children is Some
    &&& exists|k: int| 0 <= k < d.children->0.len() && d.children->0[k].name == name
}

/// Once the partition lines fail, they fail with the same error whatever follows.
pub proof fn lemma_partition_lines_err(
    ls: Seq<Seq<(Seq<char>, Seq<char>)>>,
    us: Seq<Seq<(Seq<char>, Seq<char>)>>,
    i: int,
    n: int,
)
    requires
        i <= n,
        partition_lines(ls, us, i) is Err,
    ensures
        partition_lines(ls, us, n) == partition_lines(ls, us, i),
    decreases n - i,
{
    if n > i {
        lemma_partition_lines_err(ls, us, i, n - 1);
    }
}

impl BlockDevice {
    /// The device that `lsblk` reports for a drive: `lsblk_results[0]` describes the drive,
    /// every further line one of its partitions, and `udev_results[i]` holds the `udevadm`
    /// properties of the device of line `i`.
    pub fn from_device_path(lsblk_results: &Vec<ResultParams>, udev_results: &Vec<ResultParams>) -> (r: Result<BlockDevice, MigError>)
        requires
            udev_results@.len() == lsblk_results@.len(),
        ensures
            lsblk_results@.len() == 0 ==> r == Err::<BlockDevice, MigError>(MigError { kind: MigErrorKind::InvParam }),
            lsblk_results@.len() > 0 ==> match r {
                Ok(d) => {
                    let ls = params_view(lsblk_results@);
                    let us = params_view(udev_results@);
                    &&& block_device_error(ls[0]).is_none()
                    &&& partition_lines(ls, us, ls.len() as int) is Ok
                    &&& d.name@ == block_device_from(ls[0]).name
                    &&& d.kname@ == block_device_from(ls[0]).kname
                    &&& d.maj_min@ == block_device_from(ls[0]).maj_min
                    &&& opt_view(d.uuid) == block_device_from(ls[0]).uuid
                    &&& d.size as nat == block_device_from(ls[0]).size
                    &&& d@.children == (if partition_lines(ls, us, ls.len() as int)->Ok_0.len() == 0 {
                        None
                    } else {
                        Some(partition_lines(ls, us, ls.len() as int)->Ok_0)
                    })
                },
                Err(e) => {
                    let ls = params_view(lsblk_results@);
                    let us = params_view(udev_results@);
                    match block_device_error(ls[0]) {
                        Some(k) => e.kind == k,
                        None => partition_lines(ls, us, ls.len() as int) == Err::<Seq<PartitionView>, MigErrorKind>(e.kind),
                    }
                },
            },
    {
        if lsblk_results.len() == 0 {
            return Err(MigError::from_kind(MigErrorKind::InvParam));
        }
        let ghost ls = params_view(lsblk_results@);
        let ghost us = params_view(udev_results@);
        let mut device = BlockDevice::new(&lsblk_results[0])?;
        let mut children: Vec<Partition> = Vec::new();
        assert(partitions_view(children@) =~= Seq::<PartitionView>::empty());
        let mut i: usize = 1;
        while i < lsblk_results.len()
            invariant
                1 <= i <= lsblk_results@.len(),
                udev_results@.len() == lsblk_results@.len(),
                ls == params_view(lsblk_results@),
                us == params_view(udev_results@),
                partition_lines(ls, us, i as int) == Ok::<Seq<PartitionView>, MigErrorKind>(partitions_view(children@)),
                device@ == block_device_from(ls[0]),
                block_device_error(ls[0]).is_none(),
            decreases lsblk_results.len() - i,
        {
            assert(ls[i as int] == lsblk_results@[i as int]@ && us[i as int] == udev_results@[i as int]@);
            let name_res = lsblk_results[i].get_str("NAME");
            if name_res.is_err() {
                proof {
                    lemma_partition_lines_err(ls, us, i + 1, ls.len() as int);
                }
                return Err(MigError::from_kind(MigErrorKind::NotFound));
            }
            let dev_type = match udev_results[i].get_str("DEVTYPE") {
                Ok(t) => t,
                Err(e) => {
                    proof {
                        lemma_partition_lines_err(ls, us, i + 1, ls.len() as int);
                    }
                    return Err(e);
                },
            };
            if str_eq(dev_type, "partition") {
                let partition = match Partition::new(&lsblk_results[i], &udev_results[i]) {
                    Ok(p) => p,
                    Err(e) => {
                        proof {
                            lemma_partition_lines_err(ls, us, i + 1, ls.len() as int);
                        }
                        return Err(e);
                    },
                };
                let ghost before = children@;
                children.push(partition);
                assert(partitions_view(children@) =~= partitions_view(before).push(partition_line(ls[i as int], us[i as int])->Ok_0));
            } else {
                proof {
                    lemma_partition_lines_err(ls, us, i + 1, ls.len() as int);
                }
                return Err(MigError::from_kind(MigErrorKind::InvParam));
            }
            i = i + 1;
        }
        if children.len() > 0 {
            device.children = Some(children);
        } else {
            assert(partitions_view(children@).len() == 0);
        }
        Ok(device)
    }

    /// The drive that an `lsblk` line describes, without partitions.
    pub fn new(lsblk_result: &ResultParams) -> (r: Result<BlockDevice, MigError>)
        ensures
            match r {
                Ok(d) => block_device_error(lsblk_result@).is_none() && d@ == block_device_from(lsblk_result@),
                Err(e) => block_device_error(lsblk_result@) == Some(e.kind),
            },
    {
        let name = to_string(lsblk_result.get_str("NAME")?);
        let kname = to_string(lsblk_result.get_str("KNAME")?);
        let maj_min = to_string(lsblk_result.get_str("MAJ:MIN")?);
        let uuid = lsblk_result.get_opt_str("UUID");
        let size = lsblk_result.get_u64("SIZE")?;
        Ok(BlockDevice { name, kname, maj_min, uuid, size, children: None })
    }

    /// The partition of this device named `part_name`.
    pub fn get_devinfo_from_part_name(&self, part_name: &str) -> (r: Result<&Partition, MigError>)
        ensures
            match r {
                Ok(p) => exists|j: int| child_named(self@, part_name@, j) && p@ == self@.children->0[j],
                Err(e) => e.kind == MigErrorKind::NotFound && !has_child_named(self@, part_name@),
            },
    {
        match &self.children {
            Some(children) => {
                let mut j: usize = 0;
                while j < children.len()
                    invariant
                        self.children == Some(*children),
                        j <= children@.len(),
                        forall|k: int| 0 <= k < j ==> children@[k].name@ != part_name@,
                    decreases children.len() - j,
                {
                    if str_eq(children[j].name.as_str(), part_name) {
                        assert(child_named(self@, part_name@, j as int));
                        return Ok(&children[j]);
                    }
                    j = j + 1;
                }
                Err(MigError::from_kind(MigErrorKind::NotFound))
            },
            None => Err(MigError::from_kind(MigErrorKind::NotFound)),
        }
    }

    /// The device path of the drive, `/dev/<name>`.
    pub fn get_path(&self) -> (r: String)
        ensures
            r@ == dev_path(self.name@),
    {
        dev_path_of(self.name.as_str())
    }
}

} // verus!
