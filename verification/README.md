# balena_migrate

The decision logic of balena-migrate, a tool that replaces the operating system of a device
(Intel NUC, Raspberry Pi 3/4, Beaglebone Green/Black, Beagleboard xM) with balena OS, written
in Verus and verified.

`src/` is the library. Each public function has a contract over spec functions that says what
it returns; the laws that relate several functions, or several calls, are public proof
functions (`lemma_*`). The error type carries the kind of a failure, not its message.

- `text`, `num`, `paths`, `edit`: strings, decimal numbers, `Path` operations and the text
  edits that the boot configuration files are written with.
- `linux_common`, `os_info`, `file_type`: what the output of `uname`, `whereis`, `mokutil`,
  `df`, `file` and `/proc/cmdline` means, and device paths of drives and partitions.
- `lsblk_info`, `disk_info`, `path_info`: the `lsblk -P` and `udevadm` outputs read into disks
  and partitions, and where a path lies.
- `device`, `boot_manager`: device detection, and the boot files written for grub, u-boot and
  the Raspberry Pi firmware.
- `ensured_cmds`, `migrate_info`, `migrator`, `wifi_config`: the commands the migration needs,
  the checks of the migration files (balena configuration, image or file system dump, log
  device), the network check and the wifi networks the migration takes along.
- `stage2`, `extract`, `fs_writer`: the second stage: the configuration the first stage hands
  it (`stage2::config`), its steps and their failure handling (`stage2::flow`), its mounts, the
  partition tables of an image, and the partitioning and formatting of the disk.

`app/` runs commands, reads and writes files and mounts file systems around the library; it
writes the stage 2 configuration as YAML (`serde_yaml`) and reads it back.
`tests/` holds the tests.
