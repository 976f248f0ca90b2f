use balena_migrate::defs::MigErrorKind;
use balena_migrate::extract::{dump_blocks, part_tbl_fits, read_part_tbl, Extractor, Partition};

fn table(entries: &[(u8, u8, u32, u32)]) -> Vec<u8> {
    let mut b = vec![0u8; 512];
    for (k, (status, ptype, lba, sectors)) in entries.iter().enumerate() {
        let o = 446 + 16 * k;
        b[o] = *status;
        b[o + 4] = *ptype;
        b[o + 8..o + 12].copy_from_slice(&lba.to_le_bytes());
        b[o + 12..o + 16].copy_from_slice(&sectors.to_le_bytes());
    }
    b[510] = 0x55;
    b[511] = 0xAA;
    b
}

fn names(parts: &[Partition]) -> Vec<(&str, &str, u64, u64)> {
    parts.iter().map(|p| (p.name.as_str(), p.fstype.as_str(), p.start_lba, p.num_sectors)).collect()
}

#[test]
fn balena_image_partition_tables() {
    let mbr = table(&[(0x80, 0x0C, 8192, 81920), (0, 0x83, 90112, 638976), (0, 0x83, 729088, 638976), (0, 0x0F, 1368064, 458752)]);
    let mut parts: Vec<Partition> = Vec::new();
    assert!(part_tbl_fits(0, &mbr, 0));
    assert_eq!(read_part_tbl(0, &mbr, &mut parts).unwrap(), Some(1368064));
    assert_eq!(
        names(&parts),
        vec![
            ("resin-boot", "vfat", 8192, 81920),
            ("resin-rootA", "ext4", 90112, 638976),
            ("resin-rootB", "ext4", 729088, 638976),
        ]
    );
    assert_eq!(parts[0].status, 0x80);
    assert_eq!(parts[0].ptype, 0x0C);

    let ext1 = table(&[(0, 0x83, 8192, 40960), (0, 0x05, 57344, 409600)]);
    assert_eq!(read_part_tbl(1368064, &ext1, &mut parts).unwrap(), Some(1368064 + 57344));
    let ext2 = table(&[(0, 0x83, 8192, 401408)]);
    assert_eq!(read_part_tbl(1368064 + 57344, &ext2, &mut parts).unwrap(), None);
    assert_eq!(
        names(&parts)[3..],
        [("resin-state", "ext4", 1368064 + 8192, 40960), ("resin-data", "ext4", 1368064 + 57344 + 8192, 401408)]
    );
    assert_eq!(dump_blocks(&parts).unwrap(), vec![81920, 638976, 638976, 40960, 401408]);
}

#[test]
fn partition_table_edge_cases() {
    let mut parts: Vec<Partition> = Vec::new();
    let mut bad = table(&[(0, 0x83, 1, 1)]);
    bad[511] = 0;
    assert_eq!(read_part_tbl(0, &bad, &mut parts).unwrap_err().kind, MigErrorKind::InvParam);
    assert!(parts.is_empty());
    // an empty entry ends the table
    let gap = table(&[(0, 0x83, 2048, 100), (0, 0x00, 0, 0), (0, 0x83, 4096, 100)]);
    assert_eq!(read_part_tbl(0, &gap, &mut parts).unwrap(), None);
    assert_eq!(parts.len(), 1);
    // five partitions are all a table takes
    let mut five: Vec<Partition> = Vec::new();
    for _ in 0..4 {
        read_part_tbl(0, &table(&[(0, 0x83, 1, 1)]), &mut five).unwrap();
    }
    assert_eq!(read_part_tbl(0, &table(&[(0, 0x83, 7, 7), (0, 0x83, 9, 9)]), &mut five).unwrap(), None);
    assert_eq!(five.len(), 5);
    assert_eq!(five[4].name, "resin-data");
    assert_eq!(dump_blocks(&parts).unwrap_err().kind, MigErrorKind::Displayed);
}

#[test]
fn partition_table_arithmetic_limits() {
    let t = table(&[(0, 0x83, 10, 1)]);
    assert!(part_tbl_fits(u64::MAX - 10, &t, 0));
    assert!(!part_tbl_fits(u64::MAX - 9, &t, 0));
    assert!(part_tbl_fits(u64::MAX - 9, &t, 5));
    assert!(!part_tbl_fits(0, &t[..100], 0));
    let mut unsigned = t.clone();
    unsigned[510] = 0;
    assert!(part_tbl_fits(u64::MAX, &unsigned, 0));
}

#[test]
fn extractor_takes_gzipped_and_plain_images() {
    let gz = Extractor::new(true, Some("/work/balena.img.gz"), true, true, "DOS/MBR boot sector (gzip compressed data, from Unix)")
        .unwrap();
    assert_eq!(gz.image_path, "/work/balena.img.gz");
    assert!(gz.gzipped);
    let plain = Extractor::new(true, Some("/work/balena.img"), true, true, "DOS/MBR boot sector").unwrap();
    assert_eq!(plain.image_path, "/work/balena.img");
    assert!(!plain.gzipped);
}

#[test]
fn extractor_refusals() {
    let displayed = |r: Result<Extractor, balena_migrate::defs::MigError>| r.unwrap_err().kind;
    assert_eq!(displayed(Extractor::new(false, Some("/i"), true, true, "DOS/MBR boot sector")), MigErrorKind::Displayed);
    assert_eq!(displayed(Extractor::new(true, None, true, true, "DOS/MBR boot sector")), MigErrorKind::Displayed);
    assert_eq!(displayed(Extractor::new(true, Some("/i"), false, true, "DOS/MBR boot sector")), MigErrorKind::Displayed);
    assert_eq!(displayed(Extractor::new(true, Some("/i"), true, true, "ASCII text")), MigErrorKind::Displayed);
    assert_eq!(displayed(Extractor::new(true, Some("/i"), true, false, "")), MigErrorKind::InvParam);
}
