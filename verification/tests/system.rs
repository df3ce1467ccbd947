use v3s_monitor::system_info::{
    count_processes, parse_kb, read_disk_usage, read_ip_address, read_kernel_version,
    read_meminfo_detailed, read_network, DiskUsage, MemInfo, OverlayStat, Traffic,
};

#[test]
fn kilobytes_of_a_line() {
    assert_eq!(parse_kb("MemTotal:         61234 kB"), 61234);
    assert_eq!(parse_kb("MemTotal: 0 kB"), 0);
    assert_eq!(parse_kb("MemTotal:"), 0);
    assert_eq!(parse_kb(""), 0);
    assert_eq!(parse_kb("MemTotal: x kB"), 0);
    assert_eq!(parse_kb("a 18446744073709551615"), u64::MAX);
    assert_eq!(parse_kb("a 18446744073709551616"), 0);
    assert_eq!(parse_kb("a +7 b"), 7);
    assert_eq!(parse_kb("a -7 b"), 0);
}

#[test]
fn memory_report() {
    let content = "MemTotal:          60000 kB\nMemFree:           20000 kB\nMemAvailable:      35000 kB\nBuffers:            4000 kB\nCached:            12000 kB\nSwapCached:            7 kB\n";
    assert_eq!(
        read_meminfo_detailed(content),
        MemInfo { total: 60000, available: 35000, used: 25000, buffered: 4000, cached: 12000 }
    );
    assert_eq!(
        read_meminfo_detailed(""),
        MemInfo { total: 0, available: 0, used: 0, buffered: 0, cached: 0 }
    );
    // more available than there is: nothing counts as used
    assert_eq!(read_meminfo_detailed("MemTotal: 5\nMemAvailable: 9").used, 0);
    // the last line of a kind decides, and a line is not trimmed first
    let m = read_meminfo_detailed("MemTotal: 1\n MemTotal: 2\nMemTotal: 3\r\nCached:\n");
    assert_eq!(m.total, 3);
    assert_eq!(m.cached, 0);
}

#[test]
fn kernel_version_is_the_third_word() {
    assert_eq!(
        read_kernel_version(Some("Linux version 5.4.124 (builder@host) (gcc 8.4.0) #0 Fri\n")),
        "5.4.124"
    );
    assert_eq!(read_kernel_version(Some("Linux version")), "Unknown");
    assert_eq!(read_kernel_version(Some("")), "Unknown");
    assert_eq!(read_kernel_version(None), "Unknown");
}

#[test]
fn processes_are_the_names_made_of_digits() {
    let names: Vec<String> =
        ["1", "2", "self", "1234", "12a", "cpuinfo", "007", "net", "99999999999999999999"]
            .iter()
            .map(|s| s.to_string())
            .collect();
    assert_eq!(count_processes(&names), 5);
    assert_eq!(count_processes(&Vec::new()), 0);
}

#[test]
fn flash_usage() {
    let mtd = "dev:    size   erasesize  name\nmtd0: 00030000 00010000 \"u-boot\"\nmtd1: 00010000 00010000 \"u-boot-env\"\nmtd2: 00010000 00010000 \"factory\"\nmtd3: 01fb0000 00010000 \"firmware\"\nmtd4: 00180000 00010000 \"kernel\"\nmtd5: 01e30000 00010000 \"rootfs\"\nmtd6: 00c00000 00010000 \"rootfs_data\"\n";
    let overlay = OverlayStat { block_size: 4096, blocks: 3072, free_blocks: 2048 };
    let total = 0x30000u64 + 0x10000 + 0x10000 + 0x1fb0000 + 0x180000 + 0x1e30000 + 0xc00000;
    let fixed = 0x30000u64 + 0x10000 + 0x10000 + 0x180000 + 0x1e30000;
    let used = fixed + 1024 * 4096;
    assert_eq!(
        read_disk_usage(Some(mtd), Some(overlay)),
        Some(DiskUsage { used, total, percent: (used * 100 / total) as u8 })
    );
    assert_eq!(
        read_disk_usage(Some(mtd), None),
        Some(DiskUsage { used: fixed, total, percent: (fixed * 100 / total) as u8 })
    );
    assert_eq!(read_disk_usage(None, Some(overlay)), None);
    assert_eq!(read_disk_usage(Some(""), None), None);
    assert_eq!(read_disk_usage(Some("mtd0: 00030000 00010000 \"u-boot\""), None), None);
}

#[test]
fn flash_usage_edges() {
    // the header is passed over whatever it holds; short lines and sizes that do not read too
    let mtd = "mtd9: ffff 1 \"x\"\nmtd0: 10 1 \"a\"\nmtd1: zz 1 \"b\"\nmtd2: 20 1\nmtd3: +20 1 \"\"rootfs_data\"\"\" extra\n";
    assert_eq!(
        read_disk_usage(Some(mtd), None),
        Some(DiskUsage { used: 0x10, total: 0x30, percent: 33 })
    );
    // more in use than there is counts as all
    let o = OverlayStat { block_size: 1000, blocks: 10, free_blocks: 0 };
    assert_eq!(
        read_disk_usage(Some("h\nm: 10 1 \"a\""), Some(o)),
        Some(DiskUsage { used: 16 + 10000, total: 16, percent: 100 })
    );
    // an overlay without blocks, or with more free than there are, adds nothing
    let o = OverlayStat { block_size: 1000, blocks: 0, free_blocks: 0 };
    assert_eq!(read_disk_usage(Some("h\nm: 10 1 \"a\""), Some(o)).unwrap().used, 16);
    let o = OverlayStat { block_size: 1000, blocks: 5, free_blocks: 6 };
    assert_eq!(read_disk_usage(Some("h\nm: 10 1 \"a\""), Some(o)).unwrap().used, 16);
    // sums stop at the largest number
    let big = "h\na: ffffffffffffffff 1 \"a\"\nb: 2 1 \"b\"\n";
    assert_eq!(
        read_disk_usage(Some(big), None),
        Some(DiskUsage { used: u64::MAX, total: u64::MAX, percent: 100 })
    );
}

#[test]
fn traffic_of_the_first_interface() {
    let dev = "Inter-|   Receive                                                |  Transmit\n face |bytes    packets errs drop fifo frame compressed multicast|bytes    packets errs drop fifo colls carrier compressed\n    lo:    1000      10    0    0    0     0          0         0     1000      10    0    0    0     0       0          0\n  eth0: 123456     100    0    0    0     0          0         0   654321     200    0    0    0     0       0          0\n br-lan:      7       1    0    0    0     0          0         0        9       1    0    0    0     0       0          0\n";
    assert_eq!(read_network(dev), Some(Traffic { rx: 123456, tx: 654321 }));
    assert_eq!(read_network(""), None);
    assert_eq!(read_network("a\nb\n"), None);
    assert_eq!(read_network("a\nb\nlo: 1 2 3 4 5 6 7 8 9 10\n"), None);
    assert_eq!(read_network("a\nb\neth0 1 2 3 4 5 6 7 8 9 10\n"), None);
    assert_eq!(read_network("a\nb\neth0: 1 2 3 4 5 6 7 8 9\n"), None);
    assert_eq!(
        read_network("eth9: 1 2 3 4 5 6 7 8 9 10\nb\neth0: x 2 3 4 5 6 7 8 y 10\neth1: 1 2 3 4 5 6 7 8 9 10"),
        Some(Traffic { rx: 0, tx: 0 })
    );
    assert_eq!(
        read_network("a\nb\nwan:1:2 3 4 5 6 7 8 9 10 11"),
        Some(Traffic { rx: 0, tx: 10 })
    );
}

#[test]
fn own_address_from_the_routing_trie() {
    let trie = "Main:\n  +-- 0.0.0.0/0 3 0 5\n     |-- 0.0.0.0\n        /0 universe UNICAST\n     +-- 10.10.10.0/24 2 0 2\n        |-- 10.10.10.0\n           /24 link UNICAST\n        |-- 10.10.10.1\n           /32 host LOCAL\n     +-- 127.0.0.0/8 2 0 2\n        |-- 127.0.0.1\n           /32 host LOCAL\n";
    assert_eq!(read_ip_address(trie), Some("10.10.10.1/24".to_string()));
    let lo_first = "  +-- 127.0.0.0/8 2 0 2\n     |-- 127.0.0.1\n        /32 host LOCAL\n  +-- 192.168.1.0/25 2 0 2\n     |-- 192.168.1.77\n        /32 host LOCAL\n";
    assert_eq!(read_ip_address(lo_first), Some("192.168.1.77/25".to_string()));
    assert_eq!(read_ip_address(""), None);
    assert_eq!(read_ip_address("|-- 1.2.3.4"), None);
    assert_eq!(read_ip_address("|-- 1.2.3.4\n/32 link UNICAST"), None);
    // without a network before it the prefix length is 24
    assert_eq!(read_ip_address("|-- 1.2.3.4\n/32 host LOCAL"), Some("1.2.3.4/24".to_string()));
    // a length of 32 or more, or one that does not read, changes nothing
    assert_eq!(
        read_ip_address("+-- 1.2.3.0/16 x\n+-- 1.2.3.4/32 x\n+-- a/b/ x\n+-- q/\n|--  1.2.3.4 \n host LOCAL"),
        Some("1.2.3.4/16".to_string())
    );
    assert_eq!(
        read_ip_address("+-- 1.2.3.0/0\n|-- 1.2.3.4\n|-- host LOCAL\n"),
        Some("1.2.3.4/0".to_string())
    );
}
