use butterfly::{calculate_average, has_pcap_extension, select_pcap_files, DirEntryInfo};

fn file(name: &[u8], size: u64) -> DirEntryInfo {
    DirEntryInfo { name: name.to_vec(), is_file: true, size }
}

fn directory(name: &[u8]) -> DirEntryInfo {
    DirEntryInfo { name: name.to_vec(), is_file: false, size: 0 }
}

#[test]
fn loader_selects_captures_only() {
    // A directory with a.pcap, b.pcapng, c.txt and a subdirectory holding
    // d.pcap: the flattened listing yields exactly three captures.
    let entries = vec![
        file(b"a.pcap", 10),
        file(b"b.pcapng", 5),
        file(b"c.txt", 3),
        directory(b"sub"),
        file(b"d.pcap", 7),
    ];
    let selected = select_pcap_files(&entries);
    assert_eq!(selected, vec![0, 1, 4]);
}

#[test]
fn loader_ignores_empty_files() {
    let entries = vec![file(b"a.pcap", 0), file(b"b.pcap", 1)];
    assert_eq!(select_pcap_files(&entries), vec![1]);
}

#[test]
fn loader_does_not_select_directories() {
    let entries = vec![directory(b"traces.pcap")];
    assert_eq!(select_pcap_files(&entries), Vec::<usize>::new());
}

#[test]
fn capture_extensions() {
    assert!(has_pcap_extension(&b"a.pcap".to_vec()));
    assert!(has_pcap_extension(&b"a.pcapng".to_vec()));
    assert!(has_pcap_extension(&b"session.v2.pcap".to_vec()));
    assert!(!has_pcap_extension(&b".pcap".to_vec()));
    assert!(!has_pcap_extension(&b".pcapng".to_vec()));
    assert!(!has_pcap_extension(&b"pcap".to_vec()));
    assert!(!has_pcap_extension(&b"a.txt".to_vec()));
    assert!(!has_pcap_extension(&b"a.pcapx".to_vec()));
    assert!(!has_pcap_extension(&b"".to_vec()));
}

#[test]
fn average_over_workers() {
    assert_eq!(calculate_average(&vec![2, 4, 9]), 5);
    assert_eq!(calculate_average(&vec![7]), 7);
    assert_eq!(calculate_average(&vec![0, 0, 10, 0]), 2);
}
