use ghd::promote::{is_eligible, promotions, CopyJob, EXECUTE_BITS};
use ghd::tree::Entry;

fn promo_file(name: &str, mode: u32) -> Entry {
    Entry::File { name: name.as_bytes().to_vec(), mode }
}

fn promo_job(from: &str, to: &str, name: &str) -> CopyJob {
    CopyJob { from: from.to_string(), to: to.to_string(), name: name.as_bytes().to_vec() }
}

#[test]
fn execute_bits_are_those_of_owner_group_and_others() {
    assert_eq!(EXECUTE_BITS, 0o100 | 0o010 | 0o001);
}

#[test]
fn is_eligible_asks_for_a_regular_file_with_an_execute_bit() {
    assert!(is_eligible(&promo_file("b", 0o755)));
    assert!(is_eligible(&promo_file("b", 0o100)));
    assert!(is_eligible(&promo_file("b", 0o010)));
    assert!(is_eligible(&promo_file("b", 0o001)));
    assert!(is_eligible(&promo_file("b", 0o100755)));
    assert!(!is_eligible(&promo_file("a", 0o644)));
    assert!(!is_eligible(&promo_file("a", 0o666)));
    assert!(!is_eligible(&promo_file("a", 0)));
    assert!(!is_eligible(&promo_file("a", 0o100644)));
}

#[test]
fn is_eligible_passes_over_directories_and_links() {
    assert!(!is_eligible(&Entry::Directory { name: b"c".to_vec(), entries: vec![] }));
    assert!(!is_eligible(&Entry::Directory {
        name: b"c".to_vec(),
        entries: vec![promo_file("tool", 0o755)],
    }));
    assert!(!is_eligible(&Entry::Other { name: b"link".to_vec() }));
}

#[test]
fn promotions_copy_only_the_executable_file() {
    let entries = vec![
        promo_file("a", 0o644),
        promo_file("b", 0o755),
        Entry::Directory { name: b"c".to_vec(), entries: vec![] },
    ];
    assert_eq!(
        promotions("/home/me/Downloads/tool", "/home/me/.local/bin", &entries),
        vec![promo_job("/home/me/Downloads/tool", "/home/me/.local/bin", "b")]
    );
}

#[test]
fn promotions_keep_the_order_of_the_entries() {
    let entries = vec![
        promo_file("zeta", 0o755),
        promo_file("notes.txt", 0o644),
        promo_file("alpha", 0o711),
        Entry::Other { name: b"link".to_vec() },
        promo_file("mid", 0o744),
    ];
    assert_eq!(
        promotions("src", "bin", &entries),
        vec![
            promo_job("src", "bin", "zeta"),
            promo_job("src", "bin", "alpha"),
            promo_job("src", "bin", "mid"),
        ]
    );
}

#[test]
fn promotions_do_not_look_below_the_top_level() {
    let entries = vec![
        Entry::Directory { name: b"bin".to_vec(), entries: vec![promo_file("tool", 0o755)] },
        promo_file("README.md", 0o644),
    ];
    assert_eq!(promotions("src", "bin", &entries), vec![]);
}

#[test]
fn promotions_of_an_empty_directory_are_none() {
    assert_eq!(promotions("src", "bin", &vec![]), vec![]);
}

#[test]
fn promotions_copy_a_file_whose_name_is_no_text() {
    let odd = vec![0x74, 0x6f, 0xff, 0x6c];
    let entries = vec![Entry::File { name: odd.clone(), mode: 0o755 }, promo_file("notes", 0o644)];
    assert_eq!(
        promotions("src", "bin", &entries),
        vec![CopyJob { from: "src".to_string(), to: "bin".to_string(), name: odd }]
    );
}
