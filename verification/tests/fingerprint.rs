use indexer1::filter::Filter;
use indexer1::fingerprint::{filter_id, preimage};

const T1: [u8; 32] = [0x11; 32];
const T2: [u8; 32] = [0x22; 32];

fn t3() -> [u8; 32] {
    let mut t = [0x22u8; 32];
    t[31] = 0x21;
    t
}

fn a1() -> [u8; 20] {
    let mut a = [0u8; 20];
    for (i, byte) in a.iter_mut().enumerate() {
        *byte = (i + 1) as u8;
    }
    a
}

const A2: [u8; 20] = [0xff; 20];

#[test]
fn empty_filter_has_the_known_identity() {
    assert_eq!(
        filter_id(&Filter::new(), 1),
        "0xf929be0b911bd641baa40932eb6857a6c995acf429e340f86f0d2c1447b9ad84"
    );
}

#[test]
fn identity_is_prefixed_lower_case_hex() {
    let id = filter_id(&Filter::new().with_topic(0, T1), 1);
    assert_eq!(id.len(), 66);
    assert!(id.starts_with("0x"));
    assert!(id[2..].chars().all(|c| c.is_ascii_digit() || ('a'..='f').contains(&c)));
    assert_eq!(id, "0xdd3992765e1eb0a8ec6bd1310be8f2b02f8bc07c1d3b0aaaa4dd82cf9e3d3a86");
}

#[test]
fn identity_changes_with_the_chain() {
    assert_eq!(
        filter_id(&Filter::new(), 5),
        "0x5aa69b74cdd3818dc6660f537b2dd3642437296dda8596929ce092e5124376e2"
    );
    assert_ne!(filter_id(&Filter::new(), 1), filter_id(&Filter::new(), 5));
}

#[test]
fn identity_changes_with_the_start_block() {
    assert_eq!(
        filter_id(&Filter::new().from_block(100), 1),
        "0xf5a9c84fc1946bdd6f012ab9585d70ae04f6ecf2c911354be28277aa7a095523"
    );
}

#[test]
fn missing_start_block_counts_as_one() {
    assert_eq!(filter_id(&Filter::new(), 1), filter_id(&Filter::new().from_block(1), 1));
    assert_eq!(Filter::new().start_block(), 1);
    assert_eq!(Filter::new().get_from_block(), None);
    assert_eq!(Filter::new().from_block(7).start_block(), 7);
    assert_eq!(Filter::new().from_block(7).get_from_block(), Some(7));
}

#[test]
fn identity_of_an_address_uses_its_padded_word() {
    assert_eq!(
        filter_id(&Filter::new().with_address(a1()), 1),
        "0x04b74fd4fe90102a4a1ba6cb42af52daae7867ac8cd3d1a0d4ee7d71495c882a"
    );
}

#[test]
fn identity_of_a_full_filter() {
    let filter = Filter::new()
        .from_block(100)
        .with_topic(0, T1)
        .with_topic(0, T2)
        .with_topic(0, t3())
        .with_topic(1, T2)
        .with_topic(3, T1)
        .with_address(a1())
        .with_address(A2);
    assert_eq!(
        filter_id(&filter, 31337),
        "0x11617b01376fdb0f762bd8354a723f9c96687b37051239ea0b95d84616fe547c"
    );
}

#[test]
fn identity_ignores_the_order_of_values() {
    let forward = Filter::new()
        .from_block(100)
        .with_topic(0, T1)
        .with_topic(0, T2)
        .with_topic(0, t3())
        .with_topic(1, T2)
        .with_topic(3, T1)
        .with_address(a1())
        .with_address(A2);
    let backward = Filter::new()
        .with_address(A2)
        .with_address(a1())
        .with_topic(3, T1)
        .with_topic(1, T2)
        .with_topic(0, t3())
        .with_topic(0, T2)
        .with_topic(0, T1)
        .from_block(100);
    assert_eq!(filter_id(&forward, 31337), filter_id(&backward, 31337));
    assert_eq!(preimage(&forward, 31337), preimage(&backward, 31337));
}

#[test]
fn identity_ignores_a_value_given_twice() {
    let once = Filter::new().with_topic(0, T1).with_address(A2);
    let twice = Filter::new().with_topic(0, T1).with_topic(0, T1).with_address(A2).with_address(A2);
    assert_eq!(twice.topic_values(0).len(), 1);
    assert_eq!(twice.addresses().len(), 1);
    assert_eq!(filter_id(&once, 1), filter_id(&twice, 1));
}

#[test]
fn identity_changes_with_topics_and_addresses() {
    let base = filter_id(&Filter::new().with_topic(0, T1), 1);
    assert_ne!(base, filter_id(&Filter::new().with_topic(0, T2), 1));
    assert_ne!(base, filter_id(&Filter::new().with_topic(0, T1).with_topic(0, T2), 1));
    assert_ne!(base, filter_id(&Filter::new().with_topic(0, T1).with_address(A2), 1));
    assert_ne!(base, filter_id(&Filter::new(), 1));
}

fn word(n: u8) -> [u8; 32] {
    let mut w = [0u8; 32];
    w[31] = n;
    w
}

#[test]
fn preimage_is_made_of_counted_sets_in_ascending_order() {
    let filter = Filter::new().from_block(258).with_topic(2, T2).with_topic(2, t3()).with_address(A2);
    let bytes = preimage(&filter, 1);
    assert_eq!(bytes.len(), 10 * 32);
    assert_eq!(&bytes[0..32], &word(1));
    let mut start = [0u8; 32];
    start[30] = 1;
    start[31] = 2;
    assert_eq!(&bytes[32..64], &start);
    assert_eq!(&bytes[64..96], &word(0));
    assert_eq!(&bytes[96..128], &word(0));
    assert_eq!(&bytes[128..160], &word(2));
    assert_eq!(&bytes[160..192], &t3());
    assert_eq!(&bytes[192..224], &T2);
    assert_eq!(&bytes[224..256], &word(0));
    assert_eq!(&bytes[256..288], &word(1));
    assert_eq!(&bytes[288..300], &[0u8; 12]);
    assert_eq!(&bytes[300..320], &A2);
}

#[test]
fn preimage_of_the_empty_filter_is_seven_words() {
    let bytes = preimage(&Filter::new(), 3);
    assert_eq!(bytes.len(), 7 * 32);
    assert_eq!(&bytes[0..32], &word(3));
    assert_eq!(&bytes[32..64], &word(1));
    assert!(bytes[64..].iter().all(|byte| *byte == 0));
}

#[test]
fn identity_changes_with_the_position_of_a_topic() {
    let x = [0xaau8; 32];
    let at_first = Filter::new().with_topic(0, x);
    let at_second = Filter::new().with_topic(1, x);
    assert_eq!(
        filter_id(&at_first, 1),
        "0x2a105bb394dd484f59e0e6d3c75d4df51f5c078260ccec50e47425aa1fd88fd8"
    );
    assert_eq!(
        filter_id(&at_second, 1),
        "0x65943e51cbae1839d54e02d219e0f9bdd0da78a62a6e73cc8c1dfbb77f476ec2"
    );
    assert_ne!(preimage(&at_first, 1), preimage(&at_second, 1));
    assert_ne!(filter_id(&at_first, 1), filter_id(&at_second, 1));
    for position in 0..4 {
        for other in (position + 1)..4 {
            assert_ne!(
                filter_id(&Filter::new().with_topic(position, x), 1),
                filter_id(&Filter::new().with_topic(other, x), 1)
            );
        }
    }
}

#[test]
fn address_and_topic_of_the_same_word_differ() {
    let a = [0x11u8; 20];
    let mut padded = [0u8; 32];
    padded[12..].copy_from_slice(&a);
    let by_address = Filter::new().with_address(a);
    let by_topic = Filter::new().with_topic(0, padded);
    assert_eq!(
        filter_id(&by_address, 1),
        "0xf587b76ae8eade4b5e9600ba2a4dd463e13579b81c6d5a5345c2b027074b7a32"
    );
    assert_eq!(
        filter_id(&by_topic, 1),
        "0x08c0231ff2707617d322495a33ba93d72a989fd9b12f2f6c8c45e162222bc32c"
    );
    assert_ne!(preimage(&by_address, 1), preimage(&by_topic, 1));
    assert_ne!(filter_id(&by_address, 1), filter_id(&by_topic, 1));
    assert_ne!(
        filter_id(&by_address, 1),
        filter_id(&Filter::new().with_topic(3, padded), 1)
    );
}

#[test]
fn identity_has_66_characters_for_any_filter() {
    let filters = [
        Filter::new(),
        Filter::new().from_block(u64::MAX),
        Filter::new().with_topic(3, T1).with_address(A2),
    ];
    for filter in filters.iter() {
        for chain in [0u64, 1, u64::MAX] {
            let id = filter_id(filter, chain);
            assert_eq!(id.len(), 66);
            assert!(id.starts_with("0x"));
            assert!(id[2..].chars().all(|c| c.is_ascii_digit() || ('a'..='f').contains(&c)));
        }
    }
}

#[test]
fn topic_values_keep_each_value_once() {
    let filter = Filter::new().with_topic(1, T2).with_topic(1, T1).with_topic(1, T2);
    assert_eq!(filter.topic_values(1), &vec![T2, T1]);
    assert!(filter.topic_values(0).is_empty());
    assert!(filter.addresses().is_empty());
}
