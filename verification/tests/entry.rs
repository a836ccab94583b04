//! Log entries, and the values they carry

use ezraft::entry::EntryPayload;
use ezraft::entry::EzEntry;
use ezraft::entry::EzRequest;
use ezraft::entry::later_log_id;
use ezraft::membership::Membership;
use ezraft::node_role::NodeRole;
use ezraft::text::decimal_text;
use ezraft::text::parse_u64;

#[test]
fn ez_entry_clones_without_t_clone() {
    let entry = EzEntry {
        log_id: (7, 9),
        payload: EntryPayload::Normal(EzRequest("hello".to_string())),
    };

    let clone = entry.clone();
    assert_eq!((7, 9), clone.log_id);
    let EntryPayload::Normal(req) = clone.payload else {
        panic!("payload variant changed by clone");
    };
    assert_eq!("hello", req.0);
}

#[test]
fn a_request_is_cloned_by_its_own_clone() {
    assert_eq!("hello", EzRequest("hello".to_string()).clone().0);
}

fn members() -> Membership {
    Membership {
        configs: vec![vec![0, 2], vec![0, 5]],
        nodes: vec![(0, "a:1".to_string()), (2, "b:2".to_string()), (5, "c:3".to_string()), (6, "d:4".to_string())],
    }
}

#[test]
fn entries_carry_a_membership() {
    let entry: EzEntry<String> = EzEntry::new((1, 2), EntryPayload::Membership(members()));
    let carried = entry.clone().get_membership().expect("a membership entry carries one");
    assert_eq!(members().configs, carried.configs);
    assert_eq!(members().nodes, carried.nodes);

    let blank: EzEntry<String> = EzEntry::new((1, 2), EntryPayload::Blank);
    assert!(blank.get_membership().is_none());
    assert!(matches!(blank.clone().payload, EntryPayload::Blank));
}

#[test]
fn entries_are_moved_and_shown() {
    let mut entry: EzEntry<String> = EzEntry::new((1, 2), EntryPayload::Blank);
    entry.set_log_id((3, 40));
    assert_eq!((3, 40), entry.log_id_parts());
    assert_eq!("EzEntry(log_id: (3, 40), payload: blank)", entry.render("blank"));
}

#[test]
fn voters_are_counted_in_every_config() {
    let members = members();
    assert!(members.is_voter(0));
    assert!(members.is_voter(2));
    assert!(members.is_voter(5));
    assert!(!members.is_voter(6));
    assert!(!members.is_voter(7));
    assert_eq!(Some("d:4".to_string()), members.get_node(6));
    assert_eq!(None, members.get_node(7));
    assert!(!Membership::default().is_voter(0));
    assert_eq!(None, Membership::default().get_node(0));
}

#[test]
fn log_ids_are_ordered_by_term_and_index() {
    assert_eq!(None, later_log_id(None, None));
    assert_eq!(Some((1, 1)), later_log_id(None, Some((1, 1))));
    assert_eq!(Some((1, 1)), later_log_id(Some((1, 1)), None));
    assert_eq!(Some((2, 1)), later_log_id(Some((2, 1)), Some((1, 9))));
    assert_eq!(Some((2, 9)), later_log_id(Some((2, 1)), Some((2, 9))));
}

#[test]
fn numbers_are_written_and_read_back() {
    for n in [0, 7, 10, 99, 100, 4096, u64::MAX - 1, u64::MAX] {
        assert_eq!(format!("{}", n), decimal_text(n));
        assert_eq!(Some(n), parse_u64(&decimal_text(n)));
    }
    for text in ["", "+", "-1", "1a", " 1", "1 ", "++1", "18446744073709551616", "99999999999999999999999"] {
        assert_eq!(text.parse::<u64>().ok(), parse_u64(text), "{:?}", text);
    }
    for text in ["+5", "007", "18446744073709551615"] {
        assert_eq!(text.parse::<u64>().ok(), parse_u64(text), "{:?}", text);
    }
}

#[test]
fn a_node_is_a_learner_by_default() {
    assert_eq!(NodeRole::Learner, NodeRole::default());
}
