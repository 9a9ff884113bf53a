use roboclic::committee::{member_names, record_poll, stats, Committee};
use roboclic::poll::{arrange_options, split_poll, PollError, POLL_MAX_OPTIONS_COUNT};

fn names(v: &[&str]) -> Vec<String> {
    v.iter().map(|s| s.to_string()).collect()
}

fn roster_of(n: usize) -> Vec<String> {
    (0..n).map(|i| format!("member{}", i)).collect()
}

#[test]
fn small_roster_gives_one_full_poll() {
    for n in 1..=10 {
        let roster = roster_of(n);
        let target = roster[n / 2].clone();
        for _ in 0..20 {
            let p = split_poll(&roster, &target).unwrap();
            assert_eq!(p.options.len(), n);
            assert_eq!(p.options.iter().filter(|o| **o == target).count(), 1);
            assert_eq!(p.options[p.correct], target);
            let mut sorted = p.options.clone();
            sorted.sort();
            let mut expected = roster.clone();
            expected.sort();
            assert_eq!(sorted, expected);
        }
    }
}

#[test]
fn large_roster_is_cut_to_ten() {
    let roster = roster_of(23);
    let target = roster[17].clone();
    for _ in 0..50 {
        let p = split_poll(&roster, &target).unwrap();
        assert_eq!(p.options.len(), POLL_MAX_OPTIONS_COUNT);
        assert_eq!(p.options.iter().filter(|o| **o == target).count(), 1);
        assert_eq!(p.options[p.correct], target);
        assert!(p.correct < POLL_MAX_OPTIONS_COUNT - 1);
        for o in &p.options {
            assert!(roster.contains(o));
        }
    }
}

#[test]
fn answer_position_varies_within_bounds() {
    let roster = names(&["a", "b", "c"]);
    let target = "b".to_string();
    let mut seen = [false; 3];
    for _ in 0..200 {
        let p = split_poll(&roster, &target).unwrap();
        assert!(p.correct < 3);
        seen[p.correct] = true;
    }
    assert!(seen.iter().all(|s| *s));
}

#[test]
fn other_names_get_shuffled() {
    let roster = roster_of(9);
    let target = roster[0].clone();
    let mut orders = std::collections::HashSet::new();
    for _ in 0..50 {
        let p = split_poll(&roster, &target).unwrap();
        let rest: Vec<String> = p.options.into_iter().filter(|o| *o != target).collect();
        orders.insert(rest);
    }
    assert!(orders.len() > 1);
}

#[test]
fn target_missing_from_roster_fails() {
    let roster = names(&["a", "b"]);
    let r = split_poll(&roster, &"z".to_string());
    assert_eq!(r.unwrap_err(), PollError::TargetNotInRoster);
    let r = split_poll(&Vec::new(), &"z".to_string());
    assert_eq!(r.unwrap_err(), PollError::TargetNotInRoster);
}

#[test]
fn single_member_roster() {
    let p = split_poll(&names(&["solo"]), &"solo".to_string()).unwrap();
    assert_eq!(p.options, names(&["solo"]));
    assert_eq!(p.correct, 0);
}

#[test]
fn duplicate_target_entries_appear_once() {
    let roster = names(&["a", "b", "a", "c"]);
    let p = split_poll(&roster, &"a".to_string()).unwrap();
    assert_eq!(p.options.len(), 3);
    assert_eq!(p.options.iter().filter(|o| o.as_str() == "a").count(), 1);
    assert_eq!(p.options[p.correct], "a");
}

#[test]
fn arrange_inserts_and_cuts() {
    let p = arrange_options(names(&["x", "y"]), "t".to_string(), 1);
    assert_eq!(p.options, names(&["x", "t", "y"]));
    assert_eq!(p.correct, 1);
    let p = arrange_options(names(&["x", "y"]), "t".to_string(), 2);
    assert_eq!(p.options, names(&["x", "y", "t"]));
    let rest = roster_of(12);
    let p = arrange_options(rest.clone(), "t".to_string(), 8);
    assert_eq!(p.options.len(), 10);
    assert_eq!(p.options[8], "t");
    assert_eq!(p.options[9], rest[8]);
    assert_eq!(&p.options[..8], &rest[..8]);
}

fn member(id: i32, name: &str, poll_count: i32) -> Committee {
    Committee { id, name: name.to_string(), poll_count }
}

#[test]
fn record_poll_bumps_only_target() {
    let c = vec![member(1, "a", 3), member(2, "b", 0), member(3, "a", 1)];
    let r = record_poll(c, &"a".to_string());
    let counts: Vec<i32> = r.iter().map(|m| m.poll_count).collect();
    assert_eq!(counts, vec![4, 0, 2]);
    let ids: Vec<i32> = r.iter().map(|m| m.id).collect();
    assert_eq!(ids, vec![1, 2, 3]);
}

#[test]
fn record_poll_saturates() {
    let r = record_poll(vec![member(1, "a", i32::MAX)], &"a".to_string());
    assert_eq!(r[0].poll_count, i32::MAX);
}

#[test]
fn member_names_in_order() {
    let c = vec![member(1, "a", 3), member(2, "b", 0)];
    assert_eq!(member_names(&c), names(&["a", "b"]));
}

#[test]
fn stats_orders_by_count_descending() {
    let c = vec![
        member(1, "a", 2),
        member(2, "b", 5),
        member(3, "c", 2),
        member(4, "d", 0),
        member(5, "e", 5),
    ];
    let r = stats(&c);
    let order: Vec<&str> = r.iter().map(|m| m.name.as_str()).collect();
    assert_eq!(order, vec!["e", "b", "c", "a", "d"]);
    assert!(stats(&Vec::new()).is_empty());
}
