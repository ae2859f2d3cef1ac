use logtool::rank::{compare_names, rank_suspects, Order};
use logtool::{compare_suspects, SourceKind, SourceStats};

fn stats(kind: SourceKind, source: &str, count: u64, worst: u8) -> SourceStats {
    SourceStats {
        kind,
        source: source.to_string(),
        count,
        worst_priority: worst,
        sample_message: String::new(),
        sample_unit: None,
        sample_exe: None,
        package: None,
    }
}

fn keys(list: &[SourceStats]) -> Vec<(SourceKind, String, u64, u8)> {
    list.iter().map(|s| (s.kind, s.source.clone(), s.count, s.worst_priority)).collect()
}

#[test]
fn suspects_compare_by_count_then_severity_then_name() {
    let a = stats(SourceKind::Unit, "b", 5, 3);
    assert_eq!(compare_suspects(&a, &stats(SourceKind::Unit, "a", 4, 0)), Order::Less);
    assert_eq!(compare_suspects(&a, &stats(SourceKind::Unit, "a", 6, 7)), Order::Greater);
    assert_eq!(compare_suspects(&a, &stats(SourceKind::Unit, "a", 5, 4)), Order::Less);
    assert_eq!(compare_suspects(&a, &stats(SourceKind::Unit, "a", 5, 2)), Order::Greater);
    assert_eq!(compare_suspects(&a, &stats(SourceKind::Unit, "c", 5, 3)), Order::Less);
    assert_eq!(compare_suspects(&a, &stats(SourceKind::Unit, "a", 5, 3)), Order::Greater);
    assert_eq!(compare_suspects(&a, &stats(SourceKind::Comm, "b", 5, 3)), Order::Less);
    assert_eq!(compare_suspects(&stats(SourceKind::Comm, "b", 5, 3), &a), Order::Greater);
    assert_eq!(compare_suspects(&a, &stats(SourceKind::Unit, "b", 5, 3)), Order::Equal);
}

#[test]
fn kinds_settle_what_else_agrees() {
    let kinds = [
        SourceKind::Unit,
        SourceKind::Executable,
        SourceKind::Identifier,
        SourceKind::Comm,
        SourceKind::Kernel,
        SourceKind::Unknown,
    ];
    for (i, left) in kinds.iter().enumerate() {
        for (j, right) in kinds.iter().enumerate() {
            let expected = if i < j {
                Order::Less
            } else if i > j {
                Order::Greater
            } else {
                Order::Equal
            };
            assert_eq!(
                compare_suspects(&stats(*left, "same", 2, 4), &stats(*right, "same", 2, 4)),
                expected
            );
        }
    }
}

#[test]
fn sources_of_one_name_rank_alike_in_any_order() {
    let unit = || stats(SourceKind::Unit, "foo", 1, 3);
    let identifier = || stats(SourceKind::Identifier, "foo", 1, 3);
    let mut one = vec![unit(), identifier()];
    let mut other = vec![identifier(), unit()];
    rank_suspects(&mut one);
    rank_suspects(&mut other);
    assert_eq!(keys(&one), keys(&other));
    assert_eq!(one[0].kind, SourceKind::Unit);
    assert_eq!(one[1].kind, SourceKind::Identifier);
}

#[test]
fn names_compare_as_strings_do() {
    let names = [
        "", "a", "A", "ab", "abc", "b", "Z", "z", "é", "e", "日", "本", "\u{10000}", "\u{ffff}",
        "a\u{0}", "a ", "😀", "~", "\u{7f}", "\u{80}", "\u{7ff}", "\u{800}",
    ];
    for x in names {
        for y in names {
            let expected = match x.cmp(y) {
                std::cmp::Ordering::Less => Order::Less,
                std::cmp::Ordering::Equal => Order::Equal,
                std::cmp::Ordering::Greater => Order::Greater,
            };
            assert_eq!(compare_names(x, y), expected, "{x:?} against {y:?}");
        }
    }
}

#[test]
fn ranking_orders_by_standing_down_to_the_kind() {
    let mut list = vec![
        stats(SourceKind::Unit, "m", 2, 3),
        stats(SourceKind::Comm, "tie", 5, 3),
        stats(SourceKind::Unit, "z", 9, 7),
        stats(SourceKind::Unit, "tie", 5, 3),
        stats(SourceKind::Unit, "a", 5, 3),
        stats(SourceKind::Unit, "severe", 5, 0),
        stats(SourceKind::Identifier, "tie", 5, 3),
        stats(SourceKind::Unit, "b", 2, 3),
    ];
    rank_suspects(&mut list);
    assert_eq!(
        keys(&list),
        vec![
            (SourceKind::Unit, "z".to_string(), 9, 7),
            (SourceKind::Unit, "severe".to_string(), 5, 0),
            (SourceKind::Unit, "a".to_string(), 5, 3),
            (SourceKind::Unit, "tie".to_string(), 5, 3),
            (SourceKind::Identifier, "tie".to_string(), 5, 3),
            (SourceKind::Comm, "tie".to_string(), 5, 3),
            (SourceKind::Unit, "b".to_string(), 2, 3),
            (SourceKind::Unit, "m".to_string(), 2, 3),
        ]
    );
    let once = keys(&list);
    rank_suspects(&mut list);
    assert_eq!(keys(&list), once);
}

fn place(kind: SourceKind) -> u8 {
    match kind {
        SourceKind::Unit => 0,
        SourceKind::Executable => 1,
        SourceKind::Identifier => 2,
        SourceKind::Comm => 3,
        SourceKind::Kernel => 4,
        SourceKind::Unknown => 5,
    }
}

#[test]
fn ranking_agrees_with_a_stable_sort() {
    let mut seed: u64 = 0x2545F4914F6CDD1D;
    let mut next = || {
        seed ^= seed << 13;
        seed ^= seed >> 7;
        seed ^= seed << 17;
        seed
    };
    for round in 0..50 {
        let len = (next() % 12) as usize;
        let mut list = Vec::new();
        for i in 0..len {
            let name = ["a", "b", "ab", "é", ""][(next() % 5) as usize];
            let kind = if i % 2 == 0 { SourceKind::Unit } else { SourceKind::Comm };
            list.push(stats(kind, name, next() % 3, (next() % 3) as u8));
        }
        let mut expected = keys(&list);
        expected.sort_by(|l, r| {
            r.2.cmp(&l.2)
                .then(l.3.cmp(&r.3))
                .then_with(|| l.1.cmp(&r.1))
                .then(place(l.0).cmp(&place(r.0)))
        });
        rank_suspects(&mut list);
        assert_eq!(keys(&list), expected, "round {round}");
    }
}

#[test]
fn ranking_of_nothing_and_of_one() {
    let mut none: Vec<SourceStats> = Vec::new();
    rank_suspects(&mut none);
    assert!(none.is_empty());
    let mut one = vec![stats(SourceKind::Kernel, "kernel", 1, 7)];
    rank_suspects(&mut one);
    assert_eq!(keys(&one), vec![(SourceKind::Kernel, "kernel".to_string(), 1, 7)]);
}
