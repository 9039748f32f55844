use monitr::filter::{contains_ignore_case, Filter, FilterSubject, NumField, Op, Term};

struct Process {
    pid: u32,
    name: String,
    user: String,
    cpu: f32,
    memory: u64,
}

fn process(pid: u32, name: &str, user: &str, cpu: f32, memory: u64) -> Process {
    Process {
        pid,
        name: name.to_string(),
        user: user.to_string(),
        cpu,
        memory,
    }
}

/// The comparison of a numeric term, made on floating-point values.
fn numeric_outcome(term: &Term, p: &Process) -> bool {
    match term {
        Term::Numeric {
            quantity,
            op,
            number,
            multiplier,
        } => {
            let expected = number.parse::<f64>().unwrap() * *multiplier as f64;
            let actual = match quantity {
                NumField::Cpu => p.cpu as f64,
                NumField::Mem => p.memory as f64,
                NumField::Pid => p.pid as f64,
            };
            match op {
                Op::Gt => actual > expected,
                Op::Lt => actual < expected,
                Op::Ge => actual >= expected,
                Op::Le => actual <= expected,
            }
        }
        _ => false,
    }
}

fn matches(filter: &Filter, p: &Process) -> bool {
    let status = "running";
    let command = format!("/usr/bin/{}", p.name);
    let search = format!(
        "{} {} {} {} {}",
        p.pid,
        p.name.to_lowercase(),
        p.user.to_lowercase(),
        command,
        status
    );
    let pid = p.pid.to_string();
    let sort_name = p.name.to_lowercase();
    let subject = FilterSubject {
        search_text: &search,
        name: &sort_name,
        user: &p.user,
        status,
        command: &command,
        pid: &pid,
    };
    let outcomes: Vec<bool> = filter.terms().iter().map(|t| numeric_outcome(t, p)).collect();
    filter.matches(&subject, &outcomes)
}

#[test]
fn plain_substring_still_matches() {
    let filter = Filter::parse("node");
    assert!(matches(&filter, &process(1, "node", "milo", 1.0, 10)));
    assert!(!matches(&filter, &process(2, "redis", "milo", 1.0, 10)));
}

#[test]
fn numeric_predicates_compare_fields() {
    let busy = Filter::parse("cpu>50");
    assert!(matches(&busy, &process(1, "node", "milo", 75.0, 10)));
    assert!(!matches(&busy, &process(2, "node", "milo", 12.0, 10)));

    let big = Filter::parse("mem>=100mb");
    assert!(matches(&big, &process(1, "node", "milo", 1.0, 200_000_000)));
    assert!(!matches(&big, &process(2, "node", "milo", 1.0, 50_000_000)));
}

#[test]
fn field_predicates_scope_the_match() {
    let mine = Filter::parse("user:milo");
    assert!(matches(&mine, &process(1, "node", "milo", 1.0, 10)));
    assert!(!matches(&mine, &process(2, "node", "root", 1.0, 10)));
}

#[test]
fn terms_are_anded_together() {
    let filter = Filter::parse("cpu>50 user:milo");
    assert!(matches(&filter, &process(1, "node", "milo", 80.0, 10)));
    assert!(!matches(&filter, &process(2, "node", "milo", 5.0, 10)));
    assert!(!matches(&filter, &process(3, "node", "root", 80.0, 10)));
}

#[test]
fn unparseable_predicate_falls_back_to_substring() {
    let filter = Filter::parse("cpu");
    assert!(matches(&filter, &process(1, "cpuminer", "milo", 1.0, 10)));
    assert!(!matches(&filter, &process(2, "node", "milo", 1.0, 10)));
}

#[test]
fn empty_query_matches_everything() {
    let filter = Filter::parse("   ");
    assert!(matches(&filter, &process(1, "node", "milo", 1.0, 10)));
    assert!(matches(&filter, &process(2, "redis", "root", 99.0, 9_000)));
}

#[test]
fn parses_terms() {
    let filter = Filter::parse("Node  USER:Milo mem<=1.5GiB pid>x name:");
    let terms = filter.terms();
    assert_eq!(terms.len(), 5);
    assert!(matches!(&terms[0], Term::Text(t) if t == "node"));
    assert!(matches!(&terms[1], Term::Field { needle, .. } if needle == "milo"));
    assert!(matches!(
        &terms[2],
        Term::Numeric { quantity: NumField::Mem, op: Op::Le, number, multiplier: 1_073_741_824 }
            if number == "1.5"
    ));
    assert!(matches!(&terms[3], Term::Text(t) if t == "pid>x"));
    assert!(matches!(&terms[4], Term::Field { needle, .. } if needle.is_empty()));
    assert!(terms[2].is_numeric());
    assert!(!terms[0].is_numeric());
}

#[test]
fn size_suffixes_scale_memory() {
    for (query, multiplier) in [
        ("mem>1k", 1_000u64),
        ("mem>1kb", 1_000),
        ("mem>1kib", 1_024),
        ("mem>1m", 1_000_000),
        ("mem>1t", 1_000_000_000_000),
        ("mem>1tib", 1_099_511_627_776),
        ("mem>7", 1),
        ("rss>1b", 1),
    ] {
        let filter = Filter::parse(query);
        match &filter.terms()[0] {
            Term::Numeric { multiplier: m, .. } => assert_eq!(*m, multiplier, "{query}"),
            other => panic!("{query} parsed as {other:?}"),
        }
    }
}

#[test]
fn ignores_case_when_comparing_fields() {
    assert!(contains_ignore_case("Milo Evans", "EVANS"));
    assert!(!contains_ignore_case("root", "milo"));
    assert!(contains_ignore_case("anything", ""));
}

#[test]
fn joined_query_matches_when_both_halves_do() {
    let procs = [
        process(1, "node", "milo", 60.0, 10),
        process(2, "node", "root", 10.0, 10),
        process(3, "redis", "milo", 80.0, 10),
    ];
    let a = "cpu>50";
    let b = "user:milo";
    let joined = Filter::parse(&format!("{a} {b}"));
    assert_eq!(joined.terms().len(), Filter::parse(a).terms().len() + Filter::parse(b).terms().len());
    for p in &procs {
        assert_eq!(
            matches(&joined, p),
            matches(&Filter::parse(a), p) && matches(&Filter::parse(b), p)
        );
    }
}
