use foundry::{inherit_fill, Config, Scheme};

fn text(s: &str) -> Option<String> {
    Some(s.to_string())
}

fn table(presets: Vec<(&str, Scheme)>) -> Config {
    let mut cfg = Config::empty();
    for (name, preset) in presets {
        cfg.presets.insert(name.to_string(), preset);
    }
    cfg
}

#[test]
fn inherits_from_the_named_preset() {
    let cfg = table(vec![(
        "a",
        Scheme { program: text("a.exe"), threads_count: Some(3), ..Scheme::default() },
    )]);
    let mut job = Scheme { threads_count: Some(9), ..Scheme::default() };
    inherit_fill(&mut job, "a", &cfg.presets, 1);
    assert_eq!(
        job,
        Scheme { program: text("a.exe"), threads_count: Some(9), ..Scheme::default() }
    );
}

#[test]
fn unknown_preset_changes_nothing() {
    let cfg = table(vec![("a", Scheme { program: text("a.exe"), ..Scheme::default() })]);
    let mut job = Scheme { repeat_count: Some(2), ..Scheme::default() };
    inherit_fill(&mut job, "missing", &cfg.presets, 1);
    assert_eq!(job, Scheme { repeat_count: Some(2), ..Scheme::default() });
}

#[test]
fn dangling_parent_ends_the_chain() {
    let cfg = table(vec![(
        "a",
        Scheme { preset_name: text("gone"), program: text("a.exe"), ..Scheme::default() },
    )]);
    let mut job = Scheme::default();
    inherit_fill(&mut job, "a", &cfg.presets, 1);
    assert_eq!(
        job,
        Scheme { preset_name: text("gone"), program: text("a.exe"), ..Scheme::default() }
    );
}

#[test]
fn nearest_preset_wins() {
    let cfg = table(vec![
        ("a", Scheme { preset_name: text("b"), program: text("a.exe"), ..Scheme::default() }),
        ("b", Scheme { preset_name: text("c"), program: text("b.exe"), ..Scheme::default() }),
        ("c", Scheme { program: text("c.exe"), ..Scheme::default() }),
    ]);
    let mut job = Scheme { preset_name: text("a"), ..Scheme::default() };
    inherit_fill(&mut job, "a", &cfg.presets, 1);
    assert_eq!(job.program, text("a.exe"));
    assert_eq!(job.preset_name, text("a"));
}

#[test]
fn later_presets_fill_what_nearer_ones_lack() {
    let cfg = table(vec![
        ("a", Scheme { preset_name: text("b"), program: text("a.exe"), ..Scheme::default() }),
        (
            "b",
            Scheme {
                preset_name: text("c"),
                program: text("b.exe"),
                args_switches: text("-b"),
                ..Scheme::default()
            },
        ),
        (
            "c",
            Scheme {
                program: text("c.exe"),
                args_switches: text("-c"),
                args_template: text("{c}"),
                ..Scheme::default()
            },
        ),
    ]);
    let mut job = Scheme { preset_name: text("a"), ..Scheme::default() };
    inherit_fill(&mut job, "a", &cfg.presets, 1);
    assert_eq!(job.program, text("a.exe"));
    assert_eq!(job.args_switches, text("-b"));
    assert_eq!(job.args_template, text("{c}"));
}

#[test]
fn two_presets_in_a_circle() {
    let cfg = table(vec![
        (
            "a",
            Scheme { preset_name: text("b"), program: text("a.exe"), ..Scheme::default() },
        ),
        (
            "b",
            Scheme {
                preset_name: text("a"),
                program: text("b.exe"),
                threads_count: Some(6),
                ..Scheme::default()
            },
        ),
    ]);
    let mut job = Scheme { preset_name: text("a"), show_info: Some(false), ..Scheme::default() };
    inherit_fill(&mut job, "a", &cfg.presets, 1);
    assert_eq!(
        job,
        Scheme {
            preset_name: text("a"),
            show_info: Some(false),
            program: text("a.exe"),
            threads_count: Some(6),
            ..Scheme::default()
        }
    );
}

#[test]
fn preset_that_names_itself() {
    let cfg = table(vec![(
        "a",
        Scheme { preset_name: text("a"), program: text("a.exe"), ..Scheme::default() },
    )]);
    let mut job = Scheme::default();
    inherit_fill(&mut job, "a", &cfg.presets, 1);
    assert_eq!(
        job,
        Scheme { preset_name: text("a"), program: text("a.exe"), ..Scheme::default() }
    );
}

fn long_chain() -> Config {
    let mut cfg = Config::empty();
    for i in 1..=70 {
        let mut preset = Scheme { preset_name: text(&format!("step{}", i + 1)), ..Scheme::default() };
        if i == 64 {
            preset.program = text("at64");
        }
        if i == 65 {
            preset.args_switches = text("at65");
        }
        cfg.presets.insert(format!("step{}", i), preset);
    }
    cfg
}

#[test]
fn chain_is_cut_after_sixty_four_presets() {
    let cfg = long_chain();
    let mut job = Scheme { preset_name: text("step1"), ..Scheme::default() };
    inherit_fill(&mut job, "step1", &cfg.presets, 1);
    assert_eq!(job.program, text("at64"));
    assert_eq!(job.args_switches, None);
}

#[test]
fn depth_counts_from_the_given_start() {
    let cfg = long_chain();
    let mut job = Scheme::default();
    inherit_fill(&mut job, "step64", &cfg.presets, 64);
    assert_eq!(job.program, text("at64"));
    assert_eq!(job.preset_name, text("step65"));
    assert_eq!(job.args_switches, None);

    let mut job = Scheme::default();
    inherit_fill(&mut job, "step64", &cfg.presets, 65);
    assert_eq!(job, Scheme::default());

    let mut job = Scheme::default();
    inherit_fill(&mut job, "step64", &cfg.presets, 63);
    assert_eq!(job.program, text("at64"));
    assert_eq!(job.args_switches, text("at65"));
}

#[test]
fn parent_name_is_inherited_like_any_attribute() {
    let cfg = table(vec![
        ("a", Scheme { preset_name: text("b"), ..Scheme::default() }),
        ("b", Scheme { show_info: Some(true), ..Scheme::default() }),
    ]);
    let mut job = Scheme::default();
    inherit_fill(&mut job, "a", &cfg.presets, 1);
    assert_eq!(job.preset_name, text("b"));
    assert_eq!(job.show_info, Some(true));
}

#[test]
fn presets_are_not_changed_by_inheritance() {
    let cfg = table(vec![
        ("a", Scheme { preset_name: text("b"), program: text("a.exe"), ..Scheme::default() }),
        ("b", Scheme { threads_count: Some(2), ..Scheme::default() }),
    ]);
    let mut job = Scheme::default();
    inherit_fill(&mut job, "a", &cfg.presets, 1);
    assert_eq!(
        cfg.presets.get("a"),
        Some(&Scheme { preset_name: text("b"), program: text("a.exe"), ..Scheme::default() })
    );
    assert_eq!(
        cfg.presets.get("b"),
        Some(&Scheme { threads_count: Some(2), ..Scheme::default() })
    );
    assert_eq!(cfg.presets.len(), 2);
}
