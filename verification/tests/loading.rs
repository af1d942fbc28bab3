use foundry::{Config, ConfigError, ErrorKind, Node, Scheme};

fn text(s: &str) -> Option<String> {
    Some(s.to_string())
}

fn args(items: &[&str]) -> Vec<String> {
    items.iter().map(|s| s.to_string()).collect()
}

fn s(text: &str) -> Node {
    Node::String(text.to_string())
}

fn table(entries: Vec<(&str, Node)>) -> Node {
    Node::Table(entries.into_iter().map(|(k, v)| (k.to_string(), v)).collect())
}

fn illegal(message: &str) -> ConfigError {
    ConfigError {
        kind: ErrorKind::ConfigIllegal,
        inner: None,
        message: Some(message.to_string()),
    }
}

fn loaded(r: Result<Config, ConfigError>) -> Config {
    match r {
        Ok(cfg) => cfg,
        Err(e) => panic!("unexpected failure: {:?}", e),
    }
}

fn refused(r: Result<Config, ConfigError>) -> ConfigError {
    match r {
        Ok(cfg) => panic!("unexpected configuration with {} jobs", cfg.orders.len()),
        Err(e) => e,
    }
}

fn built_in_alone() -> Scheme {
    Scheme {
        preset_name: None,
        show_progress: Some(true),
        show_info: Some(true),
        threads_count: Some(1),
        simulate_terminal: Some(false),
        repeat_count: Some(1),
        stdout_type: text("ignore"),
        stdout_file_path: None,
        stderr_type: text("ignore"),
        stderr_file_path: None,
        program: None,
        args_template: text(""),
        args_switches: text(""),
        input_list: None,
        input_dir_path: None,
        input_dir_deep: None,
        output_file_path: None,
        output_file_overwrite: Some(true),
        output_dir_path: None,
        output_dir_keep_struct: Some(false),
        output_file_name_extension: None,
        output_file_name_prefix: None,
        output_file_name_suffix: None,
    }
}

#[test]
fn end_to_end() {
    let toml = "
        [presets.default]
        threads.count = 4

        [presets.cwebp]
        program = 'cwebp.exe'

        [[orders]]
        preset = 'cwebp'
    ";
    let cfg = loaded(Config::from_toml(toml.to_string(), &args(&["in.png", "-o", "out.png"])));
    assert_eq!(
        cfg.orders,
        vec![Scheme {
            preset_name: text("cwebp"),
            program: text("cwebp.exe"),
            threads_count: Some(4),
            input_list: Some(args(&["in.png"])),
            output_file_path: text("out.png"),
            ..built_in_alone()
        }]
    );
    assert_eq!(cfg.presets.len(), 2);
    assert_eq!(
        cfg.presets.get("default"),
        Some(&Scheme { threads_count: Some(4), ..Scheme::default() })
    );
    assert_eq!(
        cfg.presets.get("cwebp"),
        Some(&Scheme { program: text("cwebp.exe"), ..Scheme::default() })
    );
}

#[test]
fn job_that_declares_nothing_gets_the_built_in_values_only() {
    let cfg = loaded(Config::from_toml("[presets]\n[[orders]]\n".to_string(), &args(&[])));
    assert_eq!(cfg.presets.len(), 0);
    assert_eq!(
        cfg.orders,
        vec![Scheme {
            preset_name: None,
            show_progress: Some(true),
            show_info: Some(true),
            threads_count: Some(1),
            simulate_terminal: Some(false),
            repeat_count: Some(1),
            stdout_type: text("ignore"),
            stdout_file_path: None,
            stderr_type: text("ignore"),
            stderr_file_path: None,
            program: None,
            args_template: text(""),
            args_switches: text(""),
            input_list: None,
            input_dir_path: None,
            input_dir_deep: None,
            output_file_path: None,
            output_file_overwrite: Some(true),
            output_dir_path: None,
            output_dir_keep_struct: Some(false),
            output_file_name_extension: None,
            output_file_name_prefix: None,
            output_file_name_suffix: None,
        }]
    );
}

#[test]
fn text_that_is_no_toml_is_refused() {
    let failure = refused(Config::from_toml("[presets".to_string(), &args(&[])));
    assert_eq!(failure.kind, ErrorKind::ConfigTomlIllegal);
    assert!(failure.inner.is_some());
    assert_eq!(failure.message, None);
}

#[test]
fn syntax_is_judged_before_the_command_line() {
    let failure = refused(Config::from_toml("= 1".to_string(), &args(&["--bogus"])));
    assert_eq!(failure.kind, ErrorKind::ConfigTomlIllegal);
}

#[test]
fn presets_with_empty_orders_are_refused() {
    let toml = "orders = []\n[presets.default]\nthreads.count = 4\n";
    assert_eq!(
        refused(Config::from_toml(toml.to_string(), &args(&["a.png"]))),
        illegal("order not provided")
    );
}

#[test]
fn presets_without_orders_are_refused() {
    let toml = "[presets.default]\nthreads.count = 4\n";
    assert_eq!(
        refused(Config::from_toml(toml.to_string(), &args(&[]))),
        illegal("order not provided")
    );
    let toml = "orders = 'none'\n[presets.default]\nthreads.count = 4\n";
    assert_eq!(
        refused(Config::from_toml(toml.to_string(), &args(&[]))),
        illegal("order not provided")
    );
}

#[test]
fn document_without_presets_is_refused() {
    let toml = "[[orders]]\nprogram = 'x'\n";
    assert_eq!(
        refused(Config::from_toml(toml.to_string(), &args(&[]))),
        illegal("presets not provided")
    );
    let toml = "presets = 3\n[[orders]]\nprogram = 'x'\n";
    assert_eq!(
        refused(Config::from_toml(toml.to_string(), &args(&["--bogus"]))),
        illegal("presets not provided")
    );
    assert_eq!(
        refused(Config::from_toml(String::new(), &args(&[]))),
        illegal("presets not provided")
    );
}

#[test]
fn refused_command_line_fails_the_load() {
    let toml = "[presets.p]\nprogram = 'p'\n[[orders]]\npreset = 'p'\n";
    assert_eq!(
        refused(Config::from_toml(toml.to_string(), &args(&["--bogus"]))),
        illegal("unknown switch `--bogus` in process arguments")
    );
    assert_eq!(
        refused(Config::from_toml(toml.to_string(), &args(&["-o", "x", "-o", "y"]))),
        illegal("too many output path in process arguments")
    );
}

#[test]
fn empty_presets_table_is_enough() {
    let toml = "[presets]\n[[orders]]\nprogram = 'x'\n";
    let cfg = loaded(Config::from_toml(toml.to_string(), &args(&[])));
    assert_eq!(cfg.presets.len(), 0);
    assert_eq!(cfg.orders, vec![Scheme { program: text("x"), ..built_in_alone() }]);
}

#[test]
fn jobs_keep_the_order_of_the_document() {
    let toml = "
        [presets]
        [[orders]]
        program = 'first'
        [[orders]]
        program = 'second'
        [[orders]]
        program = 'third'
    ";
    let cfg = loaded(Config::from_toml(toml.to_string(), &args(&[])));
    let programs: Vec<Option<String>> = cfg.orders.iter().map(|o| o.program.clone()).collect();
    assert_eq!(programs, vec![text("first"), text("second"), text("third")]);
}

#[test]
fn thread_count_beyond_32_bits_counts_as_absent() {
    let toml = "[presets]\n[[orders]]\nthreads.count = 4294967296\nrepeat.count = 2147483647\n";
    let cfg = loaded(Config::from_toml(toml.to_string(), &args(&[])));
    assert_eq!(cfg.orders[0].threads_count, Some(1));
    assert_eq!(cfg.orders[0].repeat_count, Some(2147483647));
}

#[test]
fn input_list_of_the_document_beats_the_command_line() {
    let toml = "[presets]\n[[orders]]\ninput.list = ['doc.png']\n";
    let cfg = loaded(Config::from_toml(toml.to_string(), &args(&["cli.png"])));
    assert_eq!(cfg.orders[0].input_list, Some(args(&["doc.png"])));
}

#[test]
fn sample_configuration_resolves() {
    let cfg = loaded(Config::_from_toml_test(&args(&[])));
    assert_eq!(cfg.presets.len(), 5);
    assert_eq!(
        cfg.orders,
        vec![Scheme {
            preset_name: text("cwebp_lossless"),
            show_progress: Some(true),
            show_info: Some(true),
            threads_count: Some(4),
            simulate_terminal: Some(false),
            repeat_count: Some(1),
            stdout_type: text("file"),
            stdout_file_path: text("./target/test-stdout.log"),
            stderr_type: text("file"),
            stderr_file_path: text("./target/test-stderr.log"),
            program: text("D:\\Library\\libwebp\\libwebp_1.0.0\\bin\\cwebp.exe"),
            args_template: text("{args.switches} {input.file_path} -o {output.file_path}"),
            args_switches: text("-lossless -m 6 -noalpha -sharp_yuv -metadata none"),
            input_list: None,
            input_dir_path: text("D:\\Temp\\foundry_test\\source"),
            input_dir_deep: None,
            output_file_path: None,
            output_file_overwrite: Some(true),
            output_dir_path: text("D:\\Temp\\foundry_test\\target"),
            output_dir_keep_struct: Some(false),
            output_file_name_extension: text("webp"),
            output_file_name_prefix: text("out_"),
            output_file_name_suffix: text("_out"),
        }]
    );
}

#[test]
fn sample_configuration_keeps_its_presets() {
    let cfg = loaded(Config::_from_toml_test(&args(&["a.png", "-o", "a.webp"])));
    assert_eq!(
        cfg.presets.get("cwebp_lossless"),
        Some(&Scheme {
            preset_name: text("cwebp"),
            args_switches: text("-lossless -m 6 -noalpha -sharp_yuv -metadata none"),
            ..Scheme::default()
        })
    );
    assert_eq!(
        cfg.presets.get("clock"),
        Some(&Scheme {
            repeat_count: Some(10),
            program: text("cmd"),
            args_template: text(
                "/c echo {args.switches} ; {repeat.index} ; {repeat.position} && timeout /t 1 > nul"
            ),
            args_switches: text("time: %time%"),
            threads_count: Some(1),
            stdout_type: text("normal"),
            stderr_type: text("normal"),
            ..Scheme::default()
        })
    );
    assert!(cfg.presets.get("global").is_none());
    assert_eq!(cfg.orders[0].input_list, Some(args(&["a.png"])));
    assert_eq!(cfg.orders[0].output_file_path, text("a.webp"));
}

#[test]
fn sample_configuration_with_a_refused_command_line() {
    assert_eq!(
        refused(Config::_from_toml_test(&args(&["--bogus"]))),
        illegal("unknown switch `--bogus` in process arguments")
    );
}

#[test]
fn from_document_builds_presets_and_jobs() {
    let doc = table(vec![
        (
            "presets",
            table(vec![
                ("default", table(vec![("threads", table(vec![("count", Node::Integer(4))]))])),
                ("cwebp", table(vec![("program", s("cwebp.exe"))])),
            ]),
        ),
        ("orders", Node::Array(vec![table(vec![("preset", s("cwebp"))])])),
    ]);
    let cfg = loaded(Config::from_document(&doc, &args(&["in.png", "-o", "out.png"])));
    assert_eq!(cfg.presets.len(), 2);
    assert_eq!(
        cfg.orders,
        vec![Scheme {
            preset_name: text("cwebp"),
            program: text("cwebp.exe"),
            threads_count: Some(4),
            input_list: Some(args(&["in.png"])),
            output_file_path: text("out.png"),
            ..built_in_alone()
        }]
    );
}

#[test]
fn from_document_takes_the_first_preset_of_a_name() {
    let doc = table(vec![
        (
            "presets",
            table(vec![
                ("p", table(vec![("program", s("first"))])),
                ("p", table(vec![("program", s("second")), ("args", table(vec![]))])),
            ]),
        ),
        ("orders", Node::Array(vec![table(vec![("preset", s("p"))])])),
    ]);
    let cfg = loaded(Config::from_document(&doc, &args(&[])));
    assert_eq!(cfg.presets.len(), 1);
    assert_eq!(cfg.orders[0].program, text("first"));
}

#[test]
fn from_document_without_sections() {
    let no_presets = table(vec![("orders", Node::Array(vec![table(vec![])]))]);
    assert_eq!(
        refused(Config::from_document(&no_presets, &args(&[]))),
        illegal("presets not provided")
    );
    let presets_no_table =
        table(vec![("presets", Node::Array(vec![])), ("orders", Node::Array(vec![table(vec![])]))]);
    assert_eq!(
        refused(Config::from_document(&presets_no_table, &args(&[]))),
        illegal("presets not provided")
    );
    let no_orders = table(vec![("presets", table(vec![]))]);
    assert_eq!(
        refused(Config::from_document(&no_orders, &args(&[]))),
        illegal("order not provided")
    );
    let empty_orders = table(vec![("presets", table(vec![])), ("orders", Node::Array(vec![]))]);
    assert_eq!(
        refused(Config::from_document(&empty_orders, &args(&[]))),
        illegal("order not provided")
    );
    assert_eq!(
        refused(Config::from_document(&s("no table"), &args(&[]))),
        illegal("presets not provided")
    );
}

#[test]
fn from_document_reads_a_job_that_is_no_table_as_empty() {
    let doc = table(vec![("presets", table(vec![])), ("orders", Node::Array(vec![Node::Integer(1)]))]);
    let cfg = loaded(Config::from_document(&doc, &args(&[])));
    assert_eq!(cfg.orders, vec![built_in_alone()]);
}
