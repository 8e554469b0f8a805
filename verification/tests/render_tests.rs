use petridish::render::{Payload, Render, TemplateEntry};
use petridish::template::{Context, Value};

fn demo_context() -> Context {
    let mut context = Context::new();
    context.insert("project".to_string(), Value::Str("demo".to_string()));
    context.insert("name".to_string(), Value::Str("alice".to_string()));
    context.insert("x".to_string(), Value::Str("hello".to_string()));
    context.insert("y".to_string(), Value::Str("why".to_string()));
    context
}

fn engine(output: &str, overwrite: bool, skip: bool, exclude: Vec<String>) -> Render {
    Render::new(
        "/t".to_string(),
        "{{ project }}",
        output.to_string(),
        demo_context(),
        overwrite,
        skip,
        exclude,
    )
    .unwrap()
}

fn file_entry(path: &str, content: &str) -> TemplateEntry {
    TemplateEntry {
        path: path.to_string(),
        payload: Payload::File(content.to_string()),
    }
}

#[test]
fn path_templating_round_trip() {
    let render = engine("out", false, false, vec![]);
    let entries = vec![file_entry("/t/{{ project }}/{{ x }}.txt", "plain body\n")];
    let plan = render.build_plan(&entries).unwrap();
    assert_eq!(plan.entries.len(), 1);
    assert_eq!(plan.entries[0].dest_path, "out/demo/hello.txt");
    match &plan.entries[0].payload {
        Payload::File(content) => assert_eq!(content, "plain body\n"),
        _ => panic!("expected a file"),
    }
}

#[test]
fn content_substitution_deterministic() {
    let entries = vec![
        file_entry("/t/{{ project }}/README.md", "# {{ project }}\n"),
        file_entry("/t/{{ project }}/src/{{ name }}.rs", "// by {{ name }}\n"),
    ];
    let plan1 = engine("o1", false, false, vec![])
        .build_plan(&entries)
        .unwrap();
    let plan2 = engine("o1", false, false, vec![])
        .build_plan(&entries)
        .unwrap();
    assert_eq!(plan1.entries.len(), plan2.entries.len());
    for (a, b) in plan1.entries.iter().zip(plan2.entries.iter()) {
        assert_eq!(a.dest_path, b.dest_path);
        match (&a.payload, &b.payload) {
            (Payload::File(c1), Payload::File(c2)) => assert_eq!(c1, c2),
            _ => panic!("expected files"),
        }
    }
}

#[test]
fn exclusion_list_honored() {
    let render = engine("out", false, false, vec!["config.txt".to_string()]);
    let entries = vec![file_entry(
        "/t/{{ project }}/config.txt",
        "keep {{ not_a_var }} literally\n",
    )];
    let plan = render.build_plan(&entries).unwrap();
    assert_eq!(plan.entries.len(), 1);
    assert_eq!(plan.entries[0].dest_path, "out/demo/config.txt");
    match &plan.entries[0].payload {
        Payload::File(content) => assert_eq!(content, "keep {{ not_a_var }} literally\n"),
        _ => panic!("expected a file"),
    }
}

#[test]
fn non_excluded_undefined_variable_fails() {
    let render = engine("out", false, false, vec![]);
    let entries = vec![file_entry(
        "/t/{{ project }}/config.txt",
        "keep {{ not_a_var }} literally\n",
    )];
    let err = render.build_plan(&entries).err().unwrap();
    let msg = err.message();
    assert!(msg.starts_with("failed to render '{{ project }}/config.txt'"));
}

#[test]
fn fail_policy_all_or_nothing() {
    let render = engine("out", false, false, vec![]);
    let entries = vec![
        file_entry("/t/{{ project }}/a.txt", "a\n"),
        file_entry("/t/{{ project }}/b.txt", "b\n"),
        file_entry("/t/{{ project }}/c.txt", "c\n"),
    ];
    let plan = render.build_plan(&entries).unwrap();
    let existing = vec![false, true, false];
    let err = render.select_commit(&plan, &existing).err().unwrap();
    assert_eq!(
        err.message(),
        "exists 'out/demo/b.txt' in output dir, cannot overwrite it, or you can add flag `-f` or `-s`"
    );
}

#[test]
fn fail_policy_commits_all_when_nothing_exists() {
    let render = engine("out", false, false, vec![]);
    let entries = vec![
        file_entry("/t/{{ project }}/a.txt", "a\n"),
        file_entry("/t/{{ project }}/b.txt", "b\n"),
    ];
    let plan = render.build_plan(&entries).unwrap();
    let existing = vec![false, false];
    let selected = render.select_commit(&plan, &existing).unwrap();
    assert_eq!(selected.len(), 2);
    assert_eq!(selected[0].dest_path, "out/demo/a.txt");
    assert_eq!(selected[1].dest_path, "out/demo/b.txt");
}

#[test]
fn overwrite_policy_commits_whole_plan() {
    let render = engine("out", true, false, vec![]);
    let entries = vec![
        file_entry("/t/{{ project }}/a.txt", "a\n"),
        file_entry("/t/{{ project }}/b.txt", "b\n"),
    ];
    let plan = render.build_plan(&entries).unwrap();
    let existing = vec![true, false];
    let selected = render.select_commit(&plan, &existing).unwrap();
    assert_eq!(selected.len(), 2);
    assert_eq!(selected[0].dest_path, "out/demo/a.txt");
    assert_eq!(selected[1].dest_path, "out/demo/b.txt");
}

#[test]
fn skip_policy_drops_existing_only() {
    let render = engine("out", false, true, vec![]);
    let entries = vec![
        file_entry("/t/{{ project }}/a.txt", "a\n"),
        file_entry("/t/{{ project }}/b.txt", "b\n"),
    ];
    let plan = render.build_plan(&entries).unwrap();
    let existing = vec![true, false];
    let selected = render.select_commit(&plan, &existing).unwrap();
    assert_eq!(selected.len(), 1);
    assert_eq!(selected[0].dest_path, "out/demo/b.txt");
}

#[test]
fn symlink_fidelity() {
    let render = engine("out", false, false, vec![]);
    let entries = vec![TemplateEntry {
        path: "/t/{{ project }}/{{ y }}-link".to_string(),
        payload: Payload::Symlink("../{{ x }}/target.txt".to_string()),
    }];
    let plan = render.build_plan(&entries).unwrap();
    assert_eq!(plan.entries.len(), 1);
    assert_eq!(plan.entries[0].dest_path, "out/demo/why-link");
    match &plan.entries[0].payload {
        Payload::Symlink(target) => assert_eq!(target, "../{{ x }}/target.txt"),
        _ => panic!("expected a symlink"),
    }
}

#[test]
fn undefined_variable_aborts_whole_plan() {
    let render = engine("out", false, false, vec![]);
    let entries = vec![
        file_entry("/t/{{ project }}/a.txt", "fine\n"),
        file_entry("/t/{{ project }}/b.txt", "{{ undefined_var }}\n"),
        file_entry("/t/{{ project }}/c.txt", "fine\n"),
    ];
    let result = render.build_plan(&entries);
    assert!(result.is_err());
    let msg = result.err().unwrap().message();
    assert!(msg.starts_with("failed to render '{{ project }}/b.txt'"));
}

#[test]
fn end_to_end_scenario() {
    let render = engine("out", false, false, vec![]);
    let entries = vec![
        file_entry("/t/{{ project }}/README.md", "# {{ project }}\n"),
        file_entry("/t/{{ project }}/src/{{ name }}.rs", "// by {{ name }}\n"),
    ];
    let plan = render.build_plan(&entries).unwrap();
    assert_eq!(plan.entries.len(), 2);
    assert_eq!(plan.entries[0].dest_path, "out/demo/README.md");
    match &plan.entries[0].payload {
        Payload::File(content) => assert_eq!(content, "# demo\n"),
        _ => panic!("expected a file"),
    }
    assert_eq!(plan.entries[1].dest_path, "out/demo/src/alice.rs");
    match &plan.entries[1].payload {
        Payload::File(content) => assert_eq!(content, "// by alice\n"),
        _ => panic!("expected a file"),
    }
}

#[test]
fn exclusion_pattern_that_cannot_render_fails_construction() {
    let mut context = Context::new();
    context.insert("project".to_string(), Value::Str("demo".to_string()));
    let err = Render::new(
        "/t".to_string(),
        "{{ missing_entry_var }}",
        "out".to_string(),
        context,
        false,
        false,
        vec!["config.txt".to_string()],
    )
    .err()
    .unwrap();
    let msg = err.message();
    assert!(msg.starts_with("failed to render '{{ missing_entry_var }}/config.txt'"));
}

#[test]
fn empty_output_path_keeps_relative_destinations() {
    let render = engine("", false, false, vec![]);
    let entries = vec![file_entry("/t/{{ project }}/a.txt", "a\n")];
    let plan = render.build_plan(&entries).unwrap();
    assert_eq!(plan.entries[0].dest_path, "demo/a.txt");
}

#[test]
fn list_values_render_in_content() {
    let mut context = Context::new();
    context.insert("project".to_string(), Value::Str("demo".to_string()));
    context.insert(
        "hobbies".to_string(),
        Value::StrList(vec!["swimming".to_string(), "reading".to_string()]),
    );
    context.insert("age".to_string(), Value::Int(30));
    context.insert("love_rust".to_string(), Value::Bool(true));
    let render = Render::new(
        "/t".to_string(),
        "{{ project }}",
        "out".to_string(),
        context,
        false,
        false,
        vec![],
    )
    .unwrap();
    let entries = vec![file_entry(
        "/t/{{ project }}/profile.txt",
        "{{ hobbies | join(sep=\", \") }} at {{ age }}: {{ love_rust }}\n",
    )];
    let plan = render.build_plan(&entries).unwrap();
    match &plan.entries[0].payload {
        Payload::File(content) => assert_eq!(content, "swimming, reading at 30: true\n"),
        _ => panic!("expected a file"),
    }
}

#[test]
fn empty_template_gives_empty_plan() {
    let render = engine("out", false, false, vec![]);
    let entries: Vec<TemplateEntry> = vec![];
    let plan = render.build_plan(&entries).unwrap();
    assert_eq!(plan.entries.len(), 0);
    let selected = render.select_commit(&plan, &vec![]).unwrap();
    assert!(selected.is_empty());
}

#[test]
fn duplicate_destinations_stay_in_walk_order() {
    let mut context = Context::new();
    context.insert("project".to_string(), Value::Str("demo".to_string()));
    context.insert("a".to_string(), Value::Str("same".to_string()));
    context.insert("b".to_string(), Value::Str("same".to_string()));
    let render = Render::new(
        "/t".to_string(),
        "{{ project }}",
        "out".to_string(),
        context,
        false,
        false,
        vec![],
    )
    .unwrap();
    let entries = vec![
        file_entry("/t/{{ project }}/{{ a }}.txt", "first\n"),
        file_entry("/t/{{ project }}/{{ b }}.txt", "second\n"),
    ];
    let plan = render.build_plan(&entries).unwrap();
    assert_eq!(plan.entries.len(), 2);
    assert_eq!(plan.entries[0].dest_path, "out/demo/same.txt");
    assert_eq!(plan.entries[1].dest_path, "out/demo/same.txt");
    match &plan.entries[1].payload {
        Payload::File(content) => assert_eq!(content, "second\n"),
        _ => panic!("expected a file"),
    }
}
