use job_hopper::merge::merge_job_container;
use job_hopper::model::{Container, EnvVar, PodContainer};

fn strings(v: &[&str]) -> Vec<String> {
    v.iter().map(|s| s.to_string()).collect()
}

fn env(name: &str, value: &str) -> EnvVar {
    EnvVar { name: name.to_string(), value: Some(value.to_string()) }
}

fn base(name: &str, image: &str, command: &[&str], args: &[&str], extra: u32) -> PodContainer<u32> {
    PodContainer {
        name: name.to_string(),
        image: Some(image.to_string()),
        command: Some(strings(command)),
        args: Some(strings(args)),
        env: Some(vec![env("BASE", "1")]),
        extra: Some(extra),
    }
}

fn over(name: &str, image: &str, command: &[&str], args: &[&str], envs: Vec<EnvVar>) -> Container {
    Container {
        name: name.to_string(),
        image: image.to_string(),
        command: strings(command),
        args: strings(args),
        env: envs,
    }
}

#[test]
fn scenario_refine_clears_empty_command() {
    let b = vec![PodContainer {
        name: "test".to_string(),
        image: Some("old".to_string()),
        command: Some(strings(&["echo"])),
        args: Some(strings(&["hi"])),
        env: Some(vec![]),
        extra: Some(7u32),
    }];
    let o = vec![over("test", "new", &[], &["bye"], vec![])];
    let r = merge_job_container(b, o);
    assert_eq!(r.len(), 1);
    assert_eq!(r[0].name, "test");
    assert_eq!(r[0].image, Some("new".to_string()));
    assert_eq!(r[0].command, None);
    assert_eq!(r[0].args, Some(strings(&["bye"])));
    assert!(r[0].env.is_none());
    assert_eq!(r[0].extra, Some(7));
}

#[test]
fn scenario_unmatched_base_dropped_and_override_added() {
    let b = vec![base("a", "img-a", &["run"], &["x"], 1)];
    let o = vec![over("b", "x", &[], &[], vec![])];
    let r = merge_job_container(b, o);
    assert_eq!(r.len(), 1);
    assert_eq!(r[0].name, "b");
    assert_eq!(r[0].image, Some("x".to_string()));
    assert_eq!(r[0].command, None);
    assert_eq!(r[0].args, None);
    assert!(r[0].env.is_none());
    assert_eq!(r[0].extra, None);
}

#[test]
fn output_names_come_from_overrides() {
    let b = vec![base("a", "i", &[], &[], 1), base("b", "i", &[], &[], 2), base("c", "i", &[], &[], 3)];
    let o = vec![over("c", "x", &[], &[], vec![]), over("d", "y", &[], &[], vec![])];
    let r = merge_job_container(b, o);
    let names: Vec<&str> = r.iter().map(|c| c.name.as_str()).collect();
    assert_eq!(names, vec!["c", "d"]);
}

#[test]
fn image_always_from_override() {
    let b = vec![base("a", "old-a", &["sh"], &[], 1), base("b", "old-b", &["sh"], &[], 2)];
    let o = vec![over("b", "new-b", &["run"], &[], vec![]), over("a", "new-a", &[], &[], vec![])];
    let r = merge_job_container(b, o);
    assert_eq!(r.len(), 2);
    assert_eq!(r[0].name, "a");
    assert_eq!(r[0].image, Some("new-a".to_string()));
    assert_eq!(r[1].name, "b");
    assert_eq!(r[1].image, Some("new-b".to_string()));
    assert_eq!(r[1].command, Some(strings(&["run"])));
}

#[test]
fn empty_override_command_clears_base_command() {
    let b = vec![base("a", "i", &["long", "command"], &["arg"], 1)];
    let o = vec![over("a", "j", &[], &["new"], vec![env("K", "V")])];
    let r = merge_job_container(b, o);
    assert_eq!(r[0].command, None);
    assert_eq!(r[0].args, Some(strings(&["new"])));
    let e = r[0].env.as_ref().unwrap();
    assert_eq!(e.len(), 1);
    assert_eq!(e[0].name, "K");
    assert_eq!(e[0].value, Some("V".to_string()));
}

#[test]
fn added_container_has_override_fields_only() {
    let b = vec![base("a", "i", &["sh"], &["x"], 9)];
    let o = vec![over("a", "i2", &[], &[], vec![]), over("new", "n", &["go"], &["-v"], vec![env("A", "B")])];
    let r = merge_job_container(b, o);
    assert_eq!(r.len(), 2);
    assert_eq!(r[0].extra, Some(9));
    assert_eq!(r[1].name, "new");
    assert_eq!(r[1].image, Some("n".to_string()));
    assert_eq!(r[1].command, Some(strings(&["go"])));
    assert_eq!(r[1].args, Some(strings(&["-v"])));
    assert_eq!(r[1].env.as_ref().unwrap()[0].name, "A");
    assert_eq!(r[1].extra, None);
}

#[test]
fn first_override_of_a_name_wins() {
    let b = vec![base("a", "i", &[], &[], 1)];
    let o = vec![
        over("a", "first", &[], &[], vec![]),
        over("a", "second", &[], &[], vec![]),
        over("z", "z1", &[], &[], vec![]),
        over("z", "z2", &[], &[], vec![]),
    ];
    let r = merge_job_container(b, o);
    assert_eq!(r.len(), 2);
    assert_eq!(r[0].image, Some("first".to_string()));
    assert_eq!(r[1].name, "z");
    assert_eq!(r[1].image, Some("z1".to_string()));
}

#[test]
fn empty_inputs_merge_to_nothing() {
    let r = merge_job_container(Vec::<PodContainer<u32>>::new(), vec![]);
    assert!(r.is_empty());
    let r = merge_job_container(vec![base("a", "i", &[], &[], 1)], vec![]);
    assert!(r.is_empty());
}

#[test]
fn names_match_case_sensitively() {
    let b = vec![base("App", "i", &["sh"], &[], 1)];
    let o = vec![over("app", "x", &[], &[], vec![])];
    let r = merge_job_container(b, o);
    assert_eq!(r.len(), 1);
    assert_eq!(r[0].name, "app");
    assert_eq!(r[0].extra, None);
}
