use job_hopper::dispatch::{
    create_job, created_reply, error_reply, list_cronjobs, listing_namespace, prepare_job,
    CatalogError, STATUS_BAD_REQUEST, STATUS_CREATED, STATUS_INTERNAL_ERROR,
};
use job_hopper::listing::project;
use job_hopper::model::{
    Container, CronJobData, DispatchError, JobSpec, JobTemplate, PodContainer, RunTemplate,
    ScheduledTemplate,
};

fn strings(v: &[&str]) -> Vec<String> {
    v.iter().map(|s| s.to_string()).collect()
}

fn cron_job(containers: Vec<PodContainer<u8>>) -> ScheduledTemplate<u8, &'static str> {
    ScheduledTemplate {
        name: Some("test_cron_job".to_string()),
        namespace: Some("default".to_string()),
        run: Some(RunTemplate { containers, rest: "job spec" }),
    }
}

fn test_container() -> PodContainer<u8> {
    PodContainer {
        name: "test".to_string(),
        image: Some("test".to_string()),
        command: Some(strings(&["echo"])),
        args: Some(strings(&["hello world"])),
        env: None,
        extra: Some(3),
    }
}

fn request(image: &str, command: &[&str]) -> JobTemplate {
    JobTemplate {
        cronjob_data: CronJobData { name: "test_cron_job".to_string(), namespace: "default".to_string() },
        spec: JobSpec {
            containers: vec![Container {
                name: "test".to_string(),
                image: image.to_string(),
                command: strings(command),
                args: strings(&["hello world"]),
                env: vec![],
            }],
        },
    }
}

#[test]
fn test_list_cronjobs() {
    let r = list_cronjobs(Ok(vec![cron_job(vec![test_container()])]));
    let summaries = match r {
        Ok(s) => s,
        Err(_) => panic!("listing failed"),
    };
    assert_eq!(summaries.len(), 1);
    let t = &summaries[0];
    assert_eq!(t.cronjob_data.name, "test_cron_job");
    assert_eq!(t.cronjob_data.namespace, "default");
    assert_eq!(t.spec.containers.len(), 1);
    let c = &t.spec.containers[0];
    assert_eq!(c.name, "test");
    assert_eq!(c.image, "test");
    assert_eq!(c.command, strings(&["echo"]));
    assert_eq!(c.args, strings(&["hello world"]));
    assert!(c.env.is_empty());
}

#[test]
fn test_list_cronjobs_fail() {
    let fetched: Result<Vec<ScheduledTemplate<u8, ()>>, CatalogError> = Err(CatalogError::Unavailable(
        "Request validation failed with failed to list cronjob".to_string(),
    ));
    match list_cronjobs(fetched) {
        Ok(_) => panic!("listing should fail"),
        Err(reply) => {
            assert_eq!(reply.status, 500);
            assert_eq!(reply.message, "Request validation failed with failed to list cronjob");
        },
    }
}

#[test]
fn test_create_job() {
    let run = match create_job(request("test", &["echo"]), Ok(cron_job(vec![test_container()]))) {
        Ok(run) => run,
        Err(_) => panic!("dispatch failed"),
    };
    assert!(run.name.starts_with("test_cron_job-"));
    let reply = created_reply(&run.name, Ok(()));
    assert_eq!(reply.status, 201);
    assert!(reply.message.contains(&run.name));
}

#[test]
fn listing_template_without_containers_is_empty() {
    let r = project(vec![cron_job(vec![])]);
    match r {
        Ok(s) => {
            assert_eq!(s.len(), 1);
            assert!(s[0].spec.containers.is_empty());
        },
        Err(_) => panic!("an empty container list is no error"),
    }
}

#[test]
fn listing_defaults_absent_fields_to_empty() {
    let t: ScheduledTemplate<u8, ()> = ScheduledTemplate {
        name: None,
        namespace: None,
        run: Some(RunTemplate {
            containers: vec![PodContainer { name: "bare".to_string(), image: None, command: None, args: None, env: None, extra: None }],
            rest: (),
        }),
    };
    let s = JobTemplate::new(t).ok().unwrap();
    assert_eq!(s.cronjob_data.name, "");
    assert_eq!(s.cronjob_data.namespace, "");
    let c = &s.spec.containers[0];
    assert_eq!(c.name, "bare");
    assert_eq!(c.image, "");
    assert!(c.command.is_empty() && c.args.is_empty() && c.env.is_empty());
}

#[test]
fn listing_malformed_template_fails() {
    let bad: ScheduledTemplate<u8, ()> = ScheduledTemplate { name: Some("x".to_string()), namespace: None, run: None };
    assert!(matches!(JobTemplate::new(bad), Err(DispatchError::MalformedTemplate)));
    let good = ScheduledTemplate { name: None, namespace: None, run: Some(RunTemplate { containers: vec![], rest: () }) };
    let bad: ScheduledTemplate<u8, ()> = ScheduledTemplate { name: None, namespace: None, run: None };
    assert!(matches!(project(vec![good, bad]), Err(DispatchError::MalformedTemplate)));
    let bad: ScheduledTemplate<u8, ()> = ScheduledTemplate { name: None, namespace: None, run: None };
    match list_cronjobs(Ok(vec![bad])) {
        Ok(_) => panic!("malformed template listed"),
        Err(reply) => {
            assert_eq!(reply.status, STATUS_INTERNAL_ERROR);
            assert_eq!(reply.message, "the template has no job or pod specification");
        },
    }
}

#[test]
fn prepare_job_names_and_merges() {
    let r = prepare_job(request("new", &[]), Ok(cron_job(vec![test_container()])), "abc123");
    let run = match r {
        Ok(run) => run,
        Err(_) => panic!("dispatch failed"),
    };
    assert_eq!(run.name, "test_cron_job-abc123");
    assert_eq!(run.namespace, "default");
    assert_eq!(run.rest, "job spec");
    assert_eq!(run.containers.len(), 1);
    assert_eq!(run.containers[0].image, Some("new".to_string()));
    assert_eq!(run.containers[0].command, None);
    assert_eq!(run.containers[0].extra, Some(3));
}

#[test]
fn prepare_job_with_unnamed_request() {
    let mut req = request("i", &["x"]);
    req.cronjob_data.name = String::new();
    let run = prepare_job(req, Ok(cron_job(vec![])), "000000").ok().unwrap();
    assert_eq!(run.name, "job-hopper-000000");
    assert_eq!(run.containers.len(), 1);
    assert_eq!(run.containers[0].extra, None);
}

#[test]
fn prepare_job_errors() {
    let r = prepare_job::<u8, ()>(request("i", &[]), Err(CatalogError::NotFound("not found".to_string())), "aaaaaa");
    assert!(matches!(r, Err(DispatchError::TemplateNotFound(ref m)) if m == "not found"));
    let r = prepare_job::<u8, ()>(request("i", &[]), Err(CatalogError::Unavailable("timeout".to_string())), "aaaaaa");
    assert!(matches!(r, Err(DispatchError::CatalogUnavailable(ref m)) if m == "timeout"));
    let bad: ScheduledTemplate<u8, ()> = ScheduledTemplate { name: None, namespace: None, run: None };
    let r = prepare_job(request("i", &[]), Ok(bad), "aaaaaa");
    assert!(matches!(r, Err(DispatchError::MalformedTemplate)));
}

#[test]
fn replies_for_failures() {
    let r = error_reply(DispatchError::TemplateNotFound("cronjobs \"x\" not found".to_string()));
    assert_eq!(r.status, STATUS_BAD_REQUEST);
    assert_eq!(r.message, "cronjobs \"x\" not found");
    let r = error_reply(DispatchError::MalformedTemplate);
    assert_eq!(r.status, 400);
    assert_eq!(r.message, "the template has no job or pod specification");
    let r = created_reply("nightly-abc123", Err("quota exceeded".to_string()));
    assert_eq!(r.status, STATUS_BAD_REQUEST);
    assert_eq!(r.message, "quota exceeded");
    let r = created_reply("nightly-abc123", Ok(()));
    assert_eq!(r.status, STATUS_CREATED);
    assert_eq!(r.message, "job 'nightly-abc123' was created");
}

#[test]
fn listing_namespace_defaults_to_empty() {
    assert_eq!(listing_namespace(None), "");
    assert_eq!(listing_namespace(Some("prod".to_string())), "prod");
}

#[test]
fn not_found_listing_is_internal_error() {
    let fetched: Result<Vec<ScheduledTemplate<u8, ()>>, CatalogError> = Err(CatalogError::NotFound("gone".to_string()));
    match list_cronjobs(fetched) {
        Ok(_) => panic!("listing should fail"),
        Err(reply) => {
            assert_eq!(reply.status, 500);
            assert_eq!(reply.message, "gone");
        },
    }
}
