use pipesys::error::{Error, PublishFault};
use pipesys::fetch::DescriptorMap;
use pipesys::publisher::{plan_link, Publisher, Stage, Task};

fn map(entries: &[(&str, i32)]) -> DescriptorMap {
    let targets = entries.iter().map(|(target, _)| target.to_string()).collect();
    let descriptors = entries.iter().map(|(_, descriptor)| *descriptor).collect();
    DescriptorMap::pair(targets, descriptors).unwrap()
}

/// Carries out tasks until the process ends; `fails` says which task fails,
/// counted from zero.
fn run(publisher: &mut Publisher, fails: Option<usize>) -> Vec<String> {
    let mut tasks = Vec::new();
    let mut succeeded = true;
    loop {
        let task = publisher.advance(succeeded);
        let text = match &task {
            Task::CreateDirectory { path } => format!("mkdir {path}"),
            Task::CreateLink { source, link } => format!("link {link} -> {source}"),
            other => format!("{other:?}"),
        };
        succeeded = fails != Some(tasks.len());
        tasks.push(text);
        if matches!(task, Task::Succeed | Task::Fail(_)) {
            return tasks;
        }
    }
}

#[test]
fn link_is_planned_under_the_parent() {
    let plan = plan_link("/run/links", "/etc/ssl/cert.pem", 4321, 7, 0).unwrap();
    assert_eq!(plan.link, "/run/links/etc/ssl/cert.pem");
    assert_eq!(plan.directory, "/run/links/etc/ssl");
    assert_eq!(plan.source, "/proc/4321/fd/7");
    let plan = plan_link("links", "cert.pem", 1, 3, 5).unwrap();
    assert_eq!(plan.link, "links/cert.pem");
    assert_eq!(plan.directory, "links");
    assert_eq!(plan.source, "/proc/1/fd/3");
}

#[test]
fn link_is_not_planned_for_a_path_that_escapes() {
    assert_eq!(
        plan_link("/run/links", "/etc/../../passwd", 1, 3, 4).unwrap_err(),
        PublishFault::ParentReference { index: 4 }
    );
    assert_eq!(
        plan_link("/run/links", "..", 1, 3, 0).unwrap_err(),
        PublishFault::ParentReference { index: 0 }
    );
}

#[test]
fn link_is_not_planned_without_a_directory() {
    assert_eq!(
        plan_link("/", "/", 1, 3, 2).unwrap_err(),
        PublishFault::NoDirectory { index: 2 }
    );
    assert_eq!(plan_link("", "", 1, 3, 1).unwrap_err(), PublishFault::NoDirectory { index: 1 });
}

#[test]
fn publisher_publishes_then_waits_then_removes() {
    let mut publisher =
        Publisher::new("/run/links", "/run/ready", 99, map(&[("/etc/a", 5), ("b/c", 6)]));
    assert_eq!(publisher.parent(), "/run/links");
    assert_eq!(publisher.marker(), "/run/ready");
    assert_eq!(publisher.stage(), Stage::Start);
    let tasks = run(&mut publisher, None);
    assert_eq!(
        tasks,
        vec![
            "WatchCreation",
            "WatchDeletion",
            "mkdir /run/links/etc",
            "link /run/links/etc/a -> /proc/99/fd/5",
            "mkdir /run/links/b",
            "link /run/links/b/c -> /proc/99/fd/6",
            "WriteMarker",
            "AwaitCreation",
            "AwaitDeletion",
            "RemoveTree",
            "Succeed",
        ]
    );
    assert_eq!(publisher.stage(), Stage::Done);
    assert!(matches!(publisher.advance(true), Task::Succeed));
    assert!(matches!(publisher.advance(false), Task::Succeed));
}

#[test]
fn publisher_with_nothing_to_publish_writes_the_marker() {
    let mut publisher = Publisher::new("/run/links", "/run/ready", 99, map(&[]));
    let tasks = run(&mut publisher, None);
    assert_eq!(
        tasks,
        vec![
            "WatchCreation",
            "WatchDeletion",
            "WriteMarker",
            "AwaitCreation",
            "AwaitDeletion",
            "RemoveTree",
            "Succeed",
        ]
    );
}

#[test]
fn publisher_stops_at_the_first_failure() {
    let entries = [("/etc/a", 5), ("b/c", 6)];
    let faults = [
        Error::PublishError(PublishFault::Watch),
        Error::PublishError(PublishFault::Watch),
        Error::PublishError(PublishFault::CreateDirectory { index: 0 }),
        Error::PublishError(PublishFault::CreateLink { index: 0 }),
        Error::PublishError(PublishFault::CreateDirectory { index: 1 }),
        Error::PublishError(PublishFault::CreateLink { index: 1 }),
        Error::PublishError(PublishFault::CreateMarker),
        Error::PublishError(PublishFault::Watch),
        Error::PublishError(PublishFault::Watch),
        Error::TeardownError,
    ];
    for (failing, fault) in faults.iter().enumerate() {
        let mut publisher = Publisher::new("/run/links", "/run/ready", 99, map(&entries));
        let tasks = run(&mut publisher, Some(failing));
        assert_eq!(tasks.len(), failing + 2, "{tasks:?}");
        assert_eq!(tasks.last().unwrap(), &format!("{:?}", Task::Fail(*fault)));
        assert_eq!(publisher.stage(), Stage::Failed(*fault));
        assert!(matches!(publisher.advance(true), Task::Fail(_)));
        assert_eq!(publisher.stage(), Stage::Failed(*fault));
    }
}

#[test]
fn publisher_refuses_a_target_that_escapes() {
    let mut publisher =
        Publisher::new("/run/links", "/run/ready", 99, map(&[("/etc/a", 5), ("../b", 6)]));
    let tasks = run(&mut publisher, None);
    assert_eq!(
        tasks,
        vec![
            "WatchCreation".to_string(),
            "WatchDeletion".to_string(),
            "mkdir /run/links/etc".to_string(),
            "link /run/links/etc/a -> /proc/99/fd/5".to_string(),
            format!("{:?}", Task::Fail(Error::PublishError(PublishFault::ParentReference {
                index: 1
            }))),
        ]
    );
}
