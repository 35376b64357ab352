use stickerpack::coordinator::{Action, Collection, Coordinator, Event, Outcome, Request};
use stickerpack::resolver::{Input, ResolveError};

const CHAT: i64 = 4242;

fn s(t: &str) -> String {
    t.to_string()
}

/// Runs a request, answering each action with `respond`, and returns the actions in order.
fn drive(request: Request, mut respond: impl FnMut(&Action) -> Event) -> Vec<Action> {
    let mut c = Coordinator::new(CHAT, request);
    let mut log = Vec::new();
    loop {
        let a = c.action();
        if let Action::Finish { .. } = a {
            log.push(a);
            return log;
        }
        let e = respond(&a);
        log.push(a);
        c.step(e);
        assert!(log.len() < 100, "the request does not end");
    }
}

fn pack(names: &[&str]) -> Collection {
    Collection { name: s("ValidPack"), items: names.iter().map(|n| s(n)).collect() }
}

/// Answers as a platform holding `ValidPack` whose items `file_<i>` all download,
/// but for the download that `fail_stream` picks.
fn platform(fail_stream: Option<&'static str>) -> impl FnMut(&Action) -> Event {
    move |a: &Action| match a {
        Action::FetchCollection(r) if r == "ValidPack" => Event::Fetched(pack(&["f0", "f1", "f2"])),
        Action::FetchCollection(_) => Event::Failed,
        Action::ResolveLocator(id) => Event::Located(format!("stickers/{}.webp", id)),
        Action::Download { locator, .. } if Some(locator.as_str()) == fail_stream => Event::Failed,
        _ => Event::Succeeded,
    }
}

fn touches_disk(a: &Action) -> bool {
    matches!(
        a,
        Action::CreateDir(_)
            | Action::Download { .. }
            | Action::BuildArchive { .. }
            | Action::RemoveDir(_)
            | Action::RemoveFile(_)
    )
}

#[test]
fn hello_world_is_answered_with_incorrect_url() {
    let log = drive(Request::Message(Input::Text(s("hello world"))), |_| Event::Succeeded);
    assert_eq!(
        log,
        vec![
            Action::SendText(s("Incorrect url for emoji / sticker set")),
            Action::Finish {
                outcome: Outcome::Unresolved(ResolveError::IncorrectUrl),
                artifacts_left: false
            },
        ]
    );
}

#[test]
fn link_with_two_segments_is_answered_with_incorrect_url() {
    let log = drive(Request::Message(Input::Text(s("https://t.me/addstickers/a/b"))), |_| Event::Succeeded);
    assert_eq!(log[0], Action::SendText(s("Incorrect url for emoji / sticker set")));
    assert!(!log.iter().any(|a| matches!(a, Action::FetchCollection(_))));
    assert_eq!(log.len(), 2);
}

#[test]
fn sticker_with_empty_set_name_is_not_looked_up() {
    let log = drive(Request::Message(Input::Sticker { set_name: Some(s("")) }), |_| Event::Succeeded);
    assert_eq!(log[0], Action::SendText(s("Sticker set name not found")));
    assert!(!log.iter().any(|a| matches!(a, Action::FetchCollection(_))));
}

#[test]
fn sticker_without_set_name_is_reported() {
    let log = drive(Request::Message(Input::Sticker { set_name: None }), |_| Event::Succeeded);
    assert_eq!(log[0], Action::SendText(s("Sticker set name not found")));
    assert_eq!(log.len(), 2);
}

#[test]
fn message_without_reference_ends_silently() {
    let log = drive(Request::Message(Input::Other), |_| Event::Succeeded);
    assert_eq!(
        log,
        vec![Action::Finish {
            outcome: Outcome::Unresolved(ResolveError::NoReference),
            artifacts_left: false
        }]
    );
}

#[test]
fn share_link_fetches_the_named_pack() {
    let log = drive(
        Request::Message(Input::Text(s("https://t.me/addstickers/CatPack"))),
        |_| Event::Failed,
    );
    assert_eq!(log[0], Action::FetchCollection(s("CatPack")));
}

#[test]
fn missing_pack_is_reported_without_disk_work() {
    let log = drive(Request::Download(s("MissingPack")), platform(None));
    assert_eq!(
        log,
        vec![
            Action::FetchCollection(s("MissingPack")),
            Action::SendText(s("Sticker not found")),
            Action::Finish { outcome: Outcome::NotFound, artifacts_left: false },
        ]
    );
    assert!(!log.iter().any(touches_disk));
}

#[test]
fn valid_pack_is_archived_delivered_and_cleaned_up() {
    let log = drive(Request::Download(s("ValidPack")), platform(None));
    let ws = s("4242_ValidPack");
    assert_eq!(
        log,
        vec![
            Action::FetchCollection(s("ValidPack")),
            Action::SendText(s("Downloading 3 stickers...")),
            Action::CreateDir(ws.clone()),
            Action::CreateDir(s("4242_ValidPack/stickers")),
            Action::ResolveLocator(s("f0")),
            Action::Download { locator: s("stickers/f0.webp"), dest: s("4242_ValidPack/stickers/f0.webp") },
            Action::ResolveLocator(s("f1")),
            Action::Download { locator: s("stickers/f1.webp"), dest: s("4242_ValidPack/stickers/f1.webp") },
            Action::ResolveLocator(s("f2")),
            Action::Download { locator: s("stickers/f2.webp"), dest: s("4242_ValidPack/stickers/f2.webp") },
            Action::BuildArchive { source: ws.clone(), dest: s("4242_ValidPack.zip") },
            Action::SendDocument(s("4242_ValidPack.zip")),
            Action::RemoveDir(ws),
            Action::RemoveFile(s("4242_ValidPack.zip")),
            Action::SendText(s("Done")),
            Action::Finish { outcome: Outcome::Delivered, artifacts_left: false },
        ]
    );
}

#[test]
fn failed_second_item_aborts_and_removes_workspace() {
    let log = drive(Request::Download(s("ValidPack")), platform(Some("stickers/f1.webp")));
    let n = log.len();
    assert_eq!(
        &log[n - 4..],
        vec![
            Action::Download { locator: s("stickers/f1.webp"), dest: s("4242_ValidPack/stickers/f1.webp") },
            Action::RemoveDir(s("4242_ValidPack")),
            Action::SendText(s("Something went wrong, please try again later")),
            Action::Finish { outcome: Outcome::Failed, artifacts_left: false },
        ]
        .as_slice()
    );
    assert!(!log.iter().any(|a| matches!(a, Action::BuildArchive { .. } | Action::SendDocument(_))));
    assert!(!log.iter().any(|a| *a == Action::ResolveLocator(s("f2"))));
}

#[test]
fn failed_upload_still_removes_both_artifacts() {
    let mut inner = platform(None);
    let log = drive(Request::Download(s("ValidPack")), move |a: &Action| match a {
        Action::SendDocument(_) => Event::Failed,
        _ => inner(a),
    });
    let n = log.len();
    assert_eq!(
        &log[n - 5..],
        vec![
            Action::SendDocument(s("4242_ValidPack.zip")),
            Action::RemoveDir(s("4242_ValidPack")),
            Action::RemoveFile(s("4242_ValidPack.zip")),
            Action::SendText(s("Something went wrong, please try again later")),
            Action::Finish { outcome: Outcome::Failed, artifacts_left: false },
        ]
        .as_slice()
    );
}

#[test]
fn failed_archive_build_removes_partial_archive() {
    let mut inner = platform(None);
    let log = drive(Request::Download(s("ValidPack")), move |a: &Action| match a {
        Action::BuildArchive { .. } => Event::Failed,
        _ => inner(a),
    });
    assert!(log.contains(&Action::RemoveFile(s("4242_ValidPack.zip"))));
    assert!(!log.iter().any(|a| matches!(a, Action::SendDocument(_))));
    assert_eq!(log.last(), Some(&Action::Finish { outcome: Outcome::Failed, artifacts_left: false }));
}

#[test]
fn failed_workspace_creation_touches_nothing_else() {
    let mut inner = platform(None);
    let log = drive(Request::Download(s("ValidPack")), move |a: &Action| match a {
        Action::CreateDir(_) => Event::Failed,
        _ => inner(a),
    });
    assert_eq!(log.iter().filter(|a| touches_disk(a)).count(), 1);
    assert_eq!(log.last(), Some(&Action::Finish { outcome: Outcome::Failed, artifacts_left: false }));
}

#[test]
fn failed_removal_is_flagged_but_outcome_kept() {
    let mut inner = platform(None);
    let log = drive(Request::Download(s("ValidPack")), move |a: &Action| match a {
        Action::RemoveDir(_) => Event::Failed,
        _ => inner(a),
    });
    let n = log.len();
    assert_eq!(log[n - 2], Action::SendText(s("Done")));
    assert_eq!(log[n - 1], Action::Finish { outcome: Outcome::Delivered, artifacts_left: true });
}

#[test]
fn empty_pack_is_archived_without_downloads() {
    let log = drive(Request::Download(s("Empty")), |a: &Action| match a {
        Action::FetchCollection(_) => Event::Fetched(Collection { name: s("Empty"), items: vec![] }),
        _ => Event::Succeeded,
    });
    assert_eq!(log[1], Action::SendText(s("Downloading 0 stickers...")));
    assert_eq!(log[3], Action::CreateDir(s("4242_Empty/stickers")));
    assert_eq!(log[4], Action::BuildArchive { source: s("4242_Empty"), dest: s("4242_Empty.zip") });
}

#[test]
fn finished_request_stays_finished() {
    let mut c = Coordinator::new(CHAT, Request::Message(Input::Other));
    c.step(Event::Succeeded);
    assert!(matches!(c.action(), Action::Finish { .. }));
}
