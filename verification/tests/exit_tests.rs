use single_ion::exit::{
    exit_message, exit_reason, format_exit, task_outcome, FirstExit, TaskOutcome,
};
use single_ion::services::Service;
use tokio::task::JoinError;

fn runtime() -> tokio::runtime::Runtime {
    tokio::runtime::Builder::new_current_thread().build().unwrap()
}

fn panicked() -> JoinError {
    runtime().block_on(async {
        tokio::spawn(async {
            if true {
                panic!("boom");
            }
        })
        .await
        .unwrap_err()
    })
}

fn cancelled() -> JoinError {
    runtime().block_on(async {
        let task = tokio::spawn(std::future::pending::<()>());
        task.abort();
        task.await.unwrap_err()
    })
}

#[test]
fn a_panic_is_told() {
    let e = panicked();
    assert!(e.is_panic());
    let text = e.to_string();
    assert!(text.contains("boom"));
    assert_eq!(format_exit("gluon", Err(e)), format!("gluon panicked: {text}"));
}

#[test]
fn a_lost_task_is_told() {
    let e = cancelled();
    assert!(!e.is_panic());
    let text = e.to_string();
    assert_eq!(format_exit("ion", Err(e)), format!("ion task error: {text}"));
}

#[test]
fn an_error_of_the_service_is_told_without_its_name() {
    let e = anyhow::Error::msg("inner").context("outer");
    assert_eq!(format_exit("reactive", Ok(Err(e))), "error: outer");
}

#[test]
fn a_clean_exit_is_unexpected() {
    assert_eq!(
        format_exit("neutrino", Ok(Ok(()))),
        "neutrino exited cleanly (unexpected)"
    );
}

#[test]
fn messages_for_given_outcomes() {
    let text = || "x".to_string();
    assert_eq!(exit_message("a", &TaskOutcome::Panicked(text())), "a panicked: x");
    assert_eq!(exit_message("a", &TaskOutcome::Lost(text())), "a task error: x");
    assert_eq!(exit_message("a", &TaskOutcome::Failed(text())), "error: x");
    assert_eq!(exit_message("a", &TaskOutcome::Clean), "a exited cleanly (unexpected)");
}

#[test]
fn outcomes_are_told_apart() {
    assert!(matches!(task_outcome(Err(panicked())), TaskOutcome::Panicked(_)));
    assert!(matches!(task_outcome(Err(cancelled())), TaskOutcome::Lost(_)));
    assert!(matches!(
        task_outcome(Ok(Err(anyhow::Error::msg("no")))),
        TaskOutcome::Failed(t) if t == "no"
    ));
    assert!(matches!(task_outcome(Ok(Ok(()))), TaskOutcome::Clean));
}

#[test]
fn the_reason_for_a_shutdown() {
    assert_eq!(exit_reason(FirstExit::CtrlC), "ctrl-c");
    assert_eq!(
        exit_reason(FirstExit::Ended(Service::Reactive, Ok(Ok(())))),
        "reactive exited cleanly (unexpected)"
    );
    assert_eq!(
        exit_reason(FirstExit::Ended(Service::Ion, Ok(Err(anyhow::Error::msg("bind"))))),
        "error: bind"
    );
}

#[test]
fn services_have_names() {
    assert_eq!(Service::Gluon.name(), "gluon");
    assert_eq!(Service::Reactive.name(), "reactive");
    assert_eq!(Service::Ion.name(), "ion");
    assert_eq!(Service::Neutrino.name(), "neutrino");
}

#[test]
fn the_name_stands_in_front_and_changes_nothing_else() {
    let text = || "x".to_string();
    for outcome in [TaskOutcome::Panicked(text()), TaskOutcome::Lost(text()), TaskOutcome::Clean] {
        assert_eq!(
            exit_message("gluon", &outcome),
            format!("gluon{}", exit_message("", &outcome))
        );
    }
    let own = TaskOutcome::Failed(text());
    assert_eq!(exit_message("gluon", &own), exit_message("", &own));
    assert_eq!(
        format_exit("ion", Ok(Ok(()))),
        format!("ion{}", format_exit("", Ok(Ok(()))))
    );
}
