use winderust::foreground::process_tree::{first_failure, tree_termination_step, TreeTerminationStep};
use winderust::power::powercfg::{adaptive_plan_step, AdaptivePlanStep, ADAPTIVE_PLAN_NAME};

fn ok() -> Result<(), String> {
    Ok(())
}

fn err(message: &str) -> Result<(), String> {
    Err(message.to_owned())
}

#[test]
fn first_failure_finds_the_earliest_error() {
    assert_eq!(first_failure(&vec![]), None);
    assert_eq!(first_failure(&vec![ok(), ok()]), None);
    assert_eq!(first_failure(&vec![ok(), err("a"), err("b")]), Some(1));
}

#[test]
fn tree_termination_makes_every_target_then_checks_every_one_then_ends_them() {
    assert_eq!(tree_termination_step(2, &vec![], &vec![], &vec![]), TreeTerminationStep::Capture(0));
    assert_eq!(tree_termination_step(2, &vec![ok()], &vec![], &vec![]), TreeTerminationStep::Capture(1));
    assert_eq!(tree_termination_step(2, &vec![ok(), ok()], &vec![], &vec![]), TreeTerminationStep::CheckAccess(0));
    assert_eq!(
        tree_termination_step(2, &vec![ok(), ok()], &vec![ok()], &vec![]),
        TreeTerminationStep::CheckAccess(1)
    );
    assert_eq!(
        tree_termination_step(2, &vec![ok(), ok()], &vec![ok(), ok()], &vec![]),
        TreeTerminationStep::Terminate(0)
    );
    assert_eq!(
        tree_termination_step(2, &vec![ok(), ok()], &vec![ok(), ok()], &vec![ok()]),
        TreeTerminationStep::Terminate(1)
    );
    assert_eq!(
        tree_termination_step(2, &vec![ok(), ok()], &vec![ok(), ok()], &vec![ok(), ok()]),
        TreeTerminationStep::Finish(Ok(2))
    );
}

#[test]
fn a_failed_check_ends_nothing() {
    assert_eq!(
        tree_termination_step(3, &vec![ok(), ok(), ok()], &vec![ok(), err("Access is denied.")], &vec![]),
        TreeTerminationStep::Finish(Err("Access is denied.".to_owned()))
    );
    assert_eq!(
        tree_termination_step(3, &vec![ok(), err("The selected process instance has changed.")], &vec![], &vec![]),
        TreeTerminationStep::Finish(Err("The selected process instance has changed.".to_owned()))
    );
    assert_eq!(
        tree_termination_step(2, &vec![ok(), ok()], &vec![ok(), ok()], &vec![err("gone")]),
        TreeTerminationStep::Finish(Err("gone".to_owned()))
    );
}

#[test]
fn adaptive_plan_is_named_then_described_then_returned() {
    let source = "381b4222-f694-41f0-9685-ff5bb260df2e";
    let copy = Ok("11111111-2222-3333-4444-555555555555".to_owned());
    assert_eq!(
        adaptive_plan_step(source, &copy, &vec![]),
        AdaptivePlanStep::WriteName {
            guid: "11111111-2222-3333-4444-555555555555".to_owned(),
            name: ADAPTIVE_PLAN_NAME,
        }
    );
    match adaptive_plan_step(source, &copy, &vec![ok()]) {
        AdaptivePlanStep::WriteDescription { guid, description } => {
            assert_eq!(guid, "11111111-2222-3333-4444-555555555555");
            assert!(description.ends_with(source));
            assert!(description.len() > source.len());
        }
        other => panic!("unexpected step {:?}", other),
    }
    assert_eq!(
        adaptive_plan_step(source, &copy, &vec![ok(), ok()]),
        AdaptivePlanStep::Finish(Ok("11111111-2222-3333-4444-555555555555".to_owned()))
    );
}

#[test]
fn a_failed_write_deletes_the_copy() {
    let copy = Ok("abc".to_owned());
    assert_eq!(
        adaptive_plan_step("src", &copy, &vec![err("name refused")]),
        AdaptivePlanStep::DeleteCopy { guid: "abc".to_owned(), error: "name refused".to_owned() }
    );
    assert_eq!(
        adaptive_plan_step("src", &copy, &vec![ok(), err("description refused")]),
        AdaptivePlanStep::DeleteCopy { guid: "abc".to_owned(), error: "description refused".to_owned() }
    );
    assert_eq!(
        adaptive_plan_step("src", &Err("duplicate failed".to_owned()), &vec![]),
        AdaptivePlanStep::Finish(Err("duplicate failed".to_owned()))
    );
}
