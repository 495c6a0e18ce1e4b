use rust_proxy::redirect::{choose_target, redirect, Ending, Event, IpFamily, Move, Stage, Step};

use IpFamily::{V4, V6};

#[test]
fn the_first_ipv6_address_is_chosen() {
    assert_eq!(choose_target(&[]), None);
    assert_eq!(choose_target(&[V4]), Some(0));
    assert_eq!(choose_target(&[V6]), Some(0));
    assert_eq!(choose_target(&[V4, V4]), Some(0));
    assert_eq!(choose_target(&[V4, V6]), Some(1));
    assert_eq!(choose_target(&[V6, V4]), Some(0));
    assert_eq!(choose_target(&[V4, V4, V6, V6, V4]), Some(2));
}

fn torn(why: Ending) -> Move {
    Move { stage: Stage::Closed, step: Step::TearDown(why) }
}

#[test]
fn a_redirect_goes_step_by_step() {
    let resolved = Event::Resolved(vec![V4, V6]);
    assert_eq!(redirect(Stage::Resolving, &resolved), Move { stage: Stage::Connecting, step: Step::Connect(1) });
    assert_eq!(redirect(Stage::Connecting, &Event::Done), Move { stage: Stage::Flushing, step: Step::Flush });
    assert_eq!(redirect(Stage::Flushing, &Event::Done), Move { stage: Stage::Copying, step: Step::Copy });
    assert_eq!(redirect(Stage::Copying, &Event::Done), torn(Ending::Completed));
}

#[test]
fn every_failure_tears_the_redirect_down() {
    assert_eq!(redirect(Stage::Resolving, &Event::Failed), torn(Ending::Unresolved));
    assert_eq!(redirect(Stage::Resolving, &Event::Resolved(vec![])), torn(Ending::Unresolved));
    assert_eq!(redirect(Stage::Connecting, &Event::Failed), torn(Ending::Unconnected));
    assert_eq!(redirect(Stage::Flushing, &Event::Failed), torn(Ending::Unflushed));
    assert_eq!(redirect(Stage::Copying, &Event::Failed), torn(Ending::Broken));
}

#[test]
fn what_comes_out_of_turn_tears_the_redirect_down() {
    assert_eq!(redirect(Stage::Resolving, &Event::Done), torn(Ending::OutOfTurn));
    assert_eq!(redirect(Stage::Connecting, &Event::Resolved(vec![V4])), torn(Ending::OutOfTurn));
    assert_eq!(redirect(Stage::Flushing, &Event::Resolved(vec![V4])), torn(Ending::OutOfTurn));
    assert_eq!(redirect(Stage::Copying, &Event::Resolved(vec![V4])), torn(Ending::OutOfTurn));
    assert_eq!(redirect(Stage::Closed, &Event::Done), torn(Ending::OutOfTurn));
    assert_eq!(redirect(Stage::Closed, &Event::Failed), torn(Ending::OutOfTurn));
}
