use compute_path_tracer::inbuilt::event_loop::{
    on_render_outcome, on_window_event, LoopAction, LoopEvent, RenderAction, RenderOutcome,
};
use compute_path_tracer::packages::new_node_editor::{accepts_attachment, NodeKind};
use compute_path_tracer::packages::node_editor_package::{apply_node_edits, node_title};
use compute_path_tracer::path_tracer::{advance_counters, texture_remake_needed};
use compute_path_tracer::sdf_editor::primitives::{gen_hash, HashSource};

#[test]
fn close_and_escape_exit() {
    assert_eq!(on_window_event(true, LoopEvent::CloseRequested), (true, LoopAction::Exit));
    assert_eq!(on_window_event(false, LoopEvent::EscapePressed), (false, LoopAction::Exit));
}

#[test]
fn nothing_is_drawn_before_the_first_resize() {
    assert_eq!(on_window_event(false, LoopEvent::RedrawRequested), (false, LoopAction::RequestRedraw));
    let (configured, action) = on_window_event(false, LoopEvent::Resized);
    assert!(configured);
    assert_eq!(action, LoopAction::Resize);
    assert_eq!(on_window_event(configured, LoopEvent::RedrawRequested), (true, LoopAction::UpdateAndRender));
    assert_eq!(on_window_event(true, LoopEvent::Other), (true, LoopAction::Nothing));
}

#[test]
fn render_outcomes() {
    assert_eq!(on_render_outcome(RenderOutcome::Presented), RenderAction::Continue);
    assert_eq!(on_render_outcome(RenderOutcome::Lost), RenderAction::Resize);
    assert_eq!(on_render_outcome(RenderOutcome::Outdated), RenderAction::Resize);
    assert_eq!(on_render_outcome(RenderOutcome::OutOfMemory), RenderAction::Exit);
    assert_eq!(on_render_outcome(RenderOutcome::Timeout), RenderAction::Warn);
}

#[test]
fn frame_counters() {
    assert_eq!(advance_counters(0, 0, false), (1, 1));
    assert_eq!(advance_counters(41, 17, true), (42, 1));
    assert!(texture_remake_needed(false, true, false));
    assert!(!texture_remake_needed(false, false, false));
}

#[test]
fn only_an_empty_union_takes_a_shape() {
    assert!(accepts_attachment(NodeKind::Union, false, NodeKind::Shape));
    assert!(!accepts_attachment(NodeKind::Union, true, NodeKind::Shape));
    assert!(!accepts_attachment(NodeKind::Union, false, NodeKind::Union));
    assert!(!accepts_attachment(NodeKind::Shape, false, NodeKind::Shape));
}

#[test]
fn node_list_edits() {
    let mut nodes = vec!["a", "b", "c"];
    assert!(apply_node_edits(&mut nodes, Some(1), Some("d")));
    assert_eq!(nodes, vec!["a", "c", "d"]);
    assert!(!apply_node_edits(&mut nodes, None, None));
    assert_eq!(nodes, vec!["a", "c", "d"]);
    assert_eq!(node_title(0), "1");
    assert_eq!(node_title(11), "12");
}

#[test]
fn one_source_gives_distinct_hashes() {
    let mut h = HashSource::from_os().expect("the entropy source failed");
    let a = gen_hash(&mut h);
    let b = gen_hash(&mut h);
    assert_ne!(a, b);
}
