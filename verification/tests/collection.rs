use bpptng_grapher::encode::{get_data_from_url, url_string_from_data};
use bpptng_grapher::entry::{entry_from_text, EntryState, FunctionEntry};
use bpptng_grapher::grapher::{example_text, Grapher};

const ARITY_MESSAGE: &str = "too much variables, only one allowed";

#[test]
fn fresh_entry_is_empty_and_uncompiled() {
    let e = FunctionEntry::new("", false);
    assert!(e.text.is_empty());
    assert!(e.func.is_none());
    assert!(e.sink.is_none());

    let e = FunctionEntry::new("", true);
    assert!(e.sink.is_some());
    assert!(!e.sink.as_ref().unwrap().is_paused());
    assert!(e.sink.as_ref().unwrap().empty());
}

#[test]
fn lifecycle_states_follow_the_text() {
    let mut e = FunctionEntry::new("", false);
    assert_eq!(e.current_state(), EntryState::Empty);

    e.update_text("x^2", false);
    assert_eq!(e.current_state(), EntryState::Valid);

    e.update_text("sin(x", false);
    assert_eq!(e.current_state(), EntryState::Invalid);

    e.update_text("x*y", false);
    assert_eq!(e.current_state(), EntryState::Invalid);

    let err = e.update_text("", false);
    assert_eq!(e.current_state(), EntryState::Empty);
    assert!(err.is_none());
}

#[test]
fn editing_to_empty_clears_without_error() {
    let mut e = FunctionEntry::new("x", false);
    let err = e.update_text("x^2", false);
    assert!(err.is_none());
    assert!(e.func.is_some());

    let err = e.update_text("", false);
    assert!(err.is_none());
    assert!(e.func.is_none());
    assert!(e.text.is_empty());
}

#[test]
fn arity_gate_blocks_two_variables() {
    let mut e = FunctionEntry::new("", false);
    let err = e.update_text("x + y", false);
    assert_eq!(err.unwrap(), ARITY_MESSAGE);
    assert!(e.func.is_none());

    let err = e.update_text("x + 1", false);
    assert!(err.is_none());
    assert!(e.func.is_some());
    assert!(e.func.as_ref().unwrap().var_count() <= 1);
}

#[test]
fn compile_failure_keeps_entry_invalid() {
    let mut e = FunctionEntry::new("", false);
    let err = e.update_text("sin(x", false);
    assert_eq!(err.unwrap(), "missing closing parenthesis");
    assert!(e.func.is_none());
    assert!(!e.text.is_empty());
}

#[test]
fn valid_edit_replaces_queued_audio() {
    let mut e = FunctionEntry::new("", true);
    let err = e.update_text("sin(x)", false);
    assert!(err.is_none());
    let s = e.sink.as_ref().unwrap();
    assert_eq!(s.len(), 1);
    assert!(s.is_paused());

    let err = e.update_text("cos(x)", true);
    assert!(err.is_none());
    let s = e.sink.as_ref().unwrap();
    assert_eq!(s.len(), 1);
    assert!(!s.is_paused());

    let err = e.update_text("sin(x", true);
    assert!(err.is_some());
    let s = e.sink.as_ref().unwrap();
    assert!(s.empty());
    assert!(s.is_paused());
}

#[test]
fn clone_drops_the_audio_session() {
    let mut e = FunctionEntry::new("", true);
    e.update_text("x^2", false);
    let c = e.clone();
    assert_eq!(c.text, "x^2");
    assert!(c.func.is_some());
    assert!(c.sink.is_none());
}

#[test]
fn round_trip_restores_texts() {
    let mut data = Vec::new();
    for t in ["x^2", "sin(x)", "42"] {
        data.push(FunctionEntry::new(t, false));
    }
    let url = url_string_from_data(&data);
    assert_eq!(url, "#x^2,sin(x),42");

    let mut out: Vec<FunctionEntry> = Vec::new();
    let err = get_data_from_url(&mut out, &url, false);
    assert!(err.is_none());
    assert_eq!(out.len(), 3);
    assert_eq!(out[0].text, "x^2");
    assert_eq!(out[1].text, "sin(x)");
    assert_eq!(out[2].text, "42");
    assert!(out.iter().all(|e| e.func.is_some()));
}

#[test]
fn empty_collection_serializes_to_nothing() {
    let data: Vec<FunctionEntry> = Vec::new();
    assert_eq!(url_string_from_data(&data), "");

    let mut out: Vec<FunctionEntry> = Vec::new();
    assert!(get_data_from_url(&mut out, "", false).is_none());
    assert!(out.is_empty());
    assert!(get_data_from_url(&mut out, "https://host/page", false).is_none());
    assert!(out.is_empty());
}

#[test]
fn deserialization_takes_the_part_after_the_last_marker() {
    let mut out: Vec<FunctionEntry> = Vec::new();
    let err = get_data_from_url(&mut out, "https://host/page#x,1", false);
    assert!(err.is_none());
    assert_eq!(out.len(), 2);
    assert_eq!(out[0].text, "x");
    assert_eq!(out[1].text, "1");
}

#[test]
fn deserialization_reports_the_last_error() {
    let mut out: Vec<FunctionEntry> = Vec::new();
    let err = get_data_from_url(&mut out, "#x,sin(,x*y", false);
    assert_eq!(err.unwrap(), ARITY_MESSAGE);
    assert_eq!(out.len(), 3);
    assert!(out[0].func.is_some());
    assert!(out[1].func.is_none());
    assert!(out[2].func.is_none());
}

#[test]
fn restore_keeps_empty_segments_uncompiled() {
    let mut out: Vec<FunctionEntry> = Vec::new();
    let err = get_data_from_url(&mut out, "#x,,1", false);
    assert!(err.is_none());
    assert_eq!(out.len(), 3);
    assert_eq!(out[1].text, "");
    assert_eq!(out[1].current_state(), EntryState::Empty);
    assert!(out[1].func.is_none());
    assert!(out[0].func.is_some());
    assert!(out[2].func.is_some());
}

#[test]
fn restored_sessions_sit_paused() {
    let mut out: Vec<FunctionEntry> = Vec::new();
    let err = get_data_from_url(&mut out, "#sin(x)", true);
    assert!(err.is_none());
    let s = out[0].sink.as_ref().unwrap();
    assert_eq!(s.len(), 1);
    assert!(s.is_paused());
}

#[test]
fn restored_segment_with_arity_failure_is_invalid() {
    let (e, err) = entry_from_text("x*y", false);
    assert_eq!(err.unwrap(), ARITY_MESSAGE);
    assert!(e.func.is_none());
    assert_eq!(e.text, "x*y");
}

#[test]
fn grapher_starts_at_defaults() {
    let g = Grapher::new(false, "");
    assert_eq!(g.len(), 0);
    assert!(g.error().is_none());
    assert_eq!(g.points(), 500);
    assert!(!g.is_listening());
    assert!(!g.audio_available());

    let g = Grapher::default();
    assert_eq!(g.len(), 0);
}

#[test]
fn grapher_restores_from_a_bookmark() {
    let g = Grapher::new(false, "#x,sin(x)");
    assert_eq!(g.len(), 2);
    assert!(g.error().is_none());
    assert_eq!(g.entry(0).text, "x");
    assert!(g.entry(1).func.is_some());

    let g = Grapher::new(false, "#x,sin(");
    assert_eq!(g.len(), 2);
    assert_eq!(g.error().as_deref(), Some("expected an operand"));
}

#[test]
fn add_edit_remove_lifecycle() {
    let mut g = Grapher::new(false, "");
    g.add_entry();
    assert_eq!(g.len(), 1);
    assert!(g.entry(0).text.is_empty());
    assert!(g.entry(0).func.is_none());

    g.edit_entry(0, "x^2");
    assert!(g.error().is_none());
    assert!(g.entry(0).func.is_some());

    g.edit_entry(0, "x + y");
    assert_eq!(g.error().as_deref(), Some(ARITY_MESSAGE));
    assert!(g.entry(0).func.is_none());

    g.edit_entry(0, "");
    assert!(g.error().is_none());
    assert!(g.entry(0).func.is_none());

    g.add_entry();
    g.edit_entry(1, "sin(x)");
    g.remove_entry(0);
    assert_eq!(g.len(), 1);
    assert_eq!(g.entry(0).text, "sin(x)");
}

#[test]
fn add_entry_respects_capacity() {
    let mut g = Grapher::new(false, "");
    for _ in 0..25 {
        g.add_entry();
    }
    assert_eq!(g.len(), 18);
}

#[test]
fn random_entries_cycle_the_example_table() {
    let mut g = Grapher::new(false, "");
    for _ in 0..25 {
        g.add_random();
    }
    assert_eq!(g.len(), 18);
    for i in 0..18 {
        assert_eq!(g.entry(i).text, example_text(i));
        assert!(g.entry(i).func.is_some());
    }
    assert!(g.error().is_none());
}

#[test]
fn resolution_is_bounded() {
    let mut g = Grapher::new(false, "");
    g.set_points(5);
    assert_eq!(g.points(), 10);
    g.set_points(2000);
    assert_eq!(g.points(), 1000);
    g.set_points(777);
    assert_eq!(g.points(), 777);
}

#[test]
fn listen_toggle_fans_out_to_every_session() {
    let mut g = Grapher::new(true, "");
    for (i, t) in ["sin(x)", "cos(x)", "x^2"].iter().enumerate() {
        g.add_entry();
        g.edit_entry(i, t);
    }
    assert_eq!(g.len(), 3);
    for i in 0..3 {
        assert!(g.entry(i).func.is_some());
        assert!(g.entry(i).sink.as_ref().unwrap().is_paused());
    }

    g.set_listening(true);
    assert!(g.is_listening());
    for i in 0..3 {
        assert!(!g.entry(i).sink.as_ref().unwrap().is_paused());
        assert_eq!(g.entry(i).sink.as_ref().unwrap().len(), 1);
    }

    g.set_listening(false);
    for i in 0..3 {
        assert!(g.entry(i).sink.as_ref().unwrap().is_paused());
    }
}

#[test]
fn toggle_without_sessions_leaves_state_consistent() {
    let mut g = Grapher::new(false, "");
    for (i, t) in ["sin(x)", "cos(x)", "x^2"].iter().enumerate() {
        g.add_entry();
        g.edit_entry(i, t);
    }
    g.set_listening(true);
    assert!(g.is_listening());
    for i in 0..3 {
        assert!(g.entry(i).sink.is_none());
        assert!(g.entry(i).func.is_some());
    }
    g.set_listening(false);
    assert!(!g.is_listening());
}
