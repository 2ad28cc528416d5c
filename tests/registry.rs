use std::cell::Cell;
use wgpu_egui_tokio::page::Pages;
use wgpu_egui_tokio::shell::{Phase, Shell, ShellEvent};

struct Probe {
    tag: u32,
    events: Cell<u32>,
    renders: Cell<u32>,
    state: Cell<u32>,
}

fn probe(tag: u32) -> Option<Probe> {
    if tag == 0 {
        None
    } else {
        Some(Probe { tag, events: Cell::new(0), renders: Cell::new(0), state: Cell::new(0) })
    }
}

fn names(v: &Vec<String>) -> Vec<&str> {
    let mut out: Vec<&str> = v.iter().map(|s| s.as_str()).collect();
    out.sort();
    out
}

fn entry<'a>(pages: &'a Pages<u32, Probe>, name: &str) -> &'a Probe {
    let i = pages.page_names().iter().position(|n| n == name).unwrap();
    &pages.entries()[i]
}

#[test]
fn new_registry_is_empty() {
    let pages: Pages<u32, Probe> = Pages::new();
    assert_eq!(pages.current(), "");
    assert!(pages.registered_names().is_empty());
    assert!(pages.active_entry().is_none());
    assert!(!pages.is_created());
}

#[test]
fn last_registered_page_is_active() {
    let mut pages = Pages::new();
    pages.register("X".to_string(), 1);
    pages.register("Y".to_string(), 2);
    pages.register("Z".to_string(), 3);
    pages.instantiate_all(probe);
    assert_eq!(pages.current(), "Z");
    assert_eq!(pages.active_entry().unwrap().tag, 3);
}

#[test]
fn reregistering_replaces_factory_and_selects() {
    let mut pages = Pages::new();
    pages.register("A".to_string(), 1);
    pages.register("B".to_string(), 2);
    pages.register("A".to_string(), 5);
    assert_eq!(pages.registered_names(), &vec!["A".to_string(), "B".to_string()]);
    assert_eq!(pages.current(), "A");
    pages.instantiate_all(probe);
    assert_eq!(pages.active_entry().unwrap().tag, 5);
    assert_eq!(entry(&pages, "B").tag, 2);
}

#[test]
fn resize_goes_only_to_active_page() {
    let mut pages = Pages::new();
    pages.register("A".to_string(), 1);
    pages.register("B".to_string(), 2);
    let mut shell = Shell::new();
    assert!(shell.handle(ShellEvent::Resumed).create_context);
    assert!(shell.context_built(true));
    pages.instantiate_all(probe);
    assert_eq!(pages.current(), "B");
    for (w, h) in [(800u32, 600u32), (400, 300)] {
        let r = shell.handle(ShellEvent::Resized { width: w, height: h });
        assert_eq!(r.resize_to.unwrap().width, w);
        assert_eq!(r.resize_to.unwrap().height, h);
        if r.forward_to_page {
            let p = pages.active_entry().unwrap();
            p.events.set(p.events.get() + 1);
        }
    }
    let r = shell.handle(ShellEvent::RedrawRequested);
    assert!(r.draw_frame);
    let p = pages.active_entry().unwrap();
    p.renders.set(p.renders.get() + 1);
    assert_eq!(entry(&pages, "B").events.get(), 2);
    assert_eq!(entry(&pages, "A").events.get(), 0);
    assert_eq!(entry(&pages, "A").renders.get(), 0);
    assert_eq!(entry(&pages, "B").renders.get(), 1);
}

#[test]
fn failing_factory_leaves_page_absent() {
    let mut pages = Pages::new();
    pages.register("A".to_string(), 1);
    pages.register("C".to_string(), 0);
    pages.register("B".to_string(), 2);
    pages.instantiate_all(probe);
    assert_eq!(names(pages.page_names()), vec!["A", "B"]);
    assert!(!pages.select(&"C".to_string()));
    assert_eq!(pages.current(), "B");
}

#[test]
fn failing_active_factory_clears_selector() {
    let mut pages = Pages::new();
    pages.register("A".to_string(), 1);
    pages.register("C".to_string(), 0);
    pages.instantiate_all(probe);
    assert_eq!(pages.current(), "");
    assert!(pages.active_entry().is_none());
    assert!(pages.select(&"A".to_string()));
    assert_eq!(pages.active_entry().unwrap().tag, 1);
}

#[test]
fn all_factories_failing_gives_no_active_entry() {
    let mut pages = Pages::new();
    pages.register("C".to_string(), 0);
    pages.instantiate_all(probe);
    assert!(pages.page_names().is_empty());
    assert!(pages.active_entry().is_none());
}

#[test]
fn switching_keeps_entries() {
    let mut pages = Pages::new();
    pages.register("A".to_string(), 1);
    pages.register("B".to_string(), 2);
    pages.instantiate_all(probe);
    entry(&pages, "A").state.set(7);
    assert!(pages.select(&"A".to_string()));
    assert!(pages.select(&"B".to_string()));
    assert!(pages.select(&"A".to_string()));
    assert_eq!(pages.entries().len(), 2);
    assert_eq!(pages.active_entry().unwrap().tag, 1);
    assert_eq!(pages.active_entry().unwrap().state.get(), 7);
    assert!(pages.is_created());
}

#[test]
fn shell_lifecycle() {
    let mut shell = Shell::new();
    let r = shell.handle(ShellEvent::RedrawRequested);
    assert!(!r.draw_frame && !r.forward_to_page);
    assert!(!shell.context_built(false));
    assert_eq!(shell.phase, Phase::Uninitialized);
    assert!(shell.context_built(true));
    assert_eq!(shell.phase, Phase::Running);
    assert!(!shell.context_built(true));
    let r = shell.handle(ShellEvent::Resumed);
    assert!(!r.create_context);
    let r = shell.handle(ShellEvent::RedrawRequested);
    assert!(r.draw_frame && r.request_redraw && r.forward_to_overlay && r.forward_to_page);
    let r = shell.handle(ShellEvent::Input);
    assert!(r.forward_to_overlay && r.forward_to_page && !r.draw_frame);
    let r = shell.handle(ShellEvent::Resized { width: 0, height: 5 });
    assert_eq!(r.resize_to.unwrap().width, 1);
    assert_eq!(r.resize_to.unwrap().height, 5);
    let r = shell.handle(ShellEvent::CloseRequested);
    assert!(r.exit);
    assert_eq!(shell.phase, Phase::Terminating);
    let r = shell.handle(ShellEvent::RedrawRequested);
    assert!(!r.draw_frame);
}
