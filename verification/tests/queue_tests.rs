use ltlive::model::{Presentation, User};
use ltlive::queue::Presentations;

fn pres(name: &str, title: &str) -> Presentation {
    Presentation {
        presenter: User { icon: None, ident: None, name: name.to_string() },
        title: title.to_string(),
    }
}

#[test]
fn push_then_pop_on_empty_returns_same() {
    let mut q = Presentations::new();
    q.push(pres("Alice", "Intro"));
    let popped = q.pop().expect("queue had one entry");
    assert_eq!(popped, pres("Alice", "Intro"));
    assert_eq!(q.len(), 0);
}

#[test]
fn pop_on_empty_returns_none() {
    let mut q = Presentations::new();
    assert!(q.pop().is_none());
    assert_eq!(q.len(), 0);
}

#[test]
fn pop_is_fifo() {
    let mut q = Presentations::new();
    q.push(pres("A", "first"));
    q.push(pres("B", "second"));
    assert_eq!(q.pop().unwrap().title, "first");
    assert_eq!(q.pop().unwrap().title, "second");
}

#[test]
fn remove_shifts_following_entries_down() {
    let mut q = Presentations::new();
    q.push(pres("A", "t0"));
    q.push(pres("B", "t1"));
    q.push(pres("C", "t2"));
    assert!(q.remove(1));
    assert_eq!(q.len(), 2);
    assert_eq!(q.get(0).title, "t0");
    assert_eq!(q.get(1).title, "t2");
    let listing = q.list();
    assert!(!listing.contains("t1"));
}

#[test]
fn remove_out_of_range_reports_false() {
    let mut q = Presentations::new();
    q.push(pres("A", "t0"));
    assert!(!q.remove(1));
    assert_eq!(q.len(), 1);
}

#[test]
fn update_replaces_only_the_title() {
    let mut q = Presentations::new();
    q.push(pres("A", "old"));
    assert!(q.update(0, "new".to_string()));
    assert_eq!(q.get(0).title, "new");
    assert_eq!(q.get(0).presenter.name, "A");
    assert!(!q.update(5, "x".to_string()));
}

#[test]
fn get_mut_edits_in_place() {
    let mut q = Presentations::new();
    q.push(pres("A", "old"));
    if let Some(p) = q.get_mut(0) {
        p.title = "patched".to_string();
    }
    assert_eq!(q.get(0).title, "patched");
    assert!(q.get_mut(3).is_none());
}

#[test]
fn list_renders_index_name_title_lines() {
    let mut q = Presentations::new();
    assert_eq!(q.list(), "");
    q.push(pres("Alice", "Intro"));
    q.push(pres("Bob", "Outro"));
    assert_eq!(q.list(), "0: name: Alice title: Intro\n1: name: Bob title: Outro");
}

#[test]
fn from_entries_keeps_order() {
    let q = Presentations::from_entries(vec![pres("A", "x"), pres("B", "y")]);
    assert_eq!(q.len(), 2);
    assert_eq!(q.get(0).presenter.name, "A");
    assert_eq!(q.get(1).presenter.name, "B");
}
