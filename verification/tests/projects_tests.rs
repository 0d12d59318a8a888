use focusflow::projects::{
    active_project_name, add_project, clear_active_project, create_project, current_task_label,
    delete_project, effort_label, focus_task_title, set_active_project, status_label, Project, ProjectStatus,
};
use focusflow::Tab;

fn project(id: &str, name: &str) -> Project {
    Project { id: id.to_string(), name: name.to_string(), status: ProjectStatus::Planned, eta_hours: 1, progress: 0 }
}

fn ids(list: &[Project]) -> Vec<&str> {
    list.iter().map(|p| p.id.as_str()).collect()
}

#[test]
fn blank_names_are_refused() {
    let mut list = vec![];
    assert!(!add_project(&mut list, "x".to_string(), "   ".to_string(), 3));
    assert!(!create_project(&mut list, "".to_string(), 3));
    assert!(!create_project(&mut list, "\t\u{3000}".to_string(), 3));
    assert!(list.is_empty());
}

#[test]
fn added_project_is_planned_and_kept_as_typed() {
    let mut list = vec![project("a", "A")];
    assert!(add_project(&mut list, "b".to_string(), "  New  ".to_string(), 8));
    assert_eq!(ids(&list), vec!["a", "b"]);
    assert_eq!(list[1].name, "  New  ");
    assert_eq!(list[1].status, ProjectStatus::Planned);
    assert_eq!(list[1].eta_hours, 8);
    assert_eq!(list[1].progress, 0);
}

#[test]
fn created_project_gets_a_random_uuid() {
    let mut list = vec![];
    assert!(create_project(&mut list, "Refactor the UI".to_string(), 4));
    assert!(create_project(&mut list, "Write docs".to_string(), 2));
    let id = &list[0].id;
    assert_eq!(id.len(), 36);
    for (i, c) in id.chars().enumerate() {
        if [8, 13, 18, 23].contains(&i) {
            assert_eq!(c, '-');
        } else {
            assert!(c.is_ascii_hexdigit() && !c.is_ascii_uppercase());
        }
    }
    assert_eq!(id.chars().nth(14), Some('4'));
    assert_ne!(list[0].id, list[1].id);
    assert_eq!(list[0].name, "Refactor the UI");
}

#[test]
fn delete_removes_every_match_and_clears_choice() {
    let mut list = vec![project("a", "A"), project("b", "B"), project("a", "A2"), project("c", "C")];
    let mut active = Some("a".to_string());
    delete_project(&mut list, &mut active, &"a".to_string());
    assert_eq!(ids(&list), vec!["b", "c"]);
    assert_eq!(active, None);
    let mut active = Some("c".to_string());
    delete_project(&mut list, &mut active, &"b".to_string());
    assert_eq!(ids(&list), vec!["c"]);
    assert_eq!(active, Some("c".to_string()));
    delete_project(&mut list, &mut active, &"zzz".to_string());
    assert_eq!(ids(&list), vec!["c"]);
}

#[test]
fn delete_after_add_restores_list() {
    let mut list = vec![project("a", "A"), project("b", "B")];
    let mut active = None;
    add_project(&mut list, "n".to_string(), "New".to_string(), 1);
    delete_project(&mut list, &mut active, &"n".to_string());
    assert_eq!(ids(&list), vec!["a", "b"]);
}

#[test]
fn choosing_and_naming_the_active_project() {
    let list = vec![project("a", "Alpha"), project("b", "Beta"), project("b", "Beta2")];
    let mut active = None;
    assert_eq!(active_project_name(&list, &active), None);
    assert_eq!(current_task_label(&list, &active), "None");
    assert_eq!(focus_task_title(true, &list, &active), "Deep Work");
    set_active_project(&mut active, &"b".to_string());
    assert_eq!(active, Some("b".to_string()));
    assert_eq!(active_project_name(&list, &active), Some("Beta".to_string()));
    assert_eq!(current_task_label(&list, &active), "Beta");
    assert_eq!(focus_task_title(true, &list, &active), "Beta");
    assert_eq!(focus_task_title(false, &list, &active), "Rest & Recover");
    set_active_project(&mut active, &"gone".to_string());
    assert_eq!(current_task_label(&list, &active), "None");
    clear_active_project(&mut active);
    assert_eq!(active, None);
}

#[test]
fn project_labels() {
    assert_eq!(status_label(ProjectStatus::Planned), "PLANNED");
    assert_eq!(status_label(ProjectStatus::InProgress), "IN PROGRESS");
    assert_eq!(status_label(ProjectStatus::Completed), "COMPLETED");
    assert_eq!(effort_label(12), "12h effort");
    assert_eq!(effort_label(0), "0h effort");
    assert_ne!(Tab::Focus, Tab::Stats);
}
