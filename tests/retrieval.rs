use guestbook::paging::{contains_text, list_messages, name_matches, total_pages, Message, PageRequest};

fn board(names: &[&str]) -> Vec<Message> {
    let n = names.len() as i32;
    names
        .iter()
        .enumerate()
        .map(|(i, name)| Message { id: n - i as i32, author_name: name.to_string(), body: format!("mensaje {}", n - i as i32) })
        .collect()
}

fn ids(rows: &[Message]) -> Vec<i32> {
    rows.iter().map(|m| m.id).collect()
}

#[test]
fn twenty_three_messages_in_pages_of_ten() {
    let names: Vec<String> = (0..23).map(|_| "Ana".to_string()).collect();
    let refs: Vec<&str> = names.iter().map(|s| s.as_str()).collect();
    let rows = board(&refs);
    let p1 = list_messages(&rows, None, &PageRequest::from_params(Some(1), Some(10)));
    assert_eq!(p1.data.len(), 10);
    assert_eq!(ids(&p1.data), (14..=23).rev().collect::<Vec<i32>>());
    assert_eq!(p1.total, 23);
    assert_eq!(p1.total_pages, 3);
    let p3 = list_messages(&rows, None, &PageRequest::from_params(Some(3), Some(10)));
    assert_eq!(ids(&p3.data), vec![3, 2, 1]);
    assert_eq!(p3.total_pages, 3);
    assert_eq!(p3.page, 3);
    let p4 = list_messages(&rows, None, &PageRequest::from_params(Some(4), Some(10)));
    assert!(p4.data.is_empty());
    assert_eq!(p4.total, 23);
    assert_eq!(p4.total_pages, 3);
    assert_eq!(p4.page, 4);
}

#[test]
fn parameters_are_clamped_and_defaulted() {
    let r = PageRequest::from_params(None, None);
    assert_eq!((r.page, r.page_size), (1, 5));
    let r = PageRequest::from_params(Some(0), Some(0));
    assert_eq!((r.page, r.page_size), (1, 1));
    let r = PageRequest::from_params(Some(-3), Some(-10));
    assert_eq!((r.page, r.page_size), (1, 1));
    let r = PageRequest::from_params(Some(4), Some(7));
    assert_eq!(r.offset(), 21);
    let r = PageRequest::from_params(Some(i64::MAX), Some(i64::MAX));
    assert_eq!(r.offset(), i64::MAX);
}

#[test]
fn page_counts_round_up() {
    assert_eq!(total_pages(0, 10), 0);
    assert_eq!(total_pages(1, 10), 1);
    assert_eq!(total_pages(20, 10), 2);
    assert_eq!(total_pages(23, 10), 3);
    assert_eq!(total_pages(i64::MAX, 1), i64::MAX);
    assert_eq!(total_pages(i64::MAX, i64::MAX), 1);
}

#[test]
fn search_ignores_case_and_counts_only_matches() {
    let rows = board(&["Ana", "MARIANA", "Juan", "Diana Ruiz", "Pedro", "anabel"]);
    let page = list_messages(&rows, Some("ana"), &PageRequest::from_params(Some(1), Some(2)));
    assert_eq!(page.total, 4);
    assert_eq!(page.total_pages, 2);
    let names: Vec<&str> = page.data.iter().map(|m| m.author_name.as_str()).collect();
    assert_eq!(names, vec!["Ana", "MARIANA"]);
    let page2 = list_messages(&rows, Some("ana"), &PageRequest::from_params(Some(2), Some(2)));
    let names: Vec<&str> = page2.data.iter().map(|m| m.author_name.as_str()).collect();
    assert_eq!(names, vec!["Diana Ruiz", "anabel"]);
    let upper = list_messages(&rows, Some("ANA"), &PageRequest::from_params(Some(1), Some(10)));
    assert_eq!(upper.total, 4);
}

#[test]
fn empty_search_keeps_every_row() {
    let rows = board(&["Ana", "Juan"]);
    let page = list_messages(&rows, Some(""), &PageRequest::from_params(None, None));
    assert_eq!(page.total, 2);
    let none = list_messages(&rows, Some("zzz"), &PageRequest::from_params(None, None));
    assert_eq!(none.total, 0);
    assert_eq!(none.total_pages, 0);
    assert!(none.data.is_empty());
}

#[test]
fn name_matching_folds_case() {
    assert!(name_matches("MARIANA", "ana"));
    assert!(name_matches("ana", "ANA"));
    assert!(name_matches("ÁLVARO", "álv"));
    assert!(!name_matches("Juan", "ana"));
    assert!(contains_text("mariana", "ana"));
    assert!(!contains_text("MARIANA", "ana"));
    assert!(contains_text("x", ""));
    assert!(!contains_text("", "x"));
}
