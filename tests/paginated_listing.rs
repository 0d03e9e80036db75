use canvas_lms::error::CanvasError;
use canvas_lms::paginator::{PageEvent, Paginator, Step};

fn page(link: Option<&str>, items: Vec<u32>) -> PageEvent<u32> {
    PageEvent::Received { link: link.map(|l| l.as_bytes().to_vec()), items: Ok(items) }
}

fn transport_error() -> reqwest::Error {
    reqwest::Client::new().get("not a url").build().unwrap_err()
}

fn decode_error() -> serde_json::Error {
    serde_json::from_str::<Vec<u32>>("{").unwrap_err()
}

/// Pulls the traversal to its end against a server given as a function of the
/// requested URL; returns the values handed out and the URLs requested.
fn drain(
    p: &mut Paginator<u32>,
    mut server: impl FnMut(&str) -> PageEvent<u32>,
) -> (Vec<Result<u32, CanvasError>>, Vec<String>) {
    let mut out = Vec::new();
    let mut requests = Vec::new();
    loop {
        match p.poll() {
            Step::Item(x) => out.push(Ok(x)),
            Step::Fetch(u) => {
                let ev = server(&u);
                requests.push(u);
                p.receive(ev);
            }
            Step::Failed(e) => out.push(Err(e)),
            Step::Finished => return (out, requests),
        }
    }
}

fn two_pages(url: &str) -> PageEvent<u32> {
    match url {
        "https://h/page1" => page(Some("<https://h/page2>; rel=\"next\""), vec![10, 11]),
        "https://h/page2" => page(None, vec![12]),
        _ => panic!("unexpected request"),
    }
}

#[test]
fn two_pages_yield_all_items_in_order() {
    let mut p = Paginator::new("https://h/page1".to_string());
    let (out, requests) = drain(&mut p, two_pages);
    let values: Vec<u32> = out.into_iter().map(|r| r.unwrap()).collect();
    assert_eq!(values, vec![10, 11, 12]);
    assert_eq!(requests, vec!["https://h/page1".to_string(), "https://h/page2".to_string()]);
}

#[test]
fn second_request_only_after_first_page_is_drained() {
    let mut p = Paginator::new("https://h/page1".to_string());
    assert!(matches!(p.poll(), Step::Fetch(u) if u == "https://h/page1"));
    p.receive(two_pages("https://h/page1"));
    assert!(matches!(p.poll(), Step::Item(10)));
    assert!(matches!(p.poll(), Step::Item(11)));
    assert!(matches!(p.poll(), Step::Fetch(u) if u == "https://h/page2"));
    p.receive(two_pages("https://h/page2"));
    assert!(matches!(p.poll(), Step::Item(12)));
    assert!(matches!(p.poll(), Step::Finished));
    assert!(matches!(p.poll(), Step::Finished));
}

#[test]
fn transport_failure_ends_the_sequence() {
    let mut calls = 0;
    let mut p = Paginator::new("https://h/page1".to_string());
    let (out, requests) = drain(&mut p, |u| {
        calls += 1;
        match u {
            "https://h/page1" => page(Some("<https://h/page2>; rel=\"next\""), vec![7]),
            _ => PageEvent::TransportFailed(transport_error()),
        }
    });
    assert_eq!(out.len(), 2);
    assert!(matches!(out[0], Ok(7)));
    assert!(matches!(out[1], Err(CanvasError::Reqwest(_))));
    assert_eq!(requests.len(), 2);
    assert_eq!(calls, 2);
    assert!(matches!(p.poll(), Step::Finished));
}

#[test]
fn malformed_link_header_ends_the_sequence() {
    let mut p = Paginator::new("https://h/page1".to_string());
    let (out, requests) = drain(&mut p, |_| page(Some("<https://h/page2>; rel=next"), vec![1, 2]));
    assert_eq!(out.len(), 1);
    assert!(matches!(out[0], Err(CanvasError::Pagination)));
    assert_eq!(requests.len(), 1);
}

#[test]
fn undecodable_body_ends_the_sequence() {
    let mut p = Paginator::new("https://h/page1".to_string());
    let (out, requests) = drain(&mut p, |_| PageEvent::Received {
        link: Some(b"<https://h/page2>; rel=\"next\"".to_vec()),
        items: Err(decode_error()),
    });
    assert_eq!(out.len(), 1);
    assert!(matches!(out[0], Err(CanvasError::ParseJSON(_))));
    assert_eq!(requests.len(), 1);
}

#[test]
fn two_traversals_of_one_listing_agree() {
    let mut a = Paginator::new("https://h/page1".to_string());
    let mut b = Paginator::new("https://h/page1".to_string());
    assert!(matches!(a.poll(), Step::Fetch(_)));
    a.receive(two_pages("https://h/page1"));
    assert!(matches!(a.poll(), Step::Item(10)));
    let (out_b, req_b) = drain(&mut b, two_pages);
    let (out_a, req_a) = drain(&mut a, two_pages);
    let vb: Vec<u32> = out_b.into_iter().map(|r| r.unwrap()).collect();
    let va: Vec<u32> = out_a.into_iter().map(|r| r.unwrap()).collect();
    assert_eq!(vb, vec![10, 11, 12]);
    assert_eq!(va, vec![11, 12]);
    assert_eq!(req_b.len(), 2);
    assert_eq!(req_a, vec!["https://h/page2".to_string()]);
}

#[test]
fn nothing_is_requested_before_the_first_pull() {
    let p: Paginator<u32> = Paginator::new("https://h/page1".to_string());
    assert!(p.awaits_page());
    let mut p = p;
    assert!(matches!(p.poll(), Step::Fetch(u) if u == "https://h/page1"));
    assert!(matches!(p.poll(), Step::Fetch(u) if u == "https://h/page1"));
}

#[test]
fn empty_page_without_next_link_finishes() {
    let mut p = Paginator::new("https://h/page1".to_string());
    let (out, requests) = drain(&mut p, |_| page(None, vec![]));
    assert!(out.is_empty());
    assert_eq!(requests.len(), 1);
}

#[test]
fn response_while_items_remain_is_ignored() {
    let mut p = Paginator::new("https://h/page1".to_string());
    assert!(matches!(p.poll(), Step::Fetch(_)));
    p.receive(page(None, vec![1, 2]));
    assert!(!p.awaits_page());
    p.receive(PageEvent::TransportFailed(transport_error()));
    assert!(matches!(p.poll(), Step::Item(1)));
    assert!(matches!(p.poll(), Step::Item(2)));
    assert!(matches!(p.poll(), Step::Finished));
}
