use catalog_list::error::ListError;
use catalog_list::paging::{
    fetch_paginated_live_specs, is_usable, LastPublication, LiveSpecStream, Page, PageRequest, Phase, Record, Step,
    PAGE_SIZE, PAGE_SIZE_WITH_MODELS,
};
use catalog_list::selection::{
    CatalogType, DataPlaneSelector, List, NameSelector, SelectionCriterion, SpecTypeSelector,
};

fn record(name: &str, spec: Option<u32>) -> Record<u32> {
    Record { catalog_name: name.to_string(), spec, last_publication: None }
}

fn page(records: Vec<Record<u32>>, cursor: Option<&str>, has_next: bool) -> Page<u32> {
    Page { records, has_next, cursor: cursor.map(|c| c.to_string()) }
}

fn by_prefix(prefix: &str) -> SelectionCriterion {
    SelectionCriterion::PrefixAndType {
        prefix: prefix.to_string(),
        type_filter: None,
        plane_filter: None,
    }
}

fn by_names(names: &[&str]) -> SelectionCriterion {
    SelectionCriterion::NameList { names: names.iter().map(|n| n.to_string()).collect() }
}

fn stream_of(criteria: Vec<SelectionCriterion>) -> LiveSpecStream<u32> {
    LiveSpecStream::new(criteria, 200, false, false, false)
}

fn names_of(records: &[Record<u32>]) -> Vec<String> {
    records.iter().map(|r| r.catalog_name.clone()).collect()
}

/// What a drive of a stream against scripted answers observed.
struct Observed {
    emitted: Vec<Record<u32>>,
    requests: Vec<PageRequest>,
    failure: Option<ListError>,
    ended: bool,
}

/// Pulls the stream until it ends or fails, or until `pulls` records have
/// come out, and answers each request with the next scripted response.
fn drive(
    stream: &mut LiveSpecStream<u32>,
    script: Vec<Result<Page<u32>, String>>,
    pulls: Option<usize>,
) -> Observed {
    let mut script = script.into_iter();
    let mut seen = Observed { emitted: Vec::new(), requests: Vec::new(), failure: None, ended: false };
    loop {
        if pulls == Some(seen.emitted.len()) {
            return seen;
        }
        match stream.poll() {
            Step::Emit(r) => seen.emitted.push(r),
            Step::Fetch(request) => {
                seen.requests.push(request);
                let response = script.next().expect("the stream asked for more than was scripted");
                if let Err(e) = stream.supply(response) {
                    seen.failure = Some(e);
                    return seen;
                }
            }
            Step::Done => {
                seen.ended = true;
                return seen;
            }
            Step::Failed(e) => {
                seen.failure = Some(e);
                return seen;
            }
        }
    }
}

#[test]
fn every_record_of_every_page_comes_out_in_order() {
    let mut stream = stream_of(vec![by_prefix("a/"), by_prefix("b/"), by_names(&["n/one"])]);
    let script = vec![
        Ok(page(vec![record("a/1", Some(1)), record("a/2", None)], Some("c1"), true)),
        Ok(page(vec![], Some("c2"), true)),
        Ok(page(vec![record("a/3", Some(3))], None, false)),
        Ok(page(vec![], None, false)),
        Ok(page(vec![record("n/one", Some(9))], Some("unused"), false)),
    ];
    let seen = drive(&mut stream, script, None);
    assert!(seen.ended);
    assert!(seen.failure.is_none());
    assert_eq!(names_of(&seen.emitted), vec!["a/1", "a/2", "a/3", "n/one"]);
    assert_eq!(seen.emitted.len(), 2 + 0 + 1 + 0 + 1);
    assert_eq!(seen.emitted[1].spec, None);
    assert_eq!(seen.emitted[3].spec, Some(9));
    assert_eq!(seen.requests.len(), 5);
    assert_eq!(stream.phase(), Phase::Done);
}

#[test]
fn cursors_are_passed_back_unmodified() {
    let mut stream = stream_of(vec![by_prefix("a/"), by_names(&["n/one"])]);
    let script = vec![
        Ok(page(vec![record("a/1", Some(1))], Some("c1"), true)),
        Ok(page(vec![record("a/2", Some(2))], Some("c2"), true)),
        Ok(page(vec![record("a/3", Some(3))], Some("ignored"), false)),
        Ok(page(vec![record("n/one", Some(9))], None, false)),
    ];
    let seen = drive(&mut stream, script, None);
    let after: Vec<Option<&str>> = seen.requests.iter().map(|r| r.after.as_deref()).collect();
    assert_eq!(after, vec![None, Some("c1"), Some("c2"), None]);
    assert!(!seen.requests[0].selection.is_by_name());
    assert!(!seen.requests[1].selection.is_by_name());
    assert!(!seen.requests[2].selection.is_by_name());
    assert!(seen.requests[3].selection.is_by_name());
    match &seen.requests[2].selection {
        SelectionCriterion::PrefixAndType { prefix, .. } => assert_eq!(prefix, "a/"),
        other => panic!("expected a prefix criterion, got {:?}", other),
    }
}

#[test]
fn requests_carry_the_page_size_and_the_flags() {
    let mut stream: LiveSpecStream<u32> =
        LiveSpecStream::new(vec![by_prefix("a/")], 50, true, false, true);
    match stream.poll() {
        Step::Fetch(request) => {
            assert_eq!(request.first, 50);
            assert!(request.include_models);
            assert!(!request.include_flows);
            assert!(request.include_last_publication);
            assert_eq!(request.after, None);
        }
        other => panic!("expected a request, got {:?}", other),
    }
}

#[test]
fn a_next_page_without_cursor_is_a_protocol_violation() {
    let mut stream = stream_of(vec![by_prefix("a/"), by_prefix("b/")]);
    let script = vec![Ok(page(vec![record("a/1", Some(1)), record("a/2", Some(2))], None, true))];
    let seen = drive(&mut stream, script, None);
    assert!(matches!(seen.failure, Some(ListError::ProtocolViolation)));
    assert!(!seen.ended);
    assert_eq!(names_of(&seen.emitted), vec!["a/1", "a/2"]);
    assert_eq!(seen.requests.len(), 1);
    assert_eq!(stream.phase(), Phase::Failed);
    assert!(matches!(stream.poll(), Step::Done));
}

#[test]
fn a_next_page_with_an_empty_cursor_is_a_protocol_violation() {
    let mut stream = stream_of(vec![by_prefix("a/")]);
    let script = vec![Ok(page(vec![record("a/1", Some(1))], Some(""), true))];
    let seen = drive(&mut stream, script, None);
    assert!(matches!(seen.failure, Some(ListError::ProtocolViolation)));
    assert_eq!(names_of(&seen.emitted), vec!["a/1"]);
    assert_eq!(seen.requests.len(), 1);
}

#[test]
fn a_named_entry_without_spec_fails_the_stream() {
    let mut stream = stream_of(vec![by_names(&["n/one", "n/two", "n/three"])]);
    let script = vec![Ok(page(
        vec![record("n/one", Some(1)), record("n/two", None), record("n/three", Some(3))],
        None,
        false,
    ))];
    let seen = drive(&mut stream, script, None);
    match seen.failure {
        Some(ListError::MissingNamedEntry { name }) => assert_eq!(name, "n/two"),
        other => panic!("expected a missing entry, got {:?}", other),
    }
    assert_eq!(names_of(&seen.emitted), vec!["n/one"]);
    assert_eq!(stream.phase(), Phase::Failed);
    assert!(matches!(stream.poll(), Step::Done));
}

#[test]
fn an_entry_without_spec_under_a_prefix_is_emitted() {
    let mut stream = stream_of(vec![by_prefix("n/")]);
    let script = vec![Ok(page(
        vec![record("n/one", Some(1)), record("n/two", None), record("n/three", Some(3))],
        None,
        false,
    ))];
    let seen = drive(&mut stream, script, None);
    assert!(seen.failure.is_none());
    assert!(seen.ended);
    assert_eq!(names_of(&seen.emitted), vec!["n/one", "n/two", "n/three"]);
    assert_eq!(seen.emitted[1].spec, None);
}

#[test]
fn an_entry_without_spec_under_a_prefix_is_emitted_though_names_follow() {
    let mut stream = stream_of(vec![by_prefix("n/"), by_names(&["m/one"])]);
    let script = vec![
        Ok(page(vec![record("n/two", None)], None, false)),
        Ok(page(vec![record("m/one", None)], None, false)),
    ];
    let seen = drive(&mut stream, script, None);
    assert_eq!(names_of(&seen.emitted), vec!["n/two"]);
    match seen.failure {
        Some(ListError::MissingNamedEntry { name }) => assert_eq!(name, "m/one"),
        other => panic!("expected a missing entry, got {:?}", other),
    }
}

#[test]
fn a_failed_request_is_a_transport_error() {
    let mut stream = stream_of(vec![by_prefix("a/"), by_prefix("b/")]);
    let script = vec![
        Ok(page(vec![record("a/1", Some(1))], None, false)),
        Err("connection reset".to_string()),
    ];
    let seen = drive(&mut stream, script, None);
    match seen.failure {
        Some(ListError::Transport { message }) => assert_eq!(message, "connection reset"),
        other => panic!("expected a transport error, got {:?}", other),
    }
    assert_eq!(names_of(&seen.emitted), vec!["a/1"]);
    assert_eq!(seen.requests.len(), 2);
    assert_eq!(stream.phase(), Phase::Failed);
    assert!(matches!(stream.poll(), Step::Done));
}

#[test]
fn nothing_is_requested_once_the_consumer_stops() {
    let mut stream = stream_of(vec![by_prefix("a/"), by_prefix("b/")]);
    let script = vec![
        Ok(page(vec![record("a/1", Some(1)), record("a/2", Some(2))], Some("c1"), true)),
        Ok(page(vec![record("a/3", Some(3))], None, false)),
        Ok(page(vec![record("b/1", Some(4))], None, false)),
    ];
    let seen = drive(&mut stream, script, Some(1));
    assert_eq!(names_of(&seen.emitted), vec!["a/1"]);
    assert_eq!(seen.requests.len(), 1);
    assert!(!seen.ended);
    assert!(seen.failure.is_none());
    assert_eq!(stream.phase(), Phase::Emit);
    assert!(!stream.awaits_page());
}

#[test]
fn nothing_is_requested_ahead_of_the_last_record_of_a_page() {
    let mut stream = stream_of(vec![by_prefix("a/")]);
    let script = vec![
        Ok(page(vec![record("a/1", Some(1)), record("a/2", Some(2))], Some("c1"), true)),
        Ok(page(vec![record("a/3", Some(3))], None, false)),
    ];
    let seen = drive(&mut stream, script, Some(2));
    assert_eq!(names_of(&seen.emitted), vec!["a/1", "a/2"]);
    assert_eq!(seen.requests.len(), 1);
}

#[test]
fn a_stream_without_criteria_ends_at_once() {
    let mut stream = stream_of(Vec::new());
    assert!(!stream.awaits_page());
    let seen = drive(&mut stream, Vec::new(), None);
    assert!(seen.ended);
    assert!(seen.emitted.is_empty());
    assert!(seen.requests.is_empty());
    assert_eq!(stream.phase(), Phase::Done);
}

#[test]
fn a_waiting_stream_repeats_its_request() {
    let mut stream = stream_of(vec![by_prefix("a/")]);
    assert!(stream.awaits_page());
    let first = match stream.poll() {
        Step::Fetch(request) => request,
        other => panic!("expected a request, got {:?}", other),
    };
    let second = match stream.poll() {
        Step::Fetch(request) => request,
        other => panic!("expected a request, got {:?}", other),
    };
    assert_eq!(first.after, second.after);
    assert_eq!(first.first, second.first);
    assert_eq!(stream.phase(), Phase::Request);
}

#[test]
fn an_answer_that_was_not_awaited_is_dropped() {
    let mut stream = stream_of(vec![by_prefix("a/")]);
    assert!(matches!(stream.poll(), Step::Fetch(_)));
    assert!(stream.supply(Ok(page(vec![record("a/1", Some(1))], None, false))).is_ok());
    assert!(stream.supply(Ok(page(vec![record("x/1", Some(7))], None, false))).is_ok());
    assert!(stream.supply(Err("late".to_string())).is_ok());
    assert_eq!(stream.phase(), Phase::Emit);
    match stream.poll() {
        Step::Emit(r) => assert_eq!(r.catalog_name, "a/1"),
        other => panic!("expected a record, got {:?}", other),
    }
    assert!(matches!(stream.poll(), Step::Done));
    assert!(stream.supply(Ok(page(vec![record("x/2", Some(8))], None, false))).is_ok());
    assert!(matches!(stream.poll(), Step::Done));
}

#[test]
fn a_record_comes_out_as_it_went_in() {
    let mut stream = stream_of(vec![by_prefix("a/")]);
    let published = LastPublication {
        user_id: "u-1".to_string(),
        user_email: Some("wile@coyote.example".to_string()),
        user_full_name: None,
    };
    let first = Record {
        catalog_name: "a/1".to_string(),
        spec: Some(41),
        last_publication: Some(published),
    };
    let seen = drive(&mut stream, vec![Ok(page(vec![first], None, false))], None);
    assert_eq!(seen.emitted.len(), 1);
    assert_eq!(seen.emitted[0].catalog_name, "a/1");
    assert_eq!(seen.emitted[0].spec, Some(41));
    let publication = seen.emitted[0].last_publication.as_ref().unwrap();
    assert_eq!(publication.user_id, "u-1");
    assert_eq!(publication.user_email.as_deref(), Some("wile@coyote.example"));
    assert_eq!(publication.user_full_name, None);
}

#[test]
fn cursor_usability() {
    assert!(is_usable(&Some("c".to_string())));
    assert!(!is_usable(&Some(String::new())));
    assert!(!is_usable(&None));
}

fn listing(prefixes: &[&str], names: &[&str], include_models: bool) -> List {
    List {
        include_flows: true,
        include_models,
        name_selector: NameSelector {
            name: names.iter().map(|n| n.to_string()).collect(),
            prefix: prefixes.iter().map(|p| p.to_string()).collect(),
        },
        type_selector: SpecTypeSelector { catalog_type: Some(CatalogType::Collection) },
        data_plane_selector: DataPlaneSelector { data_plane_name: None },
        include_last_publication: false,
    }
}

#[test]
fn page_sizes() {
    assert_eq!(PAGE_SIZE, 200);
    assert_eq!(PAGE_SIZE_WITH_MODELS, 50);
}

#[test]
fn a_listing_with_models_asks_for_smaller_pages() {
    let mut stream: LiveSpecStream<u32> =
        fetch_paginated_live_specs(listing(&["a/"], &[], true));
    match stream.poll() {
        Step::Fetch(request) => {
            assert_eq!(request.first, 50);
            assert!(request.include_models);
            assert!(request.include_flows);
            assert!(!request.include_last_publication);
        }
        other => panic!("expected a request, got {:?}", other),
    }
    let mut stream: LiveSpecStream<u32> =
        fetch_paginated_live_specs(listing(&["a/"], &[], false));
    match stream.poll() {
        Step::Fetch(request) => {
            assert_eq!(request.first, 200);
            assert!(!request.include_models);
        }
        other => panic!("expected a request, got {:?}", other),
    }
}

#[test]
fn a_listing_queries_its_prefixes_and_then_its_names() {
    let mut stream: LiveSpecStream<u32> =
        fetch_paginated_live_specs(listing(&["b/", "a/"], &["n/one"], false));
    let script = vec![
        Ok(page(vec![record("b/1", Some(1))], None, false)),
        Ok(page(vec![record("a/1", Some(2))], None, false)),
        Ok(page(vec![record("n/one", Some(3))], None, false)),
    ];
    let seen = drive(&mut stream, script, None);
    assert!(seen.ended);
    assert_eq!(names_of(&seen.emitted), vec!["b/1", "a/1", "n/one"]);
    let kinds: Vec<bool> = seen.requests.iter().map(|r| r.selection.is_by_name()).collect();
    assert_eq!(kinds, vec![false, false, true]);
    match &seen.requests[0].selection {
        SelectionCriterion::PrefixAndType { prefix, type_filter, .. } => {
            assert_eq!(prefix, "b/");
            assert_eq!(*type_filter, Some(CatalogType::Collection));
        }
        other => panic!("expected a prefix criterion, got {:?}", other),
    }
}
