use comment_harvester::document::Json;
use comment_harvester::page::{read_page, Fetched, PageOutcome};
use comment_harvester::paginator::{ItemTally, Paginator};
use comment_harvester::sink::{count_written, write_request, WriteRequest};
use comment_harvester::walker::{CatalogItem, Walker};

struct Remote {
    pages: Vec<Option<Vec<u8>>>,
    asked: Vec<String>,
}

impl Remote {
    fn fetch(&mut self, url: String, page_number: u32) -> Fetched {
        self.asked.push(url);
        match self.pages.get(page_number as usize).cloned().flatten() {
            Some(body) => Fetched::Answer { status: 200, body },
            None => Fetched::Failure,
        }
    }
}

fn page_of(ids: std::ops::Range<u32>) -> Vec<u8> {
    let records: Vec<String> =
        ids.map(|id| format!("{{\"content\":\"c{}\",\"id\":{}}}", id, id)).collect();
    format!("{{\"comments\":[{}]}}", records.join(",")).into_bytes()
}

fn persist(sink: &mut Vec<Json>, records: Vec<Json>) -> usize {
    let mut outcomes = Vec::new();
    for record in records {
        match write_request(record) {
            WriteRequest::UpsertByIdentity { identity, document } => {
                match sink.iter().position(|held| held.field("_id") == Some(&identity)) {
                    Some(at) => sink[at] = document,
                    None => sink.push(document),
                }
                outcomes.push(true);
            }
            WriteRequest::InsertPlain { document } => {
                let accepted = matches!(document, Json::Object(_));
                if accepted {
                    sink.push(document);
                }
                outcomes.push(accepted);
            }
        }
    }
    count_written(&outcomes)
}

fn harvest(item: CatalogItem, remote: &mut Remote, sink: &mut Vec<Json>) -> (Paginator, Vec<u32>) {
    let mut paginator = Paginator::new(item);
    let mut pages = Vec::new();
    while let Some(request) = paginator.request() {
        pages.push(request.page_number);
        let outcome = match read_page(&remote.fetch(request.url(), request.page_number)) {
            Ok(records) => PageOutcome::Persisted(persist(sink, records)),
            Err(error) => PageOutcome::Failed(error),
        };
        paginator.record(outcome);
    }
    (paginator, pages)
}

#[test]
fn one_item_of_fifteen_records_is_harvested_in_three_pages() {
    let catalog = vec![CatalogItem { id: "1001".to_string(), expected_record_count: 15 }];
    let mut remote = Remote {
        pages: vec![Some(page_of(0..10)), Some(page_of(10..15)), Some(page_of(0..0))],
        asked: vec![],
    };
    let mut sink = Vec::new();
    let mut walker = Walker::new(10, catalog.len() as u32);
    let mut batches = 0;
    let mut warnings = Vec::new();
    while let Some(batch) = walker.current() {
        batches += 1;
        let from = (batch.offset as usize).min(catalog.len());
        let to = (batch.offset as usize + batch.limit as usize).min(catalog.len());
        for entry in &catalog[from..to] {
            let item = CatalogItem {
                id: entry.id.clone(),
                expected_record_count: entry.expected_record_count,
            };
            let (paginator, pages) = harvest(item, &mut remote, &mut sink);
            assert_eq!(pages, vec![0, 1, 2]);
            assert_eq!(paginator.observed(), 15);
            warnings.extend(paginator.discrepancy());
        }
        assert_eq!(walker.advance(), 10);
    }
    assert_eq!(batches, 1);
    assert!(walker.is_finished());
    assert_eq!(warnings, vec![]);
    assert_eq!(sink.len(), 15);
    assert_eq!(
        remote.asked,
        vec![
            "https://club.jd.com/productpage/p-1001-s-0-t-6-p-0.html",
            "https://club.jd.com/productpage/p-1001-s-0-t-6-p-1.html",
            "https://club.jd.com/productpage/p-1001-s-0-t-6-p-2.html",
        ]
    );
}

#[test]
fn a_network_failure_on_the_third_page_ends_the_item_with_a_warning() {
    let mut remote = Remote {
        pages: vec![Some(page_of(0..10)), Some(page_of(10..20)), None, Some(page_of(20..30))],
        asked: vec![],
    };
    let mut sink = Vec::new();
    let item = CatalogItem { id: "7".to_string(), expected_record_count: 30 };
    let (paginator, pages) = harvest(item, &mut remote, &mut sink);
    assert_eq!(pages, vec![0, 1, 2]);
    assert!(paginator.is_finished());
    assert_eq!(
        paginator.discrepancy(),
        Some(ItemTally { item_id: "7".to_string(), expected: 30, observed: 20 })
    );
    assert_eq!(sink.len(), 20);
}

#[test]
fn a_page_without_the_records_field_ends_the_item() {
    let mut remote = Remote {
        pages: vec![Some(page_of(0..3)), Some(b"{\"score\":5}".to_vec()), Some(page_of(3..6))],
        asked: vec![],
    };
    let mut sink = Vec::new();
    let item = CatalogItem { id: "7".to_string(), expected_record_count: 3 };
    let (paginator, pages) = harvest(item, &mut remote, &mut sink);
    assert_eq!(pages, vec![0, 1]);
    assert_eq!(paginator.observed(), 3);
    assert_eq!(paginator.discrepancy(), None);
}

#[test]
fn a_malformed_page_ends_the_item() {
    let mut remote = Remote { pages: vec![Some(b"<html>".to_vec()), Some(page_of(0..3))], asked: vec![] };
    let mut sink = Vec::new();
    let item = CatalogItem { id: "7".to_string(), expected_record_count: 3 };
    let (paginator, pages) = harvest(item, &mut remote, &mut sink);
    assert_eq!(pages, vec![0]);
    assert_eq!(paginator.observed(), 0);
    assert!(paginator.discrepancy().is_some());
    assert!(sink.is_empty());
}

#[test]
fn harvesting_an_item_again_stores_nothing_twice() {
    let pages = vec![Some(page_of(0..10)), Some(page_of(10..15)), Some(page_of(0..0))];
    let mut sink = Vec::new();
    for _ in 0..2 {
        let mut remote = Remote { pages: pages.clone(), asked: vec![] };
        let item = CatalogItem { id: "1001".to_string(), expected_record_count: 15 };
        let (paginator, _) = harvest(item, &mut remote, &mut sink);
        assert_eq!(paginator.observed(), 15);
    }
    assert_eq!(sink.len(), 15);
}

#[test]
fn records_that_the_sink_refuses_are_not_counted() {
    let mut remote = Remote {
        pages: vec![Some(b"{\"comments\":[{\"id\":1},2,{\"id\":3},\"four\"]}".to_vec()), None],
        asked: vec![],
    };
    let mut sink = Vec::new();
    let item = CatalogItem { id: "7".to_string(), expected_record_count: 4 };
    let (paginator, pages) = harvest(item, &mut remote, &mut sink);
    assert_eq!(pages, vec![0, 1]);
    assert_eq!(paginator.observed(), 2);
    assert_eq!(
        paginator.discrepancy(),
        Some(ItemTally { item_id: "7".to_string(), expected: 4, observed: 2 })
    );
}
