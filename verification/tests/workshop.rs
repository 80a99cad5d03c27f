use hal_steamworks::workshop::{
    complete_query, get_subscribed_workshop_items, parse_item_id, relay_request, relay_response,
    InstallInfo, LocalWorkshopItem, QueryOutcome, QueryRecord, SubscribedEntry, WokrshopItem,
    ITEM_STATE_INSTALLED,
};
use hal_steamworks::ErrorDetail;

#[test]
fn parse_simple_id() {
    assert_eq!(parse_item_id(b"1337"), Some(1337));
}

#[test]
fn parse_non_numeric_payload() {
    assert_eq!(parse_item_id(b"abc"), None);
}

#[test]
fn parse_empty_payload() {
    assert_eq!(parse_item_id(b""), None);
}

#[test]
fn parse_plus_prefix() {
    assert_eq!(parse_item_id(b"+42"), Some(42));
    assert_eq!(parse_item_id(b"+"), None);
}

#[test]
fn parse_trailing_garbage() {
    assert_eq!(parse_item_id(b"12a"), None);
    assert_eq!(parse_item_id(b" 12"), None);
    assert_eq!(parse_item_id(b"-12"), None);
}

#[test]
fn parse_u64_boundary() {
    assert_eq!(parse_item_id(b"18446744073709551615"), Some(u64::MAX));
    assert_eq!(parse_item_id(b"18446744073709551616"), None);
    assert_eq!(parse_item_id(b"99999999999999999999999"), None);
}

#[test]
fn parse_leading_zeros() {
    assert_eq!(parse_item_id(b"0001337"), Some(1337));
}

#[test]
fn relay_discards_bad_payloads() {
    assert_eq!(relay_request(None), Err(ErrorDetail::MalformedPayload));
    assert_eq!(relay_request(Some(b"abc")), Err(ErrorDetail::MalformedPayload));
    assert_eq!(relay_request(Some(b"1337")), Ok(1337));
}

#[test]
fn completion_builds_descriptor() {
    let outcome = QueryOutcome::Completed {
        first: Some(QueryRecord {
            id: 1337,
            title: "Example Mod".to_string(),
            description: "".to_string(),
        }),
        preview: None,
    };
    let item = complete_query(outcome).unwrap();
    assert_eq!(
        item,
        WokrshopItem {
            id: 1337,
            name: "Example Mod".to_string(),
            description: Some("".to_string()),
            preview: None,
        }
    );
}

#[test]
fn completion_keeps_preview() {
    let outcome = QueryOutcome::Completed {
        first: Some(QueryRecord {
            id: 7,
            title: "t".to_string(),
            description: "d".to_string(),
        }),
        preview: Some("https://example.invalid/p.png".to_string()),
    };
    let item = complete_query(outcome).unwrap();
    assert_eq!(item.id, 7);
    assert_eq!(item.preview, Some("https://example.invalid/p.png".to_string()));
    assert_eq!(item.description, Some("d".to_string()));
}

#[test]
fn completion_reports_transport_error() {
    let outcome = QueryOutcome::Failed("boom".to_string());
    assert_eq!(
        complete_query(outcome),
        Err(ErrorDetail::TransportError("boom".to_string()))
    );
}

#[test]
fn completion_reports_empty_result() {
    let outcome = QueryOutcome::Completed { first: None, preview: Some("p".to_string()) };
    assert_eq!(complete_query(outcome), Err(ErrorDetail::EmptyResult));
}

#[test]
fn relay_publishes_only_success() {
    let ok = QueryOutcome::Completed {
        first: Some(QueryRecord {
            id: 1337,
            title: "Example Mod".to_string(),
            description: "".to_string(),
        }),
        preview: None,
    };
    let published = relay_response(ok).unwrap();
    assert_eq!(published.id, 1337);
    assert_eq!(published.name, "Example Mod");

    assert_eq!(relay_response(QueryOutcome::Failed("down".to_string())), None);
    assert_eq!(
        relay_response(QueryOutcome::Completed { first: None, preview: None }),
        None
    );
}

#[test]
fn error_messages() {
    assert_eq!(ErrorDetail::LockError.message(), "client is null");
    assert_eq!(
        ErrorDetail::QuerySubmission("boom".to_string()).message(),
        "Cannot query item: boom"
    );
    assert_eq!(ErrorDetail::TransportError("lost".to_string()).message(), "lost");
    assert_eq!(ErrorDetail::EmptyResult.message(), "item is null");
    assert_eq!(ErrorDetail::MalformedPayload.message(), "payload is not a number");
    assert_eq!(ErrorDetail::NotFound.message(), "Could not find hoi directory");
}

fn entry(id: u64, flags: u32, info: Option<(&str, u64)>) -> SubscribedEntry {
    SubscribedEntry {
        id,
        state_flags: flags,
        install_info: info.map(|(folder, size)| InstallInfo {
            folder: folder.to_string(),
            size_on_disk: size,
        }),
    }
}

#[test]
fn scanner_keeps_installed_items() {
    let entries = vec![
        entry(1, ITEM_STATE_INSTALLED, Some(("/lib/one", 10))),
        entry(2, ITEM_STATE_INSTALLED | 8, Some(("/lib/two", 20))),
    ];
    let items = get_subscribed_workshop_items(entries);
    assert_eq!(
        items,
        vec![
            LocalWorkshopItem { id: 1, path: "/lib/one".to_string(), size_on_disk: 10 },
            LocalWorkshopItem { id: 2, path: "/lib/two".to_string(), size_on_disk: 20 },
        ]
    );
}

#[test]
fn scanner_excludes_not_installed() {
    let entries = vec![
        entry(1, 0, Some(("/lib/one", 10))),
        entry(2, 1, Some(("/lib/two", 20))),
        entry(3, ITEM_STATE_INSTALLED, Some(("/lib/three", 30))),
        entry(4, 16, Some(("/lib/four", 40))),
    ];
    let items = get_subscribed_workshop_items(entries);
    assert_eq!(items.len(), 1);
    assert_eq!(items[0].id, 3);
    assert_eq!(items[0].path, "/lib/three");
    assert_eq!(items[0].size_on_disk, 30);
}

#[test]
fn scanner_skips_missing_install_info() {
    let entries = vec![
        entry(1, ITEM_STATE_INSTALLED, None),
        entry(2, ITEM_STATE_INSTALLED, Some(("/lib/two", 20))),
    ];
    let items = get_subscribed_workshop_items(entries);
    assert_eq!(items.len(), 1);
    assert_eq!(items[0].id, 2);
}

#[test]
fn scanner_empty_input() {
    let items = get_subscribed_workshop_items(Vec::new());
    assert!(items.is_empty());
}
