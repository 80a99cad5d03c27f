//! Workshop item queries: the completion handling shared by the blocking
//! command and the fire-and-forget event relay, the inbound payload parser,
//! and the subscribed/installed item scanner. Everything here works on the
//! plain values the SDK glue hands in.
use vstd::prelude::*;

use crate::ErrorDetail;

verus! {

/// Represents a wokrshop item.
#[derive(Debug, Clone, PartialEq, Eq)]
pub struct WokrshopItem {
    pub id: u64,
    pub name: String,
    pub description: Option<String>,
    pub preview: Option<String>,
}

/// A subscribed item that is installed on this machine.
#[derive(Debug, Clone, PartialEq, Eq)]
pub struct LocalWorkshopItem {
    pub id: u64,
    pub path: String,
    pub size_on_disk: u64,
}

/// The first record of a finished item query, as the SDK reports it.
pub struct QueryRecord {
    pub id: u64,
    pub title: String,
    pub description: String,
}

/// Everything one item query's completion callback observes.
pub enum QueryOutcome {
    /// The SDK reported an asynchronous failure; the payload is its message.
    Failed(String),
    /// The query finished; `first` is the record at index 0 if one exists,
    /// `preview` the best-effort preview URL at index 0.
    Completed { first: Option<QueryRecord>, preview: Option<String> },
}

/// What a completion callback must produce from what it observed: the
/// reported failure, or `EmptyResult` when the query succeeded without a
/// record, or the descriptor built from the first record.
pub open spec fn completion_spec(outcome: QueryOutcome) -> Result<WokrshopItem, ErrorDetail> {
    match outcome {
        QueryOutcome::Failed(message) => Err(ErrorDetail::TransportError(message)),
        QueryOutcome::Completed { first: None, .. } => Err(ErrorDetail::EmptyResult),
        QueryOutcome::Completed { first: Some(record), preview } => Ok(
            WokrshopItem {
                id: record.id,
                name: record.title,
                description: Some(record.description),
                preview,
            },
        ),
    }
}

/// Turns a finished query into the value that fills the pending slot (for the
/// blocking command) or rides the outbound event (for the relay).
pub fn complete_query(outcome: QueryOutcome) -> (r: Result<WokrshopItem, ErrorDetail>)
    ensures
        r == completion_spec(outcome),
{
    match outcome {
        QueryOutcome::Failed(message) => Err(ErrorDetail::TransportError(message)),
        QueryOutcome::Completed { first: None, preview: _ } => Err(ErrorDetail::EmptyResult),
        QueryOutcome::Completed { first: Some(record), preview } => Ok(
            WokrshopItem {
                id: record.id,
                name: record.title,
                description: Some(record.description),
                preview,
            },
        ),
    }
}

/// True of an ASCII decimal digit byte.
pub open spec fn is_dec_digit(b: u8) -> bool {
    48 <= b <= 57
}

/// True when every byte of `s` is a decimal digit.
pub open spec fn all_dec_digits(s: Seq<u8>) -> bool {
    forall|i: int| 0 <= i < s.len() ==> is_dec_digit(#[trigger] s[i])
}

/// The value of a big-endian sequence of decimal digit bytes.
pub open spec fn dec_value(s: Seq<u8>) -> int
    decreases s.len(),
{
    if s.len() == 0 {
        0
    } else {
        dec_value(s.drop_last()) * 10 + (s.last() - 48)
    }
}

/// The digit part of a payload: everything after an optional leading `+`.
pub open spec fn payload_digits(s: Seq<u8>) -> Seq<u8> {
    if s.len() > 0 && s[0] == 43 {
        s.skip(1)
    } else {
        s
    }
}

/// The id a textual payload denotes: defined exactly when the payload is an
/// optional `+` followed by one or more decimal digits whose value fits a
/// 64-bit integer.
pub open spec fn spec_parse_item_id(s: Seq<u8>) -> Option<u64> {
    let d = payload_digits(s);
    if d.len() > 0 && all_dec_digits(d) && dec_value(d) <= u64::MAX {
        Some(dec_value(d) as u64)
    } else {
        None
    }
}

/// Appending digits never shrinks the value: any digit prefix of `d` is worth
/// at most `dec_value(d)`.
proof fn lemma_dec_value_prefix_le(d: Seq<u8>, j: int)
    requires
        all_dec_digits(d),
        0 <= j <= d.len(),
    ensures
        dec_value(d.subrange(0, j)) <= dec_value(d),
    decreases d.len() - j,
{
    if j < d.len() {
        let p = d.subrange(0, j);
        let q = d.subrange(0, j + 1);
        assert(q.drop_last() =~= p);
        assert(q.last() == d[j]);
        assert(dec_value(p) >= 0) by {
            lemma_dec_value_nonneg(p);
        }
        assert(dec_value(q) == dec_value(p) * 10 + (d[j] - 48));
        lemma_dec_value_prefix_le(d, j + 1);
    } else {
        assert(d.subrange(0, j) =~= d);
    }
}

/// The value of a digit sequence is never negative.
proof fn lemma_dec_value_nonneg(d: Seq<u8>)
    requires
        all_dec_digits(d),
    ensures
        dec_value(d) >= 0,
    decreases d.len(),
{
    if d.len() > 0 {
        assert(all_dec_digits(d.drop_last())) by {
            assert(forall|i: int|
                0 <= i < d.len() - 1 ==> #[trigger] d.drop_last()[i] == d[i]);
        }
        lemma_dec_value_nonneg(d.drop_last());
    }
}

/// Parses an inbound payload as an item id, exactly as a decimal 64-bit
/// integer parse would: `None` on an empty payload, a non-digit byte, or a
/// value past the 64-bit range.
pub fn parse_item_id(s: &[u8]) -> (r: Option<u64>)
    ensures
        r == spec_parse_item_id(s@),
{
    let start: usize = if s.len() > 0 && s[0] == 43 {
        1
    } else {
        0
    };
    proof {
        assert(payload_digits(s@) =~= s@.skip(start as int));
    }
    if s.len() == start {
        return None;
    }
    let mut value: u64 = 0;
    let mut i: usize = start;
    while i < s.len()
        invariant
            start <= i <= s.len(),
            start <= 1,
            payload_digits(s@) =~= s@.skip(start as int),
            all_dec_digits(s@.subrange(start as int, i as int)),
            value == dec_value(s@.subrange(start as int, i as int)),
        decreases s.len() - i,
    {
        let b = s[i];
        if b < 48 || b > 57 {
            proof {
                let d = payload_digits(s@);
                assert(d[i - start] == s@[i as int]);
                assert(!all_dec_digits(d));
            }
            return None;
        }
        let wide: u128 = value as u128 * 10 + (b - 48) as u128;
        proof {
            let p = s@.subrange(start as int, i as int);
            let q = s@.subrange(start as int, i + 1);
            assert(q.drop_last() =~= p);
            assert(q.last() == s@[i as int]);
            assert(all_dec_digits(q));
            assert(dec_value(q) == wide);
        }
        if wide > u64::MAX as u128 {
            proof {
                let d = payload_digits(s@);
                let q = s@.subrange(start as int, i + 1);
                if all_dec_digits(d) {
                    assert(q =~= d.subrange(0, i + 1 - start));
                    lemma_dec_value_prefix_le(d, i + 1 - start);
                }
            }
            return None;
        }
        value = wide as u64;
        i = i + 1;
    }
    proof {
        assert(s@.subrange(start as int, s@.len() as int) =~= payload_digits(s@));
    }
    Some(value)
}

/// A query for one id never silently answers with another: as long as the
/// record the SDK returned carries the queried id, completion yields either a
/// descriptor with exactly that id or one of the two query error kinds.
pub proof fn lemma_completion_preserves_id(id: u64, outcome: QueryOutcome)
    requires
        (match outcome {
            QueryOutcome::Completed { first: Some(record), .. } => record.id == id,
            _ => true,
        }),
    ensures
        (match completion_spec(outcome) {
            Ok(item) => item.id == id,
            Err(e) => e is TransportError || e is EmptyResult,
        }),
{
}

/// Decides what the inbound-event relay does with a payload: `Ok(id)` means
/// submit a query for `id`, `Err` means log one diagnostic and discard. A
/// missing payload and a payload that is not an id are both malformed;
/// nothing is ever published for them, since this path has no caller to
/// notify.
pub fn relay_request(payload: Option<&[u8]>) -> (r: Result<u64, ErrorDetail>)
    ensures
        (match payload {
            Some(p) => r == (match spec_parse_item_id(p@) {
                Some(id) => Ok::<u64, ErrorDetail>(id),
                None => Err::<u64, ErrorDetail>(ErrorDetail::MalformedPayload),
            }),
            None => r == Err::<u64, ErrorDetail>(ErrorDetail::MalformedPayload),
        }),
{
    match payload {
        Some(p) => match parse_item_id(p) {
            Some(id) => Ok(id),
            None => Err(ErrorDetail::MalformedPayload),
        },
        None => Err(ErrorDetail::MalformedPayload),
    }
}

/// Decides what the relay publishes once its query completes: the descriptor
/// when extraction succeeded, nothing when it failed. Failures are recovered
/// locally; no outbound event carries them.
pub fn relay_response(outcome: QueryOutcome) -> (r: Option<WokrshopItem>)
    ensures
        completion_spec(outcome) matches Ok(item) ==> r == Some(item),
        completion_spec(outcome) is Err ==> r is None,
{
    match complete_query(outcome) {
        Ok(item) => Some(item),
        Err(_) => None,
    }
}

/// The install-state bit the SDK sets for an item that is installed.
pub const ITEM_STATE_INSTALLED: u32 = 4;

/// True when an install-state bitmask includes the installed flag.
pub open spec fn is_installed(flags: u32) -> bool {
    flags & ITEM_STATE_INSTALLED != 0
}

/// Per-item install metadata as the SDK reports it.
pub struct InstallInfo {
    pub folder: String,
    pub size_on_disk: u64,
}

/// One subscribed item as the scanner sees it: its id, its install-state
/// bitmask, and its install metadata if the SDK could retrieve any.
pub struct SubscribedEntry {
    pub id: u64,
    pub state_flags: u32,
    pub install_info: Option<InstallInfo>,
}

/// The scanner's result: subscribed entries that carry the installed flag and
/// retrievable install metadata, in order, as local items. An entry marked
/// installed whose metadata is missing is skipped rather than fatal.
pub open spec fn scan_spec(entries: Seq<SubscribedEntry>) -> Seq<LocalWorkshopItem>
    decreases entries.len(),
{
    if entries.len() == 0 {
        Seq::empty()
    } else {
        let rest = scan_spec(entries.drop_last());
        let e = entries.last();
        match e.install_info {
            Some(info) => if is_installed(e.state_flags) {
                rest.push(
                    LocalWorkshopItem {
                        id: e.id,
                        path: info.folder,
                        size_on_disk: info.size_on_disk,
                    },
                )
            } else {
                rest
            },
            None => rest,
        }
    }
}

/// Get all wokrshop items that are subscribed and installed.
/// ***Returns A vector of LocalWorkshopItem that can be empty.***
pub fn get_subscribed_workshop_items(entries: Vec<SubscribedEntry>) -> (r: Vec<LocalWorkshopItem>)
    ensures
        r@ == scan_spec(entries@),
{
    let ghost orig = entries@;
    let mut entries = entries;
    let mut out: Vec<LocalWorkshopItem> = Vec::new();
    let ghost mut k: int = 0;
    while entries.len() > 0
        invariant
            0 <= k <= orig.len(),
            entries@ =~= orig.subrange(k, orig.len() as int),
            out@ == scan_spec(orig.subrange(0, k)),
        decreases entries.len(),
    {
        let e = entries.remove(0);
        proof {
            assert(e == orig[k]);
            assert(entries@ =~= orig.subrange(k + 1, orig.len() as int));
            let p = orig.subrange(0, k);
            let q = orig.subrange(0, k + 1);
            assert(q.drop_last() =~= p);
            assert(q.last() == orig[k]);
        }
        match e.install_info {
            Some(info) => {
                if e.state_flags & ITEM_STATE_INSTALLED != 0 {
                    out.push(
                        LocalWorkshopItem {
                            id: e.id,
                            path: info.folder,
                            size_on_disk: info.size_on_disk,
                        },
                    );
                }
            },
            None => {},
        }
        proof {
            k = k + 1;
        }
    }
    proof {
        assert(orig.subrange(0, k) =~= orig);
    }
    out
}

/// Every item the scanner returns stems from a subscribed entry that carried
/// the installed flag: an id whose install state lacks the flag is excluded.
pub proof fn lemma_scan_only_installed(entries: Seq<SubscribedEntry>, j: int)
    requires
        0 <= j < scan_spec(entries).len(),
    ensures
        exists|k: int|
            0 <= k < entries.len() && (#[trigger] entries[k]).id == scan_spec(entries)[j].id
                && is_installed(entries[k].state_flags),
    decreases entries.len(),
{
    let rest = scan_spec(entries.drop_last());
    if j < rest.len() {
        lemma_scan_only_installed(entries.drop_last(), j);
        let k = choose|k: int|
            0 <= k < entries.drop_last().len() && (#[trigger] entries.drop_last()[k]).id
                == rest[j].id && is_installed(entries.drop_last()[k].state_flags);
        assert(entries[k] == entries.drop_last()[k]);
        assert(scan_spec(entries)[j] == rest[j]);
    } else {
        let k = entries.len() - 1;
        assert(entries[k] == entries.last());
        assert(scan_spec(entries)[j].id == entries.last().id);
        assert(is_installed(entries.last().state_flags));
    }
}

} // verus!
