//! Install-path manifest extraction. A platform library keeps one manifest
//! text file per installed application, written as `key "value"` pairs; the
//! locator reads the file and needs the value of the `installdir` key. The
//! extraction is the leftmost occurrence of the key — bare or with a closing
//! quote of its own — followed by whitespace and a quoted value that contains
//! no newline and no quote. Locating the file and checking that the resolved
//! directory exists is filesystem work and stays with the host glue.
use vstd::prelude::*;

verus! {

/// True of the whitespace bytes: space, tab, newline, carriage return,
/// vertical tab and form feed.
pub open spec fn is_space(b: u8) -> bool {
    b == 32 || b == 9 || b == 10 || b == 13 || b == 11 || b == 12
}

/// The bytes of the key `installdir`.
pub open spec fn key_seq() -> Seq<u8> {
    seq![105u8, 110u8, 115u8, 116u8, 97u8, 108u8, 108u8, 100u8, 105u8, 114u8]
}

/// The first index at or after `j` holding a byte that is not whitespace, or
/// the end of `s`.
pub open spec fn skip_spaces(s: Seq<u8>, j: int) -> int
    decreases s.len() - j,
{
    if j < s.len() && is_space(s[j]) {
        skip_spaces(s, j + 1)
    } else {
        j
    }
}

/// The first index at or after `p` holding a quote, or the first index past
/// the positions searched when there is none.
pub open spec fn find_quote(s: Seq<u8>, p: int) -> int
    decreases s.len() - p,
{
    if p >= s.len() {
        p
    } else if s[p] == 34 {
        p
    } else {
        find_quote(s, p + 1)
    }
}

/// True when no byte of `s` in `[from, to)` is a newline.
pub open spec fn no_newline(s: Seq<u8>, from: int, to: int) -> bool {
    forall|m: int| from <= m < to ==> s[m] != 10
}

/// The quoted value starting at `p` (the first byte after the opening
/// quote): everything up to the next quote, provided that quote exists and
/// no newline comes first. The value is never empty — a quote at `p` itself
/// closes nothing; the search for the closing quote starts at `p + 1`.
pub open spec fn value_at(s: Seq<u8>, p: int) -> Option<Seq<u8>> {
    let q = find_quote(s, p + 1);
    if q < s.len() && no_newline(s, p, q) {
        Some(s.subrange(p, q))
    } else {
        None
    }
}

/// Where the whitespace before the value begins when the key at `i` carries a
/// closing quote of its own, and where it begins when it does not.
pub open spec fn after_key(s: Seq<u8>, i: int) -> int {
    if i + 10 < s.len() && s[i + 10] == 34 {
        i + 11
    } else {
        i + 10
    }
}

/// The value captured by a key occurrence starting at `i`: the key bytes,
/// then optionally the key's closing quote, then at least one whitespace
/// byte, then the quoted value.
pub open spec fn match_at(s: Seq<u8>, i: int) -> Option<Seq<u8>> {
    if 0 <= i && i + 10 <= s.len() && s.subrange(i, i + 10) == key_seq() {
        let j = after_key(s, i);
        if j < s.len() && is_space(s[j]) {
            let w = skip_spaces(s, j);
            if w < s.len() && s[w] == 34 {
                value_at(s, w + 1)
            } else {
                None
            }
        } else {
            None
        }
    } else {
        None
    }
}

/// The value of the leftmost occurrence that captures one, searching from
/// `i` on.
pub open spec fn search_from(s: Seq<u8>, i: int) -> Option<Seq<u8>>
    decreases s.len() - i,
{
    if i + 10 > s.len() {
        None
    } else if match_at(s, i) is Some {
        match_at(s, i)
    } else {
        search_from(s, i + 1)
    }
}

/// What `extract_install_dir` returns: the value of the leftmost `installdir`
/// entry of the manifest, if the manifest holds one.
pub open spec fn extract_spec(s: Seq<u8>) -> Option<Seq<u8>> {
    search_from(s, 0)
}

/// Runtime test for `is_space`.
fn is_space_byte(b: u8) -> (r: bool)
    ensures
        r == is_space(b),
{
    b == 32 || b == 9 || b == 10 || b == 13 || b == 11 || b == 12
}

/// Whether the ten bytes at `i` spell the key `installdir`.
fn is_key_at(s: &[u8], i: usize) -> (b: bool)
    requires
        i + 10 <= s@.len(),
    ensures
        b == (s@.subrange(i as int, i as int + 10) == key_seq()),
{
    let b = s[i] == 105 && s[i + 1] == 110 && s[i + 2] == 115 && s[i + 3] == 116 && s[i + 4] == 97
        && s[i + 5] == 108 && s[i + 6] == 108 && s[i + 7] == 100 && s[i + 8] == 105 && s[i + 9]
        == 114;
    proof {
        let sub = s@.subrange(i as int, i as int + 10);
        assert(key_seq()[0] == 105 && key_seq()[1] == 110 && key_seq()[2] == 115 && key_seq()[3]
            == 116 && key_seq()[4] == 97 && key_seq()[5] == 108 && key_seq()[6] == 108
            && key_seq()[7] == 100 && key_seq()[8] == 105 && key_seq()[9] == 114);
        if b {
            assert(sub =~= key_seq());
        } else {
            if sub == key_seq() {
                assert(sub[0] == 105 && sub[1] == 110 && sub[2] == 115 && sub[3] == 116 && sub[4]
                    == 97 && sub[5] == 108 && sub[6] == 108 && sub[7] == 100 && sub[8] == 105
                    && sub[9] == 114);
                assert(false);
            }
        }
    }
    b
}

/// Runtime counterpart of `skip_spaces`.
fn skip_spaces_exec(s: &[u8], j: usize) -> (w: usize)
    requires
        j <= s@.len(),
    ensures
        w == skip_spaces(s@, j as int),
        j <= w <= s@.len(),
{
    let mut w = j;
    while w < s.len() && is_space_byte(s[w])
        invariant
            j <= w <= s@.len(),
            skip_spaces(s@, j as int) == skip_spaces(s@, w as int),
        decreases s@.len() - w,
    {
        w = w + 1;
    }
    w
}

/// Runtime counterpart of `find_quote`.
fn find_quote_exec(s: &[u8], p: usize) -> (q: usize)
    requires
        p <= s@.len(),
    ensures
        q == find_quote(s@, p as int),
        p <= q <= s@.len(),
{
    let mut q = p;
    while q < s.len() && s[q] != 34
        invariant
            p <= q <= s@.len(),
            find_quote(s@, p as int) == find_quote(s@, q as int),
        decreases s@.len() - q,
    {
        q = q + 1;
    }
    q
}

/// Runtime counterpart of `no_newline` over `[from, to)`.
fn no_newline_exec(s: &[u8], from: usize, to: usize) -> (r: bool)
    requires
        from <= to <= s@.len(),
    ensures
        r == no_newline(s@, from as int, to as int),
{
    let mut m = from;
    while m < to
        invariant
            from <= m <= to,
            to <= s@.len(),
            forall|x: int| from <= x < m ==> s@[x] != 10,
        decreases to - m,
    {
        if s[m] == 10 {
            return false;
        }
        m = m + 1;
    }
    true
}

/// Tries the key occurrence at `i`; on a full match returns the value's byte
/// range within `s`.
fn try_match_at(s: &[u8], i: usize) -> (r: Option<(usize, usize)>)
    requires
        i + 10 <= s@.len(),
    ensures
        (match r {
            Some(pq) => {
                &&& match_at(s@, i as int) == Some(s@.subrange(pq.0 as int, pq.1 as int))
                &&& pq.0 <= pq.1 <= s@.len()
            },
            None => match_at(s@, i as int) is None,
        }),
{
    if !is_key_at(s, i) {
        return None;
    }
    let j: usize = if s.len() - i > 10 && s[i + 10] == 34 {
        i + 11
    } else {
        i + 10
    };
    proof {
        assert(j == after_key(s@, i as int));
    }
    if !(j < s.len()) {
        return None;
    }
    if !is_space_byte(s[j]) {
        return None;
    }
    let w = skip_spaces_exec(s, j);
    if !(w < s.len()) {
        return None;
    }
    if s[w] != 34 {
        return None;
    }
    let p = w + 1;
    if !(p < s.len()) {
        return None;
    }
    let q = find_quote_exec(s, p + 1);
    if !(q < s.len()) {
        return None;
    }
    if !no_newline_exec(s, p, q) {
        return None;
    }
    Some((p, q))
}

/// Extracts the `installdir` value from manifest content: the leftmost key
/// occurrence followed by whitespace and a quoted, newline-free value. This
/// is the compute half of the install-path locator; the caller joins the
/// value onto the library's `common` directory and checks that it exists.
pub fn extract_install_dir(content: &[u8]) -> (r: Option<Vec<u8>>)
    ensures
        (match r {
            Some(v) => extract_spec(content@) == Some(v@),
            None => extract_spec(content@) is None,
        }),
{
    let mut i: usize = 0;
    while content.len() - i >= 10
        invariant
            i <= content@.len(),
            search_from(content@, 0) == search_from(content@, i as int),
        decreases content@.len() - i,
    {
        match try_match_at(content, i) {
            Some(pq) => {
                let (p, q) = pq;
                let mut v: Vec<u8> = Vec::new();
                let mut m = p;
                while m < q
                    invariant
                        p <= m <= q,
                        q <= content@.len(),
                        v@ == content@.subrange(p as int, m as int),
                    decreases q - m,
                {
                    proof {
                        assert(content@.subrange(p as int, m + 1) =~= content@.subrange(
                            p as int,
                            m as int,
                        ).push(content@[m as int]));
                    }
                    v.push(content[m]);
                    m = m + 1;
                }
                return Some(v);
            },
            None => {
                i = i + 1;
            },
        }
    }
    None
}

} // verus!
