use vstd::prelude::*;

verus! {

/// The marker that opens the generated region of a document: `<!-- timings -->`.
pub open spec fn start_marker() -> Seq<u8> {
    seq![60u8, 33, 45, 45, 32, 116, 105, 109, 105, 110, 103, 115, 32, 45, 45, 62]
}

/// The marker that closes the generated region of a document: `<!-- /timings -->`.
pub open spec fn end_marker() -> Seq<u8> {
    seq![60u8, 33, 45, 45, 32, 47, 116, 105, 109, 105, 110, 103, 115, 32, 45, 45, 62]
}

fn start_marker_bytes() -> (r: Vec<u8>)
    ensures
        r@ == start_marker(),
{
    let r = vec![60u8, 33, 45, 45, 32, 116, 105, 109, 105, 110, 103, 115, 32, 45, 45, 62];
    assert(r@ =~= start_marker());
    r
}

fn end_marker_bytes() -> (r: Vec<u8>)
    ensures
        r@ == end_marker(),
{
    let r = vec![60u8, 33, 45, 45, 32, 47, 116, 105, 109, 105, 110, 103, 115, 32, 45, 45, 62];
    assert(r@ =~= end_marker());
    r
}

/// Whether `m` occurs in `s` at position `k`.
pub open spec fn occurs_at(s: Seq<u8>, m: Seq<u8>, k: int) -> bool {
    0 <= k && k + m.len() <= s.len() && s.subrange(k, k + m.len()) == m
}

/// Whether `k` is the first position at which `m` occurs in `s`.
pub open spec fn first_at(s: Seq<u8>, m: Seq<u8>, k: int) -> bool {
    occurs_at(s, m, k) && forall|j: int| 0 <= j < k ==> !#[trigger] occurs_at(s, m, j)
}

/// Whether `k` is the last position at which `m` occurs in `s`.
pub open spec fn last_at(s: Seq<u8>, m: Seq<u8>, k: int) -> bool {
    occurs_at(s, m, k) && forall|j: int| k < j ==> !#[trigger] occurs_at(s, m, j)
}

/// `doc` with the text between its first start marker and its last end
/// marker replaced by `text`; `None` where the markers are missing or the last
/// end marker does not follow the first start marker.
pub open spec fn merged(text: Seq<u8>, doc: Seq<u8>) -> Option<Seq<u8>> {
    if (exists|i: int| first_at(doc, start_marker(), i)) && (exists|j: int| last_at(doc, end_marker(), j)) {
        let i = choose|i: int| first_at(doc, start_marker(), i);
        let j = choose|j: int| last_at(doc, end_marker(), j);
        if j >= i + start_marker().len() {
            Some(doc.subrange(0, i + start_marker().len()) + text + doc.subrange(j, doc.len() as int))
        } else {
            None
        }
    } else {
        None
    }
}

/// Why a document could not take the generated text.
#[derive(Debug, Clone, Copy, PartialEq, Eq, Structural)]
pub enum MergeError {
    /// The start marker, or an end marker after it, is missing.
    MergeTargetInvalid,
}

fn occurs_at_exec(s: &[u8], m: &Vec<u8>, k: usize) -> (r: bool)
    requires
        k + m@.len() <= s@.len(),
    ensures
        r == occurs_at(s@, m@, k as int),
{
    let n = s.len();
    let mut t: usize = 0;
    while t < m.len()
        invariant
            n == s@.len(),
            k + m@.len() <= s@.len(),
            t <= m@.len(),
            forall|u: int| 0 <= u < t ==> s@[k + u] == m@[u],
        decreases m@.len() - t,
    {
        if s[k + t] != m[t] {
            assert(s@.subrange(k as int, k + m@.len())[t as int] != m@[t as int]);
            return false;
        }
        t = t + 1;
    }
    assert(s@.subrange(k as int, k + m@.len()) =~= m@);
    true
}

fn find_first(s: &[u8], m: &Vec<u8>) -> (r: Option<usize>)
    ensures
        r matches Some(k) ==> first_at(s@, m@, k as int),
        r is None ==> forall|k: int| !#[trigger] occurs_at(s@, m@, k),
{
    if m.len() > s.len() {
        return None;
    }
    let last = s.len() - m.len();
    let mut k: usize = 0;
    loop
        invariant
            last == s@.len() - m@.len(),
            k <= last,
            forall|j: int| 0 <= j < k ==> !#[trigger] occurs_at(s@, m@, j),
        decreases last - k,
    {
        if occurs_at_exec(s, m, k) {
            return Some(k);
        }
        if k == last {
            return None;
        }
        k = k + 1;
    }
}

fn find_last(s: &[u8], m: &Vec<u8>) -> (r: Option<usize>)
    ensures
        r matches Some(k) ==> last_at(s@, m@, k as int),
        r is None ==> forall|k: int| !#[trigger] occurs_at(s@, m@, k),
{
    if m.len() > s.len() {
        return None;
    }
    let mut k: usize = s.len() - m.len();
    loop
        invariant
            k <= s@.len() - m@.len(),
            forall|j: int| k < j ==> !#[trigger] occurs_at(s@, m@, j),
        decreases k,
    {
        if occurs_at_exec(s, m, k) {
            return Some(k);
        }
        if k == 0 {
            return None;
        }
        k = k - 1;
    }
}

fn extend_from(out: &mut Vec<u8>, s: &[u8], from: usize, to: usize)
    requires
        from <= to <= s@.len(),
    ensures
        final(out)@ == old(out)@ + s@.subrange(from as int, to as int),
{
    let mut t: usize = from;
    while t < to
        invariant
            from <= t <= to <= s@.len(),
            out@ == old(out)@ + s@.subrange(from as int, t as int),
        decreases to - t,
    {
        out.push(s[t]);
        t = t + 1;
        assert(out@ =~= old(out)@ + s@.subrange(from as int, t as int));
    }
}

/// Replaces the text strictly between the first start marker of `doc` and
/// its last end marker with `text`, leaving every byte outside unchanged.
/// Fails, changing nothing, where the markers are missing.
pub fn merge(text: &[u8], doc: &[u8]) -> (r: Result<Vec<u8>, MergeError>)
    ensures
        merged(text@, doc@) matches Some(out) ==> r == Ok::<Vec<u8>, MergeError>(r->Ok_0) && r->Ok_0@ == out,
        merged(text@, doc@) is None ==> r == Err::<Vec<u8>, MergeError>(MergeError::MergeTargetInvalid),
{
    let n = doc.len();
    let start = start_marker_bytes();
    let end = end_marker_bytes();
    let i = match find_first(doc, &start) {
        Some(i) => i,
        None => {
            return Err(MergeError::MergeTargetInvalid);
        },
    };
    let j = match find_last(doc, &end) {
        Some(j) => j,
        None => {
            return Err(MergeError::MergeTargetInvalid);
        },
    };
    proof {
        let ci = choose|ci: int| first_at(doc@, start_marker(), ci);
        let cj = choose|cj: int| last_at(doc@, end_marker(), cj);
        if ci < i {
            assert(!occurs_at(doc@, start_marker(), ci));
        }
        if i < ci {
            assert(!occurs_at(doc@, start_marker(), i as int));
        }
        if cj < j {
            assert(!occurs_at(doc@, end_marker(), j as int));
        }
        if j < cj {
            assert(!occurs_at(doc@, end_marker(), cj));
        }
    }
    if j < i + start.len() {
        return Err(MergeError::MergeTargetInvalid);
    }
    let mut out: Vec<u8> = Vec::new();
    extend_from(&mut out, doc, 0, i + start.len());
    extend_from(&mut out, text, 0, text.len());
    extend_from(&mut out, doc, j, doc.len());
    proof {
        assert(text@.subrange(0, text@.len() as int) =~= text@);
        assert(out@ =~= merged(text@, doc@)->Some_0);
    }
    Ok(out)
}

/// The first occurrence of a marker is unique.
proof fn lemma_first_unique(s: Seq<u8>, m: Seq<u8>, a: int, b: int)
    requires
        first_at(s, m, a),
        first_at(s, m, b),
    ensures
        a == b,
{
    if a < b {
        assert(!occurs_at(s, m, a));
    }
    if b < a {
        assert(!occurs_at(s, m, b));
    }
}

/// The last occurrence of a marker is unique.
proof fn lemma_last_unique(s: Seq<u8>, m: Seq<u8>, a: int, b: int)
    requires
        last_at(s, m, a),
        last_at(s, m, b),
    ensures
        a == b,
{
    if a < b {
        assert(!occurs_at(s, m, b));
    }
    if b < a {
        assert(!occurs_at(s, m, a));
    }
}

/// Merging leaves everything up to and including the first start marker,
/// and everything from the last end marker on, byte for byte as it was,
/// whatever surrounds the markers; between them stands exactly `text`.
pub proof fn lemma_merge_preserves_outside(text: Seq<u8>, doc: Seq<u8>)
    requires
        merged(text, doc) is Some,
    ensures
        exists|i: int, j: int|
            #[trigger] first_at(doc, start_marker(), i) && #[trigger] last_at(doc, end_marker(), j)
                && i + start_marker().len() <= j && {
                let out = merged(text, doc)->Some_0;
                let head = i + start_marker().len();
                let body_end = head + text.len();
                &&& out.len() == head + text.len() + (doc.len() - j)
                &&& out.subrange(0, head) == doc.subrange(0, head)
                &&& out.subrange(head, body_end) == text
                &&& out.subrange(body_end, out.len() as int) == doc.subrange(j, doc.len() as int)
            },
{
    let i = choose|i: int| first_at(doc, start_marker(), i);
    let j = choose|j: int| last_at(doc, end_marker(), j);
    let out = merged(text, doc)->Some_0;
    let head = i + start_marker().len();
    let body_end = head + text.len();
    assert(out.subrange(0, head) =~= doc.subrange(0, head));
    assert(out.subrange(head, body_end) =~= text);
    assert(out.subrange(body_end, out.len() as int) =~= doc.subrange(j, doc.len() as int));
}

/// Merging the same text twice gives what merging it once gave.
pub proof fn lemma_merge_idempotent(text: Seq<u8>, doc: Seq<u8>)
    requires
        merged(text, doc) is Some,
    ensures
        merged(text, merged(text, doc)->Some_0) == merged(text, doc),
{
    let sm = start_marker();
    let em = end_marker();
    let i = choose|i: int| first_at(doc, sm, i);
    let j = choose|j: int| last_at(doc, em, j);
    let out = merged(text, doc)->Some_0;
    let head = i + sm.len();
    let j2 = head + text.len();
    assert(out.len() == j2 + (doc.len() - j));
    // the first start marker stays where it was
    assert forall|k: int| 0 <= k <= i implies #[trigger] occurs_at(out, sm, k) == occurs_at(doc, sm, k) by {
        assert(out.subrange(k, k + sm.len()) =~= doc.subrange(k, k + sm.len()));
    }
    assert(first_at(out, sm, i));
    // the last end marker moves to just after the text
    assert forall|k: int| k >= j2 implies #[trigger] occurs_at(out, em, k) == occurs_at(doc, em, k - j2 + j) by {
        if k + em.len() <= out.len() {
            assert(out.subrange(k, k + em.len()) =~= doc.subrange(k - j2 + j, k - j2 + j + em.len()));
        }
    }
    assert(occurs_at(out, em, j2) == occurs_at(doc, em, j));
    assert forall|k: int| j2 < k implies !#[trigger] occurs_at(out, em, k) by {
        assert(occurs_at(out, em, k) == occurs_at(doc, em, k - j2 + j));
        assert(!occurs_at(doc, em, k - j2 + j));
    }
    assert(last_at(out, em, j2));
    let i2 = choose|i2: int| first_at(out, sm, i2);
    let j3 = choose|j3: int| last_at(out, em, j3);
    lemma_first_unique(out, sm, i, i2);
    lemma_last_unique(out, em, j2, j3);
    assert(out.subrange(0, head) + text + out.subrange(j2, out.len() as int) =~= out);
}

} // verus!
