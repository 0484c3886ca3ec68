use vstd::prelude::*;
use crate::args::chars_of;

verus! {

/// `s=` stands at position `i` of `q`.
pub open spec fn marker_at(q: Seq<char>, i: int) -> bool {
    0 <= i && i + 1 < q.len() && q[i] == 's' && q[i + 1] == '='
}

/// The first position at or after `from` where `s=` stands, or the length of
/// `q` where it stands nowhere there.
pub open spec fn find_marker(q: Seq<char>, from: int) -> int
    decreases q.len() - from,
{
    if from < 0 || from + 1 >= q.len() {
        q.len() as int
    } else if marker_at(q, from) {
        from
    } else {
        find_marker(q, from + 1)
    }
}

/// The checkpoint id that a visit's query carries: the text between the first
/// `s=` and the next one (or the end); empty where there is no `s=`.
pub open spec fn stamp_query_value(q: Seq<char>) -> Seq<char> {
    let i = find_marker(q, 0);
    if i >= q.len() {
        Seq::empty()
    } else {
        q.subrange(i + 2, find_marker(q, i + 2))
    }
}

/// Relies on `String::push`: appends one character.
#[verifier::external_body]
pub(crate) fn push_char(s: &mut String, c: char)
    ensures
        final(s)@ == old(s)@.push(c),
{
    s.push(c);
}

fn scan_marker(q: &Vec<char>, from: usize) -> (r: usize)
    requires
        from <= q@.len(),
    ensures
        r as int == find_marker(q@, from as int),
        from <= r <= q@.len(),
        r < q@.len() ==> r + 2 <= q@.len(),
{
    let mut i: usize = from;
    while q.len() > 0 && i < q.len() - 1
        invariant
            from <= i <= q@.len(),
            find_marker(q@, i as int) == find_marker(q@, from as int),
        decreases q@.len() - i,
    {
        if q[i] == 's' && q[i + 1] == '=' {
            return i;
        }
        i = i + 1;
    }
    i = q.len();
    i
}

/// Takes the checkpoint id out of the query of a visit.
pub fn stamp_id_from_query(query: &String) -> (r: String)
    ensures
        r@ == stamp_query_value(query@),
{
    let q = chars_of(query);
    let start = scan_marker(&q, 0);
    let mut out = String::new();
    if start >= q.len() {
        return out;
    }
    let end = scan_marker(&q, start + 2);
    let mut i: usize = start + 2;
    while i < end
        invariant
            start + 2 <= i <= end <= q@.len(),
            out@ == q@.subrange(start + 2, i as int),
        decreases end - i,
    {
        push_char(&mut out, q[i]);
        i = i + 1;
        assert(out@ =~= q@.subrange(start + 2, i as int));
    }
    out
}

} // verus!
