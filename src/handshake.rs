//! The check of the first bytes on an authenticated stream: an upgrade
//! request is a `GET <target> HTTP/1.1` request line followed by headers that
//! end in an empty line, all within a configured bound, and holding each of a
//! configured set of header lines (compared without regard to ASCII case).
//! Nothing past the empty line is read.
use vstd::prelude::*;

verus! {

/// Where an upgrade request stands after the bytes read so far.
#[derive(Clone, Copy, Debug, PartialEq, Eq, Structural)]
pub enum RequestStatus {
    /// No end of headers yet, and the bound is not reached: read more.
    Incomplete,
    /// A well-formed request whose headers end just before this offset.
    Complete(usize),
    /// Not an upgrade request, or no end of headers within the bound.
    Malformed,
}

/// Whether `b` holds the blank line `\r\n\r\n` starting at `i`.
pub open spec fn is_header_end_at(b: Seq<u8>, i: int) -> bool {
    &&& 0 <= i
    &&& i + 4 <= b.len()
    &&& b[i] == 13u8
    &&& b[i + 1] == 10u8
    &&& b[i + 2] == 13u8
    &&& b[i + 3] == 10u8
}

/// Whether a blank line ends within the first `limit` bytes of `b`.
pub open spec fn has_header_end_within(b: Seq<u8>, limit: int) -> bool {
    exists|i: int| i + 4 <= limit && #[trigger] is_header_end_at(b, i)
}

/// Whether `b` starts with the request line's method, `GET `.
pub open spec fn starts_with_get(b: Seq<u8>) -> bool {
    &&& b.len() >= 4
    &&& b[0] == 71u8
    &&& b[1] == 69u8
    &&& b[2] == 84u8
    &&& b[3] == 32u8
}

/// Whether `b` holds a line break `\r\n` starting at `i`.
pub open spec fn is_crlf_at(b: Seq<u8>, i: int) -> bool {
    0 <= i && i + 2 <= b.len() && b[i] == 13u8 && b[i + 1] == 10u8
}

/// Whether the first line break of `b` starts at `q`.
pub open spec fn is_first_crlf(b: Seq<u8>, q: int) -> bool {
    is_crlf_at(b, q) && forall|i: int| 0 <= i < q ==> !#[trigger] is_crlf_at(b, i)
}

/// Whether the first blank line of `b` starts at `p`.
pub open spec fn is_first_header_end(b: Seq<u8>, p: int) -> bool {
    is_header_end_at(b, p) && forall|i: int| 0 <= i < p ==> !#[trigger] is_header_end_at(b, i)
}

/// Whether the request line `b[0..q]` reads `GET <target> HTTP/1.1` with a
/// target of at least one byte.
pub open spec fn is_request_line(b: Seq<u8>, q: int) -> bool {
    &&& 14 <= q <= b.len()
    &&& starts_with_get(b)
    &&& b[q - 9] == 32u8
    &&& b[q - 8] == 72u8
    &&& b[q - 7] == 84u8
    &&& b[q - 6] == 84u8
    &&& b[q - 5] == 80u8
    &&& b[q - 4] == 47u8
    &&& b[q - 3] == 49u8
    &&& b[q - 2] == 46u8
    &&& b[q - 1] == 49u8
}

/// An ASCII byte in lower case.
pub open spec fn ascii_lower(c: u8) -> u8 {
    if 65u8 <= c <= 90u8 {
        (c + 32) as u8
    } else {
        c
    }
}

/// Whether `b` holds `t` at `i`, without regard to ASCII case.
pub open spec fn matches_at(b: Seq<u8>, i: int, t: Seq<u8>) -> bool {
    &&& 0 <= i
    &&& i + t.len() <= b.len()
    &&& forall|k: int| 0 <= k < t.len() ==> ascii_lower(#[trigger] b[i + k]) == ascii_lower(t[k])
}

/// Whether the header lines of `b`, which end at `n`, include `t` as a whole
/// line: preceded and followed by a line break, without regard to ASCII case.
pub open spec fn has_header_line(b: Seq<u8>, n: int, t: Seq<u8>) -> bool {
    exists|i: int|
        2 <= i && i + t.len() + 2 <= n && is_crlf_at(b, i - 2) && #[trigger] matches_at(b, i, t)
            && is_crlf_at(b, i + t.len())
}

/// The views of a list of byte strings.
pub open spec fn views(v: Seq<Vec<u8>>) -> Seq<Seq<u8>> {
    v.map_values(|x: Vec<u8>| x@)
}

/// Whether a request whose headers end at `n` has the expected shape: the
/// request line and every required header line.
pub open spec fn has_upgrade_shape(b: Seq<u8>, n: int, required: Seq<Seq<u8>>) -> bool {
    &&& forall|q: int| #[trigger] is_first_crlf(b, q) ==> is_request_line(b, q)
    &&& forall|j: int| 0 <= j < required.len() ==> has_header_line(b, n, #[trigger] required[j])
}

/// The smaller of two lengths.
pub open spec fn min_len(a: int, b: int) -> int {
    if a <= b {
        a
    } else {
        b
    }
}

fn lower(c: u8) -> (r: u8)
    ensures
        r == ascii_lower(c),
{
    if 65u8 <= c && c <= 90u8 {
        c + 32
    } else {
        c
    }
}

/// Whether `buf` holds `t` at `i`, without regard to ASCII case.
fn matches_at_exec(buf: &[u8], i: usize, t: &[u8]) -> (r: bool)
    ensures
        r == matches_at(buf@, i as int, t@),
{
    if t.len() > buf.len() || i > buf.len() - t.len() {
        return false;
    }
    let mut k: usize = 0;
    while k < t.len()
        invariant
            i + t@.len() <= buf@.len(),
            buf@.len() <= usize::MAX,
            k <= t@.len(),
            forall|m: int| 0 <= m < k ==> ascii_lower(#[trigger] buf@[i + m]) == ascii_lower(t@[m]),
        decreases t@.len() - k,
    {
        if lower(buf[i + k]) != lower(t[k]) {
            assert(ascii_lower(buf@[i + k as int]) != ascii_lower(t@[k as int]));
            return false;
        }
        k = k + 1;
    }
    true
}

/// Whether the header lines of `buf`, which end at `n`, include `t`.
fn find_header_line(buf: &[u8], n: usize, t: &[u8]) -> (r: bool)
    requires
        n <= buf@.len(),
    ensures
        r == has_header_line(buf@, n as int, t@),
{
    if n < 4 || t.len() > n - 4 {
        assert forall|i: int| 2 <= i && i + t@.len() + 2 <= n implies !#[trigger] matches_at(buf@, i, t@) by {}
        return false;
    }
    let last = n - t.len() - 2;
    let mut i: usize = 2;
    while i <= last
        invariant
            n <= buf@.len(),
            last + t@.len() + 2 == n,
            2 <= i <= last + 1,
            forall|j: int|
                2 <= j < i ==> !(is_crlf_at(buf@, j - 2) && #[trigger] matches_at(buf@, j, t@)
                    && is_crlf_at(buf@, j + t@.len())),
        decreases last + 1 - i,
    {
        let e = i + t.len();
        if buf[i - 2] == 13u8 && buf[i - 1] == 10u8 && matches_at_exec(buf, i, t) && buf[e] == 13u8
            && buf[e + 1] == 10u8 {
            assert(matches_at(buf@, i as int, t@));
            return true;
        }
        i = i + 1;
    }
    false
}

/// Classifies the bytes read so far from a stream, looking at no more than
/// `max_len` of them; `required` lists the header lines a request must hold.
pub fn check_upgrade_request(buf: &[u8], max_len: usize, required: &[Vec<u8>]) -> (r: RequestStatus)
    ensures
        ({
            let w = min_len(buf@.len() as int, max_len as int);
            let req = views(required@);
            match r {
                RequestStatus::Complete(n) => {
                    &&& 4 <= n <= w
                    &&& is_first_header_end(buf@, n - 4)
                    &&& has_upgrade_shape(buf@, n as int, req)
                },
                RequestStatus::Malformed => {
                    ||| exists|p: int|
                        p + 4 <= w && #[trigger] is_first_header_end(buf@, p) && !has_upgrade_shape(
                            buf@,
                            p + 4,
                            req,
                        )
                    ||| !has_header_end_within(buf@, w) && buf@.len() >= max_len
                },
                RequestStatus::Incomplete => {
                    &&& !has_header_end_within(buf@, w)
                    &&& buf@.len() < max_len
                },
            }
        }),
{
    let w: usize = if buf.len() <= max_len {
        buf.len()
    } else {
        max_len
    };
    let mut i: usize = 0;
    let mut found: Option<usize> = None;
    if w >= 4 {
        while i <= w - 4
            invariant_except_break
                found is None,
            invariant
                w <= buf@.len(),
                w >= 4,
                i <= w - 3,
                forall|j: int| 0 <= j < i ==> !#[trigger] is_header_end_at(buf@, j),
            ensures
                found is None ==> i == w - 3,
                found matches Some(p) ==> p == i && p + 4 <= w && is_header_end_at(buf@, p as int)
                    && forall|j: int| 0 <= j < p ==> !#[trigger] is_header_end_at(buf@, j),
            decreases w - i,
        {
            if buf[i] == 13u8 && buf[i + 1] == 10u8 && buf[i + 2] == 13u8 && buf[i + 3] == 10u8 {
                found = Some(i);
                break;
            }
            i = i + 1;
        }
    }
    match found {
        Some(p) => {
            let n = p + 4;
            if shape_holds(buf, p, required) {
                RequestStatus::Complete(n)
            } else {
                assert(is_first_header_end(buf@, p as int));
                RequestStatus::Malformed
            }
        },
        None => {
            assert(!has_header_end_within(buf@, w as int)) by {
                assert forall|j: int| j + 4 <= w implies !#[trigger] is_header_end_at(buf@, j) by {
                    if w >= 4 && 0 <= j {
                        assert(j < i);
                    }
                }
            }
            if buf.len() >= max_len {
                RequestStatus::Malformed
            } else {
                RequestStatus::Incomplete
            }
        },
    }
}

/// Whether a request whose first blank line starts at `p` has the expected
/// shape.
fn shape_holds(buf: &[u8], p: usize, required: &[Vec<u8>]) -> (r: bool)
    requires
        is_header_end_at(buf@, p as int),
    ensures
        r == has_upgrade_shape(buf@, p + 4, views(required@)),
{
    let ghost req = views(required@);
    let mut q: usize = 0;
    while !(buf[q] == 13u8 && buf[q + 1] == 10u8)
        invariant
            is_header_end_at(buf@, p as int),
            q <= p,
            forall|j: int| 0 <= j < q ==> !#[trigger] is_crlf_at(buf@, j),
        decreases p - q,
    {
        assert(q != p);
        q = q + 1;
    }
    assert(is_first_crlf(buf@, q as int));
    assert forall|q2: int| #[trigger] is_first_crlf(buf@, q2) implies q2 == q by {
        if q2 < q {
            assert(!is_crlf_at(buf@, q2));
        }
        if q < q2 {
            assert(!is_crlf_at(buf@, q as int));
        }
    }
    let line_ok = q >= 14 && buf[0] == 71u8 && buf[1] == 69u8 && buf[2] == 84u8 && buf[3] == 32u8
        && buf[q - 9] == 32u8 && buf[q - 8] == 72u8 && buf[q - 7] == 84u8 && buf[q - 6] == 84u8
        && buf[q - 5] == 80u8 && buf[q - 4] == 47u8 && buf[q - 3] == 49u8 && buf[q - 2] == 46u8
        && buf[q - 1] == 49u8;
    if !line_ok {
        assert(!is_request_line(buf@, q as int));
        return false;
    }
    let n = p + 4;
    let mut j: usize = 0;
    while j < required.len()
        invariant
            n == p + 4,
            n <= buf@.len(),
            req == views(required@),
            j <= required@.len(),
            forall|m: int| 0 <= m < j ==> has_header_line(buf@, n as int, #[trigger] req[m]),
        decreases required@.len() - j,
    {
        if !find_header_line(buf, n, required[j].as_slice()) {
            assert(req[j as int] == required@[j as int]@);
            return false;
        }
        assert(req[j as int] == required@[j as int]@);
        j = j + 1;
    }
    true
}

} // verus!
