use vstd::prelude::*;
use vstd::string::*;
use vstd::utf8::*;

use crate::error::Error;
use crate::text::{nat_text, push_str, write_u64};

verus! {

broadcast use vstd::string::group_string_axioms;

// The PlayTools wire protocol: after a 4-byte hello answered by "OKAY", every request
// is a big-endian u16 length followed by that many payload bytes.
/// A touch phase as PlayTools numbers it.
#[derive(Clone, Copy, PartialEq, Eq, Structural)]
pub enum TouchPhase {
    Began,
    Moved,
    Ended,
}

/// The wire code of a phase.
pub open spec fn phase_code(p: TouchPhase) -> u8 {
    match p {
        TouchPhase::Began => 0,
        TouchPhase::Moved => 1,
        TouchPhase::Ended => 3,
    }
}

impl TouchPhase {
    /// The phase's wire code: 0, 1 or 3.
    pub fn code(&self) -> (r: u8)
        ensures
            r == phase_code(*self),
    {
        match self {
            TouchPhase::Began => 0,
            TouchPhase::Moved => 1,
            TouchPhase::Ended => 3,
        }
    }

    /// The phase with this wire code, if any.
    pub fn from_code(c: u8) -> (r: Option<TouchPhase>)
        ensures
            match r {
                Some(p) => phase_code(p) == c,
                None => c != 0 && c != 1 && c != 3,
            },
    {
        if c == 0 {
            Some(TouchPhase::Began)
        } else if c == 1 {
            Some(TouchPhase::Moved)
        } else if c == 3 {
            Some(TouchPhase::Ended)
        } else {
            None
        }
    }
}

/// A frame in BGR byte order.
pub struct Frame {
    pub width: u32,
    pub height: u32,
    pub bgr: Vec<u8>,
}

/// The big-endian bytes of a `u16`.
pub open spec fn be16(v: u16) -> Seq<u8> {
    seq![(v / 256) as u8, (v % 256) as u8]
}

/// The value of two big-endian bytes.
pub open spec fn be16_value(b: Seq<u8>) -> int {
    b[0] * 256 + b[1]
}

/// The value of four big-endian bytes.
pub open spec fn be32_value(b: Seq<u8>) -> int {
    b[0] * 16777216 + b[1] * 65536 + b[2] * 256 + b[3]
}

/// The client's hello.
pub open spec fn hello_bytes() -> Seq<u8> {
    seq![77u8, 65u8, 65u8, 0u8]
}

/// The hello the client sends: "MAA" and a zero byte.
pub fn hello() -> (r: Vec<u8>)
    ensures
        r@ == hello_bytes(),
{
    let r: Vec<u8> = vec![77u8, 65u8, 65u8, 0u8];
    proof {
        assert(r@ =~= hello_bytes());
    }
    r
}

/// The reply that accepts the hello: "OKAY".
pub open spec fn okay_bytes() -> Seq<u8> {
    seq![79u8, 75u8, 65u8, 89u8]
}

/// Rust's debug text of a byte array: its decimal values, comma-separated, in brackets.
pub open spec fn byte_list_text(b: Seq<u8>) -> Seq<char>
    decreases b.len(),
{
    if b.len() == 0 {
        Seq::empty()
    } else if b.len() == 1 {
        nat_text(b[0] as nat)
    } else {
        byte_list_text(b.drop_last()) + ", "@ + nat_text(b.last() as nat)
    }
}

/// The message for a refused handshake.
pub open spec fn handshake_refused_text(reply: Seq<u8>) -> Seq<char> {
    "handshake refused: ["@ + byte_list_text(reply) + "]"@
}

/// Checks the server's reply to the hello.
pub fn check_handshake(reply: &[u8; 4]) -> (r: Result<(), Error>)
    ensures
        (reply@ == okay_bytes()) <==> r is Ok,
        r matches Err(e) ==> (e matches Error::PlayTools(m) && m@ == handshake_refused_text(reply@)),
{
    if reply[0] == 79 && reply[1] == 75 && reply[2] == 65 && reply[3] == 89 {
        proof {
            assert(reply@ =~= okay_bytes());
        }
        return Ok(());
    }
    proof {
        if reply@ == okay_bytes() {
            assert(reply@[0] == 79);
        }
    }
    let mut m = String::from_str("handshake refused: [");
    let mut i: usize = 0;
    while i < 4
        invariant
            i <= 4,
            m@ == "handshake refused: ["@ + byte_list_text(reply@.take(i as int)),
        decreases 4 - i,
    {
        let ghost before = m@;
        if i > 0 {
            push_str(&mut m, ", ");
        }
        write_u64(&mut m, reply[i] as u64);
        proof {
            let t = reply@.take(i + 1);
            assert(t.drop_last() =~= reply@.take(i as int));
            if i == 0 {
                assert(byte_list_text(reply@.take(0)) =~= Seq::<char>::empty());
                assert(m@ =~= "handshake refused: ["@ + byte_list_text(t));
            } else {
                assert(m@ =~= "handshake refused: ["@ + byte_list_text(t));
            }
        }
        i = i + 1;
    }
    push_str(&mut m, "]");
    proof {
        assert(reply@.take(4) =~= reply@);
    }
    Err(Error::PlayTools(m))
}

/// A request framed for the wire: the payload's length (big-endian u16), then the
/// payload; payloads longer than a u16 can count are refused.
pub fn frame_request(payload: &[u8]) -> (r: Result<Vec<u8>, Error>)
    ensures
        (payload@.len() <= 65535) <==> r is Ok,
        match r {
            Ok(b) => b@ == be16(payload@.len() as u16) + payload@,
            Err(e) => e matches Error::PlayTools(m) && m@ == "request too large"@,
        },
{
    if payload.len() > 65535 {
        return Err(Error::PlayTools(String::from_str("request too large")));
    }
    let n = payload.len() as u16;
    let mut out: Vec<u8> = Vec::new();
    out.push((n / 256) as u8);
    out.push((n % 256) as u8);
    let mut i: usize = 0;
    while i < payload.len()
        invariant
            i <= payload@.len(),
            out@ == be16(n) + payload@.take(i as int),
        decreases payload.len() - i,
    {
        out.push(payload[i]);
        proof {
            assert(payload@.take(i + 1) =~= payload@.take(i as int).push(payload@[i as int]));
            assert(out@ =~= be16(n) + payload@.take(i + 1));
        }
        i = i + 1;
    }
    proof {
        assert(payload@.take(payload@.len() as int) =~= payload@);
    }
    Ok(out)
}

/// The request names: "VERN", "SIZE", "BNDL", "SCRN" and "BGR\x01".
pub open spec fn version_request() -> Seq<u8> {
    seq![86u8, 69u8, 82u8, 78u8]
}

pub open spec fn size_request() -> Seq<u8> {
    seq![83u8, 73u8, 90u8, 69u8]
}

pub open spec fn bundle_request() -> Seq<u8> {
    seq![66u8, 78u8, 68u8, 76u8]
}

pub open spec fn rgba_capture_request() -> Seq<u8> {
    seq![83u8, 67u8, 82u8, 78u8]
}

pub open spec fn bgr_capture_request() -> Seq<u8> {
    seq![66u8, 71u8, 82u8, 1u8]
}

/// The request that asks for the protocol version.
pub fn version_payload() -> (r: Vec<u8>)
    ensures
        r@ == version_request(),
{
    let r: Vec<u8> = vec![86u8, 69u8, 82u8, 78u8];
    proof {
        assert(r@ =~= version_request());
    }
    r
}

/// The request that asks for the screen size.
pub fn size_payload() -> (r: Vec<u8>)
    ensures
        r@ == size_request(),
{
    let r: Vec<u8> = vec![83u8, 73u8, 90u8, 69u8];
    proof {
        assert(r@ =~= size_request());
    }
    r
}

/// The request that asks for the game's bundle id.
pub fn bundle_payload() -> (r: Vec<u8>)
    ensures
        r@ == bundle_request(),
{
    let r: Vec<u8> = vec![66u8, 78u8, 68u8, 76u8];
    proof {
        assert(r@ =~= bundle_request());
    }
    r
}

/// Whether a server of this version captures in BGR (version 3 on).
pub open spec fn captures_bgr(version: u32) -> bool {
    version >= 3
}

/// The capture request for a server of this version: BGR from version 3, RGBA before.
pub fn capture_payload(version: u32) -> (r: Vec<u8>)
    ensures
        r@ == if captures_bgr(version) {
            bgr_capture_request()
        } else {
            rgba_capture_request()
        },
{
    if version >= 3 {
        let r: Vec<u8> = vec![66u8, 71u8, 82u8, 1u8];
        proof {
            assert(r@ =~= bgr_capture_request());
        }
        r
    } else {
        let r: Vec<u8> = vec![83u8, 67u8, 82u8, 78u8];
        proof {
            assert(r@ =~= rgba_capture_request());
        }
        r
    }
}

/// The payload of a touch: "TUCH", the phase code, x and y (big-endian), the contact.
pub open spec fn touch_bytes(phase: TouchPhase, x: u16, y: u16, contact: u8) -> Seq<u8> {
    seq![84u8, 85u8, 67u8, 72u8, phase_code(phase)] + be16(x) + be16(y) + seq![contact]
}

/// Encodes a touch request; see `touch_bytes`.
pub fn touch_payload(phase: TouchPhase, x: u16, y: u16, contact: u8) -> (r: Vec<u8>)
    ensures
        r@ == touch_bytes(phase, x, y, contact),
{
    let mut p: Vec<u8> = Vec::new();
    p.push(84u8);
    p.push(85u8);
    p.push(67u8);
    p.push(72u8);
    p.push(phase.code());
    p.push((x / 256) as u8);
    p.push((x % 256) as u8);
    p.push((y / 256) as u8);
    p.push((y % 256) as u8);
    p.push(contact);
    proof {
        assert(p@ =~= touch_bytes(phase, x, y, contact));
    }
    p
}

/// A touch as the server reads it: phase code, x, y and contact.
pub struct TouchEvent {
    pub phase: u8,
    pub x: u16,
    pub y: u16,
    pub contact: u8,
}

/// Whether a payload is a touch request the server understands: "TUCH" and at least
/// ten bytes.
pub open spec fn is_touch(p: Seq<u8>) -> bool {
    p.len() >= 10 && p[0] == 84 && p[1] == 85 && p[2] == 67 && p[3] == 72
}

/// Decodes a touch request as the server reads it.
pub fn parse_touch(p: &[u8]) -> (r: Option<TouchEvent>)
    ensures
        match r {
            Some(t) => is_touch(p@) && t.phase == p@[4] && t.x == be16_value(p@.subrange(5, 7))
                && t.y == be16_value(p@.subrange(7, 9)) && t.contact == p@[9],
            None => !is_touch(p@),
        },
{
    if p.len() >= 10 && p[0] == 84 && p[1] == 85 && p[2] == 67 && p[3] == 72 {
        let x: u16 = (p[5] as u16) * 256 + (p[6] as u16);
        let y: u16 = (p[7] as u16) * 256 + (p[8] as u16);
        Some(TouchEvent { phase: p[4], x, y, contact: p[9] })
    } else {
        None
    }
}

/// Reading back a touch gives what was sent.
pub proof fn touch_round_trip(phase: TouchPhase, x: u16, y: u16, contact: u8)
    ensures
        ({
            let b = touch_bytes(phase, x, y, contact);
            &&& is_touch(b)
            &&& b[4] == phase_code(phase)
            &&& be16_value(b.subrange(5, 7)) == x
            &&& be16_value(b.subrange(7, 9)) == y
            &&& b[9] == contact
        }),
{
    let b = touch_bytes(phase, x, y, contact);
    assert(b.len() == 10);
    assert(b.subrange(5, 7) =~= be16(x));
    assert(b.subrange(7, 9) =~= be16(y));
}

/// A big-endian u32 reply (the version, or a length).
pub fn read_u32(b: &[u8; 4]) -> (r: u32)
    ensures
        r == be32_value(b@),
{
    proof {
        assert(b@[0] * 16777216 + b@[1] * 65536 + b@[2] * 256 + b@[3] <= 0xffff_ffff);
    }
    (b[0] as u32) * 16777216 + (b[1] as u32) * 65536 + (b[2] as u32) * 256 + (b[3] as u32)
}

/// The SIZE reply: width and height, big-endian u16 each.
pub fn read_size(b: &[u8; 4]) -> (r: (u16, u16))
    ensures
        r.0 == be16_value(b@.subrange(0, 2)),
        r.1 == be16_value(b@.subrange(2, 4)),
{
    ((b[0] as u16) * 256 + (b[1] as u16), (b[2] as u16) * 256 + (b[3] as u16))
}

/// The header of a BGR capture: width, height and byte count, big-endian u32 each.
pub fn read_bgr_header(h: &[u8; 12]) -> (r: (u32, u32, u32))
    ensures
        r.0 == be32_value(h@.subrange(0, 4)),
        r.1 == be32_value(h@.subrange(4, 8)),
        r.2 == be32_value(h@.subrange(8, 12)),
{
    let w = [h[0], h[1], h[2], h[3]];
    let hh = [h[4], h[5], h[6], h[7]];
    let n = [h[8], h[9], h[10], h[11]];
    proof {
        assert(w@ =~= h@.subrange(0, 4));
        assert(hh@ =~= h@.subrange(4, 8));
        assert(n@ =~= h@.subrange(8, 12));
    }
    (read_u32(&w), read_u32(&hh), read_u32(&n))
}

/// `String::from_utf8`: the text the bytes encode, or, when they are not UTF-8, the
/// error's display text (which is not stated).
#[verifier::external_body]
fn utf8_string(bytes: Vec<u8>) -> (r: Result<String, String>)
    ensures
        r is Ok <==> valid_utf8(bytes@),
        r matches Ok(s) ==> s@ == decode_utf8(bytes@),
{
    match String::from_utf8(bytes) {
        Ok(s) => Ok(s),
        Err(e) => Err(e.to_string()),
    }
}

/// The BNDL reply's text: the bundle id, when the bytes are UTF-8.
pub fn bundle_text(bytes: Vec<u8>) -> (r: Result<String, Error>)
    ensures
        r is Ok <==> valid_utf8(bytes@),
        r matches Ok(s) ==> s@ == decode_utf8(bytes@),
        r matches Err(e) ==> (e matches Error::PlayTools(m) && m@.take(12) == "BNDL reply: "@),
{
    match utf8_string(bytes) {
        Ok(s) => Ok(s),
        Err(e) => {
            let mut m = String::from_str("BNDL reply: ");
            m.append(e.as_str());
            proof {
                reveal_strlit("BNDL reply: ");
                assert(m@.take(12) =~= "BNDL reply: "@);
            }
            Err(Error::PlayTools(m))
        },
    }
}

/// The BGR bytes of RGBA pixels: each whole group of four becomes its blue, green and
/// red bytes; a trailing partial group is dropped.
pub open spec fn rgba_to_bgr_spec(rgba: Seq<u8>) -> Seq<u8> {
    Seq::new(
        ((rgba.len() / 4) * 3) as nat,
        |i: int| rgba[(i / 3) * 4 + (2 - i % 3)],
    )
}

/// Converts RGBA pixels to BGR; see `rgba_to_bgr_spec`.
pub fn rgba_to_bgr(rgba: &[u8]) -> (r: Vec<u8>)
    ensures
        r@ == rgba_to_bgr_spec(rgba@),
{
    let len = rgba.len();
    let n = len / 4;
    let mut out: Vec<u8> = Vec::new();
    let mut k: usize = 0;
    while k < n
        invariant
            len == rgba@.len(),
            n == rgba@.len() / 4,
            k <= n,
            out@.len() == k * 3,
            forall|i: int| 0 <= i < k * 3 ==> out@[i] == rgba@[(i / 3) * 4 + (2 - i % 3)],
        decreases n - k,
    {
        proof {
            assert(4 * k + 3 < rgba@.len()) by (nonlinear_arith)
                requires
                    k < n,
                    n == rgba@.len() / 4,
            ;
        }
        let b = k + k + k + k;
        out.push(rgba[b + 2]);
        out.push(rgba[b + 1]);
        out.push(rgba[b]);
        proof {
            assert forall|i: int| 0 <= i < (k + 1) * 3 implies out@[i] == rgba@[(i / 3) * 4 + (2 - i
                % 3)] by {
                if i >= k * 3 {
                    assert(i / 3 == k);
                }
            }
        }
        k = k + 1;
    }
    proof {
        assert(out@ =~= rgba_to_bgr_spec(rgba@));
    }
    out
}

/// The RGBA bytes of BGR pixels: each whole group of three becomes red, green, blue
/// and an opaque alpha; a trailing partial group is dropped.
pub open spec fn bgr_to_rgba_spec(bgr: Seq<u8>) -> Seq<u8> {
    Seq::new(
        ((bgr.len() / 3) * 4) as nat,
        |i: int|
            if i % 4 == 3 {
                255u8
            } else {
                bgr[(i / 4) * 3 + (2 - i % 4)]
            },
    )
}

/// Converts BGR pixels to RGBA; see `bgr_to_rgba_spec`.
pub fn bgr_to_rgba(bgr: &[u8]) -> (r: Vec<u8>)
    ensures
        r@ == bgr_to_rgba_spec(bgr@),
{
    let len = bgr.len();
    let n = len / 3;
    let mut out: Vec<u8> = Vec::new();
    let mut k: usize = 0;
    while k < n
        invariant
            len == bgr@.len(),
            n == bgr@.len() / 3,
            k <= n,
            out@.len() == k * 4,
            forall|i: int|
                0 <= i < k * 4 ==> out@[i] == if i % 4 == 3 {
                    255u8
                } else {
                    bgr@[(i / 4) * 3 + (2 - i % 4)]
                },
        decreases n - k,
    {
        proof {
            assert(3 * k + 2 < bgr@.len()) by (nonlinear_arith)
                requires
                    k < n,
                    n == bgr@.len() / 3,
            ;
        }
        let b = k + k + k;
        out.push(bgr[b + 2]);
        out.push(bgr[b + 1]);
        out.push(bgr[b]);
        out.push(255u8);
        proof {
            assert forall|i: int| 0 <= i < (k + 1) * 4 implies out@[i] == if i % 4 == 3 {
                255u8
            } else {
                bgr@[(i / 4) * 3 + (2 - i % 4)]
            } by {
                if i >= k * 4 {
                    assert(i / 4 == k);
                }
            }
        }
        k = k + 1;
    }
    proof {
        assert(out@ =~= bgr_to_rgba_spec(bgr@));
    }
    out
}

/// Converting whole BGR pixels to RGBA and back gives them again.
pub proof fn bgr_rgba_round_trip(bgr: Seq<u8>)
    requires
        bgr.len() % 3 == 0,
    ensures
        rgba_to_bgr_spec(bgr_to_rgba_spec(bgr)) == bgr,
{
    let rgba = bgr_to_rgba_spec(bgr);
    let back = rgba_to_bgr_spec(rgba);
    assert(rgba.len() == (bgr.len() / 3) * 4);
    assert(rgba.len() / 4 == bgr.len() / 3) by (nonlinear_arith)
        requires
            rgba.len() == (bgr.len() / 3) * 4,
    ;
    assert(back.len() == bgr.len());
    assert forall|i: int| 0 <= i < bgr.len() implies back[i] == bgr[i] by {
        let j = (i / 3) * 4 + (2 - i % 3);
        assert(0 <= j < rgba.len()) by (nonlinear_arith)
            requires
                0 <= i < bgr.len(),
                j == (i / 3) * 4 + (2 - i % 3),
                rgba.len() == (bgr.len() / 3) * 4,
                bgr.len() % 3 == 0,
        ;
        assert(j % 4 == 2 - i % 3 && j / 4 == i / 3) by (nonlinear_arith)
            requires
                0 <= i,
                j == (i / 3) * 4 + (2 - i % 3),
        ;
        assert((j / 4) * 3 + (2 - j % 4) == i) by (nonlinear_arith)
            requires
                0 <= i,
                j % 4 == 2 - i % 3,
                j / 4 == i / 3,
        ;
    }
    assert(back =~= bgr);
}

/// One touch of a gesture.
pub struct TouchStep {
    pub phase: TouchPhase,
    pub x: u16,
    pub y: u16,
}

/// The touches of a drag along `points`: down at the first, a move to each later one,
/// and up at the last.
pub open spec fn drag_steps(points: Seq<(u16, u16)>) -> Seq<(TouchPhase, u16, u16)>
    recommends
        points.len() > 0,
{
    Seq::new(
        points.len() + 1,
        |i: int|
            if i == 0 {
                (TouchPhase::Began, points[0].0, points[0].1)
            } else if i < points.len() {
                (TouchPhase::Moved, points[i].0, points[i].1)
            } else {
                (TouchPhase::Ended, points.last().0, points.last().1)
            },
    )
}

/// The view of a list of touches.
pub open spec fn steps_view(s: Seq<TouchStep>) -> Seq<(TouchPhase, u16, u16)> {
    Seq::new(s.len(), |i: int| (s[i].phase, s[i].x, s[i].y))
}

/// The touches of a drag; see `drag_steps`. A drag needs at least one point.
pub fn drag_plan(points: &Vec<(u16, u16)>) -> (r: Result<Vec<TouchStep>, Error>)
    ensures
        (points@.len() > 0) <==> r is Ok,
        match r {
            Ok(s) => steps_view(s@) == drag_steps(points@),
            Err(e) => e matches Error::PlayTools(m) && m@ == "drag needs at least one point"@,
        },
{
    if points.len() == 0 {
        return Err(Error::PlayTools(String::from_str("drag needs at least one point")));
    }
    let mut out: Vec<TouchStep> = Vec::new();
    out.push(TouchStep { phase: TouchPhase::Began, x: points[0].0, y: points[0].1 });
    let mut i: usize = 1;
    while i < points.len()
        invariant
            1 <= i <= points@.len(),
            out@.len() == i,
            forall|k: int| 0 <= k < i ==> steps_view(out@)[k] == drag_steps(points@)[k],
        decreases points.len() - i,
    {
        out.push(TouchStep { phase: TouchPhase::Moved, x: points[i].0, y: points[i].1 });
        proof {
            assert forall|k: int| 0 <= k < i + 1 implies steps_view(out@)[k] == drag_steps(
                points@,
            )[k] by {
                if k < i {
                    assert(steps_view(out@)[k] == steps_view(out@.drop_last())[k]);
                }
            }
        }
        i = i + 1;
    }
    let last = points[points.len() - 1];
    out.push(TouchStep { phase: TouchPhase::Ended, x: last.0, y: last.1 });
    proof {
        assert forall|k: int| 0 <= k < out@.len() implies steps_view(out@)[k] == drag_steps(
            points@,
        )[k] by {
            if k < out@.len() - 1 {
                assert(steps_view(out@)[k] == steps_view(out@.drop_last())[k]);
            }
        }
        assert(steps_view(out@) =~= drag_steps(points@));
    }
    Ok(out)
}

/// The touches of a tap: down and up at the same point.
pub fn tap_plan(x: u16, y: u16) -> (r: Vec<TouchStep>)
    ensures
        steps_view(r@) == seq![(TouchPhase::Began, x, y), (TouchPhase::Ended, x, y)],
{
    let mut out: Vec<TouchStep> = Vec::new();
    out.push(TouchStep { phase: TouchPhase::Began, x, y });
    out.push(TouchStep { phase: TouchPhase::Ended, x, y });
    proof {
        assert(steps_view(out@) =~= seq![(TouchPhase::Began, x, y), (TouchPhase::Ended, x, y)]);
    }
    out
}

} // verus!
